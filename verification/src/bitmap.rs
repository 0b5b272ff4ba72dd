//! In-memory RGBA bitmaps: decoding through the image crate, exact
//! nearest-neighbour resizing, and compositing down to opaque RGB buffers.

use crate::color::{blend_channel, blend_one, Rgb};
use vstd::arithmetic::div_mod::{lemma_fundamental_div_mod_converse, lemma_multiply_divide_lt};
use vstd::prelude::*;

verus! {

/// Why a byte buffer or file could not be decoded into a bitmap.
#[derive(PartialEq, Eq, Structural, Clone, Copy, Debug)]
pub enum DecodeError {
    /// The bytes or the file do not hold a decodable image.
    Invalid,
}

/// A decoded bitmap: `width * height` pixels, row-major, four bytes per
/// pixel in R, G, B, A order.
#[derive(Debug)]
pub struct RgbaBitmap {
    pub width: u32,
    pub height: u32,
    pub data: Vec<u8>,
}

impl RgbaBitmap {
    /// The buffer holds exactly four bytes for every pixel.
    pub open spec fn wf(&self) -> bool {
        self.data@.len() == 4 * (self.width as int) * (self.height as int)
    }
}

/// What decoding a byte buffer as an image and converting it to RGBA
/// yields: the pixel dimensions and the raw four-byte-per-pixel contents,
/// or nothing when the bytes are not a decodable image. The outcome is a
/// function of the bytes alone.
pub uninterp spec fn decoded_rgba_of(bytes: Seq<u8>) -> Option<(nat, nat, Seq<u8>)>;

/// Relies on `image::load_from_memory` and `DynamicImage::into_rgba8`:
/// decodes an encoded image (PNG among other formats) into an RGBA bitmap
/// whose buffer holds exactly `width * height` four-byte pixels.
#[verifier::external_body]
pub fn decode_rgba(bytes: &Vec<u8>) -> (out: Result<RgbaBitmap, DecodeError>)
    ensures
        match out {
            Ok(b) => b.wf() && decoded_rgba_of(bytes@) == Some(
                (b.width as nat, b.height as nat, b.data@),
            ),
            Err(e) => decoded_rgba_of(bytes@) is None && e == DecodeError::Invalid,
        },
{
    match image::load_from_memory(bytes) {
        Ok(img) => {
            let rgba = img.into_rgba8();
            let width = rgba.width();
            let height = rgba.height();
            Ok(RgbaBitmap { width, height, data: rgba.into_raw() })
        },
        Err(_) => Err(DecodeError::Invalid),
    }
}

/// Relies on `image::open` and `DynamicImage::into_rgba8`: reads and
/// decodes the file at `path`. Whether it succeeds depends on the disk,
/// so only the shape of a successful result is assumed: the buffer holds
/// exactly `width * height` four-byte pixels.
#[verifier::external_body]
pub fn open_rgba(path: &String) -> (out: Result<RgbaBitmap, DecodeError>)
    ensures
        match out {
            Ok(b) => b.wf(),
            Err(e) => e == DecodeError::Invalid,
        },
{
    match image::open(path.as_str()) {
        Ok(img) => {
            let rgba = img.into_rgba8();
            let width = rgba.width();
            let height = rgba.height();
            Ok(RgbaBitmap { width, height, data: rgba.into_raw() })
        },
        Err(_) => Err(DecodeError::Invalid),
    }
}

/// A source buffer of `sw` by `sh` pixels resampled to `tw` by `th`
/// pixels with nearest-neighbour sampling: destination pixel `(x, y)`
/// copies source pixel `(x * sw / tw, y * sh / th)` unchanged, channel by
/// channel.
pub open spec fn resize_spec(sw: int, sh: int, data: Seq<u8>, tw: int, th: int) -> Seq<u8> {
    Seq::new(
        (4 * tw * th) as nat,
        |k: int|
            {
                let p = k / 4;
                let c = k % 4;
                let x = p % tw;
                let y = p / tw;
                let sx = x * sw / tw;
                let sy = y * sh / th;
                data[4 * (sy * sw + sx) + c]
            },
    )
}

/// [`resize_spec`] applied to a bitmap's own fields.
pub open spec fn resized_of(src: RgbaBitmap, tw: u32, th: u32) -> Seq<u8> {
    resize_spec(src.width as int, src.height as int, src.data@, tw as int, th as int)
}

/// Places one destination byte inside [`resize_spec`]: the byte of channel
/// `c` of destination pixel `(x, y)` sits at index `4*(y*tw + x) + c` and
/// copies the matching source byte.
proof fn lemma_resize_index(src: RgbaBitmap, tw: u32, th: u32, x: int, y: int, c: int)
    requires
        1 <= tw,
        1 <= th,
        0 <= x < tw,
        0 <= y < th,
        0 <= c < 4,
    ensures
        0 <= 4 * (y * (tw as int) + x) + c < 4 * (tw as int) * (th as int),
        resized_of(src, tw, th)[4 * (y * (tw as int) + x) + c] == src.data@[4 * ((y * (
        src.height as int) / (th as int)) * (src.width as int) + (x * (src.width as int) / (
        tw as int))) + c],
{
    let p = y * (tw as int) + x;
    let k = 4 * p + c;
    assert(0 <= y * (tw as int) + x && 4 * (y * (tw as int) + x) + c < 4 * (tw as int) * (
    th as int)) by (nonlinear_arith)
        requires
            0 <= x < tw,
            0 <= y < th,
            0 <= c < 4,
    ;
    lemma_fundamental_div_mod_converse(k, 4, p, c);
    lemma_fundamental_div_mod_converse(p, tw as int, y, x);
}

/// Resamples `src` to `tw` by `th` pixels with nearest-neighbour sampling:
/// no interpolation, every destination pixel is a source pixel copied
/// unchanged, as [`resize_spec`] states.
#[verifier::loop_isolation(false)]
pub fn nearest_resize(src: &RgbaBitmap, tw: u32, th: u32) -> (out: RgbaBitmap)
    requires
        src.wf(),
        src.width >= 1,
        src.height >= 1,
        tw >= 1,
        th >= 1,
        4 * (tw as int) * (th as int) <= usize::MAX as int,
    ensures
        out.wf(),
        out.width == tw,
        out.height == th,
        out.data@ == resized_of(*src, tw, th),
{
    let sw = src.width;
    let sh = src.height;
    let mut data: Vec<u8> = Vec::new();
    let mut y: u32 = 0;
    while y < th
        invariant
            0 <= y <= th,
            data@.len() == 4 * ((y as int) * (tw as int)),
            forall|k: int| 0 <= k < data@.len() ==> data@[k] == resized_of(*src, tw, th)[k],
        decreases th - y,
    {
        proof {
            assert((y as int) * (sh as int) < (th as int) * (sh as int) && 0 <= (y as int) * (
            sh as int)) by (nonlinear_arith)
                requires
                    0 <= y < th,
                    1 <= sh,
            ;
            assert((th as int) * (sh as int) < 0x10000000000000000) by (nonlinear_arith)
                requires
                    th < 0x100000000,
                    sh < 0x100000000,
            ;
            lemma_multiply_divide_lt((y as int) * (sh as int), th as int, sh as int);
        }
        let sy = (((y as u64) * (sh as u64)) / (th as u64)) as usize;
        let mut x: u32 = 0;
        while x < tw
            invariant
                0 <= x <= tw,
                0 <= y < th,
                sy == (y as int) * (sh as int) / (th as int),
                sy < sh,
                data@.len() == 4 * ((y as int) * (tw as int) + (x as int)),
                forall|k: int| 0 <= k < data@.len() ==> data@[k] == resized_of(*src, tw, th)[k],
            decreases tw - x,
        {
            proof {
                assert((x as int) * (sw as int) < (tw as int) * (sw as int) && 0 <= (x as int) * (
                sw as int)) by (nonlinear_arith)
                    requires
                        0 <= x < tw,
                        1 <= sw,
                ;
                assert((tw as int) * (sw as int) < 0x10000000000000000) by (nonlinear_arith)
                    requires
                        tw < 0x100000000,
                        sw < 0x100000000,
                ;
                lemma_multiply_divide_lt((x as int) * (sw as int), tw as int, sw as int);
            }
            let sx = (((x as u64) * (sw as u64)) / (tw as u64)) as usize;
            proof {
                assert((sy as int) * (sw as int) + (sx as int) < (sw as int) * (sh as int))
                    by (nonlinear_arith)
                    requires
                        0 <= sy < sh,
                        0 <= sx < sw,
                ;
                assert(4 * ((sy as int) * (sw as int) + (sx as int)) + 3 < 4 * (sw as int) * (
                sh as int)) by (nonlinear_arith)
                    requires
                        (sy as int) * (sw as int) + (sx as int) < (sw as int) * (sh as int),
                ;
                assert(4 * ((y as int) * (tw as int) + (x as int)) + 3 < 4 * (tw as int) * (
                th as int)) by (nonlinear_arith)
                    requires
                        0 <= x < tw,
                        0 <= y < th,
                ;
            }
            let dlen = src.data.len();
            proof {
                assert(4 * ((sy as int) * (sw as int) + (sx as int)) + 3 < dlen as int);
            }
            let base = 4 * (sy * (sw as usize) + sx);
            let ghost dst = 4 * ((y as int) * (tw as int) + (x as int));
            let mut c: usize = 0;
            while c < 4
                invariant
                    0 <= c <= 4,
                    base == 4 * ((sy as int) * (sw as int) + (sx as int)),
                    sx == (x as int) * (sw as int) / (tw as int),
                    sy == (y as int) * (sh as int) / (th as int),
                    0 <= x < tw,
                    0 <= y < th,
                    base + 3 < src.data@.len(),
                    dst == 4 * ((y as int) * (tw as int) + (x as int)),
                    data@.len() == dst + c,
                    forall|k: int| 0 <= k < data@.len() ==> data@[k] == resized_of(*src, tw, th)[k],
                decreases 4 - c,
            {
                data.push(src.data[base + c]);
                proof {
                    lemma_resize_index(*src, tw, th, x as int, y as int, c as int);
                }
                c = c + 1;
            }
            x = x + 1;
            proof {
                assert(4 * ((y as int) * (tw as int) + (x as int)) == dst + 4) by (nonlinear_arith)
                    requires
                        dst == 4 * ((y as int) * (tw as int) + (x as int) - 1),
                ;
            }
        }
        y = y + 1;
        proof {
            assert(4 * ((y as int) * (tw as int)) == 4 * (((y as int) - 1) * (tw as int) + (
            tw as int))) by (nonlinear_arith);
            assert(data@.len() == 4 * ((y as int) * (tw as int)));
        }
    }
    proof {
        assert(4 * ((th as int) * (tw as int)) == 4 * (tw as int) * (th as int)) by (nonlinear_arith);
        assert(data@ =~= resized_of(*src, tw, th));
    }
    RgbaBitmap { width: tw, height: th, data }
}

/// The background channel matching RGB channel `c`.
pub open spec fn rgb_channel(bg: Rgb, c: int) -> u8 {
    if c == 0 {
        bg.r
    } else if c == 1 {
        bg.g
    } else {
        bg.b
    }
}

/// The buffer composited against an opaque background: three bytes per
/// pixel, each channel blended by the pixel's alpha as
/// [`blend_channel`] states.
pub open spec fn composite_spec(rgba: Seq<u8>, bg: Rgb) -> Seq<u8> {
    Seq::new(
        (rgba.len() / 4 * 3) as nat,
        |k: int|
            {
                let i = k / 3;
                let c = k % 3;
                blend_channel(rgba[4 * i + c], rgb_channel(bg, c), rgba[4 * i + 3])
            },
    )
}

/// Flattens every pixel of `src` onto the opaque background colour,
/// producing the raw RGB wire payload: `width * height * 3` bytes,
/// row-major, fully opaque.
#[verifier::loop_isolation(false)]
pub fn composite_to_rgb(src: &RgbaBitmap, bg: &Rgb) -> (out: Vec<u8>)
    requires
        src.wf(),
    ensures
        out@ == composite_spec(src.data@, *bg),
        out@.len() == 3 * (src.width as int) * (src.height as int),
{
    let npix = src.data.len() / 4;
    proof {
        assert(4 * (src.width as int) * (src.height as int) == (src.width as int) * (
        src.height as int) * 4 + 0) by (nonlinear_arith);
        lemma_fundamental_div_mod_converse(
            src.data@.len() as int,
            4,
            (src.width as int) * (src.height as int),
            0,
        );
    }
    let mut out: Vec<u8> = Vec::new();
    let mut i: usize = 0;
    while i < npix
        invariant
            0 <= i <= npix,
            out@.len() == 3 * (i as int),
            forall|k: int| 0 <= k < out@.len() ==> out@[k] == composite_spec(src.data@, *bg)[k],
        decreases npix - i,
    {
        proof {
            assert(4 * (i as int) + 3 < 4 * (npix as int)) by (nonlinear_arith)
                requires
                    0 <= i < npix,
            ;
        }
        let base = 4 * i;
        let alpha = src.data[base + 3];
        let mut c: usize = 0;
        while c < 3
            invariant
                0 <= c <= 3,
                0 <= i < npix,
                base == 4 * (i as int),
                base + 3 < src.data@.len(),
                alpha == src.data@[base + 3],
                out@.len() == 3 * (i as int) + c,
                forall|k: int| 0 <= k < out@.len() ==> out@[k] == composite_spec(src.data@, *bg)[k],
            decreases 3 - c,
        {
            let bg_c = if c == 0 {
                bg.r
            } else if c == 1 {
                bg.g
            } else {
                bg.b
            };
            out.push(blend_one(src.data[base + c], bg_c, alpha));
            proof {
                let k = 3 * (i as int) + c;
                lemma_fundamental_div_mod_converse(k, 3, i as int, c as int);
                assert(3 * (i as int) + (c as int) < (npix as int) * 3) by (nonlinear_arith)
                    requires
                        0 <= i < npix,
                        0 <= c < 3,
                ;
            }
            c = c + 1;
        }
        i = i + 1;
    }
    proof {
        assert((npix as int) * 3 == 3 * (npix as int)) by (nonlinear_arith);
        assert(out@ =~= composite_spec(src.data@, *bg));
        assert(3 * (src.width as int) * (src.height as int) == 3 * ((src.width as int) * (
        src.height as int))) by (nonlinear_arith);
    }
    out
}

} // verus!
