//! Alpha compositing of a semi-transparent foreground pixel onto an opaque
//! background colour, producing an opaque pixel.

use vstd::prelude::*;

verus! {

/// A foreground pixel: red, green, blue and an alpha channel.
/// Alpha 255 is fully opaque, alpha 0 fully transparent.
#[derive(Clone, Copy, Debug)]
pub struct Rgba {
    pub r: u8,
    pub g: u8,
    pub b: u8,
    pub a: u8,
}

/// An opaque background colour.
#[derive(Clone, Copy, Debug)]
pub struct Rgb {
    pub r: u8,
    pub g: u8,
    pub b: u8,
}

/// One channel of the compositing rule: the foreground weighted by the
/// normalised alpha, the background by its complement, rounded to the
/// nearest 8-bit value. Adding 127 before the division by 255 performs
/// the rounding, since the fractional part can never be exactly one half.
pub open spec fn blend_channel(fg: u8, bg: u8, a: u8) -> u8 {
    (((fg as int) * (a as int) + (bg as int) * (255 - a as int) + 127) / 255) as u8
}

/// Blends one channel of the foreground against the background.
pub fn blend_one(fg: u8, bg: u8, a: u8) -> (out: u8)
    ensures
        out == blend_channel(fg, bg, a),
{
    proof {
        assert((fg as int) * (a as int) <= 255 * 255) by (nonlinear_arith)
            requires
                fg <= 255,
                a <= 255,
        ;
        assert((bg as int) * (255 - a as int) <= 255 * 255) by (nonlinear_arith)
            requires
                bg <= 255,
                a <= 255,
        ;
    }
    let num: u32 = (fg as u32) * (a as u32) + (bg as u32) * (255 - (a as u32)) + 127;
    (num / 255) as u8
}

/// Flattens a semi-transparent pixel onto an opaque background colour,
/// returning the three opaque channels in R, G, B order.
pub fn merge_colors(foreground: &Rgba, background: &Rgb) -> (out: Vec<u8>)
    ensures
        out@.len() == 3,
        out@[0] == blend_channel(foreground.r, background.r, foreground.a),
        out@[1] == blend_channel(foreground.g, background.g, foreground.a),
        out@[2] == blend_channel(foreground.b, background.b, foreground.a),
{
    let mut out: Vec<u8> = Vec::new();
    out.push(blend_one(foreground.r, background.r, foreground.a));
    out.push(blend_one(foreground.g, background.g, foreground.a));
    out.push(blend_one(foreground.b, background.b, foreground.a));
    out
}

/// A fully opaque foreground replaces the background entirely: for every
/// background value, blending with alpha 255 returns the foreground channel.
pub proof fn lemma_merge_opaque(fg: u8, bg: u8)
    ensures
        blend_channel(fg, bg, 255) == fg,
{
    assert(((fg as int) * 255 + (bg as int) * 0 + 127) / 255 == fg as int) by (nonlinear_arith)
        requires
            fg <= 255,
    ;
}

/// A fully transparent foreground leaves the background untouched: for every
/// foreground colour, blending with alpha 0 returns the background channel.
pub proof fn lemma_merge_transparent(fg: u8, bg: u8)
    ensures
        blend_channel(fg, bg, 0) == bg,
{
    assert(((fg as int) * 0 + (bg as int) * 255 + 127) / 255 == bg as int) by (nonlinear_arith)
        requires
            bg <= 255,
    ;
}

/// Blending is monotonic in the alpha value: as alpha grows, each channel
/// moves monotonically from the background value towards the foreground
/// value, for any fixed foreground and background.
pub proof fn lemma_merge_monotonic(fg: u8, bg: u8, a1: u8, a2: u8)
    requires
        a1 <= a2,
    ensures
        fg >= bg ==> blend_channel(fg, bg, a1) <= blend_channel(fg, bg, a2),
        fg <= bg ==> blend_channel(fg, bg, a1) >= blend_channel(fg, bg, a2),
{
    let n1: int = (fg as int) * (a1 as int) + (bg as int) * (255 - a1 as int) + 127;
    let n2: int = (fg as int) * (a2 as int) + (bg as int) * (255 - a2 as int) + 127;
    assert(fg >= bg ==> (fg as int) * (a1 as int) + (bg as int) * (255 - a1 as int) + 127 <= (
    fg as int) * (a2 as int) + (bg as int) * (255 - a2 as int) + 127) by (nonlinear_arith)
        requires
            a1 <= a2,
    ;
    assert(fg <= bg ==> (fg as int) * (a2 as int) + (bg as int) * (255 - a2 as int) + 127 <= (
    fg as int) * (a1 as int) + (bg as int) * (255 - a1 as int) + 127) by (nonlinear_arith)
        requires
            a1 <= a2,
    ;
    assert(0 <= (fg as int) * (a1 as int) + (bg as int) * (255 - a1 as int) + 127)
        by (nonlinear_arith)
        requires
            a1 <= 255,
    ;
    assert(0 <= (fg as int) * (a2 as int) + (bg as int) * (255 - a2 as int) + 127)
        by (nonlinear_arith)
        requires
            a2 <= 255,
    ;
    assert((fg as int) * (a1 as int) + (bg as int) * (255 - a1 as int) + 127 <= 65152)
        by (nonlinear_arith)
        requires
            fg <= 255,
            bg <= 255,
            a1 <= 255,
    ;
    assert((fg as int) * (a2 as int) + (bg as int) * (255 - a2 as int) + 127 <= 65152)
        by (nonlinear_arith)
        requires
            fg <= 255,
            bg <= 255,
            a2 <= 255,
    ;
    vstd::arithmetic::div_mod::lemma_div_is_ordered(n1, 65152, 255);
    vstd::arithmetic::div_mod::lemma_div_is_ordered(n2, 65152, 255);
    vstd::arithmetic::div_mod::lemma_div_pos_is_pos(n1, 255);
    vstd::arithmetic::div_mod::lemma_div_pos_is_pos(n2, 255);
    if fg >= bg {
        vstd::arithmetic::div_mod::lemma_div_is_ordered(n1, n2, 255);
    }
    if fg <= bg {
        vstd::arithmetic::div_mod::lemma_div_is_ordered(n2, n1, 255);
    }
}

} // verus!

