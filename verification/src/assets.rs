//! Resolution of an emoji string to a bitmap asset path.
//!
//! An emoji of one or more codepoints maps to the file
//! `{dir}/emoji_u{hex codepoints joined by underscores}.png`, each codepoint
//! in lowercase hexadecimal without leading zeros. When that exact file is
//! missing and the emoji has at least two codepoints, the final codepoint is
//! dropped once (a modifier sequence falls back to its base glyph) and the
//! shorter name is tried; when neither file exists the lookup fails and the
//! caller skips the event.

use crate::text::{chars_vec, push_char};
use vstd::prelude::*;
use vstd::string::*;

verus! {

/// Why an emoji could not be resolved to an asset.
#[derive(PartialEq, Eq, Structural, Clone, Copy, Debug)]
pub enum AssetError {
    /// Neither the exact name nor its one-codepoint-shorter fallback exists.
    NotFound,
}

/// The lowercase hexadecimal digit for a value below 16.
pub open spec fn hex_digit(d: int) -> char {
    if d == 0 {
        '0'
    } else if d == 1 {
        '1'
    } else if d == 2 {
        '2'
    } else if d == 3 {
        '3'
    } else if d == 4 {
        '4'
    } else if d == 5 {
        '5'
    } else if d == 6 {
        '6'
    } else if d == 7 {
        '7'
    } else if d == 8 {
        '8'
    } else if d == 9 {
        '9'
    } else if d == 10 {
        'a'
    } else if d == 11 {
        'b'
    } else if d == 12 {
        'c'
    } else if d == 13 {
        'd'
    } else if d == 14 {
        'e'
    } else {
        'f'
    }
}

/// The lowercase hexadecimal form of `n`, most significant digit first,
/// without leading zeros (`0` itself is the single digit `0`).
pub open spec fn hex_str_spec(n: nat) -> Seq<char>
    decreases n,
{
    if n < 16 {
        seq![hex_digit(n as int)]
    } else {
        hex_str_spec(n / 16) + seq![hex_digit((n % 16) as int)]
    }
}

/// The hexadecimal codepoints of `cps` joined with underscores.
pub open spec fn joined_hex_spec(cps: Seq<char>) -> Seq<char>
    decreases cps.len(),
{
    if cps.len() == 0 {
        Seq::empty()
    } else if cps.len() == 1 {
        hex_str_spec(cps[0] as u32 as nat)
    } else {
        joined_hex_spec(cps.drop_last()) + seq!['_'] + hex_str_spec(cps.last() as u32 as nat)
    }
}

/// The canonical asset filename for a codepoint sequence.
pub open spec fn asset_filename_spec(cps: Seq<char>) -> Seq<char> {
    "emoji_u"@ + joined_hex_spec(cps) + ".png"@
}

/// The canonical asset path under `dir` for a codepoint sequence.
pub open spec fn asset_path_spec(dir: Seq<char>, cps: Seq<char>) -> Seq<char> {
    dir + "/"@ + asset_filename_spec(cps)
}

/// The exec form of [`hex_digit`].
fn hex_digit_char(d: u32) -> (c: char)
    requires
        d < 16,
    ensures
        c == hex_digit(d as int),
{
    if d == 0 {
        '0'
    } else if d == 1 {
        '1'
    } else if d == 2 {
        '2'
    } else if d == 3 {
        '3'
    } else if d == 4 {
        '4'
    } else if d == 5 {
        '5'
    } else if d == 6 {
        '6'
    } else if d == 7 {
        '7'
    } else if d == 8 {
        '8'
    } else if d == 9 {
        '9'
    } else if d == 10 {
        'a'
    } else if d == 11 {
        'b'
    } else if d == 12 {
        'c'
    } else if d == 13 {
        'd'
    } else if d == 14 {
        'e'
    } else {
        'f'
    }
}

/// Appends the hexadecimal form of `n` to `s`.
fn append_hex(s: &mut String, n: u32)
    ensures
        final (s)@ == old(s)@ + hex_str_spec(n as nat),
    decreases n,
{
    if n >= 16 {
        append_hex(s, n / 16);
        push_char(s, hex_digit_char(n % 16));
        proof {
            assert(s@ =~= old(s)@ + hex_str_spec(n as nat));
        }
    } else {
        push_char(s, hex_digit_char(n));
        proof {
            assert(s@ =~= old(s)@ + hex_str_spec(n as nat));
        }
    }
}

/// Builds the asset path for the first `k` codepoints of `cps` under `dir`.
fn asset_path_prefix(dir: &str, cps: &Vec<char>, k: usize) -> (out: String)
    requires
        1 <= k <= cps@.len(),
    ensures
        out@ == asset_path_spec(dir@, cps@.subrange(0, k as int)),
{
    let mut out = String::from_str(dir);
    out.append("/");
    out.append("emoji_u");
    let mut i: usize = 0;
    while i < k
        invariant
            0 <= i <= k <= cps@.len(),
            out@ == dir@ + "/"@ + "emoji_u"@ + joined_hex_spec(cps@.subrange(0, i as int)),
        decreases k - i,
    {
        let ghost prefix = cps@.subrange(0, i as int);
        let ghost next = cps@.subrange(0, i + 1);
        if i > 0 {
            push_char(&mut out, '_');
        }
        append_hex(&mut out, cps[i] as u32);
        proof {
            if i == 0 {
                assert(next.len() == 1 && next[0] == cps@[0]);
                assert(joined_hex_spec(next) == hex_str_spec(cps@[0] as u32 as nat));
            } else {
                assert(next.drop_last() =~= prefix);
                assert(next.last() == cps@[i as int]);
                assert(joined_hex_spec(next) == joined_hex_spec(prefix) + seq!['_'] + hex_str_spec(
                    cps@[i as int] as u32 as nat,
                ));
            }
            assert(out@ =~= dir@ + "/"@ + "emoji_u"@ + joined_hex_spec(next));
        }
        i = i + 1;
    }
    out.append(".png");
    proof {
        assert(out@ =~= asset_path_spec(dir@, cps@.subrange(0, k as int)));
    }
    out
}

/// Which asset a lookup settles on, given which candidate files exist:
/// the exact name when it exists; otherwise, for an emoji of at least two
/// codepoints, the name with the final codepoint dropped when that exists;
/// otherwise no asset at all.
pub open spec fn choose_asset_spec(
    dir: Seq<char>,
    cps: Seq<char>,
    primary_exists: bool,
    fallback_exists: bool,
) -> Result<Seq<char>, AssetError> {
    if primary_exists {
        Ok(asset_path_spec(dir, cps))
    } else if cps.len() >= 2 && fallback_exists {
        Ok(asset_path_spec(dir, cps.drop_last()))
    } else {
        Err(AssetError::NotFound)
    }
}

/// Picks the asset path that the existence flags dictate, exactly as
/// [`choose_asset_spec`] states: the exact name when present, the
/// one-codepoint-shorter fallback when only that is present, an error
/// when neither is.
pub fn choose_asset(dir: &str, cps: &Vec<char>, primary_exists: bool, fallback_exists: bool) -> (out:
    Result<String, AssetError>)
    requires
        cps@.len() >= 1,
    ensures
        match out {
            Ok(p) => choose_asset_spec(dir@, cps@, primary_exists, fallback_exists) == Ok::<
                Seq<char>,
                AssetError,
            >(p@),
            Err(e) => choose_asset_spec(dir@, cps@, primary_exists, fallback_exists) == Err::<
                Seq<char>,
                AssetError,
            >(e),
        },
{
    if primary_exists {
        let p = asset_path_prefix(dir, cps, cps.len());
        proof {
            assert(cps@.subrange(0, cps@.len() as int) =~= cps@);
        }
        Ok(p)
    } else if cps.len() >= 2 && fallback_exists {
        let p = asset_path_prefix(dir, cps, cps.len() - 1);
        proof {
            assert(cps@.subrange(0, cps@.len() - 1) =~= cps@.drop_last());
        }
        Ok(p)
    } else {
        Err(AssetError::NotFound)
    }
}

/// The fallback rule: when the exact asset file for an emoji of at least
/// two codepoints is missing but the file for the emoji with its final
/// codepoint dropped exists, resolution falls back to that shorter name;
/// when neither file exists, resolution fails with the not-found error.
pub proof fn lemma_asset_fallback(dir: Seq<char>, cps: Seq<char>)
    requires
        cps.len() >= 2,
    ensures
        choose_asset_spec(dir, cps, false, true) == Ok::<Seq<char>, AssetError>(
            asset_path_spec(dir, cps.drop_last()),
        ),
        choose_asset_spec(dir, cps, false, false) == Err::<Seq<char>, AssetError>(
            AssetError::NotFound,
        ),
{
}

/// Relies on `std::path::Path::exists`: whether a file is present on disk
/// at this moment. The answer depends on the filesystem, so nothing is
/// assumed about it.
#[verifier::external_body]
fn path_exists(path: &String) -> bool {
    std::path::Path::new(path.as_str()).exists()
}

/// Resolves an emoji to the asset path to load: the exact name when that
/// file exists, else the one-codepoint-shorter fallback when that exists,
/// else [`AssetError::NotFound`]. An empty emoji never resolves. Which
/// branch is taken depends on the filesystem; the result is always one of
/// the two canonical paths for this emoji.
pub fn resolve_asset(dir: &str, emoji: &str) -> (out: Result<String, AssetError>)
    ensures
        match out {
            Ok(p) => emoji@.len() >= 1 && (p@ == asset_path_spec(dir@, emoji@) || (emoji@.len()
                >= 2 && p@ == asset_path_spec(dir@, emoji@.drop_last()))),
            Err(e) => e == AssetError::NotFound,
        },
        emoji@.len() == 0 ==> out == Err::<String, AssetError>(AssetError::NotFound),
{
    let cps = chars_vec(emoji);
    if cps.len() == 0 {
        return Err(AssetError::NotFound);
    }
    let primary = asset_path_prefix(dir, &cps, cps.len());
    proof {
        assert(cps@.subrange(0, cps@.len() as int) =~= cps@);
    }
    let primary_exists = path_exists(&primary);
    let fallback_exists = if !primary_exists && cps.len() >= 2 {
        let fb = asset_path_prefix(dir, &cps, cps.len() - 1);
        path_exists(&fb)
    } else {
        false
    };
    proof {
        assert(cps@.subrange(0, cps@.len() - 1) =~= cps@.drop_last());
    }
    choose_asset(dir, &cps, primary_exists, fallback_exists)
}

} // verus!
