//! Decoding of a `put` event's data value.
//!
//! The data value carries a JSON object of the form `{"emoji": "<string>"}`.
//! The decoder accepts exactly that shape — optional whitespace around the
//! punctuation, a single `emoji` member whose value is a JSON string with
//! the usual escapes, `\uXXXX` and surrogate pairs included. Anything
//! else (malformed JSON, a missing or misnamed member, a lone surrogate)
//! is a recoverable decode failure: the caller skips the event and
//! carries on.

use crate::text::{is_ws, is_ws_char, string_of_chars};
use vstd::prelude::*;
use vstd::string::*;

verus! {

/// Why a data value could not be decoded into an emoji payload.
#[derive(PartialEq, Eq, Structural, Clone, Copy, Debug)]
pub enum PayloadError {
    /// The value is not a `{"emoji": "<string>"}` object.
    Malformed,
}

/// The first index at or after `i` holding a non-whitespace character,
/// or the length of `s` when only whitespace remains.
pub open spec fn skip_ws_spec(s: Seq<char>, i: int) -> int
    decreases s.len() - i when 0 <= i <= s.len()
{
    if 0 <= i < s.len() && is_ws(s[i]) {
        skip_ws_spec(s, i + 1)
    } else {
        i
    }
}

/// Relies on `char::from_u32`: yields the character for a scalar value,
/// and nothing for a surrogate or a value beyond the Unicode range.
pub assume_specification[ char::from_u32 ](i: u32) -> (r: Option<char>)
    ensures
        r is Some <==> !(0xD800 <= i < 0xE000 || i > 0x10FFFF),
        r matches Some(c) ==> c as u32 == i,
;

/// The value of one hexadecimal digit, either case.
pub open spec fn hex_val(c: char) -> Option<int> {
    if '0' as int <= c as int && c as int <= '9' as int {
        Some(c as int - '0' as int)
    } else if 'a' as int <= c as int && c as int <= 'f' as int {
        Some(10 + c as int - 'a' as int)
    } else if 'A' as int <= c as int && c as int <= 'F' as int {
        Some(10 + c as int - 'A' as int)
    } else {
        None
    }
}

/// The value of the four hexadecimal digits starting at `i`, when all
/// four are present.
pub open spec fn hex4_spec(s: Seq<char>, i: int) -> Option<int> {
    if 0 <= i && i + 4 <= s.len() {
        match (hex_val(s[i]), hex_val(s[i + 1]), hex_val(s[i + 2]), hex_val(s[i + 3])) {
            (Some(a), Some(b), Some(c), Some(d)) => Some(a * 4096 + b * 256 + c * 16 + d),
            _ => None,
        }
    } else {
        None
    }
}

/// What a one-character JSON escape stands for, if it is supported.
pub open spec fn unescape_spec(c: char) -> Option<char> {
    if c == '"' {
        Some('"')
    } else if c == '\\' {
        Some('\\')
    } else if c == '/' {
        Some('/')
    } else if c == 'n' {
        Some('\n')
    } else if c == 't' {
        Some('\t')
    } else if c == 'r' {
        Some('\r')
    } else if c == 'b' {
        Some('\u{8}')
    } else if c == 'f' {
        Some('\u{c}')
    } else {
        None
    }
}

/// Scans the body of a JSON string starting at `i` (just past the opening
/// quote). Yields the unescaped content and the index just past the closing
/// quote, or nothing when the string is unterminated or holds an invalid
/// escape. A `\uXXXX` escape names a scalar value directly; a surrogate
/// pair of two such escapes names one supplementary character; a lone
/// surrogate is invalid.
pub open spec fn scan_string_spec(s: Seq<char>, i: int) -> Option<(Seq<char>, int)>
    decreases s.len() - i when 0 <= i <= s.len()
{
    if i < 0 || i >= s.len() {
        None
    } else if s[i] == '"' {
        Some((Seq::empty(), i + 1))
    } else if s[i] == '\\' {
        if i + 1 < s.len() {
            if s[i + 1] == 'u' {
                match hex4_spec(s, i + 2) {
                    Some(v) => if 0xD800 <= v < 0xDC00 {
                        // a high surrogate: a low-surrogate escape must follow
                        if i + 8 <= s.len() && s[i + 6] == '\\' && s[i + 7] == 'u' {
                            match hex4_spec(s, i + 8) {
                                Some(w) => if 0xDC00 <= w < 0xE000 {
                                    match scan_string_spec(s, i + 12) {
                                        Some(r) => Some(
                                            (
                                                seq![
                                                    (0x10000 + (v - 0xD800) * 0x400 + (w
                                                        - 0xDC00)) as char
                                                ] + r.0,
                                                r.1,
                                            ),
                                        ),
                                        None => None,
                                    }
                                } else {
                                    None
                                },
                                None => None,
                            }
                        } else {
                            None
                        }
                    } else if 0xDC00 <= v < 0xE000 {
                        // a lone low surrogate names no character
                        None
                    } else {
                        match scan_string_spec(s, i + 6) {
                            Some(r) => Some((seq![v as char] + r.0, r.1)),
                            None => None,
                        }
                    },
                    None => None,
                }
            } else {
                match unescape_spec(s[i + 1]) {
                    Some(c) => match scan_string_spec(s, i + 2) {
                        Some(r) => Some((seq![c] + r.0, r.1)),
                        None => None,
                    },
                    None => None,
                }
            }
        } else {
            None
        }
    } else {
        match scan_string_spec(s, i + 1) {
            Some(r) => Some((seq![s[i]] + r.0, r.1)),
            None => None,
        }
    }
}

/// The emoji string carried by a data value, when the value is exactly a
/// `{"emoji": "<string>"}` object; nothing otherwise.
pub open spec fn payload_emoji_spec(s: Seq<char>) -> Option<Seq<char>> {
    let i0 = skip_ws_spec(s, 0);
    if i0 < s.len() && s[i0] == '{' {
        let i1 = skip_ws_spec(s, i0 + 1);
        if i1 < s.len() && s[i1] == '"' {
            match scan_string_spec(s, i1 + 1) {
                Some(key) => if key.0 == "emoji"@ {
                    let i2 = skip_ws_spec(s, key.1);
                    if i2 < s.len() && s[i2] == ':' {
                        let i3 = skip_ws_spec(s, i2 + 1);
                        if i3 < s.len() && s[i3] == '"' {
                            match scan_string_spec(s, i3 + 1) {
                                Some(val) => {
                                    let i4 = skip_ws_spec(s, val.1);
                                    if i4 < s.len() && s[i4] == '}' && skip_ws_spec(s, i4 + 1)
                                        == s.len() {
                                        Some(val.0)
                                    } else {
                                        None
                                    }
                                },
                                None => None,
                            }
                        } else {
                            None
                        }
                    } else {
                        None
                    }
                } else {
                    None
                },
                None => None,
            }
        } else {
            None
        }
    } else {
        None
    }
}

/// Advances past whitespace, mirroring [`skip_ws_spec`].
fn skip_ws(v: &Vec<char>, start: usize) -> (out: usize)
    requires
        start <= v@.len(),
    ensures
        out == skip_ws_spec(v@, start as int),
        start <= out <= v@.len(),
        out < v@.len() ==> !is_ws(v@[out as int]),
{
    let mut i: usize = start;
    while i < v.len() && is_ws_char(v[i])
        invariant
            start <= i <= v@.len(),
            skip_ws_spec(v@, start as int) == skip_ws_spec(v@, i as int),
        decreases v@.len() - i,
    {
        i = i + 1;
    }
    i
}

/// The exec form of [`hex_val`].
fn hex_val_char(c: char) -> (out: Option<u32>)
    ensures
        match out {
            Some(d) => hex_val(c) == Some(d as int) && d < 16,
            None => hex_val(c) is None,
        },
{
    let u = c as u32;
    if u >= 0x30 && u <= 0x39 {
        Some(u - 0x30)
    } else if u >= 0x61 && u <= 0x66 {
        Some(10 + (u - 0x61))
    } else if u >= 0x41 && u <= 0x46 {
        Some(10 + (u - 0x41))
    } else {
        None
    }
}

/// Reads four hexadecimal digits, mirroring [`hex4_spec`].
fn hex4(v: &Vec<char>, i: usize) -> (out: Option<u32>)
    requires
        i <= v@.len(),
    ensures
        match out {
            Some(d) => hex4_spec(v@, i as int) == Some(d as int) && d <= 0xFFFF,
            None => hex4_spec(v@, i as int) is None,
        },
{
    if v.len() - i < 4 {
        return None;
    }
    let a = match hex_val_char(v[i]) {
        Some(a) => a,
        None => {
            return None;
        },
    };
    let b = match hex_val_char(v[i + 1]) {
        Some(b) => b,
        None => {
            return None;
        },
    };
    let c = match hex_val_char(v[i + 2]) {
        Some(c) => c,
        None => {
            return None;
        },
    };
    let d = match hex_val_char(v[i + 3]) {
        Some(d) => d,
        None => {
            return None;
        },
    };
    Some(a * 4096 + b * 256 + c * 16 + d)
}

/// Scans a JSON string body, mirroring [`scan_string_spec`].
fn scan_string(v: &Vec<char>, start: usize) -> (out: Option<(Vec<char>, usize)>)
    requires
        start <= v@.len(),
    ensures
        match out {
            Some(r) => scan_string_spec(v@, start as int) == Some((r.0@, r.1 as int)) && start
                < r.1 <= v@.len(),
            None => scan_string_spec(v@, start as int) is None,
        },
    decreases v@.len() - start,
{
    if start >= v.len() {
        return None;
    }
    let c = v[start];
    if c == '"' {
        let content: Vec<char> = Vec::new();
        proof {
            assert(content@ =~= Seq::<char>::empty());
        }
        return Some((content, start + 1));
    }
    if c == '\\' {
        if start + 1 >= v.len() {
            return None;
        }
        let e = v[start + 1];
        if e == 'u' {
            let val = match hex4(v, start + 2) {
                Some(val) => val,
                None => {
                    return None;
                },
            };
            proof {
                assert(start + 6 <= v@.len());
            }
            if val >= 0xD800 && val < 0xDC00 {
                if v.len() - start >= 8 && v[start + 6] == '\\' && v[start + 7] == 'u' {
                    let w = match hex4(v, start + 8) {
                        Some(w) => w,
                        None => {
                            return None;
                        },
                    };
                    proof {
                        assert(start + 12 <= v@.len());
                    }
                    if w >= 0xDC00 && w < 0xE000 {
                        let code: u32 = 0x10000 + (val - 0xD800) * 0x400 + (w - 0xDC00);
                        let ch = match char::from_u32(code) {
                            Some(ch) => ch,
                            None => {
                                return None;
                            },
                        };
                        match scan_string(v, start + 12) {
                            Some(r) => {
                                let (mut content, end) = r;
                                content.insert(0, ch);
                                proof {
                                    vstd::utf8::char_u32_cast(ch, code);
                                    assert(code as int == 0x10000 + (val as int - 0xD800) * 0x400
                                        + (w as int - 0xDC00));
                                    assert(content@ =~= seq![ch] + content@.drop_first());
                                }
                                return Some((content, end));
                            },
                            None => {
                                return None;
                            },
                        }
                    } else {
                        return None;
                    }
                } else {
                    return None;
                }
            } else if val >= 0xDC00 && val < 0xE000 {
                return None;
            } else {
                let ch = match char::from_u32(val) {
                    Some(ch) => ch,
                    None => {
                        return None;
                    },
                };
                match scan_string(v, start + 6) {
                    Some(r) => {
                        let (mut content, end) = r;
                        content.insert(0, ch);
                        proof {
                            vstd::utf8::char_u32_cast(ch, val);
                            assert(content@ =~= seq![ch] + content@.drop_first());
                        }
                        return Some((content, end));
                    },
                    None => {
                        return None;
                    },
                }
            }
        }
        let unescaped: char = if e == '"' {
            '"'
        } else if e == '\\' {
            '\\'
        } else if e == '/' {
            '/'
        } else if e == 'n' {
            '\n'
        } else if e == 't' {
            '\t'
        } else if e == 'r' {
            '\r'
        } else if e == 'b' {
            '\u{8}'
        } else if e == 'f' {
            '\u{c}'
        } else {
            return None;
        };
        proof {
            assert(unescape_spec(v@[start + 1]) == Some(unescaped));
        }
        match scan_string(v, start + 2) {
            Some(r) => {
                let (mut content, end) = r;
                content.insert(0, unescaped);
                proof {
                    assert(content@ =~= seq![unescaped] + content@.drop_first());
                }
                return Some((content, end));
            },
            None => {
                return None;
            },
        }
    }
    match scan_string(v, start + 1) {
        Some(r) => {
            let (mut content, end) = r;
            content.insert(0, c);
            proof {
                assert(content@ =~= seq![c] + content@.drop_first());
            }
            Some((content, end))
        },
        None => None,
    }
}

/// Tests whether the scanned key is exactly `emoji`.
fn is_emoji_key(key: &Vec<char>) -> (out: bool)
    ensures
        out == (key@ == "emoji"@),
{
    proof {
        reveal_strlit("emoji");
    }
    if key.len() != 5 {
        proof {
            assert(key@ != "emoji"@);
        }
        return false;
    }
    let out = key[0] == 'e' && key[1] == 'm' && key[2] == 'o' && key[3] == 'j' && key[4] == 'i';
    proof {
        if out {
            assert(key@ =~= "emoji"@);
        }
    }
    out
}

/// Decodes a data value into the emoji it names. Succeeds exactly on
/// values of the form `{"emoji": "<string>"}`; every other value is a
/// recoverable [`PayloadError::Malformed`].
pub fn parse_payload(data: &str) -> (out: Result<String, PayloadError>)
    ensures
        match out {
            Ok(emoji) => payload_emoji_spec(data@) == Some(emoji@),
            Err(e) => payload_emoji_spec(data@) is None && e == PayloadError::Malformed,
        },
{
    let v = crate::text::chars_vec(data);
    let i0 = skip_ws(&v, 0);
    if !(i0 < v.len() && v[i0] == '{') {
        return Err(PayloadError::Malformed);
    }
    let i1 = skip_ws(&v, i0 + 1);
    if !(i1 < v.len() && v[i1] == '"') {
        return Err(PayloadError::Malformed);
    }
    let key = match scan_string(&v, i1 + 1) {
        Some(r) => r,
        None => {
            return Err(PayloadError::Malformed);
        },
    };
    if !is_emoji_key(&key.0) {
        return Err(PayloadError::Malformed);
    }
    let i2 = skip_ws(&v, key.1);
    if !(i2 < v.len() && v[i2] == ':') {
        return Err(PayloadError::Malformed);
    }
    let i3 = skip_ws(&v, i2 + 1);
    if !(i3 < v.len() && v[i3] == '"') {
        return Err(PayloadError::Malformed);
    }
    let val = match scan_string(&v, i3 + 1) {
        Some(r) => r,
        None => {
            return Err(PayloadError::Malformed);
        },
    };
    let i4 = skip_ws(&v, val.1);
    if !(i4 < v.len() && v[i4] == '}') {
        return Err(PayloadError::Malformed);
    }
    let i5 = skip_ws(&v, i4 + 1);
    if i5 != v.len() {
        return Err(PayloadError::Malformed);
    }
    Ok(string_of_chars(&val.0))
}

} // verus!
