//! Parsing of raw feed chunks into discrete events.
//!
//! A chunk is a text blob of newline-delimited `key: value` lines. A valid
//! frame yields at least two non-blank lines; the first gives the event
//! command, the second the raw data value. A line without a colon, or a
//! chunk with too few non-blank lines, makes the whole chunk invalid, which
//! the caller treats as a recoverable skip.

use crate::text::{find_char, find_char_spec, trim, trim_spec};
use vstd::prelude::*;
use vstd::string::*;

verus! {

/// Why a chunk could not be parsed into a frame.
#[derive(PartialEq, Eq, Structural, Clone, Copy, Debug)]
pub enum FrameError {
    /// The chunk held fewer than two non-blank lines.
    TooFewLines,
    /// A required line had no `:` separating key and value.
    MissingColon,
}

/// One parsed frame: the event command and the raw data value.
#[derive(Debug)]
pub struct StreamEvent {
    pub command: String,
    pub data: String,
}

/// What splitting a line at its first colon yields: the trimmed left side
/// as the key, the trimmed remainder as the value; nothing when the line
/// has no colon at all.
pub open spec fn parse_line_spec(s: Seq<char>) -> Option<(Seq<char>, Seq<char>)> {
    match find_char_spec(s, ':') {
        Some(i) => Some(
            (trim_spec(s.subrange(0, i)), trim_spec(s.subrange(i + 1, s.len() as int))),
        ),
        None => None,
    }
}

/// Splits a `key: value` line at its first colon, trimming both sides.
/// Fails with [`FrameError::MissingColon`] when the line has no colon.
pub fn parse_chunk_line<'a>(input: &'a str) -> (out: Result<(&'a str, &'a str), FrameError>)
    ensures
        match out {
            Ok(kv) => parse_line_spec(input@) == Some((kv.0@, kv.1@)),
            Err(e) => parse_line_spec(input@) is None && e == FrameError::MissingColon,
        },
{
    let len = input.unicode_len();
    match find_char(input, ':') {
        Some(i) => {
            let key = trim(input.substring_char(0, i));
            let value = trim(input.substring_char(i + 1, len));
            Ok((key, value))
        },
        None => Err(FrameError::MissingColon),
    }
}

/// The chunk split at every newline, in order, with the separators removed.
pub open spec fn split_lines_spec(s: Seq<char>) -> Seq<Seq<char>>
    decreases s.len(),
{
    match find_char_spec(s, '\n') {
        Some(i) => if 0 <= i < s.len() {
            seq![s.subrange(0, i)] + split_lines_spec(s.subrange(i + 1, s.len() as int))
        } else {
            seq![s]
        },
        None => seq![s],
    }
}

/// The lines that still hold something after trimming; blank lines and
/// bare carriage returns between frames are dropped.
pub open spec fn keep_nonblank_spec(ls: Seq<Seq<char>>) -> Seq<Seq<char>>
    decreases ls.len(),
{
    if ls.len() == 0 {
        Seq::empty()
    } else if trim_spec(ls[0]).len() != 0 {
        seq![ls[0]] + keep_nonblank_spec(ls.drop_first())
    } else {
        keep_nonblank_spec(ls.drop_first())
    }
}

/// The non-blank lines of a chunk.
pub open spec fn chunk_lines_spec(s: Seq<char>) -> Seq<Seq<char>> {
    keep_nonblank_spec(split_lines_spec(s))
}

/// What parsing a whole chunk yields: the command value from the first
/// non-blank line and the data value from the second, or the error that
/// makes the chunk invalid.
pub open spec fn parse_frame_spec(s: Seq<char>) -> Result<(Seq<char>, Seq<char>), FrameError> {
    let ls = chunk_lines_spec(s);
    if ls.len() < 2 {
        Err(FrameError::TooFewLines)
    } else {
        match (parse_line_spec(ls[0]), parse_line_spec(ls[1])) {
            (Some(kv0), Some(kv1)) => Ok((kv0.1, kv1.1)),
            _ => Err(FrameError::MissingColon),
        }
    }
}

/// A chunk with fewer than two non-blank lines is rejected as a frame
/// error — a recoverable skip of the chunk, never anything fatal.
pub proof fn lemma_short_chunk_rejected(s: Seq<char>)
    requires
        chunk_lines_spec(s).len() < 2,
    ensures
        parse_frame_spec(s) == Err::<(Seq<char>, Seq<char>), FrameError>(FrameError::TooFewLines),
{
}

/// A chunk whose first non-blank line has no colon is rejected as a frame
/// error — a recoverable skip of the chunk, never anything fatal.
pub proof fn lemma_chunk_without_colon_rejected(s: Seq<char>)
    requires
        chunk_lines_spec(s).len() >= 2,
        crate::text::find_char_spec(chunk_lines_spec(s)[0], ':') is None,
    ensures
        parse_frame_spec(s) == Err::<(Seq<char>, Seq<char>), FrameError>(FrameError::MissingColon),
{
}

/// Splits a chunk into its lines at every newline.
fn split_lines<'a>(s: &'a str) -> (out: Vec<&'a str>)
    ensures
        out@.len() == split_lines_spec(s@).len(),
        forall|i: int| 0 <= i < out@.len() ==> out@[i]@ == split_lines_spec(s@)[i],
{
    let mut out: Vec<&'a str> = Vec::new();
    let mut rest: &'a str = s;
    proof {
        assert(out@.map_values(|t: &str| t@) =~= Seq::<Seq<char>>::empty());
    }
    loop
        invariant
            split_lines_spec(s@) =~= out@.map_values(|t: &str| t@) + split_lines_spec(rest@),
        decreases rest@.len(),
    {
        let ghost prev = out@.map_values(|t: &str| t@);
        match find_char(rest, '\n') {
            Some(i) => {
                proof {
                    crate::text::lemma_find_char_spec(rest@, '\n');
                }
                let rlen = rest.unicode_len();
                let line = rest.substring_char(0, i);
                let next = rest.substring_char(i + 1, rlen);
                out.push(line);
                proof {
                    assert(out@.map_values(|t: &str| t@) =~= prev + seq![line@]);
                    assert(split_lines_spec(rest@) == seq![line@] + split_lines_spec(next@));
                }
                rest = next;
            },
            None => {
                out.push(rest);
                proof {
                    assert(out@.map_values(|t: &str| t@) =~= prev + seq![rest@]);
                    assert(split_lines_spec(rest@) == seq![rest@]);
                    assert(split_lines_spec(s@) =~= out@.map_values(|t: &str| t@));
                }
                return out;
            },
        }
    }
}

/// Keeps the lines that are not blank after trimming.
fn keep_nonblank<'a>(ls: &Vec<&'a str>) -> (out: Vec<&'a str>)
    ensures
        out@.len() == keep_nonblank_spec(ls@.map_values(|t: &str| t@)).len(),
        forall|i: int|
            0 <= i < out@.len() ==> out@[i]@ == keep_nonblank_spec(ls@.map_values(|t: &str| t@))[i],
{
    let ghost all = ls@.map_values(|t: &str| t@);
    let mut out: Vec<&'a str> = Vec::new();
    let mut i: usize = 0;
    proof {
        assert(out@.map_values(|t: &str| t@) =~= Seq::<Seq<char>>::empty());
        assert(all.subrange(0, all.len() as int) =~= all);
    }
    while i < ls.len()
        invariant
            0 <= i <= ls@.len(),
            all == ls@.map_values(|t: &str| t@),
            keep_nonblank_spec(all) =~= out@.map_values(|t: &str| t@) + keep_nonblank_spec(
                all.subrange(i as int, all.len() as int),
            ),
        decreases ls@.len() - i,
    {
        let ghost prev = out@.map_values(|t: &str| t@);
        let ghost tail = all.subrange(i as int, all.len() as int);
        proof {
            assert(tail[0] == all[i as int]);
            assert(tail.drop_first() =~= all.subrange(i + 1, all.len() as int));
        }
        let line = ls[i];
        proof {
            assert(all[i as int] == line@);
        }
        let t = trim(line);
        if t.unicode_len() != 0 {
            out.push(line);
            proof {
                assert(trim_spec(tail[0]).len() != 0);
                assert(keep_nonblank_spec(tail) == seq![tail[0]] + keep_nonblank_spec(
                    tail.drop_first(),
                ));
                assert(out@.map_values(|s2: &str| s2@) =~= prev + seq![line@]);
            }
        } else {
            proof {
                assert(trim_spec(tail[0]).len() == 0);
                assert(keep_nonblank_spec(tail) == keep_nonblank_spec(tail.drop_first()));
            }
        }
        i = i + 1;
    }
    proof {
        assert(all.subrange(i as int, all.len() as int) =~= Seq::<Seq<char>>::empty());
        assert(keep_nonblank_spec(all) =~= out@.map_values(|t: &str| t@));
    }
    out
}

/// Parses a raw chunk into a frame: splits it into lines, drops blank
/// lines, requires at least two of them, and takes the command from the
/// first line's value and the raw data from the second line's value.
/// A failure is a recoverable rejection of this one chunk, never fatal.
pub fn parse_frame(chunk: &str) -> (out: Result<StreamEvent, FrameError>)
    ensures
        match out {
            Ok(ev) => parse_frame_spec(chunk@) == Ok::<(Seq<char>, Seq<char>), FrameError>(
                (ev.command@, ev.data@),
            ),
            Err(e) => parse_frame_spec(chunk@) == Err::<(Seq<char>, Seq<char>), FrameError>(e),
        },
{
    let raw = split_lines(chunk);
    proof {
        assert(raw@.map_values(|t: &str| t@) =~= split_lines_spec(chunk@));
    }
    let lines = keep_nonblank(&raw);
    proof {
        assert(lines@.map_values(|t: &str| t@) =~= chunk_lines_spec(chunk@));
    }
    if lines.len() < 2 {
        return Err(FrameError::TooFewLines);
    }
    proof {
        assert(lines@[0]@ == chunk_lines_spec(chunk@)[0]);
        assert(lines@[1]@ == chunk_lines_spec(chunk@)[1]);
    }
    let first = parse_chunk_line(lines[0]);
    let second = parse_chunk_line(lines[1]);
    match (first, second) {
        (Ok(kv0), Ok(kv1)) => Ok(
            StreamEvent { command: String::from_str(kv0.1), data: String::from_str(kv1.1) },
        ),
        _ => Err(FrameError::MissingColon),
    }
}

} // verus!
