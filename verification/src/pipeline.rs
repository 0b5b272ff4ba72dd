//! The bridge's decision core: command dispatch over parsed frames, the
//! per-event transcode-and-publish plan, the publish sequencing rule, and
//! the reconnect backoff. The daemon around the library performs the
//! network traffic and feeds the outcomes back in.

use crate::assets::AssetError;
use crate::bitmap::{
    composite_spec, composite_to_rgb, decode_rgba, decoded_rgba_of, nearest_resize, open_rgba,
    resized_of, resize_spec, DecodeError, RgbaBitmap,
};
use crate::color::Rgb;
use crate::frame::{parse_frame, parse_frame_spec, FrameError};
use crate::payload::{parse_payload, payload_emoji_spec, PayloadError};
use crate::text::{push_char, str_eq};
use vstd::prelude::*;
use vstd::string::*;

verus! {

/// The shortest pause between two reconnect attempts, in milliseconds.
/// Reconnecting must never spin without a delay.
pub const MIN_RECONNECT_DELAY_MS: u64 = 1000;

/// The cap on the reconnect backoff, in milliseconds.
pub const MAX_RECONNECT_DELAY_MS: u64 = 32000;

/// How long a chunk read may stall before the connection is abandoned,
/// in seconds.
pub const STALL_TIMEOUT_SECS: u64 = 60;

/// The broker keep-alive interval, in seconds.
pub const BROKER_KEEP_ALIVE_SECS: u64 = 5;

/// What the dispatcher decides for one chunk, over the mathematical view
/// of its contents.
pub enum ActionSpec {
    /// A `put` command with a decoded emoji: resolve, transcode, publish.
    Publish(Seq<char>),
    /// A liveness signal; nothing to do.
    KeepAlive,
    /// A command this bridge does not know; logged and ignored.
    Ignore(Seq<char>),
    /// The chunk is not a valid frame; skipped.
    SkipFrame(FrameError),
    /// The frame is valid but its `put` payload is not; skipped.
    SkipPayload(PayloadError),
}

/// What the dispatcher decides for one chunk: an invalid frame is skipped;
/// a `put` frame publishes its decoded emoji or is skipped when the
/// payload does not decode; `keep-alive` does nothing; every other
/// command is ignored.
pub open spec fn plan_chunk_spec(chunk: Seq<char>) -> ActionSpec {
    match parse_frame_spec(chunk) {
        Err(e) => ActionSpec::SkipFrame(e),
        Ok(cd) => {
            if cd.0 == "put"@ {
                match payload_emoji_spec(cd.1) {
                    Some(emoji) => ActionSpec::Publish(emoji),
                    None => ActionSpec::SkipPayload(PayloadError::Malformed),
                }
            } else if cd.0 == "keep-alive"@ {
                ActionSpec::KeepAlive
            } else {
                ActionSpec::Ignore(cd.0)
            }
        },
    }
}

/// The dispatcher's decision for one chunk, carrying owned values.
pub enum ChunkAction {
    /// A `put` command with its decoded emoji.
    Publish { emoji: String },
    /// A liveness signal; nothing to publish, nothing to look up.
    KeepAlive,
    /// An unrecognized command; nothing to publish.
    Ignore { command: String },
    /// The chunk is not a valid frame.
    SkipFrame { error: FrameError },
    /// The `put` payload did not decode.
    SkipPayload { error: PayloadError },
}

/// The executable action carries exactly the values that the spec-level
/// decision names.
pub open spec fn action_matches(a: ChunkAction, s: ActionSpec) -> bool {
    match (a, s) {
        (ChunkAction::Publish { emoji }, ActionSpec::Publish(e)) => emoji@ == e,
        (ChunkAction::KeepAlive, ActionSpec::KeepAlive) => true,
        (ChunkAction::Ignore { command }, ActionSpec::Ignore(c)) => command@ == c,
        (ChunkAction::SkipFrame { error }, ActionSpec::SkipFrame(e)) => error == e,
        (ChunkAction::SkipPayload { error }, ActionSpec::SkipPayload(e)) => error == e,
        _ => false,
    }
}

/// Decides what to do with one chunk, exactly as [`plan_chunk_spec`]
/// states. Every failure is a skip of this one chunk; nothing here is
/// fatal to the bridge.
pub fn plan_chunk(chunk: &str) -> (out: ChunkAction)
    ensures
        action_matches(out, plan_chunk_spec(chunk@)),
{
    let ev = match parse_frame(chunk) {
        Ok(ev) => ev,
        Err(e) => {
            return ChunkAction::SkipFrame { error: e };
        },
    };
    if str_eq(ev.command.as_str(), "put") {
        match parse_payload(ev.data.as_str()) {
            Ok(emoji) => ChunkAction::Publish { emoji },
            Err(e) => ChunkAction::SkipPayload { error: e },
        }
    } else if str_eq(ev.command.as_str(), "keep-alive") {
        ChunkAction::KeepAlive
    } else {
        ChunkAction::Ignore { command: ev.command }
    }
}

/// A `keep-alive` command is a pure liveness signal: for every chunk whose
/// frame carries that command, the dispatcher decides to do nothing at
/// all — no publish and no asset lookup follow from it.
pub proof fn lemma_keep_alive_is_noop(chunk: Seq<char>, cd: (Seq<char>, Seq<char>))
    requires
        parse_frame_spec(chunk) == Ok::<(Seq<char>, Seq<char>), FrameError>(cd),
        cd.0 == "keep-alive"@,
    ensures
        plan_chunk_spec(chunk) == ActionSpec::KeepAlive,
{
    reveal_strlit("put");
    reveal_strlit("keep-alive");
    assert(cd.0 != "put"@) by {
        assert("put"@.len() == 3 && "keep-alive"@.len() == 10);
    }
}

/// An unrecognized command is logged and ignored, never an error: for
/// every chunk whose frame carries a command other than `put` and
/// `keep-alive`, the dispatcher decides to ignore it — no publish follows.
pub proof fn lemma_unknown_command_ignored(chunk: Seq<char>, cd: (Seq<char>, Seq<char>))
    requires
        parse_frame_spec(chunk) == Ok::<(Seq<char>, Seq<char>), FrameError>(cd),
        cd.0 != "put"@,
        cd.0 != "keep-alive"@,
    ensures
        plan_chunk_spec(chunk) == ActionSpec::Ignore(cd.0),
{
}

/// What decoding a raw byte chunk as UTF-8 with replacement yields. The
/// outcome is a function of the bytes alone.
pub uninterp spec fn lossy_decode_spec(bytes: Seq<u8>) -> Seq<char>;

/// Relies on `String::from_utf8_lossy`: decodes bytes as UTF-8, replacing
/// invalid sequences instead of failing; valid UTF-8 comes through
/// unchanged.
#[verifier::external_body]
fn utf8_lossy(bytes: &Vec<u8>) -> (out: String)
    ensures
        out@ == lossy_decode_spec(bytes@),
        vstd::utf8::valid_utf8(bytes@) ==> vstd::utf8::encode_utf8(out@) == bytes@,
{
    String::from_utf8_lossy(bytes).into_owned()
}

/// Decides what to do with one raw byte chunk: the bytes are decoded as
/// UTF-8 (lossily — a bad byte sequence is replaced, never fatal) and the
/// decoded text is dispatched as [`plan_chunk_spec`] states.
pub fn plan_chunk_bytes(bytes: &Vec<u8>) -> (out: ChunkAction)
    ensures
        action_matches(out, plan_chunk_spec(lossy_decode_spec(bytes@))),
{
    let text = utf8_lossy(bytes);
    plan_chunk(text.as_str())
}

/// The decimal digit character for a value below 10.
pub open spec fn dec_digit(d: int) -> char {
    if d == 0 {
        '0'
    } else if d == 1 {
        '1'
    } else if d == 2 {
        '2'
    } else if d == 3 {
        '3'
    } else if d == 4 {
        '4'
    } else if d == 5 {
        '5'
    } else if d == 6 {
        '6'
    } else if d == 7 {
        '7'
    } else if d == 8 {
        '8'
    } else {
        '9'
    }
}

/// The decimal form of `n`, most significant digit first.
pub open spec fn dec_str_spec(n: nat) -> Seq<char>
    decreases n,
{
    if n < 10 {
        seq![dec_digit(n as int)]
    } else {
        dec_str_spec(n / 10) + seq![dec_digit((n % 10) as int)]
    }
}

/// The exec form of [`dec_digit`].
fn dec_digit_char(d: u32) -> (c: char)
    requires
        d < 10,
    ensures
        c == dec_digit(d as int),
{
    if d == 0 {
        '0'
    } else if d == 1 {
        '1'
    } else if d == 2 {
        '2'
    } else if d == 3 {
        '3'
    } else if d == 4 {
        '4'
    } else if d == 5 {
        '5'
    } else if d == 6 {
        '6'
    } else if d == 7 {
        '7'
    } else if d == 8 {
        '8'
    } else {
        '9'
    }
}

/// Appends the decimal form of `n` to `s`.
fn append_dec(s: &mut String, n: u32)
    ensures
        final (s)@ == old(s)@ + dec_str_spec(n as nat),
    decreases n,
{
    if n >= 10 {
        append_dec(s, n / 10);
        push_char(s, dec_digit_char(n % 10));
        proof {
            assert(s@ =~= old(s)@ + dec_str_spec(n as nat));
        }
    } else {
        push_char(s, dec_digit_char(n));
        proof {
            assert(s@ =~= old(s)@ + dec_str_spec(n as nat));
        }
    }
}

/// The broker topic for one resolution: `ledmoji/{width}x{height}`.
pub open spec fn topic_spec(width: u32, height: u32) -> Seq<char> {
    "ledmoji/"@ + dec_str_spec(width as nat) + "x"@ + dec_str_spec(height as nat)
}

/// Builds the broker topic for one resolution.
pub fn topic_for(width: u32, height: u32) -> (out: String)
    ensures
        out@ == topic_spec(width, height),
{
    let mut out = String::from_str("ledmoji/");
    append_dec(&mut out, width);
    out.append("x");
    append_dec(&mut out, height);
    proof {
        assert(out@ =~= topic_spec(width, height));
    }
    out
}

/// One retained broker publish: the topic for a resolution and the raw
/// RGB payload for it.
pub struct BrokerMessage {
    pub topic: String,
    pub payload: Vec<u8>,
}

/// Transcodes a decoded bitmap to every configured resolution, in the
/// configured order: each entry yields exactly one message whose topic
/// names the resolution and whose payload is the nearest-neighbour resize
/// of the source composited onto the background — `width * height * 3`
/// opaque bytes.
pub fn transcode_all(src: &RgbaBitmap, sizes: &Vec<(u32, u32)>, bg: &Rgb) -> (out: Vec<
    BrokerMessage,
>)
    requires
        src.wf(),
        src.width >= 1,
        src.height >= 1,
        forall|i: int|
            0 <= i < sizes@.len() ==> (#[trigger] sizes@[i]).0 >= 1 && sizes@[i].1 >= 1 && 4 * (
            sizes@[i].0 as int) * (sizes@[i].1 as int) <= usize::MAX as int,
    ensures
        out@.len() == sizes@.len(),
        forall|i: int|
            0 <= i < out@.len() ==> {
                let w = (#[trigger] sizes@[i]).0;
                let h = sizes@[i].1;
                &&& out@[i].topic@ == topic_spec(w, h)
                &&& out@[i].payload@ == composite_spec(resized_of(*src, w, h), *bg)
                &&& out@[i].payload@.len() == 3 * (w as int) * (h as int)
            },
{
    let mut out: Vec<BrokerMessage> = Vec::new();
    let mut i: usize = 0;
    while i < sizes.len()
        invariant
            0 <= i <= sizes@.len(),
            src.wf(),
            src.width >= 1,
            src.height >= 1,
            forall|j: int|
                0 <= j < sizes@.len() ==> (#[trigger] sizes@[j]).0 >= 1 && sizes@[j].1 >= 1 && 4 * (
                sizes@[j].0 as int) * (sizes@[j].1 as int) <= usize::MAX as int,
            out@.len() == i,
            forall|j: int|
                0 <= j < out@.len() ==> {
                    let w = (#[trigger] sizes@[j]).0;
                    let h = sizes@[j].1;
                    &&& out@[j].topic@ == topic_spec(w, h)
                    &&& out@[j].payload@ == composite_spec(resized_of(*src, w, h), *bg)
                    &&& out@[j].payload@.len() == 3 * (w as int) * (h as int)
                },
        decreases sizes@.len() - i,
    {
        let (w, h) = sizes[i];
        let resized = nearest_resize(src, w, h);
        let payload = composite_to_rgb(&resized, bg);
        let topic = topic_for(w, h);
        out.push(BrokerMessage { topic, payload });
        i = i + 1;
    }
    out
}

/// Transcodes an encoded image held in memory to every configured
/// resolution: the bytes decode to the RGBA bitmap that
/// [`decoded_rgba_of`] names, and each resolution yields one message
/// whose payload is that bitmap resized and composited, exactly as
/// [`transcode_all`] states. Fails only when the bytes do not decode to
/// a bitmap with at least one pixel in each direction.
pub fn transcode_image_bytes(bytes: &Vec<u8>, sizes: &Vec<(u32, u32)>, bg: &Rgb) -> (out: Result<
    Vec<BrokerMessage>,
    DecodeError,
>)
    requires
        forall|i: int|
            0 <= i < sizes@.len() ==> (#[trigger] sizes@[i]).0 >= 1 && sizes@[i].1 >= 1 && 4 * (
            sizes@[i].0 as int) * (sizes@[i].1 as int) <= usize::MAX as int,
    ensures
        match out {
            Ok(msgs) => {
                &&& decoded_rgba_of(bytes@) matches Some(d) && d.0 >= 1 && d.1 >= 1
                &&& msgs@.len() == sizes@.len()
                &&& forall|i: int|
                    0 <= i < msgs@.len() ==> {
                        let w = (#[trigger] sizes@[i]).0;
                        let h = sizes@[i].1;
                        let d = decoded_rgba_of(bytes@)->0;
                        &&& msgs@[i].topic@ == topic_spec(w, h)
                        &&& msgs@[i].payload@ == composite_spec(
                            resize_spec(d.0 as int, d.1 as int, d.2, w as int, h as int),
                            *bg,
                        )
                        &&& msgs@[i].payload@.len() == 3 * (w as int) * (h as int)
                    }
            },
            Err(e) => {
                &&& e == DecodeError::Invalid
                &&& (decoded_rgba_of(bytes@) is None || (decoded_rgba_of(bytes@) matches Some(d)
                    && (d.0 == 0 || d.1 == 0)))
            },
        },
{
    let bmp = match decode_rgba(bytes) {
        Ok(bmp) => bmp,
        Err(e) => {
            return Err(e);
        },
    };
    if bmp.width == 0 || bmp.height == 0 {
        return Err(DecodeError::Invalid);
    }
    Ok(transcode_all(&bmp, sizes, bg))
}

/// Why an emoji could not be turned into a bitmap.
#[derive(PartialEq, Eq, Structural, Clone, Copy, Debug)]
pub enum LoadError {
    /// No asset file exists for the emoji, even after the fallback.
    NotFound,
    /// The asset file exists but does not decode to a usable bitmap.
    Undecodable,
}

/// Vets a decode outcome for the pipeline: a successful decode with at
/// least one pixel in each direction passes through unchanged; an empty
/// bitmap or a failed decode becomes [`LoadError::Undecodable`]. This
/// fixes, for every value the decoder can hand back, what the loader
/// returns for it.
pub fn vet_decoded(r: Result<RgbaBitmap, DecodeError>) -> (out: Result<RgbaBitmap, LoadError>)
    ensures
        match r {
            Ok(b) => out == if b.width >= 1 && b.height >= 1 {
                Ok::<RgbaBitmap, LoadError>(b)
            } else {
                Err::<RgbaBitmap, LoadError>(LoadError::Undecodable)
            },
            Err(_) => out == Err::<RgbaBitmap, LoadError>(LoadError::Undecodable),
        },
{
    match r {
        Ok(b) => {
            if b.width >= 1 && b.height >= 1 {
                Ok(b)
            } else {
                Err(LoadError::Undecodable)
            }
        },
        Err(_) => Err(LoadError::Undecodable),
    }
}

/// Resolves an emoji to its asset file and decodes it into a bitmap with
/// at least one pixel in each direction, vetting the decode outcome
/// exactly as [`vet_decoded`] states. Which branch succeeds depends on
/// the disk; a miss or an unreadable file is a recoverable skip of this
/// event, and an empty emoji is always a miss.
pub fn load_emoji_image(dir: &str, emoji: &str) -> (out: Result<RgbaBitmap, LoadError>)
    ensures
        match out {
            Ok(b) => b.wf() && b.width >= 1 && b.height >= 1,
            Err(e) => e == LoadError::NotFound || e == LoadError::Undecodable,
        },
        emoji@.len() == 0 ==> out == Err::<RgbaBitmap, LoadError>(LoadError::NotFound),
{
    let path = match crate::assets::resolve_asset(dir, emoji) {
        Ok(p) => p,
        Err(AssetError::NotFound) => {
            return Err(LoadError::NotFound);
        },
    };
    vet_decoded(open_rgba(&path))
}

/// The publish cursor for one accepted event: the planned messages in
/// resolution order and how many have been attempted so far.
pub struct PublishSequence {
    pub messages: Vec<BrokerMessage>,
    pub next: usize,
}

impl PublishSequence {
    /// The cursor never passes the end of the plan.
    pub open spec fn wf(&self) -> bool {
        self.next <= self.messages@.len()
    }

    /// What recording an outcome does: the cursor moves to the next
    /// resolution and the planned messages stay exactly as they were —
    /// whether the publish succeeded or failed.
    pub open spec fn record_spec(self, success: bool) -> PublishSequence {
        PublishSequence { messages: self.messages, next: (self.next + 1) as usize }
    }

    /// Starts a sequence over a plan, at its first message.
    pub fn new(messages: Vec<BrokerMessage>) -> (out: Self)
        ensures
            out.messages == messages,
            out.next == 0,
            out.wf(),
    {
        PublishSequence { messages, next: 0 }
    }

    /// The message to publish next, if any remain.
    pub fn current(&self) -> (out: Option<&BrokerMessage>)
        requires
            self.wf(),
        ensures
            match out {
                Some(m) => self.next < self.messages@.len() && *m == self.messages@[self.next as int],
                None => self.next == self.messages@.len(),
            },
    {
        if self.next < self.messages.len() {
            Some(&self.messages[self.next])
        } else {
            None
        }
    }

    /// Records the outcome of publishing the current message and moves to
    /// the next one. Success and failure advance alike: one failed
    /// resolution is dropped and never blocks the remaining ones.
    pub fn record(&mut self, success: bool)
        requires
            old(self).wf(),
            old(self).next < old(self).messages@.len(),
        ensures
            *final (self) == old(self).record_spec(success),
            final (self).messages == old(self).messages,
            final (self).next == old(self).next + 1,
            final (self).wf(),
    {
        let total = self.messages.len();
        proof {
            assert(self.next < total);
        }
        self.next = self.next + 1;
    }
}

/// A broker failure for one resolution does not change what happens to
/// the rest: recording a failed publish leaves the sequence in exactly
/// the state that recording a successful one would, so every remaining
/// resolution is still attempted in order.
pub proof fn lemma_publish_failure_is_skip_only(s: PublishSequence)
    ensures
        s.record_spec(false) == s.record_spec(true),
{
}

/// The reconnect delay before attempt `attempt` (counted from zero):
/// doubling backoff from the minimum, capped. Never below the minimum —
/// a reconnect loop must not spin without a pause.
pub open spec fn reconnect_delay_spec(attempt: u32) -> u64 {
    if attempt == 0 {
        1000
    } else if attempt == 1 {
        2000
    } else if attempt == 2 {
        4000
    } else if attempt == 3 {
        8000
    } else if attempt == 4 {
        16000
    } else {
        32000
    }
}

/// The delay in milliseconds to sleep before reconnect attempt `attempt`.
pub fn reconnect_delay_ms(attempt: u32) -> (out: u64)
    ensures
        out == reconnect_delay_spec(attempt),
        MIN_RECONNECT_DELAY_MS <= out <= MAX_RECONNECT_DELAY_MS,
{
    if attempt == 0 {
        1000
    } else if attempt == 1 {
        2000
    } else if attempt == 2 {
        4000
    } else if attempt == 3 {
        8000
    } else if attempt == 4 {
        16000
    } else {
        32000
    }
}

/// The resolutions this bridge always produces, in publish order.
pub fn default_sizes() -> (out: Vec<(u32, u32)>)
    ensures
        out@.len() == 2,
        out@[0] == (32u32, 32u32),
        out@[1] == (128u32, 128u32),
{
    let mut out: Vec<(u32, u32)> = Vec::new();
    out.push((32, 32));
    out.push((128, 128));
    out
}

/// The fixed opaque background the pixels are composited onto: black.
pub fn default_background() -> (out: Rgb)
    ensures
        out.r == 0 && out.g == 0 && out.b == 0,
{
    Rgb { r: 0, g: 0, b: 0 }
}

} // verus!
