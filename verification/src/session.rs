//! A live transcription: what is decoded when, and what is printed of the result.
//!
//! Audio arrives in chunks of 16-bit samples and collects in a rolling buffer. From time to time
//! the most recent part of the buffer is decoded. Of each transcription only what goes beyond the
//! previous one is printed.
//!
//! Times are in nanoseconds of a clock of the caller's.

use crate::settings::{usable_rate, EngineSettings, MAX_BUFFER_SECS};
use crate::text::{
    common_prefix, common_prefix_len, contents, join, joined, lemma_common_prefix,
};
use vstd::prelude::*;
use vstd::slice::slice_subrange;
use vstd::string::*;
use vstd::utf8::encode_utf8;

verus! {

/// The least time between the end of a decode and the next one, in milliseconds.
pub const DECODE_INTERVAL_MS: u128 = 150;

/// The same in nanoseconds.
pub const DECODE_INTERVAL_NS: u128 = DECODE_INTERVAL_MS * 1_000_000;

/// How much audio is decoded at a time.
pub const DECODE_SLICE_SECS: usize = 2;

/// The state of a live transcription.
pub struct CaptureSession {
    sample_rate: usize,
    max_samples: usize,
    samples: Vec<i16>,
    last_printed_len: usize,
    last_output: String,
    last_decode_ns: u128,
}

/// The contents of a [`CaptureSession`].
pub struct CaptureSessionView {
    pub sample_rate: usize,
    pub max_samples: usize,
    /// The audio in the buffer, oldest first.
    pub samples: Seq<i16>,
    /// The length of the last transcription in bytes, or zero if audio was dropped since.
    pub last_printed_len: usize,
    /// The last transcription.
    pub last_output: Seq<char>,
    /// When the last decode ended, or the session began.
    pub last_decode_ns: u128,
}

/// Whether a session's buffer holds as many seconds of audio as it is meant to.
pub open spec fn session_wf(session: CaptureSessionView) -> bool {
    &&& usable_rate(session.sample_rate)
    &&& session.max_samples == session.sample_rate * MAX_BUFFER_SECS
}

/// Whether it is time to decode: enough time has passed since the last decode, and at least half a
/// second of audio is there.
pub open spec fn decode_is_due(session: CaptureSessionView, now_ns: u128) -> bool {
    &&& now_ns - session.last_decode_ns >= DECODE_INTERVAL_NS
    &&& session.samples.len() >= session.sample_rate / 2
}

/// The last samples of the audio, at most as many as asked for.
pub open spec fn latest(samples: Seq<i16>, count: int) -> Seq<i16> {
    if samples.len() > count {
        samples.skip(samples.len() - count)
    } else {
        samples
    }
}

/// The part of the audio that a decode takes.
pub open spec fn decode_window(samples: Seq<i16>, sample_rate: usize) -> Seq<i16> {
    latest(samples, DECODE_SLICE_SECS * sample_rate)
}

/// What is new in a transcription after the one before: what follows their common prefix.
pub open spec fn new_tail(text: Seq<char>, last_output: Seq<char>) -> Seq<char> {
    text.skip(common_prefix(text, last_output) as int)
}

/// The session after a chunk of audio arrived.
pub open spec fn after_chunk(session: CaptureSessionView, chunk: Seq<i16>) -> CaptureSessionView {
    CaptureSessionView { samples: session.samples + chunk, ..session }
}

/// The session after a transcription was taken over.
pub open spec fn after_transcription(
    session: CaptureSessionView,
    text: Seq<char>,
    now_ns: u128,
) -> CaptureSessionView {
    CaptureSessionView {
        last_printed_len: encode_utf8(text).len() as usize,
        last_output: text,
        last_decode_ns: now_ns,
        ..session
    }
}

/// The session after audio beyond the buffer's limit was dropped.
pub open spec fn after_trim(session: CaptureSessionView) -> CaptureSessionView {
    if session.samples.len() > session.max_samples {
        CaptureSessionView {
            samples: latest(session.samples, session.max_samples as int),
            last_printed_len: 0,
            ..session
        }
    } else {
        session
    }
}

/// The session after what is new in a transcription was printed.
pub open spec fn after_printing(
    session: CaptureSessionView,
    text: Seq<char>,
    now_ns: u128,
) -> CaptureSessionView {
    after_trim(after_transcription(session, text, now_ns))
}

impl View for CaptureSession {
    type V = CaptureSessionView;

    closed spec fn view(&self) -> CaptureSessionView {
        CaptureSessionView {
            sample_rate: self.sample_rate,
            max_samples: self.max_samples,
            samples: self.samples@,
            last_printed_len: self.last_printed_len,
            last_output: self.last_output@,
            last_decode_ns: self.last_decode_ns,
        }
    }
}

impl CaptureSession {
    /// The buffer's limit is that of the sample rate.
    pub open spec fn wf(&self) -> bool {
        session_wf(self@)
    }

    /// A session without audio, in which nothing has been printed, that begins now.
    pub fn new(settings: &EngineSettings, now_ns: u128) -> (session: Self)
        requires
            settings.wf(),
        ensures
            session.wf(),
            session@ == (CaptureSessionView {
                sample_rate: settings.sample_rate,
                max_samples: settings.max_samples,
                samples: Seq::empty(),
                last_printed_len: 0,
                last_output: Seq::empty(),
                last_decode_ns: now_ns,
            }),
    {
        CaptureSession {
            sample_rate: settings.sample_rate,
            max_samples: settings.max_samples,
            samples: Vec::new(),
            last_printed_len: 0,
            last_output: String::new(),
            last_decode_ns: now_ns,
        }
    }

    /// Adds a chunk of audio to the buffer. When a decode is due by now, returns the audio to
    /// decode.
    pub fn push_chunk(&mut self, chunk: &[i16], now_ns: u128) -> (due: Option<&[i16]>)
        requires
            old(self).wf(),
        ensures
            final(self).wf(),
            final(self)@ == after_chunk(old(self)@, chunk@),
            match due {
                Some(window) => {
                    &&& decode_is_due(final(self)@, now_ns)
                    &&& window@ == decode_window(final(self)@.samples, final(self)@.sample_rate)
                },
                None => !decode_is_due(final(self)@, now_ns),
            },
            due is Some <==> now_ns >= old(self)@.last_decode_ns + 150_000_000 && old(
                self,
            )@.samples.len() + chunk@.len() >= old(self)@.sample_rate / 2,
            match due {
                Some(window) => {
                    let audio = old(self)@.samples + chunk@;
                    &&& window@.len() == 2 * old(self)@.sample_rate || window@.len() == audio.len()
                    &&& window@.len() <= 2 * old(self)@.sample_rate
                    &&& window@.len() <= audio.len()
                    &&& forall|i: int|
                        0 <= i < window@.len() ==> #[trigger] window@[i] == audio[audio.len()
                            - window@.len() + i]
                },
                None => true,
            },
    {
        self.samples.extend_from_slice(chunk);
        assert(self.samples@ == old(self).samples@ + chunk@);
        let len = self.samples.len();
        if now_ns >= self.last_decode_ns && now_ns - self.last_decode_ns >= DECODE_INTERVAL_NS
            && len >= self.sample_rate / 2 {
            let limit = DECODE_SLICE_SECS * self.sample_rate;
            let slice_samples = if limit < len {
                limit
            } else {
                len
            };
            let window = slice_subrange(self.samples.as_slice(), len - slice_samples, len);
            assert(window@ == decode_window(self.samples@, self.sample_rate));
            Some(window)
        } else {
            None
        }
    }

    /// The text of a transcription, given its segments, and what of it is to be printed, if anything
    /// is. The session does not take the text over: that is for when it has been printed.
    pub fn new_text(&self, segments: &Vec<String>) -> (found: (String, Option<String>))
        ensures
            found.0@ == joined(contents(segments@)),
            match found.1 {
                Some(tail) => tail@.len() > 0 && tail@ == new_tail(found.0@, self@.last_output),
                None => new_tail(found.0@, self@.last_output).len() == 0,
            },
            found.0@.len() == segments@.fold_left(
                0int,
                |total: int, segment: String| total + segment@.len(),
            ),
            self@.last_output.len() == 0 && found.0@.len() > 0 ==> found.1 is Some
                && found.1->Some_0@ == found.0@,
    {
        let text = join(segments);
        let common = common_prefix_len(text.as_str(), self.last_output.as_str());
        let len = text.as_str().unicode_len();
        proof {
            lemma_common_prefix(text@, self.last_output@);
        }
        let tail = String::from(text.as_str().substring_char(common, len));
        assert(tail@ == text@.skip(common as int));
        if tail.as_str().is_empty() {
            (text, None)
        } else {
            (text, Some(tail))
        }
    }

    /// Takes over a text once what is new in it has been printed, which ends the decode, and drops
    /// the oldest audio where the buffer is over its limit.
    pub fn printed(&mut self, text: String, now_ns: u128)
        requires
            old(self).wf(),
        ensures
            final(self).wf(),
            final(self)@ == after_printing(old(self)@, text@, now_ns),
            final(self)@.last_output == text@,
            final(self)@.last_decode_ns == now_ns,
            old(self)@.samples.len() <= 3 * old(self)@.sample_rate ==> final(self)@.samples == old(
                self,
            )@.samples,
            old(self)@.samples.len() > 3 * old(self)@.sample_rate ==> final(self)@.samples == old(
                self,
            )@.samples.skip(old(self)@.samples.len() - 3 * old(self)@.sample_rate),
    {
        self.last_decode_ns = now_ns;
        self.last_printed_len = text.as_str().len();
        self.last_output = text;
        let len = self.samples.len();
        if len > self.max_samples {
            let kept = self.samples.split_off(len - self.max_samples);
            self.samples = kept;
            self.last_printed_len = 0;
            assert(self@.samples == latest(old(self)@.samples, self.max_samples as int));
        }
    }

    /// Ends a decode, given the text and whether what is new in it could be printed. If it could
    /// not, that error is the result, and the session stays as it was.
    pub fn conclude<E>(
        &mut self,
        text: String,
        outcome: Result<(), E>,
        now_ns: u128,
    ) -> (result: Result<(), E>)
        requires
            old(self).wf(),
        ensures
            final(self).wf(),
            result == outcome,
            final(self)@ == match outcome {
                Ok(_) => after_printing(old(self)@, text@, now_ns),
                Err(_) => old(self)@,
            },
    {
        match outcome {
            Ok(done) => {
                self.printed(text, now_ns);
                Ok(done)
            },
            Err(error) => Err(error),
        }
    }
}

/// A decode takes the last two seconds of the audio, or all of it if there is less: its window has
/// twice as many samples as the sample rate, unless the audio has fewer, and the audio ends with
/// it.
pub proof fn law_decode_takes_the_last_two_seconds(samples: Seq<i16>, sample_rate: usize)
    ensures
        ({
            let window = decode_window(samples, sample_rate);
            &&& samples.len() >= 2 * sample_rate ==> window.len() == 2 * sample_rate
            &&& samples.len() <= 2 * sample_rate ==> window.len() == samples.len()
            &&& window == samples.skip(samples.len() - window.len())
        }),
{
    if samples.len() <= 2 * sample_rate {
        assert(samples.skip(0) == samples);
    }
}

/// What is decoded does not depend on audio that is more than two seconds old: with two seconds of
/// audio after it, the window is those two seconds.
pub proof fn law_decode_forgets_older_audio(
    older: Seq<i16>,
    recent: Seq<i16>,
    sample_rate: usize,
)
    requires
        recent.len() == 2 * sample_rate,
    ensures
        decode_window(older + recent, sample_rate) == recent,
{
    assert((older + recent).skip(older.len() as int) == recent);
    if older.len() == 0 {
        assert(older + recent == recent);
    }
}

/// A decode is due from 150 milliseconds after the end of the last one on, as soon as there is half
/// a second of audio, and at no other time.
pub proof fn law_decode_waits_for_time_and_audio(session: CaptureSessionView, now_ns: u128)
    ensures
        decode_is_due(session, now_ns) <==> session.last_decode_ns + 150 * 1_000_000 <= now_ns
            && session.sample_rate <= 2 * session.samples.len() + 1,
{
}

/// A chunk of audio joins the buffer at its end, whole, and changes nothing else.
pub proof fn law_chunk_is_added_at_the_end(session: CaptureSessionView, chunk: Seq<i16>)
    ensures
        ({
            let after = after_chunk(session, chunk);
            &&& after.samples.len() == session.samples.len() + chunk.len()
            &&& after.samples.take(session.samples.len() as int) == session.samples
            &&& after.samples.skip(session.samples.len() as int) == chunk
            &&& after.sample_rate == session.sample_rate
            &&& after.max_samples == session.max_samples
            &&& after.last_printed_len == session.last_printed_len
            &&& after.last_output == session.last_output
            &&& after.last_decode_ns == session.last_decode_ns
        }),
{
    let after = after_chunk(session, chunk);
    assert(after.samples.take(session.samples.len() as int) == session.samples);
    assert(after.samples.skip(session.samples.len() as int) == chunk);
}

/// Two chunks are as good as one.
pub proof fn law_chunks_can_be_split(
    session: CaptureSessionView,
    first: Seq<i16>,
    second: Seq<i16>,
)
    ensures
        after_chunk(after_chunk(session, first), second) == after_chunk(session, first + second),
{
    assert(session.samples + first + second == session.samples + (first + second));
}

/// The buffer is meant to hold three seconds of audio.
pub proof fn law_buffer_is_for_three_seconds(session: CaptureSessionView)
    ensures
        session_wf(session) <==> usable_rate(session.sample_rate) && session.max_samples == 3
            * session.sample_rate,
{
}

/// Once a transcription is printed, it is the one that the next is compared with, the decode has
/// ended by then, and of the audio the last three seconds are left, or all of it if there is less.
/// The printed length is that of the transcription in bytes, unless audio was dropped.
pub proof fn law_printing_ends_the_decode(
    session: CaptureSessionView,
    text: Seq<char>,
    now_ns: u128,
)
    requires
        session_wf(session),
    ensures
        ({
            let after = after_printing(session, text, now_ns);
            let dropped = session.samples.len() - after.samples.len();
            &&& after.last_output == text
            &&& after.last_decode_ns == now_ns
            &&& after.sample_rate == session.sample_rate
            &&& after.max_samples == session.max_samples
            &&& after.samples == session.samples.skip(dropped)
            &&& session.samples.len() <= 3 * session.sample_rate ==> dropped == 0
            &&& session.samples.len() > 3 * session.sample_rate ==> after.samples.len() == 3
                * session.sample_rate
            &&& dropped == 0 ==> after.last_printed_len == encode_utf8(text).len() as usize
            &&& dropped > 0 ==> after.last_printed_len == 0
        }),
{
    let after = after_printing(session, text, now_ns);
    assert(after.samples == session.samples.skip(session.samples.len() - after.samples.len()));
}

/// One thing that happens in a session.
pub enum SessionStep {
    /// A chunk of audio arrived.
    Chunk(Seq<i16>),
    /// A transcription came back, and what was new in it was printed, which was done at this time.
    Printed { text: Seq<char>, at_ns: u128 },
}

/// The session after a series of steps.
pub open spec fn after_session_steps(
    session: CaptureSessionView,
    steps: Seq<SessionStep>,
) -> CaptureSessionView
    decreases steps.len(),
{
    if steps.len() == 0 {
        session
    } else {
        let reached = after_session_steps(session, steps.drop_last());
        match steps.last() {
            SessionStep::Chunk(chunk) => after_chunk(reached, chunk),
            SessionStep::Printed { text, at_ns } => after_printing(reached, text, at_ns),
        }
    }
}

/// All the audio of a series of steps.
pub open spec fn heard(steps: Seq<SessionStep>) -> Seq<i16>
    decreases steps.len(),
{
    if steps.len() == 0 {
        Seq::empty()
    } else {
        match steps.last() {
            SessionStep::Chunk(chunk) => heard(steps.drop_last()) + chunk,
            SessionStep::Printed { .. } => heard(steps.drop_last()),
        }
    }
}

/// The buffer holds the most recent audio: all of it as long as it is within the limit, and never
/// less than the limit.
pub proof fn law_buffer_holds_the_latest_audio(
    session: CaptureSessionView,
    steps: Seq<SessionStep>,
)
    requires
        session.samples.len() == 0,
    ensures
        ({
            let reached = after_session_steps(session, steps);
            &&& reached.samples.len() <= heard(steps).len()
            &&& reached.samples == latest(heard(steps), reached.samples.len() as int)
            &&& reached.samples.len() < session.max_samples ==> reached.samples == heard(steps)
            &&& reached.sample_rate == session.sample_rate
            &&& reached.max_samples == session.max_samples
        }),
    decreases steps.len(),
{
    if steps.len() > 0 {
        law_buffer_holds_the_latest_audio(session, steps.drop_last());
        let before = after_session_steps(session, steps.drop_last()).samples;
        let reached = after_session_steps(session, steps);
        let earlier = heard(steps.drop_last());
        assert(earlier == earlier.take(earlier.len() - before.len()) + before);
        assert(heard(steps) == heard(steps).take(heard(steps).len() - reached.samples.len())
            + reached.samples) by {
            match steps.last() {
                SessionStep::Chunk(chunk) => {
                    assert(heard(steps) == earlier.take(earlier.len() - before.len()) + (before
                        + chunk));
                    assert(heard(steps).take(heard(steps).len() - reached.samples.len())
                        == earlier.take(earlier.len() - before.len()));
                },
                SessionStep::Printed { text, at_ns } => {
                    assert forall|i: int| 0 <= i < reached.samples.len() implies reached.samples[i]
                        == earlier[earlier.len() - reached.samples.len() + i] by {
                        let k = before.len() - reached.samples.len() + i;
                        assert(before[k] == earlier[earlier.len() - before.len() + k]);
                    }
                },
            }
        }
        assert(reached.samples == latest(heard(steps), reached.samples.len() as int));
    }
}

/// Dropping old audio never changes what is decoded: at any time in a session, a decode is due, and
/// takes the audio that it takes, as if all the audio that was ever heard were still there.
pub proof fn law_trimming_does_not_affect_decoding(
    session: CaptureSessionView,
    steps: Seq<SessionStep>,
    now_ns: u128,
)
    requires
        session_wf(session),
        session.samples.len() == 0,
    ensures
        ({
            let reached = after_session_steps(session, steps);
            &&& decode_window(reached.samples, reached.sample_rate) == decode_window(
                heard(steps),
                session.sample_rate,
            )
            &&& decode_is_due(reached, now_ns) == decode_is_due(
                CaptureSessionView { samples: heard(steps), ..reached },
                now_ns,
            )
            &&& decode_window(reached.samples, reached.sample_rate) == (if heard(steps).len() > 2
                * session.sample_rate {
                heard(steps).skip(heard(steps).len() - 2 * session.sample_rate)
            } else {
                heard(steps)
            })
        }),
{
    law_buffer_holds_the_latest_audio(session, steps);
    let reached = after_session_steps(session, steps);
    assert(decode_window(reached.samples, reached.sample_rate) == decode_window(
        heard(steps),
        session.sample_rate,
    ));
}

/// After each decode the buffer is within its limit.
pub proof fn law_decode_bounds_the_buffer(
    session: CaptureSessionView,
    text: Seq<char>,
    now_ns: u128,
)
    ensures
        after_printing(session, text, now_ns).samples.len() <= session.max_samples,
{
}

/// When the last decode of a series of steps ended, or else the session's beginning.
pub open spec fn last_decode_end(session: CaptureSessionView, steps: Seq<SessionStep>) -> u128
    decreases steps.len(),
{
    if steps.len() == 0 {
        session.last_decode_ns
    } else {
        match steps.last() {
            SessionStep::Printed { text, at_ns } => at_ns,
            SessionStep::Chunk(_) => last_decode_end(session, steps.drop_last()),
        }
    }
}

/// Decodes keep their distance: at any time in a session, a decode that a chunk brings about begins
/// at least the decode interval after the end of the decode before, and the first one at least
/// that long after the beginning of the session.
pub proof fn law_decodes_keep_their_distance(
    session: CaptureSessionView,
    steps: Seq<SessionStep>,
    chunk: Seq<i16>,
    now_ns: u128,
)
    ensures
        after_session_steps(session, steps).last_decode_ns == last_decode_end(session, steps),
        decode_is_due(after_chunk(after_session_steps(session, steps), chunk), now_ns) ==> now_ns
            >= last_decode_end(session, steps) + DECODE_INTERVAL_NS,
    decreases steps.len(),
{
    if steps.len() > 0 {
        law_decodes_keep_their_distance(session, steps.drop_last(), chunk, now_ns);
    }
}

/// What is printed, after what the two transcriptions share, is the new transcription; and nothing
/// is printed just when the previous transcription already began with the new one.
pub proof fn law_printing_completes_the_text(text: Seq<char>, last_output: Seq<char>)
    ensures
        last_output.take(common_prefix(text, last_output) as int) + new_tail(text, last_output)
            == text,
        text.take(text.len() - new_tail(text, last_output).len()) == last_output.take(
            text.len() - new_tail(text, last_output).len(),
        ),
        new_tail(text, last_output).len() == 0 <==> text.is_prefix_of(last_output),
{
    lemma_common_prefix(text, last_output);
    let c = common_prefix(text, last_output) as int;
    assert(last_output.take(c) + new_tail(text, last_output) == text);
    if text.is_prefix_of(last_output) && c < text.len() {
        assert(text[c] == last_output[c]);
    }
    if c == text.len() {
        assert(text == last_output.take(c));
    }
}

/// What is new in a transcription is no less and no more than what goes beyond the text that both
/// it and the previous one begin with, given where the two part.
pub proof fn law_only_what_is_new_is_printed(
    shared: Seq<char>,
    old_rest: Seq<char>,
    new_rest: Seq<char>,
)
    requires
        old_rest.len() > 0 && new_rest.len() > 0 ==> old_rest[0] != new_rest[0],
    ensures
        new_tail(shared + new_rest, shared + old_rest) == new_rest,
{
    let text = shared + new_rest;
    let last = shared + old_rest;
    let n = shared.len() as int;
    lemma_common_prefix(text, last);
    let c = common_prefix(text, last) as int;
    if c < n {
        assert(text[c] == shared[c] && last[c] == shared[c]);
    }
    if c > n {
        assert(text.take(c)[n] == new_rest[0]);
        assert(last.take(c)[n] == old_rest[0]);
    }
    assert(text.skip(n) == new_rest);
}

/// The transcriptions among a series of steps.
pub open spec fn transcriptions(steps: Seq<SessionStep>) -> Seq<Seq<char>>
    decreases steps.len(),
{
    if steps.len() == 0 {
        Seq::empty()
    } else {
        match steps.last() {
            SessionStep::Printed { text, at_ns } => transcriptions(steps.drop_last()).push(text),
            SessionStep::Chunk(_) => transcriptions(steps.drop_last()),
        }
    }
}

/// What a session prints over a series of steps.
pub open spec fn output(session: CaptureSessionView, steps: Seq<SessionStep>) -> Seq<char>
    decreases steps.len(),
{
    if steps.len() == 0 {
        Seq::empty()
    } else {
        let reached = after_session_steps(session, steps.drop_last());
        match steps.last() {
            SessionStep::Printed { text, at_ns } => output(session, steps.drop_last()) + new_tail(
                text,
                reached.last_output,
            ),
            SessionStep::Chunk(_) => output(session, steps.drop_last()),
        }
    }
}

/// Whether each text begins with the one before it.
pub open spec fn growing(texts: Seq<Seq<char>>) -> bool {
    forall|i: int| 0 <= i < texts.len() - 1 ==> (#[trigger] texts[i]).is_prefix_of(texts[i + 1])
}

/// Recognized speech is printed incrementally: while each transcription continues the one before,
/// what a session has printed is the last transcription, each part of it printed once, whatever
/// audio came and went in between.
pub proof fn law_growing_text_is_printed_once(
    session: CaptureSessionView,
    steps: Seq<SessionStep>,
)
    requires
        session.last_output.len() == 0,
        growing(transcriptions(steps)),
    ensures
        output(session, steps) == after_session_steps(session, steps).last_output,
        transcriptions(steps).len() > 0 ==> output(session, steps) == transcriptions(steps).last(),
    decreases steps.len(),
{
    if steps.len() == 0 {
        assert(output(session, steps) == session.last_output);
    } else {
        let before = steps.drop_last();
        let texts = transcriptions(before);
        match steps.last() {
            SessionStep::Printed { text, at_ns } => {
                let all = transcriptions(steps);
                assert forall|i: int| 0 <= i < texts.len() - 1 implies (
                #[trigger] texts[i]).is_prefix_of(texts[i + 1]) by {
                    assert(all[i].is_prefix_of(all[i + 1]));
                }
                law_growing_text_is_printed_once(session, before);
                let last = after_session_steps(session, before).last_output;
                lemma_last_output(session, before);
                if texts.len() > 0 {
                    assert(all[texts.len() - 1].is_prefix_of(all[texts.len() as int]));
                }
                assert(last.is_prefix_of(text));
                law_printing_completes_the_text(text, last);
                lemma_common_prefix(text, last);
                let c = common_prefix(text, last) as int;
                if c < last.len() {
                    assert(text[c] == last[c]);
                }
                assert(last.take(c) == last);
            },
            SessionStep::Chunk(_) => {
                law_growing_text_is_printed_once(session, before);
            },
        }
    }
}

proof fn lemma_last_output(session: CaptureSessionView, steps: Seq<SessionStep>)
    ensures
        after_session_steps(session, steps).last_output == (if transcriptions(steps).len() > 0 {
            transcriptions(steps).last()
        } else {
            session.last_output
        }),
    decreases steps.len(),
{
    if steps.len() > 0 {
        lemma_last_output(session, steps.drop_last());
    }
}

} // verus!
