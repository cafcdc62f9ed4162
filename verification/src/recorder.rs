//! When a recording ends, and what is done then.

use crate::daemon::{elapsed, RecordResult, RecordSignal};
use vstd::prelude::*;

verus! {

/// What is heard from the daemon.
#[derive(Debug, Clone, Copy, PartialEq, Eq, Structural)]
pub enum SignalPoll {
    Nothing,
    Received(RecordSignal),
    /// The daemon is gone.
    Disconnected,
}

/// What a recording does next.
#[derive(Debug, Clone, Copy, PartialEq, Eq, Structural)]
pub enum RecorderStep {
    /// Record on.
    Continue,
    /// End, and hand the audio over.
    Finish,
    /// End, and report that it was cancelled.
    Cancel,
    /// End without a word.
    Abandon,
}

/// What is heard from the daemon makes the recording do this.
pub open spec fn step_on_signal(poll: SignalPoll) -> RecorderStep {
    match poll {
        SignalPoll::Nothing => RecorderStep::Continue,
        SignalPoll::Received(RecordSignal::Stop) => RecorderStep::Finish,
        SignalPoll::Received(RecordSignal::Cancel) => RecorderStep::Cancel,
        SignalPoll::Disconnected => RecorderStep::Abandon,
    }
}

/// What is heard from the daemon makes the recording do this.
pub fn on_signal(poll: SignalPoll) -> (r: RecorderStep)
    ensures
        r == step_on_signal(poll),
{
    match poll {
        SignalPoll::Nothing => RecorderStep::Continue,
        SignalPoll::Received(RecordSignal::Stop) => RecorderStep::Finish,
        SignalPoll::Received(RecordSignal::Cancel) => RecorderStep::Cancel,
        SignalPoll::Disconnected => RecorderStep::Abandon,
    }
}

/// How a recording ended.
#[derive(Debug, Clone, Copy, PartialEq, Eq, Structural)]
pub enum RecordingEnd {
    /// The microphone could not be opened.
    CaptureFailed,
    /// The audio is handed over.
    Finished,
    /// It was cancelled.
    Cancelled,
    /// The daemon is gone.
    Abandoned,
}

/// How the recording ended, if it did.
pub open spec fn end_of(step: RecorderStep) -> Option<RecordingEnd> {
    match step {
        RecorderStep::Continue => None,
        RecorderStep::Finish => Some(RecordingEnd::Finished),
        RecorderStep::Cancel => Some(RecordingEnd::Cancelled),
        RecorderStep::Abandon => Some(RecordingEnd::Abandoned),
    }
}

impl RecorderStep {
    /// How the recording ended, if it did.
    pub fn end(self) -> (r: Option<RecordingEnd>)
        ensures
            r == end_of(self),
            r == match self {
                RecorderStep::Continue => None::<RecordingEnd>,
                RecorderStep::Finish => Some(RecordingEnd::Finished),
                RecorderStep::Cancel => Some(RecordingEnd::Cancelled),
                RecorderStep::Abandon => Some(RecordingEnd::Abandoned),
            },
    {
        match self {
            RecorderStep::Continue => None,
            RecorderStep::Finish => Some(RecordingEnd::Finished),
            RecorderStep::Cancel => Some(RecordingEnd::Cancelled),
            RecorderStep::Abandon => Some(RecordingEnd::Abandoned),
        }
    }
}

/// What is left to do when a recording has ended.
#[derive(Debug)]
pub struct Closing<A, D> {
    /// Turn the speakers on again.
    pub unmute: bool,
    /// Send this to the daemon.
    pub result: Option<RecordResult<A, D>>,
}

/// What is sent to the daemon when a recording has ended.
pub open spec fn result_of<A, D>(end: RecordingEnd, audio: A, duration: D) -> Option<
    RecordResult<A, D>,
> {
    match end {
        RecordingEnd::Finished => Some(RecordResult::AudioReady { audio, duration }),
        RecordingEnd::CaptureFailed => Some(RecordResult::Cancelled { audio }),
        RecordingEnd::Cancelled => Some(RecordResult::Cancelled { audio }),
        RecordingEnd::Abandoned => None,
    }
}

/// What is left to do when a recording has ended. However it ended, the speakers
/// are turned on again if they were muted for it. A recording that never began
/// counts as cancelled; if the daemon is gone, nothing is sent.
pub fn close_recording<A, D>(end: RecordingEnd, muted: bool, audio: A, duration: D) -> (r: Closing<
    A,
    D,
>)
    ensures
        r.unmute == muted,
        r.result == result_of(end, audio, duration),
        r.result == match end {
            RecordingEnd::Finished => Some(RecordResult::AudioReady { audio, duration }),
            RecordingEnd::CaptureFailed => Some(RecordResult::Cancelled { audio }),
            RecordingEnd::Cancelled => Some(RecordResult::Cancelled { audio }),
            RecordingEnd::Abandoned => None,
        },
{
    let result = match end {
        RecordingEnd::Finished => Some(RecordResult::AudioReady { audio, duration }),
        RecordingEnd::CaptureFailed => Some(RecordResult::Cancelled { audio }),
        RecordingEnd::Cancelled => Some(RecordResult::Cancelled { audio }),
        RecordingEnd::Abandoned => None,
    };
    Closing { unmute: muted, result }
}

/// Listens for silence. Times are nanoseconds since some fixed moment.
#[derive(Debug, Clone, Copy)]
pub struct SilenceWatch {
    /// When speech was last heard, or recording began.
    pub last_speech_at: u128,
}

/// It has been silent for the whole timeout; a timeout of 0 never passes.
pub open spec fn silent_too_long(last_speech_at: u128, now: u128, timeout_secs: u64) -> bool {
    timeout_secs > 0 && elapsed(last_speech_at, now) >= timeout_secs * 1_000_000_000
}

impl SilenceWatch {
    /// Recording begins.
    pub fn new(now: u128) -> (r: SilenceWatch)
        ensures
            r.last_speech_at == now,
    {
        SilenceWatch { last_speech_at: now }
    }

    /// When speech was last heard, after more audio has come in.
    pub open spec fn heard(self, speech: bool, now: u128) -> SilenceWatch {
        if speech {
            SilenceWatch { last_speech_at: now }
        } else {
            self
        }
    }

    /// What the recording does after more audio has come in.
    pub open spec fn step(self, speech: bool, now: u128, timeout_secs: u64) -> RecorderStep {
        if silent_too_long(self.heard(speech, now).last_speech_at, now, timeout_secs) {
            RecorderStep::Finish
        } else {
            RecorderStep::Continue
        }
    }

    /// More audio has come in, with speech in it or not.
    pub fn on_audio(&mut self, speech: bool, now: u128, timeout_secs: u64) -> (r: RecorderStep)
        ensures
            *final(self) == old(self).heard(speech, now),
            r == old(self).step(speech, now, timeout_secs),
            final(self).last_speech_at == if speech {
                now
            } else {
                old(self).last_speech_at
            },
            r == if silent_too_long(final(self).last_speech_at, now, timeout_secs) {
                RecorderStep::Finish
            } else {
                RecorderStep::Continue
            },
    {
        if speech {
            self.last_speech_at = now;
        }
        let limit: u128 = timeout_secs as u128 * 1_000_000_000;
        if timeout_secs > 0 && now >= self.last_speech_at && now - self.last_speech_at >= limit {
            RecorderStep::Finish
        } else {
            RecorderStep::Continue
        }
    }
}

/// A recording never ends by itself on audio with speech in it.
pub proof fn law_speech_keeps_recording(now: u128, timeout_secs: u64)
    ensures
        !silent_too_long(now, now, timeout_secs),
{
}

/// Silence that is too long at one moment is too long at every later one.
pub proof fn law_silence_only_grows(last_speech_at: u128, now: u128, later: u128, timeout_secs: u64)
    requires
        now <= later,
        silent_too_long(last_speech_at, now, timeout_secs),
    ensures
        silent_too_long(last_speech_at, later, timeout_secs),
{
}

/// A recording ends by itself exactly when the whole timeout has passed since
/// speech was last heard, to the nanosecond; a timeout of 0 never passes.
pub proof fn law_silence_ends_a_recording(last_speech_at: u128, now: u128, timeout_secs: u64)
    ensures
        silent_too_long(last_speech_at, now, timeout_secs) <==> timeout_secs > 0 && now
            - last_speech_at >= timeout_secs * 1_000_000_000,
{
}

/// A recording goes on exactly while nothing is heard from the daemon; it hands
/// over its audio when told to stop, reports that it was cancelled when told that,
/// and says nothing when the daemon is gone.
pub proof fn law_signals_to_a_recording(poll: SignalPoll)
    ensures
        step_on_signal(poll) == RecorderStep::Continue <==> poll == SignalPoll::Nothing,
        step_on_signal(poll) == RecorderStep::Finish <==> poll == SignalPoll::Received(
            RecordSignal::Stop,
        ),
        step_on_signal(poll) == RecorderStep::Cancel <==> poll == SignalPoll::Received(
            RecordSignal::Cancel,
        ),
        step_on_signal(poll) == RecorderStep::Abandon <==> poll == SignalPoll::Disconnected,
{
}

/// What the daemon hears when a recording has ended: the audio and its duration if
/// it was finished; that it was cancelled, with the audio, if it was or never
/// began; nothing if the daemon is gone.
pub proof fn law_what_is_heard_of_the_end<A, D>(end: RecordingEnd, audio: A, duration: D)
    ensures
        ({
            let r = result_of(end, audio, duration);
            &&& r is None <==> end == RecordingEnd::Abandoned
            &&& (r is Some && r->0 is AudioReady) <==> end == RecordingEnd::Finished
            &&& r matches Some(RecordResult::AudioReady { audio: a, duration: d }) ==> a == audio
                && d == duration
            &&& r matches Some(RecordResult::Cancelled { audio: a }) ==> a == audio
        }),
{
}

/// A recording is over exactly when its step says anything but to go on, and how
/// it ended is what the step says.
pub proof fn law_how_a_recording_ends(step: RecorderStep)
    ensures
        end_of(step) is None <==> step == RecorderStep::Continue,
        end_of(step) == Some(RecordingEnd::Finished) <==> step == RecorderStep::Finish,
        end_of(step) == Some(RecordingEnd::Cancelled) <==> step == RecorderStep::Cancel,
        end_of(step) == Some(RecordingEnd::Abandoned) <==> step == RecorderStep::Abandon,
{
}

/// Audio with speech in it keeps a recording going and starts the silence anew; audio
/// without keeps the moment of the last speech, and ends the recording exactly if that is
/// as long ago as the limit, if there is one.
pub proof fn law_audio(watch: SilenceWatch, now: u128, timeout_secs: u64)
    ensures
        watch.heard(true, now).last_speech_at == now,
        watch.heard(false, now) == watch,
        watch.step(true, now, timeout_secs) == RecorderStep::Continue,
        watch.step(false, now, timeout_secs) == RecorderStep::Finish <==> timeout_secs > 0 && now
            >= watch.last_speech_at + timeout_secs * 1_000_000_000,
        watch.step(false, now, timeout_secs) != RecorderStep::Finish ==> watch.step(
            false,
            now,
            timeout_secs,
        ) == RecorderStep::Continue,
{
}

} // verus!
