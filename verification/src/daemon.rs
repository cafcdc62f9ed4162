//! The daemon's decisions: what keys, recordings and the passing of time make
//! it do.

use crate::config::{HistoryConfig, HotkeysConfig, HotkeysView, RecordingMode};
use crate::listener::{
    is_same_hotkey, own_repaste, same_ascii_hotkey, same_hotkey, HotkeyEvent,
};
use crate::text::all_ascii;
use vstd::prelude::*;

verus! {

// ---------------------------------------------------------------------------
// Sharing one key for recording and re-pasting
// ---------------------------------------------------------------------------

/// One key both records and re-pastes, under whatever names.
pub open spec fn shares_key(h: HotkeysView) -> bool {
    h.repaste.len() > 0 && same_hotkey(h.repaste, h.transcribe)
}

/// One key both records and re-pastes, where both are named in ASCII.
pub open spec fn shares_ascii_key(h: HotkeysView) -> bool {
    h.repaste.len() > 0 && same_ascii_hotkey(h.repaste, h.transcribe)
}

/// One key both records and re-pastes, but has to be held to record.
pub open spec fn repaste_conflict(h: HotkeysView) -> bool {
    shares_key(h) && h.mode == RecordingMode::PushToTalk
}

/// Whether one key both records and re-pastes.
pub fn repaste_shares_key(hotkeys: &HotkeysConfig) -> (r: bool)
    ensures
        r == shares_key(hotkeys@),
        all_ascii(hotkeys@.repaste) && all_ascii(hotkeys@.transcribe) ==> r == shares_ascii_key(
            hotkeys@,
        ),
{
    !hotkeys.repaste.as_str().is_empty() && is_same_hotkey(
        hotkeys.repaste.as_str(),
        hotkeys.transcribe.as_str(),
    )
}

/// Refuses keys that the daemon cannot serve, with a message for the user.
pub fn validate_hotkeys(hotkeys: &HotkeysConfig) -> (r: Result<(), String>)
    ensures
        r is Err <==> repaste_conflict(hotkeys@),
        all_ascii(hotkeys@.repaste) && all_ascii(hotkeys@.transcribe) ==> (r is Err
            <==> shares_ascii_key(hotkeys@) && hotkeys@.mode == RecordingMode::PushToTalk),
        r matches Err(message) ==> message@ == "Invalid config: hotkeys.repaste is \""@
            + hotkeys@.repaste
            + "\" (same as transcribe) but hotkeys.mode is push_to_talk — hold is already used for recording. Use a different repaste key or switch to toggle mode."@,
{
    if repaste_shares_key(hotkeys) && hotkeys.mode == RecordingMode::PushToTalk {
        let mut m = "Invalid config: hotkeys.repaste is \"".to_owned();
        m.append(hotkeys.repaste.as_str());
        m.append(
            "\" (same as transcribe) but hotkeys.mode is push_to_talk — hold is already used for recording. Use a different repaste key or switch to toggle mode.",
        );
        Err(m)
    } else {
        Ok(())
    }
}

/// A key that re-pastes is either shared with the transcribe key or has an event
/// of its own, never both.
pub proof fn law_shared_key_has_no_event_of_its_own(h: HotkeysView)
    requires
        h.repaste.len() > 0,
    ensures
        shares_key(h) <==> own_repaste(h.transcribe, Some(h.repaste)) is None,
{
}

// ---------------------------------------------------------------------------
// Recordings
// ---------------------------------------------------------------------------

/// What a recording in progress is told.
#[derive(Debug, Clone, Copy, PartialEq, Eq, Structural)]
pub enum RecordSignal {
    /// End, and hand the audio over.
    Stop,
    /// End, and drop the audio.
    Cancel,
}

/// A recording in progress.
#[derive(Debug, Clone, Copy, PartialEq, Eq, Structural)]
pub struct ActiveRecording {
    /// It has been told to end.
    pub signalled: bool,
}

impl ActiveRecording {
    /// Tells the recording to end, unless it has been told already. Says what
    /// is to be sent.
    pub fn signal(&mut self, signal: RecordSignal) -> (r: Option<RecordSignal>)
        ensures
            final(self).signalled,
            r == if old(self).signalled {
                None::<RecordSignal>
            } else {
                Some(signal)
            },
    {
        if self.signalled {
            None
        } else {
            self.signalled = true;
            Some(signal)
        }
    }
}

/// What a recording ends with; `A` is the audio, `D` its duration.
#[derive(Debug)]
pub enum RecordResult<A, D> {
    /// The audio is ready to be transcribed.
    AudioReady { audio: A, duration: D },
    /// The recording was cancelled.
    Cancelled { audio: A },
}

/// What is heard from a recording in progress.
#[derive(Debug)]
pub enum RecordPoll<A, D> {
    /// It has ended.
    Ended(RecordResult<A, D>),
    /// Nothing yet.
    Pending,
    /// It is gone.
    Disconnected,
}

/// What is to be done about it.
#[derive(Debug)]
pub enum AfterRecording<A, D> {
    Transcribe { audio: A, duration: D },
    FileCancelled { audio: A },
    ReportLoss,
    Nothing,
}

// ---------------------------------------------------------------------------
// The state
// ---------------------------------------------------------------------------

/// How long the shared key is held, in nanoseconds, before it re-pastes.
pub const HOLD_THRESHOLD_NANOS: u128 = 500_000_000;

/// What the daemon keeps in mind. Times are nanoseconds since some fixed moment.
#[derive(Debug, Clone, Copy)]
pub struct DaemonState {
    /// The recording in progress.
    pub active: Option<ActiveRecording>,
    /// When the transcribe key went down, while it is down.
    pub key_down_at: Option<u128>,
    /// Nothing was being recorded when the key last went down.
    pub key_down_was_idle: bool,
    /// The key that is down has re-pasted already.
    pub hold_repaste_fired: bool,
    /// The key that is down has stopped a recording.
    pub stopped_recording_on_down: bool,
}

/// What the daemon does next.
#[derive(Debug, Clone, Copy, PartialEq, Eq, Structural)]
pub enum DaemonAction {
    StartRecording,
    Send(RecordSignal),
    Repaste,
    OpenImageEditor,
}

/// The state in which nothing has happened yet.
pub open spec fn fresh() -> DaemonState {
    DaemonState {
        active: None,
        key_down_at: None,
        key_down_was_idle: false,
        hold_repaste_fired: false,
        stopped_recording_on_down: false,
    }
}

/// The recording in progress, after it has been told to end.
pub open spec fn signalled(active: Option<ActiveRecording>) -> Option<ActiveRecording> {
    match active {
        Some(_) => Some(ActiveRecording { signalled: true }),
        None => None,
    }
}

/// What telling the recording in progress to end comes to.
pub open spec fn sending(active: Option<ActiveRecording>, signal: RecordSignal) -> Option<
    DaemonAction,
> {
    match active {
        Some(rec) => if rec.signalled {
            None
        } else {
            Some(DaemonAction::Send(signal))
        },
        None => None,
    }
}

/// A recording that has just begun.
pub open spec fn begun() -> Option<ActiveRecording> {
    Some(ActiveRecording { signalled: false })
}

/// The time from `since` to `now`.
pub open spec fn elapsed(since: u128, now: u128) -> nat {
    if now >= since {
        (now - since) as nat
    } else {
        0
    }
}

impl DaemonState {
    /// The transcribe key goes down. A shared key stops a recording at once but
    /// starts none yet; else the key starts one, or stops one in toggle mode.
    pub open spec fn key_down(self, shared: bool, mode: RecordingMode, now: u128) -> (
        DaemonState,
        Option<DaemonAction>,
    ) {
        let s = DaemonState {
            key_down_at: Some(now),
            key_down_was_idle: self.active is None,
            hold_repaste_fired: false,
            ..self
        };
        if shared {
            (
                DaemonState {
                    active: signalled(self.active),
                    stopped_recording_on_down: self.active is Some,
                    ..s
                },
                sending(self.active, RecordSignal::Stop),
            )
        } else if self.active is None {
            (DaemonState { active: begun(), ..s }, Some(DaemonAction::StartRecording))
        } else if mode == RecordingMode::Toggle {
            (
                DaemonState { active: signalled(self.active), ..s },
                sending(self.active, RecordSignal::Stop),
            )
        } else {
            (s, None)
        }
    }

    /// The transcribe key goes up. A shared key that neither stopped a
    /// recording nor re-pasted was tapped and starts one; in push-to-talk mode
    /// the recording stops.
    pub open spec fn key_up(self, shared: bool, mode: RecordingMode) -> (
        DaemonState,
        Option<DaemonAction>,
    ) {
        let s = DaemonState { key_down_at: None, hold_repaste_fired: false, ..self };
        if shared && mode == RecordingMode::Toggle {
            if !self.hold_repaste_fired && !self.stopped_recording_on_down && self.active is None {
                (
                    DaemonState { active: begun(), stopped_recording_on_down: false, ..s },
                    Some(DaemonAction::StartRecording),
                )
            } else {
                (DaemonState { stopped_recording_on_down: false, ..s }, None)
            }
        } else if mode == RecordingMode::PushToTalk {
            (
                DaemonState { active: signalled(self.active), ..s },
                sending(self.active, RecordSignal::Stop),
            )
        } else {
            (s, None)
        }
    }

    /// A key does something.
    pub open spec fn after_event(
        self,
        event: HotkeyEvent,
        shared: bool,
        mode: RecordingMode,
        now: u128,
    ) -> (DaemonState, Option<DaemonAction>) {
        match event {
            HotkeyEvent::TranscribeDown => self.key_down(shared, mode, now),
            HotkeyEvent::TranscribeUp => self.key_up(shared, mode),
            HotkeyEvent::Cancel => (
                DaemonState { active: signalled(self.active), ..self },
                sending(self.active, RecordSignal::Cancel),
            ),
            HotkeyEvent::Repaste => (self, Some(DaemonAction::Repaste)),
            HotkeyEvent::OpenImageEditor => (self, Some(DaemonAction::OpenImageEditor)),
        }
    }

    /// A shared key that went down while nothing was being recorded has been
    /// held long enough to re-paste, and has not done so yet.
    pub open spec fn hold_is_due(self, shared: bool, now: u128) -> bool {
        &&& shared
        &&& self.key_down_was_idle
        &&& !self.hold_repaste_fired
        &&& self.key_down_at matches Some(since) && elapsed(since, now) >= HOLD_THRESHOLD_NANOS
    }

    /// Time passes.
    pub open spec fn after_tick(self, shared: bool, now: u128) -> (
        DaemonState,
        Option<DaemonAction>,
    ) {
        if self.hold_is_due(shared, now) {
            (DaemonState { hold_repaste_fired: true, ..self }, Some(DaemonAction::Repaste))
        } else {
            (self, None)
        }
    }

    /// Something is heard from the recording in progress.
    pub open spec fn after_poll<A, D>(self, poll: RecordPoll<A, D>) -> (
        DaemonState,
        AfterRecording<A, D>,
    ) {
        let ended = DaemonState { active: None, ..self };
        if self.active is None {
            (self, AfterRecording::Nothing)
        } else {
            match poll {
                RecordPoll::Ended(RecordResult::AudioReady { audio, duration }) => (
                    ended,
                    AfterRecording::Transcribe { audio, duration },
                ),
                RecordPoll::Ended(RecordResult::Cancelled { audio }) => (
                    ended,
                    AfterRecording::FileCancelled { audio },
                ),
                RecordPoll::Disconnected => (ended, AfterRecording::ReportLoss),
                RecordPoll::Pending => (self, AfterRecording::Nothing),
            }
        }
    }

    /// The state before anything happens.
    pub fn new() -> (r: DaemonState)
        ensures
            r == fresh(),
    {
        DaemonState {
            active: None,
            key_down_at: None,
            key_down_was_idle: false,
            hold_repaste_fired: false,
            stopped_recording_on_down: false,
        }
    }

    /// Tells the recording in progress to end.
    fn signal_active(&mut self, signal: RecordSignal) -> (r: Option<DaemonAction>)
        ensures
            *final(self) == (DaemonState { active: signalled(old(self).active), ..*old(self) }),
            r == sending(old(self).active, signal),
    {
        match self.active {
            Some(rec) => {
                let mut rec = rec;
                let to_send = rec.signal(signal);
                self.active = Some(rec);
                match to_send {
                    Some(s) => Some(DaemonAction::Send(s)),
                    None => None,
                }
            },
            None => None,
        }
    }

    /// Starts a recording.
    fn begin(&mut self) -> (r: Option<DaemonAction>)
        ensures
            *final(self) == (DaemonState { active: begun(), ..*old(self) }),
            r == Some(DaemonAction::StartRecording),
    {
        self.active = Some(ActiveRecording { signalled: false });
        Some(DaemonAction::StartRecording)
    }

    fn on_key_down(&mut self, shared: bool, mode: RecordingMode, now: u128) -> (r: Option<
        DaemonAction,
    >)
        ensures
            (*final(self), r) == old(self).key_down(shared, mode, now),
    {
        self.key_down_at = Some(now);
        self.key_down_was_idle = self.active.is_none();
        self.hold_repaste_fired = false;
        if shared {
            self.stopped_recording_on_down = self.active.is_some();
            self.signal_active(RecordSignal::Stop)
        } else if self.active.is_none() {
            self.begin()
        } else if mode == RecordingMode::Toggle {
            self.signal_active(RecordSignal::Stop)
        } else {
            None
        }
    }

    fn on_key_up(&mut self, shared: bool, mode: RecordingMode) -> (r: Option<DaemonAction>)
        ensures
            (*final(self), r) == old(self).key_up(shared, mode),
    {
        let fired = self.hold_repaste_fired;
        let stopped = self.stopped_recording_on_down;
        self.key_down_at = None;
        self.hold_repaste_fired = false;
        if shared && mode == RecordingMode::Toggle {
            self.stopped_recording_on_down = false;
            if !fired && !stopped && self.active.is_none() {
                self.begin()
            } else {
                None
            }
        } else if mode == RecordingMode::PushToTalk {
            self.signal_active(RecordSignal::Stop)
        } else {
            None
        }
    }

    /// A key does something. Says what the daemon does about it.
    pub fn on_event(
        &mut self,
        event: HotkeyEvent,
        shared: bool,
        mode: RecordingMode,
        now: u128,
    ) -> (r: Option<DaemonAction>)
        ensures
            (*final(self), r) == old(self).after_event(event, shared, mode, now),
    {
        match event {
            HotkeyEvent::TranscribeDown => self.on_key_down(shared, mode, now),
            HotkeyEvent::TranscribeUp => self.on_key_up(shared, mode),
            HotkeyEvent::Cancel => self.signal_active(RecordSignal::Cancel),
            HotkeyEvent::Repaste => Some(DaemonAction::Repaste),
            HotkeyEvent::OpenImageEditor => Some(DaemonAction::OpenImageEditor),
        }
    }

    /// Time passes. Says what the daemon does about it.
    pub fn on_tick(&mut self, shared: bool, now: u128) -> (r: Option<DaemonAction>)
        ensures
            (*final(self), r) == old(self).after_tick(shared, now),
    {
        if shared && self.key_down_was_idle && !self.hold_repaste_fired {
            if let Some(since) = self.key_down_at {
                if now >= since && now - since >= HOLD_THRESHOLD_NANOS {
                    self.hold_repaste_fired = true;
                    return Some(DaemonAction::Repaste);
                }
            }
        }
        None
    }

    /// Something is heard from the recording in progress. As soon as it has
    /// ended, the next one may begin.
    pub fn on_recording<A, D>(&mut self, poll: RecordPoll<A, D>) -> (r: AfterRecording<A, D>)
        ensures
            (*final(self), r) == old(self).after_poll(poll),
            old(self).active is None ==> r is Nothing && *final(self) == *old(self),
            old(self).active is Some ==> match poll {
                RecordPoll::Ended(RecordResult::AudioReady { audio, duration }) => r == (
                AfterRecording::Transcribe { audio, duration }) && *final(self) == (DaemonState {
                    active: None,
                    ..*old(self)
                }),
                RecordPoll::Ended(RecordResult::Cancelled { audio }) => r == (
                AfterRecording::<A, D>::FileCancelled { audio }) && *final(self) == (DaemonState {
                    active: None,
                    ..*old(self)
                }),
                RecordPoll::Disconnected => r is ReportLoss && *final(self) == (DaemonState {
                    active: None,
                    ..*old(self)
                }),
                RecordPoll::Pending => r is Nothing && *final(self) == *old(self),
            },
    {
        if self.active.is_none() {
            return AfterRecording::Nothing;
        }
        match poll {
            RecordPoll::Ended(RecordResult::AudioReady { audio, duration }) => {
                self.active = None;
                AfterRecording::Transcribe { audio, duration }
            },
            RecordPoll::Ended(RecordResult::Cancelled { audio }) => {
                self.active = None;
                AfterRecording::FileCancelled { audio }
            },
            RecordPoll::Disconnected => {
                self.active = None;
                AfterRecording::ReportLoss
            },
            RecordPoll::Pending => AfterRecording::Nothing,
        }
    }

    /// Whether a changed configuration may take effect now.
    pub fn may_reload(&self) -> (r: bool)
        ensures
            r == (self.active is None),
    {
        self.active.is_none()
    }
}

// ---------------------------------------------------------------------------
// What becomes of a transcript
// ---------------------------------------------------------------------------

/// One thing to do with a recording that has ended. Each is tried even if one
/// before it fails.
#[derive(Debug)]
pub enum FollowUp {
    /// Paste this text.
    Paste(String),
    /// File the audio with this text. The duration is given by the bits of a
    /// floating-point number.
    Save { text: String, duration_bits: u64, cancelled: bool },
    /// Warn that nothing was understood.
    ReportEmpty,
    /// Delete what the history does not keep.
    Prune,
}

/// The values of a [`FollowUp`].
pub ghost enum FollowUpView {
    Paste(Seq<char>),
    Save { text: Seq<char>, duration_bits: u64, cancelled: bool },
    ReportEmpty,
    Prune,
}

impl View for FollowUp {
    type V = FollowUpView;

    open spec fn view(&self) -> FollowUpView {
        match self {
            FollowUp::Paste(text) => FollowUpView::Paste(text@),
            FollowUp::Save { text, duration_bits, cancelled } => FollowUpView::Save {
                text: text@,
                duration_bits: *duration_bits,
                cancelled: *cancelled,
            },
            FollowUp::ReportEmpty => FollowUpView::ReportEmpty,
            FollowUp::Prune => FollowUpView::Prune,
        }
    }
}

/// The views of the things to do.
pub open spec fn follow_ups(steps: Seq<FollowUp>) -> Seq<FollowUpView> {
    steps.map_values(|f: FollowUp| f@)
}

/// A transcript is pasted and filed, unless it is empty; then the history is
/// pruned.
pub open spec fn done_steps(text: Seq<char>, duration_bits: u64) -> Seq<FollowUpView> {
    if text.len() > 0 {
        seq![
            FollowUpView::Paste(text),
            FollowUpView::Save { text, duration_bits, cancelled: false },
            FollowUpView::Prune,
        ]
    } else {
        seq![FollowUpView::ReportEmpty, FollowUpView::Prune]
    }
}

/// A cancelled recording is filed without a text or a duration, if the
/// configuration asks for it and there is any audio; then the history is
/// pruned.
pub open spec fn cancelled_steps(save_cancelled: bool, samples: nat) -> Seq<FollowUpView> {
    if save_cancelled && samples > 0 {
        seq![
            FollowUpView::Save { text: Seq::empty(), duration_bits: 0, cancelled: true },
            FollowUpView::Prune,
        ]
    } else {
        seq![FollowUpView::Prune]
    }
}

/// What is done, in this order, when a recording has been transcribed.
pub fn handle_done(text: &str, duration_bits: u64) -> (r: Vec<FollowUp>)
    ensures
        follow_ups(r@) == done_steps(text@, duration_bits),
{
    let mut steps: Vec<FollowUp> = Vec::new();
    if text.is_empty() {
        steps.push(FollowUp::ReportEmpty);
    } else {
        steps.push(FollowUp::Paste(text.to_owned()));
        steps.push(FollowUp::Save { text: text.to_owned(), duration_bits, cancelled: false });
    }
    steps.push(FollowUp::Prune);
    assert(follow_ups(steps@) =~= done_steps(text@, duration_bits));
    steps
}

/// What is done, in this order, when a recording of that many samples has been
/// cancelled.
pub fn handle_cancelled(config: &HistoryConfig, samples: usize) -> (r: Vec<FollowUp>)
    ensures
        follow_ups(r@) == cancelled_steps(config@.save_cancelled, samples as nat),
{
    let mut steps: Vec<FollowUp> = Vec::new();
    if config.save_cancelled && samples > 0 {
        steps.push(FollowUp::Save { text: String::new(), duration_bits: 0, cancelled: true });
    }
    steps.push(FollowUp::Prune);
    assert(follow_ups(steps@) =~= cancelled_steps(config@.save_cancelled, samples as nat));
    steps
}

// ---------------------------------------------------------------------------
// Laws
// ---------------------------------------------------------------------------

/// A recording begins only while there is none.
pub proof fn law_one_recording_at_a_time(
    s: DaemonState,
    event: HotkeyEvent,
    shared: bool,
    mode: RecordingMode,
    now: u128,
)
    requires
        s.after_event(event, shared, mode, now).1 == Some(DaemonAction::StartRecording),
    ensures
        s.active is None,
        s.after_event(event, shared, mode, now).0.active == begun(),
{
}

/// A recording is told to end only while it is in progress and has not been
/// told before, and then it has been told: so no recording is told twice.
pub proof fn law_signal_sent_once(
    s: DaemonState,
    event: HotkeyEvent,
    shared: bool,
    mode: RecordingMode,
    now: u128,
    signal: RecordSignal,
)
    requires
        s.after_event(event, shared, mode, now).1 == Some(DaemonAction::Send(signal)),
    ensures
        s.active == begun(),
        s.after_event(event, shared, mode, now).0.active == Some(
            ActiveRecording { signalled: true },
        ),
{
}

/// No key ends a recording by itself: a recording in progress stays in
/// progress, and once told to end it stays told, until it is heard to have ended.
pub proof fn law_keys_keep_recording(
    s: DaemonState,
    event: HotkeyEvent,
    shared: bool,
    mode: RecordingMode,
    now: u128,
)
    requires
        s.active is Some,
    ensures
        s.after_event(event, shared, mode, now).0.active is Some,
        s.active->0.signalled ==> s.after_event(event, shared, mode, now).0.active->0.signalled,
        s.after_tick(shared, now).0.active == s.active,
{
}

/// Toggle mode with a key of its own: one press starts a recording, the next
/// one stops it, and the releases do nothing.
pub proof fn law_toggle(s: DaemonState, t1: u128, t2: u128)
    requires
        s.active is None,
    ensures
        ({
            let m = RecordingMode::Toggle;
            let (s1, a1) = s.key_down(false, m, t1);
            let (s2, a2) = s1.key_up(false, m);
            let (s3, a3) = s2.key_down(false, m, t2);
            let (s4, a4) = s3.key_up(false, m);
            &&& a1 == Some(DaemonAction::StartRecording)
            &&& a2 is None
            &&& a3 == Some(DaemonAction::Send(RecordSignal::Stop))
            &&& a4 is None
        }),
{
}

/// Push-to-talk mode: recording lasts from the press to the release.
pub proof fn law_push_to_talk(s: DaemonState, t: u128)
    requires
        s.active is None,
    ensures
        ({
            let m = RecordingMode::PushToTalk;
            let (s1, a1) = s.key_down(false, m, t);
            let (s2, a2) = s1.key_up(false, m);
            &&& a1 == Some(DaemonAction::StartRecording)
            &&& a2 == Some(DaemonAction::Send(RecordSignal::Stop))
        }),
{
}

/// A shared key that is let go before the threshold was tapped: it starts a
/// recording and does not re-paste, however often time is looked at meanwhile.
pub proof fn law_tap_records(s: DaemonState, down: u128, seen: u128)
    requires
        s.active is None,
        elapsed(down, seen) < HOLD_THRESHOLD_NANOS,
    ensures
        ({
            let m = RecordingMode::Toggle;
            let (s1, a1) = s.key_down(true, m, down);
            let (s2, a2) = s1.after_tick(true, seen);
            let (s3, a3) = s2.key_up(true, m);
            &&& a1 is None
            &&& a2 is None
            &&& s2 == s1
            &&& a3 == Some(DaemonAction::StartRecording)
        }),
{
}

/// A shared key that is held past the threshold while nothing is recorded
/// re-pastes once, and starts no recording when it is let go.
pub proof fn law_hold_repastes_once(s: DaemonState, down: u128, seen: u128, later: u128)
    requires
        s.active is None,
        elapsed(down, seen) >= HOLD_THRESHOLD_NANOS,
    ensures
        ({
            let m = RecordingMode::Toggle;
            let (s1, a1) = s.key_down(true, m, down);
            let (s2, a2) = s1.after_tick(true, seen);
            let (s3, a3) = s2.after_tick(true, later);
            let (s4, a4) = s3.key_up(true, m);
            &&& a1 is None
            &&& a2 == Some(DaemonAction::Repaste)
            &&& a3 is None
            &&& a4 is None
            &&& s4.active is None
        }),
{
}

/// A shared key that goes down during a recording stops it, and neither
/// re-pastes nor starts another one, even if the recording has ended before
/// the key goes up.
pub proof fn law_shared_key_stops(s: DaemonState, down: u128, seen: u128, ended: bool)
    requires
        s.active == begun(),
    ensures
        ({
            let m = RecordingMode::Toggle;
            let (s1, a1) = s.key_down(true, m, down);
            let (s2, a2) = s1.after_tick(true, seen);
            let s3 = if ended {
                DaemonState { active: None, ..s2 }
            } else {
                s2
            };
            let (s4, a4) = s3.key_up(true, m);
            &&& a1 == Some(DaemonAction::Send(RecordSignal::Stop))
            &&& a2 is None
            &&& a4 is None
        }),
{
}

/// What can happen to the daemon.
pub ghost enum DaemonInput {
    /// A key does something, at that time.
    Key(HotkeyEvent, u128),
    /// That time has come.
    Tick(u128),
    /// The recording in progress, if there is one, is heard to have ended.
    Ended,
}

impl DaemonState {
    /// Something happens.
    pub open spec fn after_input(self, input: DaemonInput, shared: bool, mode: RecordingMode) -> (
        DaemonState,
        Option<DaemonAction>,
    ) {
        match input {
            DaemonInput::Key(event, now) => self.after_event(event, shared, mode, now),
            DaemonInput::Tick(now) => self.after_tick(shared, now),
            DaemonInput::Ended => (DaemonState { active: None, ..self }, None),
        }
    }
}

/// The state after all that has happened since the beginning.
pub open spec fn state_after(
    inputs: Seq<DaemonInput>,
    shared: bool,
    mode: RecordingMode,
) -> DaemonState
    decreases inputs.len(),
{
    if inputs.len() == 0 {
        fresh()
    } else {
        state_after(inputs.drop_last(), shared, mode).after_input(inputs.last(), shared, mode).0
    }
}

/// How many recordings have begun.
pub open spec fn starts(inputs: Seq<DaemonInput>, shared: bool, mode: RecordingMode) -> nat
    decreases inputs.len(),
{
    if inputs.len() == 0 {
        0
    } else {
        let before = state_after(inputs.drop_last(), shared, mode);
        starts(inputs.drop_last(), shared, mode) + (if before.after_input(
            inputs.last(),
            shared,
            mode,
        ).1 == Some(DaemonAction::StartRecording) {
            1nat
        } else {
            0nat
        })
    }
}

/// How many recordings have ended.
pub open spec fn ends(inputs: Seq<DaemonInput>, shared: bool, mode: RecordingMode) -> nat
    decreases inputs.len(),
{
    if inputs.len() == 0 {
        0
    } else {
        let before = state_after(inputs.drop_last(), shared, mode);
        ends(inputs.drop_last(), shared, mode) + (if inputs.last() is Ended && before.active
            is Some {
            1nat
        } else {
            0nat
        })
    }
}

/// How often a recording has been told to end.
pub open spec fn signals(inputs: Seq<DaemonInput>, shared: bool, mode: RecordingMode) -> nat
    decreases inputs.len(),
{
    if inputs.len() == 0 {
        0
    } else {
        let before = state_after(inputs.drop_last(), shared, mode);
        signals(inputs.drop_last(), shared, mode) + (if before.after_input(
            inputs.last(),
            shared,
            mode,
        ).1 is Some && before.after_input(inputs.last(), shared, mode).1->0 is Send {
            1nat
        } else {
            0nat
        })
    }
}

/// Whatever happens, recordings begin and end in turn: one more has begun than
/// has ended exactly while one is in progress. And no more are told to end than
/// have begun, one less while one is in progress that has not been told.
pub proof fn law_recordings_take_turns(
    inputs: Seq<DaemonInput>,
    shared: bool,
    mode: RecordingMode,
)
    ensures
        starts(inputs, shared, mode) == ends(inputs, shared, mode) + (if state_after(
            inputs,
            shared,
            mode,
        ).active is Some {
            1nat
        } else {
            0nat
        }),
        signals(inputs, shared, mode) + (if state_after(inputs, shared, mode).active == begun() {
            1nat
        } else {
            0nat
        }) <= starts(inputs, shared, mode),
    decreases inputs.len(),
{
    if inputs.len() > 0 {
        law_recordings_take_turns(inputs.drop_last(), shared, mode);
    }
}

/// Only a transcript with a text in it is pasted, once and before anything else;
/// whatever is filed is marked as cancelled just if it was; and the history is
/// pruned last.
pub proof fn law_recordings_are_followed_up(
    text: Seq<char>,
    duration_bits: u64,
    save_cancelled: bool,
    samples: nat,
)
    ensures
        ({
            let done = done_steps(text, duration_bits);
            let cancelled = cancelled_steps(save_cancelled, samples);
            &&& done.contains(FollowUpView::Paste(text)) <==> text.len() > 0
            &&& forall|i: int|
                0 <= i < done.len() ==> match #[trigger] done[i] {
                    FollowUpView::Paste(t) => t == text && i == 0,
                    FollowUpView::Save { cancelled, .. } => !cancelled,
                    _ => true,
                }
            &&& forall|i: int|
                0 <= i < cancelled.len() ==> match #[trigger] cancelled[i] {
                    FollowUpView::Paste(_) => false,
                    FollowUpView::Save { cancelled, .. } => cancelled,
                    _ => true,
                }
            &&& done.last() == FollowUpView::Prune
            &&& cancelled.last() == FollowUpView::Prune
        }),
{
    let done = done_steps(text, duration_bits);
    if text.len() > 0 {
        assert(done[0] == FollowUpView::Paste(text));
    }
}

/// What each key makes the daemon do, in every mode and whether or not the
/// transcribe key is shared. Only the cancel key cancels a recording, and only
/// the transcribe key starts or stops one: it stops one that has not been told
/// to end on its press, if it is shared or toggles, and on its release, if it is
/// held to talk; it starts one on its press if it is not shared, and on the
/// release of a tap if it is.
pub proof fn law_what_each_key_does(
    s: DaemonState,
    event: HotkeyEvent,
    shared: bool,
    mode: RecordingMode,
    now: u128,
)
    ensures
        ({
            let action = s.after_event(event, shared, mode, now).1;
            let down = event == HotkeyEvent::TranscribeDown;
            let up = event == HotkeyEvent::TranscribeUp;
            let untold = s.active matches Some(rec) && !rec.signalled;
            &&& action == Some(DaemonAction::Send(RecordSignal::Cancel)) <==> event
                == HotkeyEvent::Cancel && untold
            &&& action == Some(DaemonAction::Send(RecordSignal::Stop)) <==> untold && (down && (
            shared || mode == RecordingMode::Toggle) || up && mode == RecordingMode::PushToTalk)
            &&& action == Some(DaemonAction::StartRecording) <==> s.active is None && (down
                && !shared || up && shared && mode == RecordingMode::Toggle && !s.hold_repaste_fired
                && !s.stopped_recording_on_down)
            &&& action == Some(DaemonAction::Repaste) <==> event == HotkeyEvent::Repaste
            &&& action == Some(DaemonAction::OpenImageEditor) <==> event
                == HotkeyEvent::OpenImageEditor
        }),
{
}

/// What the daemon keeps in mind of a key: a recording that it starts is one that
/// has not been told to end, and one that it tells to end is one that has; a press
/// of the transcribe key is remembered with its time and with whether there was a
/// recording, until the release.
pub proof fn law_what_is_kept_of_a_key(
    s: DaemonState,
    event: HotkeyEvent,
    shared: bool,
    mode: RecordingMode,
    now: u128,
)
    ensures
        ({
            let (next, action) = s.after_event(event, shared, mode, now);
            let down = event == HotkeyEvent::TranscribeDown;
            let up = event == HotkeyEvent::TranscribeUp;
            &&& match action {
                Some(DaemonAction::StartRecording) => next.active is Some
                    && !next.active->0.signalled,
                Some(DaemonAction::Send(_)) => next.active is Some && next.active->0.signalled,
                _ => next.active == s.active,
            }
            &&& next.key_down_at == (if down {
                Some(now)
            } else if up {
                None
            } else {
                s.key_down_at
            })
            &&& next.key_down_was_idle == (if down {
                s.active is None
            } else {
                s.key_down_was_idle
            })
            &&& next.hold_repaste_fired == (!down && !up && s.hold_repaste_fired)
            &&& next.stopped_recording_on_down == (if down && shared {
                s.active is Some
            } else if up && shared && mode == RecordingMode::Toggle {
                false
            } else {
                s.stopped_recording_on_down
            })
        }),
{
}

/// As time passes, the daemon re-pastes exactly when a shared key that went down
/// while nothing was recorded has been down for half a second, and then keeps in
/// mind that it has; it does nothing else.
pub proof fn law_what_time_does(s: DaemonState, shared: bool, now: u128)
    ensures
        ({
            let (next, action) = s.after_tick(shared, now);
            let due = shared && s.key_down_was_idle && !s.hold_repaste_fired && (
            s.key_down_at matches Some(since) && now - since >= 500_000_000);
            &&& action == (if due {
                Some(DaemonAction::Repaste)
            } else {
                None
            })
            &&& next == (DaemonState { hold_repaste_fired: due || s.hold_repaste_fired, ..s })
        }),
{
}

/// The cancel key: whatever was done before, a recording that is in progress and
/// has not been told to end is cancelled, and no key after that is heard by it.
pub proof fn law_cancelled_is_cancelled(
    s: DaemonState,
    shared: bool,
    mode: RecordingMode,
    now: u128,
    event: HotkeyEvent,
    later: u128,
)
    requires
        s.active is Some,
        !s.active->0.signalled,
    ensures
        ({
            let (s1, a1) = s.after_event(HotkeyEvent::Cancel, shared, mode, now);
            let (_, a2) = s1.after_event(event, shared, mode, later);
            &&& a1 == Some(DaemonAction::Send(RecordSignal::Cancel))
            &&& !(a2 matches Some(DaemonAction::Send(_)))
            &&& a2 != Some(DaemonAction::StartRecording)
        }),
{
}

/// With a key of its own, a recording lasts from one press to the next if the
/// key toggles, and from the press to the release if it is held to talk.
pub proof fn law_recording_lasts(s: DaemonState, mode: RecordingMode, t1: u128, t2: u128, t3: u128)
    requires
        s.active is None,
    ensures
        ({
            let (s1, a1) = s.after_event(HotkeyEvent::TranscribeDown, false, mode, t1);
            let (s2, a2) = s1.after_event(HotkeyEvent::TranscribeUp, false, mode, t2);
            let (s3, a3) = s2.after_event(HotkeyEvent::TranscribeDown, false, mode, t3);
            let stop = Some(DaemonAction::Send(RecordSignal::Stop));
            &&& a1 == Some(DaemonAction::StartRecording)
            &&& a2 == if mode == RecordingMode::PushToTalk {
                stop
            } else {
                None
            }
            &&& a3 == if mode == RecordingMode::Toggle {
                stop
            } else {
                None
            }
        }),
{
}

/// What is done with a recording that has ended: a transcript with a text in it
/// is pasted and filed with that text and its duration; an empty one is reported;
/// a cancelled one is filed only if that is asked for and it has any audio, with
/// no text and no duration.
pub proof fn law_each_recording_is_followed_up(
    text: Seq<char>,
    duration_bits: u64,
    save_cancelled: bool,
    samples: nat,
)
    ensures
        ({
            let done = done_steps(text, duration_bits);
            let cancelled = cancelled_steps(save_cancelled, samples);
            let filed = FollowUpView::Save { text, duration_bits, cancelled: false };
            let kept = FollowUpView::Save {
                text: Seq::empty(),
                duration_bits: 0,
                cancelled: true,
            };
            &&& text.len() > 0 ==> done.len() == 3 && done[0] == FollowUpView::Paste(text)
                && done[1] == filed && done[2] == FollowUpView::Prune
            &&& text.len() == 0 ==> done.len() == 2 && done[0] == FollowUpView::ReportEmpty
                && done[1] == FollowUpView::Prune
            &&& save_cancelled && samples > 0 ==> cancelled.len() == 2 && cancelled[0] == kept
                && cancelled[1] == FollowUpView::Prune
            &&& !(save_cancelled && samples > 0) ==> cancelled.len() == 1 && cancelled[0]
                == FollowUpView::Prune
        }),
{
}

/// What is heard from a recording: its audio is transcribed, or kept aside if it
/// was cancelled; in either case, and if the recording is lost, the next one may
/// begin. Until then nothing changes.
pub proof fn law_what_a_recording_says<A, D>(s: DaemonState, poll: RecordPoll<A, D>)
    ensures
        ({
            let (next, r) = s.after_poll(poll);
            let heard = s.active is Some && !(poll is Pending);
            &&& next == (if heard {
                DaemonState { active: None, ..s }
            } else {
                s
            })
            &&& !heard ==> r is Nothing
            &&& heard ==> match poll {
                RecordPoll::Ended(RecordResult::AudioReady { audio: a, duration: d }) => r
                    matches AfterRecording::Transcribe { audio, duration } && audio == a && duration
                    == d,
                RecordPoll::Ended(RecordResult::Cancelled { audio: a }) => r
                    matches AfterRecording::FileCancelled { audio } && audio == a,
                _ => r is ReportLoss,
            }
        }),
{
}

/// A key is shared only if there is one to re-paste, and always if both settings are
/// written the same; and sharing is a conflict exactly if the key has to be held.
pub proof fn law_shared_keys(h: HotkeysView)
    ensures
        shares_key(h) ==> h.repaste.len() > 0,
        shares_ascii_key(h) ==> h.repaste.len() > 0,
        h.repaste.len() > 0 && h.repaste == h.transcribe ==> shares_key(h) && shares_ascii_key(h),
        h.repaste.len() > 0 ==> shares_key(h) == crate::listener::same_hotkey(
            h.transcribe,
            h.repaste,
        ),
        repaste_conflict(h) <==> shares_key(h) && h.mode != RecordingMode::Toggle,
{
    crate::listener::law_same_hotkey(h.repaste, h.transcribe);
}

/// Before anything has happened nothing comes of time, and there is nothing to cancel. A
/// key that does not re-paste starts a recording when it goes down and does nothing when
/// it goes up; a shared one starts one when it goes up, unless it has to be held.
pub proof fn law_fresh(shared: bool, mode: RecordingMode, now: u128)
    ensures
        fresh().after_tick(shared, now) == (fresh(), None::<DaemonAction>),
        fresh().after_event(HotkeyEvent::TranscribeUp, shared, mode, now).1 == if shared && mode
            == RecordingMode::Toggle {
            Some(DaemonAction::StartRecording)
        } else {
            None
        },
        fresh().after_event(HotkeyEvent::Cancel, shared, mode, now).1 is None,
        !shared ==> fresh().after_event(HotkeyEvent::TranscribeDown, shared, mode, now).1 == Some(
            DaemonAction::StartRecording,
        ),
        fresh().active is None,
{
}

} // verus!
