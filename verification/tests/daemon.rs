use quoteme::config::{Config, HistoryConfig, HotkeysConfig, RecordingMode};
use quoteme::daemon::{
    handle_cancelled, handle_done, repaste_shares_key, validate_hotkeys, ActiveRecording,
    AfterRecording, DaemonAction, DaemonState, FollowUp, RecordPoll, RecordResult, RecordSignal,
};
use quoteme::history::{cleanup, list_entries, save_entry, HistoryEntry};
use quoteme::listener::HotkeyEvent;
use quoteme::location::{log_path, pid_path, reload_path, Location};
use quoteme::moments::Timestamp;
use quoteme::pid::{already_running_message, parse_pid, pid_text, pid_to_probe};
use quoteme::recorder::{
    close_recording, on_signal, RecorderStep, RecordingEnd, SignalPoll, SilenceWatch,
};

const MS: u128 = 1_000_000;

/// A history in memory.
struct Memory {
    config: Config,
    entries: Vec<HistoryEntry>,
    pasted: Vec<String>,
    warnings: usize,
    now: i64,
}

impl Memory {
    fn new() -> Memory {
        Memory {
            config: Config::default(),
            entries: Vec::new(),
            pasted: Vec::new(),
            warnings: 0,
            now: 0,
        }
    }

    fn save(&mut self, text: &str, duration: f64, cancelled: bool) {
        self.now += 1;
        let moment = Timestamp { secs: self.now, nanos: 0 };
        let root = Location::new("/h".to_string());
        self.entries.push(save_entry(&root, moment, text, duration.to_bits(), cancelled).entry);
    }

    fn clean(&mut self) {
        let found: Vec<HistoryEntry> = self.entries.drain(..).collect();
        let listed = list_entries(found.into_iter().map(Some).collect());
        let moment = Timestamp { secs: self.now, nanos: 0 };
        let gone = cleanup(&self.config.history, &moment, &listed);
        self.entries = listed.into_iter().filter(|e| !gone.contains(&e.id)).collect();
    }

    fn perform(&mut self, steps: Vec<FollowUp>) {
        for step in steps {
            match step {
                FollowUp::Paste(text) => self.pasted.push(text),
                FollowUp::Save { text, duration_bits, cancelled } => {
                    self.save(&text, f64::from_bits(duration_bits), cancelled)
                }
                FollowUp::ReportEmpty => self.warnings += 1,
                FollowUp::Prune => self.clean(),
            }
        }
    }

    fn handle_done(&mut self, text: &str, duration: f64) {
        let steps = handle_done(text, duration.to_bits());
        self.perform(steps);
    }

    fn handle_cancelled(&mut self, audio: &[f32]) {
        let steps = handle_cancelled(&self.config.history, audio.len());
        self.perform(steps);
    }
}

// ---- a finished transcription ----

#[test]
fn handle_done_empty_text_does_not_save_history() {
    let mut m = Memory::new();
    m.handle_done("", 1.0);
    assert!(m.entries.is_empty());
}

#[test]
fn handle_done_nonempty_text_saves_history_entry() {
    let mut m = Memory::new();
    m.handle_done("hello world", 1.5);
    assert_eq!(m.entries.len(), 1);
    assert_eq!(m.entries[0].text, "hello world");
    assert!((f64::from_bits(m.entries[0].duration_bits) - 1.5).abs() < 1e-6);
    assert!(!m.entries[0].cancelled);
}

#[test]
fn handle_done_respects_max_recordings_cleanup() {
    let mut m = Memory::new();
    m.config.history.max_recordings = 2;
    for i in 0..3 {
        m.handle_done(&format!("text {}", i), 1.0);
    }
    assert_eq!(
        m.entries.len(),
        2,
        "cleanup after handle_done should cap at max_recordings"
    );
}

// ---- a cancelled recording ----

#[test]
fn handle_cancelled_save_false_does_not_save() {
    let mut m = Memory::new();
    m.config.history.save_cancelled = false;
    m.handle_cancelled(&[0.1_f32, 0.2]);
    assert!(m.entries.is_empty());
}

#[test]
fn handle_cancelled_save_true_saves_cancelled_entry() {
    let mut m = Memory::new();
    m.config.history.save_cancelled = true;
    m.handle_cancelled(&[0.1_f32, 0.2]);
    assert_eq!(m.entries.len(), 1);
    assert!(m.entries[0].cancelled);
    assert_eq!(m.entries[0].text, "");
}

#[test]
fn handle_cancelled_save_true_but_empty_audio_does_not_save() {
    let mut m = Memory::new();
    m.config.history.save_cancelled = true;
    m.handle_cancelled(&[]);
    assert!(m.entries.is_empty());
}

// ---- the recording in progress ----

fn recording() -> DaemonState {
    let mut state = DaemonState::new();
    state.active = Some(ActiveRecording { signalled: false });
    state
}

#[test]
fn audio_ready_clears_active() {
    let mut state = recording();
    let ended: RecordPoll<Vec<f32>, f64> =
        RecordPoll::Ended(RecordResult::AudioReady { audio: vec![], duration: 1.0 });
    state.on_recording(ended);
    assert!(
        state.active.is_none(),
        "active must clear on AudioReady so a new recording can start"
    );
}

#[test]
fn cancelled_clears_active() {
    let mut state = recording();
    let ended: RecordPoll<Vec<f32>, f64> =
        RecordPoll::Ended(RecordResult::Cancelled { audio: vec![] });
    state.on_recording(ended);
    assert!(state.active.is_none());
}

#[test]
fn a_lost_recording_is_reported() {
    let mut state = recording();
    let after = state.on_recording::<Vec<f32>, f64>(RecordPoll::Disconnected);
    assert!(matches!(after, AfterRecording::ReportLoss));
    assert!(state.active.is_none());
}

#[test]
fn second_recording_can_start_while_first_transcribes() {
    let mut state = DaemonState::new();
    let toggle = RecordingMode::Toggle;
    let start = state.on_event(HotkeyEvent::TranscribeDown, false, toggle, 0);
    assert_eq!(start, Some(DaemonAction::StartRecording));
    let ended: RecordPoll<Vec<f32>, f64> =
        RecordPoll::Ended(RecordResult::AudioReady { audio: vec![], duration: 0.5 });
    state.on_recording(ended);
    assert!(
        state.active.is_none(),
        "active must be None before second recording can start"
    );
    let again = state.on_event(HotkeyEvent::TranscribeDown, false, toggle, 1);
    assert_eq!(again, Some(DaemonAction::StartRecording));
    assert!(
        state.active.is_some(),
        "second recording started while first is still transcribing"
    );
}

#[test]
fn stop_signal_sent_only_once() {
    let mut active = ActiveRecording { signalled: false };
    assert_eq!(active.signal(RecordSignal::Stop), Some(RecordSignal::Stop));
    assert!(active.signalled);
    assert_eq!(active.signal(RecordSignal::Cancel), None);
    assert!(active.signalled);
}

#[test]
fn cancel_signal_sent_only_once() {
    let mut active = ActiveRecording { signalled: false };
    assert_eq!(active.signal(RecordSignal::Cancel), Some(RecordSignal::Cancel));
    assert!(active.signalled);
    assert_eq!(active.signal(RecordSignal::Stop), None);
    assert!(active.signalled);
}

#[test]
fn audio_ready_carries_audio_and_duration() {
    let mut state = recording();
    let ended = RecordPoll::Ended(RecordResult::AudioReady {
        audio: vec![0.1, 0.2, 0.3],
        duration: 2.5,
    });
    match state.on_recording(ended) {
        AfterRecording::Transcribe { audio, duration } => {
            assert_eq!(duration, 2.5);
            assert_eq!(audio.len(), 3);
        }
        _ => panic!("Expected AudioReady"),
    }
}

#[test]
fn no_result_while_recording_leaves_active() {
    let mut state = recording();
    state.on_recording::<Vec<f32>, f64>(RecordPoll::Pending);
    assert!(
        state.active.is_some(),
        "active must stay Some while recording is in progress"
    );
    assert!(!state.may_reload());
    assert!(DaemonState::new().may_reload());
}

// ---- keys ----

#[test]
fn toggle_mode_starts_and_stops_on_the_way_down() {
    let mut s = DaemonState::new();
    let mode = RecordingMode::Toggle;
    assert_eq!(
        s.on_event(HotkeyEvent::TranscribeDown, false, mode, 0),
        Some(DaemonAction::StartRecording)
    );
    assert_eq!(s.on_event(HotkeyEvent::TranscribeUp, false, mode, 1), None);
    assert_eq!(
        s.on_event(HotkeyEvent::TranscribeDown, false, mode, 2),
        Some(DaemonAction::Send(RecordSignal::Stop))
    );
    assert_eq!(s.on_event(HotkeyEvent::Cancel, false, mode, 3), None);
}

#[test]
fn push_to_talk_records_while_the_key_is_down() {
    let mut s = DaemonState::new();
    let mode = RecordingMode::PushToTalk;
    assert_eq!(
        s.on_event(HotkeyEvent::TranscribeDown, false, mode, 0),
        Some(DaemonAction::StartRecording)
    );
    assert_eq!(
        s.on_event(HotkeyEvent::TranscribeUp, false, mode, 1),
        Some(DaemonAction::Send(RecordSignal::Stop))
    );
}

#[test]
fn cancel_ends_the_recording() {
    let mut s = DaemonState::new();
    let mode = RecordingMode::Toggle;
    assert_eq!(s.on_event(HotkeyEvent::Cancel, false, mode, 0), None);
    s.on_event(HotkeyEvent::TranscribeDown, false, mode, 0);
    assert_eq!(
        s.on_event(HotkeyEvent::Cancel, false, mode, 1),
        Some(DaemonAction::Send(RecordSignal::Cancel))
    );
}

#[test]
fn a_shared_key_records_when_tapped_and_repastes_once_when_held() {
    let mode = RecordingMode::Toggle;
    let mut tapped = DaemonState::new();
    assert_eq!(tapped.on_event(HotkeyEvent::TranscribeDown, true, mode, 0), None);
    assert_eq!(tapped.on_tick(true, 499 * MS), None);
    assert_eq!(
        tapped.on_event(HotkeyEvent::TranscribeUp, true, mode, 499 * MS),
        Some(DaemonAction::StartRecording)
    );
    assert_eq!(
        tapped.on_event(HotkeyEvent::TranscribeDown, true, mode, 600 * MS),
        Some(DaemonAction::Send(RecordSignal::Stop))
    );
    assert_eq!(tapped.on_event(HotkeyEvent::TranscribeUp, true, mode, 700 * MS), None);

    let mut held = DaemonState::new();
    held.on_event(HotkeyEvent::TranscribeDown, true, mode, 0);
    assert_eq!(held.on_tick(true, 500 * MS), Some(DaemonAction::Repaste));
    assert_eq!(held.on_tick(true, 900 * MS), None);
    assert_eq!(held.on_event(HotkeyEvent::TranscribeUp, true, mode, 999 * MS), None);
}

#[test]
fn recordings_take_turns_whatever_happens() {
    let events = [
        HotkeyEvent::TranscribeDown,
        HotkeyEvent::TranscribeUp,
        HotkeyEvent::Cancel,
        HotkeyEvent::Repaste,
    ];
    for (shared, mode) in [
        (false, RecordingMode::Toggle),
        (true, RecordingMode::Toggle),
        (false, RecordingMode::PushToTalk),
    ] {
        let mut state = DaemonState::new();
        let (mut starts, mut ends, mut signals) = (0, 0, 0);
        let mut seed: u64 = 1;
        for step in 0..2_000_u128 {
            seed = seed.wrapping_mul(6364136223846793005).wrapping_add(1442695040888963407);
            let pick = (seed >> 33) % 6;
            let now = step * 100 * MS;
            let action = if pick < 4 {
                state.on_event(events[pick as usize], shared, mode, now)
            } else if pick == 4 {
                state.on_tick(shared, now)
            } else {
                ends += if state.active.is_some() { 1 } else { 0 };
                let ended: RecordPoll<(), ()> =
                    RecordPoll::Ended(RecordResult::Cancelled { audio: () });
                state.on_recording(ended);
                None
            };
            match action {
                Some(DaemonAction::StartRecording) => starts += 1,
                Some(DaemonAction::Send(_)) => signals += 1,
                _ => {}
            }
            assert_eq!(starts, ends + if state.active.is_some() { 1 } else { 0 });
            assert!(signals <= starts);
        }
        assert!(starts > 10 && signals > 10);
    }
}

#[test]
fn other_keys_repaste_and_open_the_review() {
    let mut s = DaemonState::new();
    let mode = RecordingMode::Toggle;
    assert_eq!(
        s.on_event(HotkeyEvent::Repaste, false, mode, 0),
        Some(DaemonAction::Repaste)
    );
    assert_eq!(
        s.on_event(HotkeyEvent::OpenImageEditor, false, mode, 0),
        Some(DaemonAction::OpenImageEditor)
    );
}

#[test]
fn a_shared_key_is_refused_for_push_to_talk() {
    let mut h = HotkeysConfig::default();
    h.repaste = "ralt".to_string();
    assert!(repaste_shares_key(&h));
    assert!(validate_hotkeys(&h).is_ok());
    h.mode = RecordingMode::PushToTalk;
    let message = validate_hotkeys(&h).unwrap_err();
    assert_eq!(
        message,
        "Invalid config: hotkeys.repaste is \"ralt\" (same as transcribe) but hotkeys.mode is \
         push_to_talk — hold is already used for recording. Use a different repaste key or switch \
         to toggle mode."
    );
    h.repaste = String::new();
    assert!(!repaste_shares_key(&h));
    assert!(validate_hotkeys(&h).is_ok());
}

#[test]
fn a_shared_key_may_go_by_two_names() {
    let mut h = HotkeysConfig::default();
    let same = [
        ("Return", "Enter"),
        ("RAlt", "AltGr"),
        ("Ctrl+F9", " control + f9 "),
        ("Ctrl+Shift+F9", "Shift+RCtrl+F9"),
        ("no such key", "No Such Key"),
    ];
    for (transcribe, repaste) in same {
        h.transcribe = transcribe.to_string();
        h.repaste = repaste.to_string();
        h.mode = RecordingMode::Toggle;
        assert!(repaste_shares_key(&h), "{} {}", transcribe, repaste);
        assert!(validate_hotkeys(&h).is_ok());
        h.mode = RecordingMode::PushToTalk;
        assert!(validate_hotkeys(&h).is_err());
    }
    let different = [
        ("Return", "Space"),
        ("RAlt", "LAlt"),
        ("Ctrl+F9", "F9"),
        ("Ctrl+F9", "Shift+F9"),
        ("no such key", "Return"),
        ("no such key", "another"),
    ];
    for (transcribe, repaste) in different {
        h.transcribe = transcribe.to_string();
        h.repaste = repaste.to_string();
        assert!(!repaste_shares_key(&h), "{} {}", transcribe, repaste);
        assert!(validate_hotkeys(&h).is_ok());
    }
}

#[test]
fn a_transcript_is_pasted_before_it_is_filed() {
    let mut m = Memory::new();
    m.handle_done("hi", 2.0);
    assert_eq!(m.pasted, vec!["hi"]);
    assert_eq!(m.warnings, 0);
    m.handle_done("", 2.0);
    assert_eq!(m.pasted.len(), 1);
    assert_eq!(m.warnings, 1);
    let steps = handle_done(" ", 1.5_f64.to_bits());
    assert_eq!(steps.len(), 3);
    assert!(matches!(&steps[0], FollowUp::Paste(t) if t == " "));
    match &steps[1] {
        FollowUp::Save { text, duration_bits, cancelled } => {
            assert_eq!(text, " ");
            assert_eq!(f64::from_bits(*duration_bits), 1.5);
            assert!(!cancelled);
        }
        other => panic!("{:?}", other),
    }
    assert!(matches!(steps[2], FollowUp::Prune));
}

#[test]
fn a_cancelled_recording_is_filed_without_a_duration() {
    let config = HistoryConfig { save_cancelled: true, ..HistoryConfig::default() };
    let steps = handle_cancelled(&config, 1);
    assert_eq!(steps.len(), 2);
    match &steps[0] {
        FollowUp::Save { text, duration_bits, cancelled } => {
            assert_eq!(text, "");
            assert_eq!(f64::from_bits(*duration_bits), 0.0);
            assert!(*cancelled);
        }
        other => panic!("{:?}", other),
    }
    assert!(matches!(steps[1], FollowUp::Prune));
    let steps = handle_cancelled(&config, 0);
    assert_eq!(steps.len(), 1);
    assert!(matches!(steps[0], FollowUp::Prune));
}

// ---- the recorder ----

#[test]
fn signals_end_a_recording() {
    assert_eq!(on_signal(SignalPoll::Nothing), RecorderStep::Continue);
    assert_eq!(on_signal(SignalPoll::Received(RecordSignal::Stop)), RecorderStep::Finish);
    assert_eq!(on_signal(SignalPoll::Received(RecordSignal::Cancel)), RecorderStep::Cancel);
    assert_eq!(on_signal(SignalPoll::Disconnected), RecorderStep::Abandon);
}

#[test]
fn the_speakers_are_on_again_however_a_recording_ends() {
    let ends = [
        RecordingEnd::CaptureFailed,
        RecordingEnd::Finished,
        RecordingEnd::Cancelled,
        RecordingEnd::Abandoned,
    ];
    for end in ends {
        for muted in [false, true] {
            assert_eq!(close_recording(end, muted, vec![0.5_f32], 1.0_f64).unmute, muted);
        }
    }
}

#[test]
fn the_daemon_hears_how_a_recording_ended() {
    let close = |end| close_recording(end, false, vec![7_u8], 3_u8).result;
    assert!(matches!(
        close(RecordingEnd::Finished),
        Some(RecordResult::AudioReady { audio, duration: 3 }) if audio == [7]
    ));
    assert!(matches!(
        close(RecordingEnd::Cancelled),
        Some(RecordResult::Cancelled { audio }) if audio == [7]
    ));
    assert!(matches!(
        close(RecordingEnd::CaptureFailed),
        Some(RecordResult::Cancelled { audio }) if audio == [7]
    ));
    assert!(close(RecordingEnd::Abandoned).is_none());
    assert_eq!(RecorderStep::Continue.end(), None);
    assert_eq!(RecorderStep::Finish.end(), Some(RecordingEnd::Finished));
    assert_eq!(RecorderStep::Cancel.end(), Some(RecordingEnd::Cancelled));
    assert_eq!(RecorderStep::Abandon.end(), Some(RecordingEnd::Abandoned));
}

#[test]
fn silence_ends_a_recording_unless_someone_speaks() {
    let second = 1_000_000_000_u128;
    let mut watch = SilenceWatch::new(0);
    assert_eq!(watch.on_audio(false, 19 * second, 20), RecorderStep::Continue);
    assert_eq!(watch.on_audio(true, 20 * second, 20), RecorderStep::Continue);
    assert_eq!(watch.on_audio(false, 39 * second, 20), RecorderStep::Continue);
    assert_eq!(watch.on_audio(false, 40 * second, 20), RecorderStep::Finish);
    assert_eq!(watch.on_audio(false, 9999 * second, 0), RecorderStep::Continue);
}

// ---- files of the daemon ----

#[test]
fn files_stand_in_the_program_directory() {
    let dir = Some("/c".to_string());
    assert_eq!(pid_path(dir.clone()).parts, vec!["quoteme", "daemon.pid"]);
    assert_eq!(log_path(dir.clone()).parts, vec!["quoteme", "daemon.log"]);
    assert_eq!(reload_path(dir).parts, vec!["quoteme", "reload"]);
    assert_eq!(pid_path(None).base, ".");
}

#[test]
fn the_process_number_is_read_back() {
    assert_eq!(parse_pid(&pid_text(4_294_967_295)), Some(u32::MAX));
    assert_eq!(parse_pid(" 17\n"), Some(17));
    assert_eq!(parse_pid("x"), None);
    assert_eq!(pid_to_probe(Some("0")), None);
    assert_eq!(pid_to_probe(Some("12")), Some(12));
    assert_eq!(pid_to_probe(None), None);
    assert_eq!(already_running_message(12), "Daemon is already running (PID 12)");
}
