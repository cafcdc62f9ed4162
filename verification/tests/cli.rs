use quoteme::audio::{
    answer_error, count_matches, device_line, find_device, list_input_devices, matches_pattern,
    no_match_message, parse_microphone_answer, DeviceChoice, InputDevice, MicrophoneAnswer,
    WHISPER_SAMPLE_RATE,
};
use quoteme::cli::{
    check_after_set, configuration_heading, derived_paths, editor_command, entry_number, history_argument, history_line, history_lines,
    history_output, running_message, EditorError, HistoryOutput,
};
use quoteme::config::{HotkeysConfig, PasteMethod, RecordingMode};
use quoteme::history::HistoryEntry;
use quoteme::location::config_path;
use quoteme::moments::Timestamp;
use quoteme::paste::{paste_text, PasteStep};

fn some(s: &str) -> Option<String> {
    Some(s.to_string())
}

fn entry(text: &str, secs: i64, cancelled: bool) -> HistoryEntry {
    HistoryEntry {
        id: "id".to_string(),
        timestamp: Timestamp { secs, nanos: 0 },
        text: text.to_string(),
        duration_bits: 0,
        cancelled,
    }
}

// ---- the editor ----

#[test]
fn the_editor_is_the_first_one_named() {
    let c = editor_command(some("nvim --some-flag"), some("vi"), some("ed")).unwrap();
    assert_eq!(c.program, "nvim");
    assert_eq!(c.args, vec!["--some-flag"]);
    let c = editor_command(None, some(" vi  -n x "), some("ed")).unwrap();
    assert_eq!(c.program, "vi");
    assert_eq!(c.args, vec!["-n", "x"]);
    let c = editor_command(None, None, some("ed")).unwrap();
    assert_eq!(c.program, "ed");
    assert!(c.args.is_empty());
}

#[test]
fn without_an_editor_there_is_an_error() {
    let e = editor_command(None, None, None).unwrap_err();
    assert_eq!(e, EditorError::NotConfigured);
    assert_eq!(
        e.message(),
        "No editor configured. Set $VISUAL or $EDITOR, or use --run-with \"<command>\"."
    );
    let e = editor_command(some("  "), some("vi"), None).unwrap_err();
    assert_eq!(e, EditorError::EmptyCommand);
    assert_eq!(e.message(), "Editor command is empty");
}

#[test]
fn the_history_can_be_named() {
    let args = |list: &[&str]| -> Vec<String> { list.iter().map(|s| s.to_string()).collect() };
    assert_eq!(history_argument(&args(&["x", "--history", "/h"])), Some(2));
    assert_eq!(history_argument(&args(&["x", "--history"])), None);
    assert_eq!(history_argument(&args(&["--history", "--history", "/h"])), Some(1));
    assert_eq!(history_argument(&args(&[])), None);
}

#[test]
fn the_configuration_file_can_be_named() {
    assert_eq!(config_path(some("/x.toml"), some("/c")).base, "/x.toml");
    let default = config_path(None, some("/c"));
    assert_eq!(default.base, "/c");
    assert_eq!(default.parts, vec!["quoteme", "config.toml"]);
}

#[test]
fn a_new_model_is_looked_at() {
    let key = "transcription.model_path";
    let warned = check_after_set(key, "/m.bin", false, None).unwrap();
    assert_eq!(warned.line(), "[FAIL] Model path: file not found at \"/m.bin\"");
    assert!(check_after_set(key, "/m.bin", true, None).is_none());
    assert!(check_after_set(key, "/m.bin", false, Some(2_000_000)).is_none());
    assert!(check_after_set("history.path", "/m.bin", false, None).is_none());
}

#[test]
fn the_daemon_says_which_keys_to_press() {
    let mut hotkeys = HotkeysConfig::default();
    assert_eq!(
        running_message(&hotkeys),
        "quoteme daemon running. Press RAlt to toggle, Escape to cancel."
    );
    hotkeys.mode = RecordingMode::PushToTalk;
    assert_eq!(
        running_message(&hotkeys),
        "quoteme daemon running. Press RAlt to hold, Escape to cancel."
    );
}

#[test]
fn the_configuration_is_listed_under_a_heading() {
    assert_eq!(configuration_heading("/c", true, true), vec!["Config overrides (/c)", ""]);
    assert_eq!(
        configuration_heading("/c", false, true),
        vec!["No config file found — no overrides set.", "(default location: /c)"]
    );
    assert_eq!(configuration_heading("/c", true, false), vec!["Active configuration (/c)", ""]);
    assert_eq!(
        configuration_heading("/c", false, false),
        vec!["Active configuration — all defaults (no config file at /c)", ""]
    );
    assert_eq!(
        derived_paths("/h", "/l", "/p"),
        vec![
            "# Derived paths (resolved at runtime)",
            "history = /h",
            "log     = /l",
            "pid     = /p",
        ]
    );
}

// ---- the listing ----

#[test]
fn a_line_of_the_listing() {
    assert_eq!(
        history_line(7, "2024-05-06 07:08:09", "1.5", &entry("hello", 0, false)),
        "  7. 2024-05-06 07:08:09  1.5s  hello"
    );
    assert_eq!(
        history_line(1234, "T", "0.0", &entry("", 0, true)),
        "1234. T  0.0s  [cancelled] "
    );
}

#[test]
fn long_texts_are_cut() {
    let eighty = "x".repeat(80);
    assert!(history_line(1, "T", "1", &entry(&eighty, 0, false)).ends_with("xx"));
    let more = "x".repeat(81);
    let line = history_line(1, "T", "1", &entry(&more, 0, false));
    assert_eq!(line, format!("  1. T  1s  {}…", eighty));
    // The mark counts bytes.
    let wide = "ä".repeat(41);
    let line = history_line(1, "T", "1", &entry(&wide, 0, false));
    assert_eq!(line, format!("  1. T  1s  {}…", wide));
    let fits = "ä".repeat(40);
    assert!(history_line(1, "T", "1", &entry(&fits, 0, false)).ends_with('ä'));
}

#[test]
fn the_listing_counts_from_one() {
    let entries = vec![entry("a", 60, false), entry("b", 0, false)];
    let durations = vec!["2.0".to_string(), "1.0".to_string()];
    assert_eq!(
        history_lines(&entries, &durations).unwrap(),
        vec!["  1. 1970-01-01 00:01:00  2.0s  a", "  2. 1970-01-01 00:00:00  1.0s  b"]
    );
    let odd = vec![entry("a", i64::MAX, false)];
    assert!(history_lines(&odd, &vec!["1".to_string()]).is_none());
}

#[test]
fn a_long_listing_goes_to_a_file() {
    let lines = |n: usize| vec!["l".to_string(); n];
    assert!(matches!(history_output(lines(0)), HistoryOutput::Nothing));
    assert!(matches!(history_output(lines(40)), HistoryOutput::Lines(l) if l.len() == 40));
    match history_output(lines(41)) {
        HistoryOutput::File(text) => assert_eq!(text, vec!["l"; 41].join("\n")),
        _ => panic!("Expected a file"),
    }
}

#[test]
fn entries_are_picked_by_number() {
    assert_eq!(entry_number(1, 3), Ok(0));
    assert_eq!(entry_number(3, 3), Ok(2));
    assert_eq!(entry_number(0, 3), Err("Index 0 out of range (1–3)".to_string()));
    assert_eq!(entry_number(4, 3), Err("Index 4 out of range (1–3)".to_string()));
}

// ---- microphones ----

#[test]
fn microphones_are_listed_and_found() {
    let names = vec![some("Blue Yeti"), None, some("USB Écran")];
    let devices = list_input_devices(&names, &some("USB Écran"));
    assert_eq!(devices.len(), 2);
    assert!(!devices[0].is_default);
    assert!(devices[1].is_default);
    assert_eq!(device_line(2, &devices[1]), "  2. USB Écran  <- system default");
    assert_eq!(count_matches(&devices, "U"), 2);
    assert!(matches_pattern("USB Écran", "éCRAN"));
    assert_eq!(find_device(&names, ""), DeviceChoice::SystemDefault);
    assert_eq!(find_device(&names, "écran"), DeviceChoice::At(2));
    assert_eq!(find_device(&names, "rode"), DeviceChoice::NoMatch);
    assert!(no_match_message("rode").contains("rode"));
    assert_eq!(WHISPER_SAMPLE_RATE, 16_000);
    let _: &InputDevice = &devices[0];
}

#[test]
fn answers_about_microphones() {
    assert_eq!(parse_microphone_answer(" \n", 2), MicrophoneAnswer::Cancelled);
    assert_eq!(parse_microphone_answer("0", 2), MicrophoneAnswer::SystemDefault);
    assert_eq!(parse_microphone_answer(" 2\n", 2), MicrophoneAnswer::At(1));
    assert_eq!(parse_microphone_answer("3", 2), MicrophoneAnswer::OutOfRange);
    assert_eq!(parse_microphone_answer("two", 2), MicrophoneAnswer::NotANumber);
    assert_eq!(answer_error(MicrophoneAnswer::At(1), 2), None);
    assert_eq!(answer_error(MicrophoneAnswer::NotANumber, 2), some("Expected a number"));
    assert_eq!(
        answer_error(MicrophoneAnswer::OutOfRange, 2),
        some("Number out of range (0–2)")
    );
}

// ---- pasting ----

#[test]
fn the_steps_of_pasting() {
    assert!(paste_text(&PasteMethod::Off, true).is_empty());
    assert_eq!(paste_text(&PasteMethod::Clipboard, true), vec![PasteStep::Put]);
    assert_eq!(
        paste_text(&PasteMethod::Immediate, true),
        vec![
            PasteStep::Save,
            PasteStep::Put,
            PasteStep::Wait(80),
            PasteStep::Press(false),
            PasteStep::Wait(120),
            PasteStep::Restore,
        ]
    );
    assert_eq!(
        paste_text(&PasteMethod::CtrlV, true),
        paste_text(&PasteMethod::Immediate, true)
    );
    assert_eq!(
        paste_text(&PasteMethod::CtrlShiftV, false),
        vec![
            PasteStep::Put,
            PasteStep::Wait(80),
            PasteStep::Press(true),
            PasteStep::Wait(120),
        ]
    );
}

/// The clipboard and what has been pasted, after the steps.
fn after_pasting(method: PasteMethod, restore: bool) -> (Option<&'static str>, Vec<&'static str>) {
    let mut clipboard = Some("before");
    let mut saved = None;
    let mut pasted = Vec::new();
    for step in paste_text(&method, restore) {
        match step {
            PasteStep::Save => saved = clipboard,
            PasteStep::Put => clipboard = Some("text"),
            PasteStep::Wait(_) => {}
            PasteStep::Press(_) => pasted.extend(clipboard),
            PasteStep::Restore => clipboard = saved,
        }
    }
    (clipboard, pasted)
}

#[test]
fn pasting_leaves_the_clipboard_as_asked() {
    for method in [PasteMethod::Immediate, PasteMethod::CtrlV, PasteMethod::CtrlShiftV] {
        assert_eq!(after_pasting(method, true), (Some("before"), vec!["text"]));
        assert_eq!(after_pasting(method, false), (Some("text"), vec!["text"]));
    }
    assert_eq!(after_pasting(PasteMethod::Clipboard, true), (Some("text"), vec![]));
    assert_eq!(after_pasting(PasteMethod::Off, true), (Some("before"), vec![]));
}
