use quoteme::audio::InputDevice;
use quoteme::config::{Config, HotkeysConfig, RecordingMode};
use quoteme::health::{
    check_config_file, check_history_dir, check_hotkeys, check_image_editor_hotkey, check_log_file,
    check_model_path, check_recording_device, check_repaste_hotkey, check_word_list,
    config_file_unreadable, health_report, model_check, report_with_extension, CheckItem, DirFacts, HealthFacts, Status,
};

// --- hotkeys ---

#[test]
fn hotkeys_conflict_is_fail() {
    let r = check_hotkeys("RAlt", "RAlt");
    assert!(matches!(r.status, Status::Fail));
    assert!(r.message.contains("conflict"));
}

#[test]
fn hotkeys_no_conflict_is_ok() {
    let r = check_hotkeys("RAlt", "Escape");
    assert!(r.is_ok());
    assert!(r.message.contains("no conflict"));
}

#[test]
fn hotkeys_conflict_message_includes_key_name() {
    let r = check_hotkeys("F9", "F9");
    assert!(r.message.contains("F9"));
}

#[test]
fn repaste_on_the_transcribe_key_needs_toggle_mode() {
    let mut hotkeys = HotkeysConfig::default();
    hotkeys.transcribe = "RAlt".to_string();
    hotkeys.repaste = "ralt".to_string();
    hotkeys.mode = RecordingMode::PushToTalk;
    assert_eq!(check_repaste_hotkey(&hotkeys).status, Status::Fail);
    hotkeys.mode = RecordingMode::Toggle;
    assert_eq!(check_repaste_hotkey(&hotkeys).status, Status::Okay);
    hotkeys.repaste = String::new();
    hotkeys.mode = RecordingMode::PushToTalk;
    assert_ne!(check_repaste_hotkey(&hotkeys).status, Status::Fail);
}

#[test]
fn unbound_image_editor_is_a_warning() {
    assert_eq!(check_image_editor_hotkey("").status, Status::Warn);
    assert_eq!(
        check_image_editor_hotkey("Ctrl+Alt+I").message,
        "Image editor hotkey: \"Ctrl+Alt+I\""
    );
}

// --- model path ---

#[test]
fn model_path_empty_is_fail() {
    let r = check_model_path("", None);
    assert!(matches!(r.status, Status::Fail));
    assert!(r.message.contains("not set"));
}

#[test]
fn model_path_nonexistent_is_fail() {
    let r = check_model_path("/definitely/does/not/exist/model.bin", None);
    assert!(matches!(r.status, Status::Fail));
    assert!(r.message.contains("not found"));
}

#[test]
fn model_path_wrong_extension_is_fail() {
    let r = check_model_path("/tmp/model.pt", Some(0));
    assert!(matches!(r.status, Status::Fail), "expected fail, got {:?}: {}", r.status, r.message);
    assert!(r.message.contains("extension"));
}

#[test]
fn model_path_safetensors_extension_is_fail() {
    let r = check_model_path("/tmp/model.safetensors", Some(0));
    assert!(matches!(r.status, Status::Fail));
}

#[test]
fn model_path_small_bin_is_warn() {
    let r = check_model_path("/tmp/model.bin", Some(4));
    assert!(matches!(r.status, Status::Warn), "expected warn, got {:?}: {}", r.status, r.message);
    assert!(r.message.contains("very small"));
}

#[test]
fn model_path_valid_large_bin_is_ok() {
    let r = check_model_path("/tmp/model.bin", Some(1_100_000));
    assert!(r.is_ok(), "expected ok, got {:?}: {}", r.status, r.message);
}

#[test]
fn model_path_gguf_extension_accepted() {
    let r = check_model_path("/tmp/model.gguf", Some(1_100_000));
    assert!(r.is_ok(), "expected ok, got {:?}: {}", r.status, r.message);
}

#[test]
fn model_size_threshold_is_exact() {
    assert_eq!(check_model_path("m.bin", Some(999_999)).status, Status::Warn);
    assert_eq!(check_model_path("m.BIN", Some(1_000_000)).status, Status::Okay);
}

#[test]
fn extensions_are_those_that_the_system_reads() {
    let accepted = |path: &str| check_model_path(path, Some(1_000_000)).is_ok();
    let paths = [
        "/a/m.bin", "/a.bin/m", "/a/.bin", "m.bin/", "m.bin/.", "m.bin/..", "..", ".", "/", "m.",
        "C:\\models\\m.en.GGUF", "m.bin\\", "C:.bin", "C:m.bin", "\\\\server\\share.bin",
        "//server/share.bin", "a.bin\\m", "a:b.gguf", "m.gguf ", "ä.bin",
    ];
    for path in paths {
        let ext = std::path::Path::new(path).extension().and_then(|e| e.to_str()).unwrap_or("");
        let lower = ext.to_ascii_lowercase();
        assert_eq!(accepted(path), lower == "bin" || lower == "gguf", "{:?}", path);
    }
    assert!(accepted("/a/m.bin") && accepted("m.bin/.") && accepted("C:\\models\\m.en.GGUF"));
    assert!(!accepted("/a.bin/m") && !accepted("/a/.bin") && !accepted("m.bin/.."));
    let r = check_model_path("m.Tar.GZ", Some(1_000_000));
    assert!(r.message.contains("has extension .gz —"), "{}", r.message);
}

#[test]
fn the_model_is_judged_by_a_given_extension() {
    let bin = Some("BIN".to_string());
    assert!(model_check("m", &bin, Some(1_000_000)).is_ok());
    assert_eq!(model_check("m", &bin, Some(1)).status, Status::Warn);
    assert_eq!(model_check("m.bin", &None, Some(1_000_000)).status, Status::Fail);
    assert_eq!(model_check("", &bin, Some(1_000_000)).status, Status::Fail);
    assert_eq!(model_check("m", &bin, None).status, Status::Fail);
}

// --- word list ---

#[test]
fn word_list_empty_is_ok() {
    let r = check_word_list("", false);
    assert!(r.is_ok());
    assert!(r.message.contains("optional"));
}

#[test]
fn word_list_nonexistent_is_warn() {
    let r = check_word_list("/no/such/words.txt", false);
    assert!(matches!(r.status, Status::Warn));
    assert!(r.message.contains("not found"));
}

#[test]
fn word_list_existing_file_is_ok() {
    let r = check_word_list("/tmp/words.txt", true);
    assert!(r.is_ok());
}

// --- history directory ---

#[test]
fn history_dir_exists_is_ok() {
    let facts = DirFacts { exists_there: true, parent_exists: Some(true) };
    let r = check_history_dir("/tmp/h", facts);
    assert!(r.is_ok());
    assert!(r.message.contains("exists"));
}

#[test]
fn history_dir_creatable_parent_exists_is_ok() {
    let facts = DirFacts { exists_there: false, parent_exists: Some(true) };
    let r = check_history_dir("/tmp/h/history", facts);
    assert!(r.is_ok(), "expected ok, got {:?}: {}", r.status, r.message);
    assert!(r.message.contains("will be created"));
}

#[test]
fn history_dir_unreachable_parent_is_warn() {
    let facts = DirFacts { exists_there: false, parent_exists: Some(false) };
    let r = check_history_dir("/tmp/h/ghost/history", facts);
    assert!(matches!(r.status, Status::Warn), "expected warn, got {:?}: {}", r.status, r.message);
}

// --- the rest of the report ---

#[test]
fn config_and_log_files() {
    assert_eq!(check_config_file("/c.toml", true).line(), "[ OK ] Config file: /c.toml");
    assert_eq!(
        check_config_file("/c.toml", false).line(),
        "[INFO] Config file: not found — using defaults (/c.toml)"
    );
    assert_eq!(
        config_file_unreadable("bad").line(),
        "[FAIL] Config file: parse error — bad"
    );
    assert_eq!(check_log_file("/d.log", true).line(), "[ OK ] Log file: \"/d.log\"");
    assert_eq!(
        check_log_file("/d.log", false).line(),
        "[INFO] Log file: \"/d.log\" (will be created when daemon starts)"
    );
}

fn device(name: &str, is_default: bool) -> InputDevice {
    InputDevice { name: name.to_string(), is_default }
}

fn messages(items: &Vec<CheckItem>) -> Vec<String> {
    items.iter().map(|i| i.line()).collect()
}

#[test]
fn recording_device_is_matched_whatever_the_case() {
    let devices = Ok(vec![device("Blue Yeti", true), device("Webcam ÉCRAN", false)]);
    assert_eq!(
        messages(&check_recording_device("yeti", &devices)),
        vec!["[ OK ] Recording device: \"yeti\" matches 1 device(s)"]
    );
    assert_eq!(
        messages(&check_recording_device("écran", &devices)),
        vec!["[ OK ] Recording device: \"écran\" matches 1 device(s)"]
    );
    assert_eq!(
        messages(&check_recording_device("rode", &devices)),
        vec![
            "[FAIL] Recording device: no device matching \"rode\" found",
            "[INFO]   Available devices:",
            "[INFO]     - Blue Yeti (default)",
            "[INFO]     - Webcam ÉCRAN",
        ]
    );
    assert_eq!(
        messages(&check_recording_device("", &devices)),
        vec!["[ OK ] Recording device: not set (will use system default microphone)"]
    );
    assert_eq!(
        messages(&check_recording_device("x", &Err("gone".to_string()))),
        vec!["[WARN] Recording device: could not enumerate devices — gone"]
    );
}

#[test]
fn the_report_tests_the_model_unless_it_is_minimal() {
    let mut config = Config::default();
    config.transcription.model_path = "/m.bin".to_string();
    let facts = HealthFacts {
        config_path: "/c.toml".to_string(),
        config_exists: true,
        model_length: Some(2_000_000),
        word_list_exists: false,
        history_dir: "/h".to_string(),
        history: DirFacts { exists_there: true, parent_exists: Some(true) },
        log_path: "/d.log".to_string(),
        log_exists: true,
        devices: Ok(Vec::new()),
    };
    let full = health_report(&config, &facts, false);
    assert!(full.load_test);
    assert_eq!(
        messages(&full.before),
        vec!["[ OK ] Config file: /c.toml", "[ OK ] Model path: \"/m.bin\""]
    );
    let other = report_with_extension(&config, &Some("pt".to_string()), &facts, false);
    assert!(!other.load_test);
    assert_eq!(other.before[1].status, Status::Fail);
    let short = health_report(&config, &facts, true);
    assert!(!short.load_test);
    assert!(messages(&short.after)
        .iter()
        .chain(messages(&short.before).iter())
        .any(|l| l == "[INFO] Model load test: skipped (--minimal)"));
    config.transcription.model_path = String::new();
    assert!(!health_report(&config, &facts, false).load_test);
}
