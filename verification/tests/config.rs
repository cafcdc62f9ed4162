use quoteme::config::{Config, PasteMethod, RecordingMode};
use quoteme::settings::{
    assign, changed_keys, config_keys, hotkeys_changed, key_list, parse_config_key,
    set_config_value_at, setting_value, ConfigError, ConfigKey, SettingValue,
};

fn set(config: &mut Config, key: &str, value: &str) {
    set_config_value_at(config, key, value).unwrap();
}

fn refused(key: &str, value: &str) -> String {
    let mut config = Config::default();
    let err = set_config_value_at(&mut config, key, value).unwrap_err();
    err.message(key, value)
}

// --- default values ---

#[test]
fn defaults_are_correct() {
    let cfg = Config::default();
    assert_eq!(cfg.hotkeys.transcribe, "RAlt");
    assert_eq!(cfg.hotkeys.cancel, "Escape");
    assert_eq!(cfg.hotkeys.mode, RecordingMode::Toggle);
    assert!(cfg.recording.device.is_empty());
    assert!(!cfg.recording.mute_system_audio);
    assert!(cfg.transcription.model_path.is_empty());
    assert_eq!(cfg.transcription.language, "en");
    assert!(cfg.transcription.word_list_path.is_empty());
    assert_eq!(cfg.transcription.unload_after_secs, 300);
    assert_eq!(cfg.paste.method, PasteMethod::CtrlV);
    assert!(cfg.paste.restore_clipboard);
    assert!(cfg.history.path.is_empty());
    assert_eq!(cfg.history.max_recordings, 0);
    assert_eq!(cfg.history.max_age_days, 0);
    assert!(!cfg.history.save_cancelled);
}

#[test]
fn defaults_of_the_other_settings() {
    let cfg = Config::default();
    assert_eq!(cfg.hotkeys.repaste, "");
    assert!(!cfg.hotkeys.consume_transcribe_key);
    assert_eq!(cfg.hotkeys.image_editor, "Ctrl+Alt+I");
    assert_eq!(cfg.recording.silence_timeout_secs, 20);
    assert_eq!(cfg.screenshots.phrase, "this here");
}

// --- changing a setting ---

#[test]
fn set_value_creates_file_and_updates_field() {
    let mut cfg = Config::default();
    set(&mut cfg, "hotkeys.transcribe", "F9");
    assert_eq!(cfg.hotkeys.transcribe, "F9");
}

#[test]
fn set_value_preserves_other_fields() {
    let mut cfg = Config::default();
    cfg.transcription.model_path = "/models/whisper.bin".to_string();
    cfg.transcription.language = "de".to_string();
    set(&mut cfg, "hotkeys.transcribe", "F9");
    assert_eq!(cfg.hotkeys.transcribe, "F9");
    assert_eq!(cfg.transcription.model_path, "/models/whisper.bin");
    assert_eq!(cfg.transcription.language, "de");
}

#[test]
fn set_value_push_to_talk_mode() {
    let mut cfg = Config::default();
    set(&mut cfg, "hotkeys.mode", "push_to_talk");
    assert_eq!(cfg.hotkeys.mode, RecordingMode::PushToTalk);
}

#[test]
fn set_value_toggle_mode() {
    let mut cfg = Config::default();
    set(&mut cfg, "hotkeys.mode", "push_to_talk");
    set(&mut cfg, "hotkeys.mode", "toggle");
    assert_eq!(cfg.hotkeys.mode, RecordingMode::Toggle);
}

#[test]
fn set_value_paste_method_variants() {
    let mut cfg = Config::default();
    for (input, expected) in [
        ("clipboard", PasteMethod::Clipboard),
        ("none", PasteMethod::Off),
        ("ctrl_v", PasteMethod::CtrlV),
        ("ctrl_shift_v", PasteMethod::CtrlShiftV),
    ] {
        set(&mut cfg, "paste.method", input);
        assert_eq!(cfg.paste.method, expected);
    }
}

#[test]
fn paste_method_immediate_is_known() {
    let mut cfg = Config::default();
    set(&mut cfg, "paste.method", "immediate");
    assert_eq!(cfg.paste.method, PasteMethod::Immediate);
}

#[test]
fn set_value_numeric_fields() {
    let mut cfg = Config::default();
    set(&mut cfg, "transcription.unload_after_secs", "60");
    set(&mut cfg, "history.max_recordings", "50");
    set(&mut cfg, "history.max_age_days", "7");
    assert_eq!(cfg.transcription.unload_after_secs, 60);
    assert_eq!(cfg.history.max_recordings, 50);
    assert_eq!(cfg.history.max_age_days, 7);
}

#[test]
fn set_value_bool_fields() {
    let mut cfg = Config::default();
    set(&mut cfg, "recording.mute_system_audio", "true");
    set(&mut cfg, "paste.restore_clipboard", "false");
    set(&mut cfg, "history.save_cancelled", "true");
    assert!(cfg.recording.mute_system_audio);
    assert!(!cfg.paste.restore_clipboard);
    assert!(cfg.history.save_cancelled);
}

#[test]
fn set_value_silence_timeout_valid() {
    let mut cfg = Config::default();
    set(&mut cfg, "recording.silence_timeout_secs", "5");
    assert_eq!(cfg.recording.silence_timeout_secs, 5);
}

#[test]
fn set_value_remaining_string_keys() {
    let mut cfg = Config::default();
    set(&mut cfg, "hotkeys.repaste", "F9");
    set(&mut cfg, "recording.device", "Blue Yeti");
    set(&mut cfg, "transcription.language", "fr");
    set(&mut cfg, "transcription.word_list_path", "/tmp/words.txt");
    set(&mut cfg, "history.path", "/tmp/hist");
    assert_eq!(cfg.hotkeys.repaste, "F9");
    assert_eq!(cfg.recording.device, "Blue Yeti");
    assert_eq!(cfg.transcription.language, "fr");
    assert_eq!(cfg.transcription.word_list_path, "/tmp/words.txt");
    assert_eq!(cfg.history.path, "/tmp/hist");
}

#[test]
fn set_value_transcription_model_path() {
    let mut cfg = Config::default();
    set(&mut cfg, "transcription.model_path", "/models/ggml-medium.bin");
    assert_eq!(cfg.transcription.model_path, "/models/ggml-medium.bin");
}

// --- error cases ---

#[test]
fn set_value_invalid_mode_errors() {
    assert!(refused("hotkeys.mode", "hold").contains("Invalid mode"));
}

#[test]
fn set_value_invalid_paste_method_errors() {
    let message = refused("paste.method", "foobar");
    assert!(message.contains("Invalid paste method"));
    assert!(message.contains("ctrl_v"));
}

#[test]
fn set_value_invalid_bool_errors() {
    assert!(refused("recording.mute_system_audio", "yes").contains("Expected 'true' or 'false'"));
}

#[test]
fn set_value_invalid_number_errors() {
    assert!(refused("transcription.unload_after_secs", "fast").contains("Expected a number"));
}

#[test]
fn set_value_unknown_key_errors() {
    assert!(refused("nonexistent.key", "value").contains("Unknown config key"));
}

#[test]
fn set_value_unknown_key_lists_valid_keys() {
    let message = refused("bad.key", "value");
    assert!(message.contains("hotkeys.transcribe"));
    assert!(message.contains("transcription.model_path"));
}

#[test]
fn set_value_silence_timeout_zero_errors() {
    assert!(refused("recording.silence_timeout_secs", "0").contains("at least 1"));
}

#[test]
fn set_value_silence_timeout_non_numeric_errors() {
    let message = refused("recording.silence_timeout_secs", "never");
    assert!(message.contains("positive number") || message.contains("number"));
}

#[test]
fn a_blank_phrase_is_refused() {
    assert_eq!(
        refused("screenshots.phrase", "  "),
        "screenshots.phrase must not be empty"
    );
}

#[test]
fn a_refused_value_changes_nothing() {
    let mut cfg = Config::default();
    assert!(set_config_value_at(&mut cfg, "hotkeys.mode", "hold").is_err());
    assert!(changed_keys(&Config::default(), &cfg).is_empty());
}

// --- the list of settings ---

#[test]
fn every_listed_key_is_known_by_its_name() {
    let keys = config_keys();
    assert_eq!(keys.len(), 20);
    for key in keys {
        assert_eq!(parse_config_key(key.as_str()), Some(key));
        assert!(key_list().contains(key.as_str()));
    }
    assert_eq!(parse_config_key("hotkeys"), None);
}

#[test]
fn the_last_change_wins_and_other_changes_commute() {
    let mut a = Config::default();
    assign(&mut a, ConfigKey::HotkeysTranscribe, "F1").unwrap();
    assign(&mut a, ConfigKey::HotkeysTranscribe, "F2").unwrap();
    assign(&mut a, ConfigKey::HotkeysCancel, "F3").unwrap();
    let mut b = Config::default();
    assign(&mut b, ConfigKey::HotkeysCancel, "F3").unwrap();
    assign(&mut b, ConfigKey::HotkeysTranscribe, "F2").unwrap();
    assert!(changed_keys(&a, &b).is_empty());
    assert_eq!(a.hotkeys.transcribe, "F2");
}

#[test]
fn changed_keys_are_those_that_differ() {
    let old = Config::default();
    let mut new = Config::default();
    set(&mut new, "transcription.language", "fr");
    set(&mut new, "paste.restore_clipboard", "false");
    let names: Vec<&str> = changed_keys(&old, &new).iter().map(|k| k.as_str()).collect();
    assert_eq!(names, vec!["transcription.language", "paste.restore_clipboard"]);
    assert!(!hotkeys_changed(&old, &new));
    set(&mut new, "hotkeys.mode", "push_to_talk");
    assert!(hotkeys_changed(&old, &new));
}

#[test]
fn errors_are_told_apart() {
    let mut cfg = Config::default();
    assert_eq!(
        assign(&mut cfg, ConfigKey::HotkeysMode, "hold"),
        Err(ConfigError::InvalidMode)
    );
    assert_eq!(
        assign(&mut cfg, ConfigKey::HistoryMaxRecordings, "-1"),
        Err(ConfigError::ExpectedNumber)
    );
    assert_eq!(
        assign(&mut cfg, ConfigKey::RecordingSilenceTimeoutSecs, "x"),
        Err(ConfigError::ExpectedPositiveNumber)
    );
    assert_eq!(
        assign(&mut cfg, ConfigKey::HistoryMaxAgeDays, "18446744073709551616"),
        Err(ConfigError::ExpectedNumber)
    );
}

#[test]
fn numbers_fit_a_configuration_file() {
    let keys = [
        ConfigKey::HistoryMaxAgeDays,
        ConfigKey::HistoryMaxRecordings,
        ConfigKey::RecordingSilenceTimeoutSecs,
        ConfigKey::TranscriptionUnloadAfterSecs,
    ];
    for key in keys {
        let mut cfg = Config::default();
        let error = if key == ConfigKey::RecordingSilenceTimeoutSecs {
            ConfigError::ExpectedPositiveNumber
        } else {
            ConfigError::ExpectedNumber
        };
        for text in ["9223372036854775808", "10000000000000000000", "18446744073709551615"] {
            assert_eq!(assign(&mut cfg, key, text), Err(error));
        }
        assert!(changed_keys(&Config::default(), &cfg).is_empty());
        assert_eq!(assign(&mut cfg, key, "9223372036854775807"), Ok(()));
    }
    let mut cfg = Config::default();
    set(&mut cfg, "history.max_age_days", "9223372036854775807");
    assert_eq!(cfg.history.max_age_days, 9_223_372_036_854_775_807);
}

#[test]
fn values_are_told_by_key() {
    let mut cfg = Config::default();
    set(&mut cfg, "recording.device", "USB");
    set(&mut cfg, "history.max_recordings", "7");
    set(&mut cfg, "history.save_cancelled", "true");
    set(&mut cfg, "hotkeys.mode", "push_to_talk");
    set(&mut cfg, "paste.method", "clipboard");
    let value = |key| setting_value(&cfg, key);
    assert!(matches!(value(ConfigKey::RecordingDevice), SettingValue::Text(t) if t == "USB"));
    assert!(matches!(value(ConfigKey::HistoryMaxRecordings), SettingValue::Number(7)));
    assert!(matches!(value(ConfigKey::HistorySaveCancelled), SettingValue::Flag(true)));
    assert!(matches!(
        value(ConfigKey::HotkeysMode),
        SettingValue::Mode(quoteme::config::RecordingMode::PushToTalk)
    ));
    assert!(matches!(
        value(ConfigKey::PasteMethod),
        SettingValue::Method(quoteme::config::PasteMethod::Clipboard)
    ));
}
