use quoteme::config::HotkeysConfig;
use quoteme::hotkey::{parse_hotkey, parse_key, HotkeyError, Key};
use quoteme::listener::{
    configured_bindings, is_modifier, is_same_hotkey, modifiers_held, parse_bindings,
    same_modifier_family, BindingError, Bindings, HotkeyEvent, Listener,
};

// ---- parse_key: canonical names ----

#[test]
fn parse_ralt() {
    assert_eq!(parse_key("RAlt").unwrap(), Key::AltGr);
}

#[test]
fn parse_lalt() {
    assert_eq!(parse_key("LAlt").unwrap(), Key::Alt);
}

#[test]
fn parse_rctrl() {
    assert_eq!(parse_key("RCtrl").unwrap(), Key::ControlRight);
}

#[test]
fn parse_lctrl() {
    assert_eq!(parse_key("LCtrl").unwrap(), Key::ControlLeft);
}

#[test]
fn parse_rshift() {
    assert_eq!(parse_key("RShift").unwrap(), Key::ShiftRight);
}

#[test]
fn parse_lshift() {
    assert_eq!(parse_key("LShift").unwrap(), Key::ShiftLeft);
}

#[test]
fn parse_escape() {
    assert_eq!(parse_key("Escape").unwrap(), Key::Escape);
}

#[test]
fn parse_space() {
    assert_eq!(parse_key("Space").unwrap(), Key::Space);
}

#[test]
fn parse_tab() {
    assert_eq!(parse_key("Tab").unwrap(), Key::Tab);
}

#[test]
fn parse_return() {
    assert_eq!(parse_key("Return").unwrap(), Key::Return);
}

// ---- parse_key: aliases ----

#[test]
fn parse_ralt_aliases() {
    assert_eq!(parse_key("right_alt").unwrap(), Key::AltGr);
    assert_eq!(parse_key("altgr").unwrap(), Key::AltGr);
}

#[test]
fn parse_lalt_aliases() {
    assert_eq!(parse_key("alt").unwrap(), Key::Alt);
    assert_eq!(parse_key("left_alt").unwrap(), Key::Alt);
}

#[test]
fn parse_ctrl_aliases() {
    assert_eq!(parse_key("right_ctrl").unwrap(), Key::ControlRight);
    assert_eq!(parse_key("right_control").unwrap(), Key::ControlRight);
    assert_eq!(parse_key("ctrl").unwrap(), Key::ControlLeft);
    assert_eq!(parse_key("control").unwrap(), Key::ControlLeft);
    assert_eq!(parse_key("left_control").unwrap(), Key::ControlLeft);
}

#[test]
fn parse_shift_aliases() {
    assert_eq!(parse_key("right_shift").unwrap(), Key::ShiftRight);
    assert_eq!(parse_key("shift").unwrap(), Key::ShiftLeft);
    assert_eq!(parse_key("left_shift").unwrap(), Key::ShiftLeft);
}

#[test]
fn parse_enter_alias() {
    assert_eq!(parse_key("Enter").unwrap(), Key::Return);
}

#[test]
fn parse_esc_alias() {
    assert_eq!(parse_key("esc").unwrap(), Key::Escape);
}

// ---- parse_key: F-keys ----

#[test]
fn parse_all_f_keys() {
    let expected = [
        Key::F1,
        Key::F2,
        Key::F3,
        Key::F4,
        Key::F5,
        Key::F6,
        Key::F7,
        Key::F8,
        Key::F9,
        Key::F10,
        Key::F11,
        Key::F12,
    ];
    for (i, expected_key) in expected.iter().enumerate() {
        let name = format!("F{}", i + 1);
        assert_eq!(
            parse_key(&name).unwrap(),
            *expected_key,
            "{} should parse correctly",
            name
        );
    }
}

// ---- parse_key: case insensitivity ----

#[test]
fn parse_key_case_insensitive() {
    assert_eq!(parse_key("ralt").unwrap(), Key::AltGr);
    assert_eq!(parse_key("RALT").unwrap(), Key::AltGr);
    assert_eq!(parse_key("Ralt").unwrap(), Key::AltGr);
    assert_eq!(parse_key("ESCAPE").unwrap(), Key::Escape);
    assert_eq!(parse_key("f9").unwrap(), Key::F9);
}

// ---- parse_key: unknown ----

#[test]
fn parse_key_unknown_errors() {
    assert!(parse_key("UnknownKey").is_err());
    assert!(parse_key("").is_err());
}

#[test]
fn parse_key_error_message_mentions_key() {
    let err = parse_key("BadKey").unwrap_err();
    assert!(
        err.message().contains("badkey") || err.message().contains("Unknown key"),
        "error should identify the unrecognised key, got: {}",
        err.message()
    );
}

#[test]
fn unknown_keys_are_named_in_lower_case() {
    assert!(matches!(parse_key("ÄRGER"), Err(HotkeyError::UnknownKey(name)) if name == "ärger"));
}

// ---- parse_hotkey: single key (no modifiers) ----

#[test]
fn parse_hotkey_single_key() {
    let h = parse_hotkey("RAlt").unwrap();
    assert_eq!(h.trigger, Key::AltGr);
    assert!(h.modifiers.is_empty());
}

#[test]
fn parse_hotkey_single_space() {
    let h = parse_hotkey("Space").unwrap();
    assert_eq!(h.trigger, Key::Space);
    assert!(h.modifiers.is_empty());
}

#[test]
fn parse_hotkey_single_f9() {
    let h = parse_hotkey("F9").unwrap();
    assert_eq!(h.trigger, Key::F9);
    assert!(h.modifiers.is_empty());
}

// ---- parse_hotkey: combos ----

#[test]
fn parse_hotkey_ctrl_space() {
    let h = parse_hotkey("Ctrl+Space").unwrap();
    assert_eq!(h.modifiers, vec![Key::ControlLeft]);
    assert_eq!(h.trigger, Key::Space);
}

#[test]
fn parse_hotkey_lctrl_space() {
    let h = parse_hotkey("LCtrl+Space").unwrap();
    assert_eq!(h.modifiers, vec![Key::ControlLeft]);
    assert_eq!(h.trigger, Key::Space);
}

#[test]
fn parse_hotkey_rctrl_space() {
    let h = parse_hotkey("RCtrl+Space").unwrap();
    assert_eq!(h.modifiers, vec![Key::ControlRight]);
    assert_eq!(h.trigger, Key::Space);
}

#[test]
fn parse_hotkey_two_modifiers() {
    let h = parse_hotkey("LCtrl+Shift+F9").unwrap();
    assert_eq!(h.modifiers, vec![Key::ControlLeft, Key::ShiftLeft]);
    assert_eq!(h.trigger, Key::F9);
}

#[test]
fn parse_hotkey_alt_f4() {
    let h = parse_hotkey("LAlt+F4").unwrap();
    assert_eq!(h.modifiers, vec![Key::Alt]);
    assert_eq!(h.trigger, Key::F4);
}

#[test]
fn parse_hotkey_case_insensitive() {
    let h = parse_hotkey("ctrl+space").unwrap();
    assert_eq!(h.modifiers, vec![Key::ControlLeft]);
    assert_eq!(h.trigger, Key::Space);
}

#[test]
fn parse_hotkey_trims_whitespace() {
    let h = parse_hotkey("Ctrl + Space").unwrap();
    assert_eq!(h.modifiers, vec![Key::ControlLeft]);
    assert_eq!(h.trigger, Key::Space);
}

// ---- parse_hotkey: errors ----

#[test]
fn parse_hotkey_unknown_modifier_errors() {
    assert!(parse_hotkey("Win+Space").is_err());
}

#[test]
fn parse_hotkey_unknown_trigger_errors() {
    assert!(parse_hotkey("Ctrl+Del").is_err());
}

#[test]
fn parse_hotkey_empty_errors() {
    assert!(parse_hotkey("").is_err());
}

#[test]
fn parse_hotkey_trailing_plus_errors() {
    assert!(parse_hotkey("Ctrl+").is_err());
}

#[test]
fn parse_hotkey_leading_plus_errors() {
    assert!(parse_hotkey("+Space").is_err());
}

#[test]
fn errors_name_what_is_wrong() {
    assert!(matches!(
        parse_hotkey("Ctrl+Del"),
        Err(HotkeyError::UnknownKey(name)) if name == "del"
    ));
    assert!(matches!(parse_hotkey("Ctrl+"), Err(HotkeyError::EmptyPart(_))));
}

// ---- modifiers_held ----

#[test]
fn modifiers_held_no_modifiers_rejects_modified_keypress() {
    let h = parse_hotkey("Space").unwrap();
    assert!(modifiers_held(&vec![], &h));
    assert!(!modifiers_held(&vec![Key::ControlLeft], &h));
}

#[test]
fn modifiers_held_with_modifier_requires_it() {
    let h = parse_hotkey("Ctrl+Space").unwrap();
    assert!(!modifiers_held(&vec![], &h));
    assert!(!modifiers_held(&vec![Key::ShiftLeft], &h));
    assert!(modifiers_held(&vec![Key::ControlLeft], &h));
    assert!(!modifiers_held(&vec![Key::ControlLeft, Key::ShiftLeft], &h));
}

#[test]
fn modifiers_held_two_modifiers_requires_both() {
    let h = parse_hotkey("LCtrl+Shift+F9").unwrap();
    assert!(!modifiers_held(&vec![Key::ControlLeft], &h));
    assert!(!modifiers_held(&vec![Key::ShiftLeft], &h));
    assert!(modifiers_held(&vec![Key::ControlLeft, Key::ShiftLeft], &h));
}

#[test]
fn either_key_of_a_modifier_will_do() {
    let h = parse_hotkey("Ctrl+Space").unwrap();
    assert!(modifiers_held(&vec![Key::ControlRight], &h));
    assert!(same_modifier_family(Key::ShiftLeft, Key::ShiftRight));
    assert!(!same_modifier_family(Key::ShiftLeft, Key::Alt));
    assert!(is_modifier(Key::AltGr));
    assert!(!is_modifier(Key::Space));
}

// ---- the listener ----

fn bindings(
    transcribe: &str,
    cancel: &str,
    repaste: Option<&str>,
    editor: Option<&str>,
    consume: bool,
) -> Bindings {
    parse_bindings(transcribe, cancel, repaste, editor, consume).unwrap()
}

#[test]
fn bindings_say_which_key_is_wrong() {
    assert!(matches!(
        parse_bindings("Nope", "Escape", None, None, false),
        Err(BindingError::Transcribe(_))
    ));
    assert!(matches!(
        parse_bindings("RAlt", "Nope", None, None, false),
        Err(BindingError::Cancel(_))
    ));
}

#[test]
fn one_key_under_two_names_only_records() {
    let mut l = Listener::new(bindings("Return", "Escape", Some("Enter"), None, false));
    assert_eq!(l.press(Key::Return).events, vec![HotkeyEvent::TranscribeDown]);
    assert_eq!(l.release(Key::Return).events, vec![HotkeyEvent::TranscribeUp]);
    // The side and the order of modifiers make no difference either.
    let b = bindings("Ctrl+Shift+F9", "Escape", Some("Shift+RCtrl+F9"), None, false);
    assert!(b.repaste.is_none());
    assert!(bindings("Ctrl+F9", "Escape", Some("F9"), None, false).repaste.is_some());
    assert!(bindings("RAlt", "Escape", Some("LAlt"), None, false).repaste.is_some());
}

#[test]
fn keys_that_are_left_out_are_not_bound() {
    let mut hotkeys = HotkeysConfig::default();
    hotkeys.repaste = String::new();
    hotkeys.image_editor = String::new();
    let b = configured_bindings(&hotkeys).unwrap();
    assert_eq!(b.transcribe.trigger, Key::AltGr);
    assert_eq!(b.cancel.trigger, Key::Escape);
    assert!(b.repaste.is_none() && b.image_editor.is_none());
    assert_eq!(b.consume_transcribe_key, hotkeys.consume_transcribe_key);
    hotkeys.repaste = "F8".to_string();
    hotkeys.image_editor = "Ctrl+F7".to_string();
    let b = configured_bindings(&hotkeys).unwrap();
    assert_eq!(b.repaste.unwrap().trigger, Key::F8);
    assert_eq!(b.image_editor.unwrap().trigger, Key::F7);
    hotkeys.cancel = "?".to_string();
    assert!(matches!(configured_bindings(&hotkeys), Err(BindingError::Cancel(_))));
}

#[test]
fn combinations_are_compared_by_what_they_mean() {
    for (a, b) in [("Return", "enter"), ("RAlt", "AltGr"), ("Ctrl+F1", "LCtrl + F1"), ("?", "?")] {
        assert!(is_same_hotkey(a, b) && is_same_hotkey(b, a), "{} {}", a, b);
    }
    for (a, b) in [("F1", "F2"), ("Ctrl+F1", "F1"), ("Ctrl+Ctrl+F1", "Ctrl+F1"), ("?", "F1")] {
        assert!(!is_same_hotkey(a, b) && !is_same_hotkey(b, a), "{} {}", a, b);
    }
}

#[test]
fn the_transcribe_key_goes_down_and_up_once() {
    let mut l = Listener::new(bindings("RAlt", "Escape", None, None, false));
    let down = l.press(Key::AltGr);
    assert_eq!(down.events, vec![HotkeyEvent::TranscribeDown]);
    assert!(!down.swallow);
    assert!(l.press(Key::AltGr).events.is_empty());
    let up = l.release(Key::AltGr);
    assert_eq!(up.events, vec![HotkeyEvent::TranscribeUp]);
    assert!(l.release(Key::AltGr).events.is_empty());
    assert_eq!(l.press(Key::Escape).events, vec![HotkeyEvent::Cancel]);
}

#[test]
fn another_modifier_keeps_the_hotkey_from_firing() {
    let mut l = Listener::new(bindings("F9", "Escape", None, None, false));
    assert!(l.press(Key::ControlLeft).events.is_empty());
    assert!(l.press(Key::F9).events.is_empty());
    l.release(Key::F9);
    l.release(Key::ControlLeft);
    assert_eq!(l.press(Key::F9).events, vec![HotkeyEvent::TranscribeDown]);
}

#[test]
fn a_consumed_key_is_swallowed_down_and_up() {
    let mut l = Listener::new(bindings("Space", "Escape", None, None, true));
    assert!(l.press(Key::Space).swallow);
    assert!(l.press(Key::Space).swallow);
    assert!(l.release(Key::Space).swallow);
    assert!(!l.release(Key::Space).swallow);
    assert!(!l.press(Key::Tab).swallow);
    assert!(!l.release(Key::Tab).swallow);
}

#[test]
fn repaste_and_review_have_keys_of_their_own() {
    let mut l = Listener::new(bindings("RAlt", "Escape", Some("F8"), Some("Ctrl+Alt+F7"), false));
    assert_eq!(l.press(Key::F8).events, vec![HotkeyEvent::Repaste]);
    l.release(Key::F8);
    l.press(Key::ControlLeft);
    l.press(Key::Alt);
    assert_eq!(l.press(Key::F7).events, vec![HotkeyEvent::OpenImageEditor]);
    assert!(l.press(Key::F7).events.is_empty());
}
