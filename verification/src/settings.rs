//! The settings of the configuration by name: how a setting is changed by the
//! name and the text that a user gives, and what two configurations differ in.

use crate::config::{
    Config, ConfigView, HistoryView, HotkeysView, PasteMethod, PasteView, RecordingMode,
    RecordingView, ScreenshotsView, TranscriptionView,
};
use crate::numbers::{bounded_value, parse_bounded};
use crate::pieces::{join, joined, texts};
use crate::text::{is_blank, same_text, trimmed};
use vstd::prelude::*;

verus! {

// ---------------------------------------------------------------------------
// Setting names
// ---------------------------------------------------------------------------

/// A setting that can be changed by name.
#[derive(Debug, Clone, Copy, PartialEq, Eq, Structural)]
pub enum ConfigKey {
    HistoryMaxAgeDays,
    HistoryMaxRecordings,
    HistoryPath,
    HistorySaveCancelled,
    HotkeysCancel,
    HotkeysConsumeTranscribeKey,
    HotkeysImageEditor,
    HotkeysMode,
    HotkeysRepaste,
    HotkeysTranscribe,
    PasteMethod,
    PasteRestoreClipboard,
    RecordingDevice,
    RecordingMuteSystemAudio,
    RecordingSilenceTimeoutSecs,
    ScreenshotsPhrase,
    TranscriptionLanguage,
    TranscriptionModelPath,
    TranscriptionUnloadAfterSecs,
    TranscriptionWordListPath,
}

impl ConfigKey {
    /// The name of a setting.
    pub open spec fn name(self) -> Seq<char> {
        match self {
            ConfigKey::HistoryMaxAgeDays => "history.max_age_days"@,
            ConfigKey::HistoryMaxRecordings => "history.max_recordings"@,
            ConfigKey::HistoryPath => "history.path"@,
            ConfigKey::HistorySaveCancelled => "history.save_cancelled"@,
            ConfigKey::HotkeysCancel => "hotkeys.cancel"@,
            ConfigKey::HotkeysConsumeTranscribeKey => "hotkeys.consume_transcribe_key"@,
            ConfigKey::HotkeysImageEditor => "hotkeys.image_editor"@,
            ConfigKey::HotkeysMode => "hotkeys.mode"@,
            ConfigKey::HotkeysRepaste => "hotkeys.repaste"@,
            ConfigKey::HotkeysTranscribe => "hotkeys.transcribe"@,
            ConfigKey::PasteMethod => "paste.method"@,
            ConfigKey::PasteRestoreClipboard => "paste.restore_clipboard"@,
            ConfigKey::RecordingDevice => "recording.device"@,
            ConfigKey::RecordingMuteSystemAudio => "recording.mute_system_audio"@,
            ConfigKey::RecordingSilenceTimeoutSecs => "recording.silence_timeout_secs"@,
            ConfigKey::ScreenshotsPhrase => "screenshots.phrase"@,
            ConfigKey::TranscriptionLanguage => "transcription.language"@,
            ConfigKey::TranscriptionModelPath => "transcription.model_path"@,
            ConfigKey::TranscriptionUnloadAfterSecs => "transcription.unload_after_secs"@,
            ConfigKey::TranscriptionWordListPath => "transcription.word_list_path"@,
        }
    }

    /// The name of a setting.
    pub fn as_str(self) -> (r: &'static str)
        ensures
            r@ == self.name(),
    {
        match self {
            ConfigKey::HistoryMaxAgeDays => "history.max_age_days",
            ConfigKey::HistoryMaxRecordings => "history.max_recordings",
            ConfigKey::HistoryPath => "history.path",
            ConfigKey::HistorySaveCancelled => "history.save_cancelled",
            ConfigKey::HotkeysCancel => "hotkeys.cancel",
            ConfigKey::HotkeysConsumeTranscribeKey => "hotkeys.consume_transcribe_key",
            ConfigKey::HotkeysImageEditor => "hotkeys.image_editor",
            ConfigKey::HotkeysMode => "hotkeys.mode",
            ConfigKey::HotkeysRepaste => "hotkeys.repaste",
            ConfigKey::HotkeysTranscribe => "hotkeys.transcribe",
            ConfigKey::PasteMethod => "paste.method",
            ConfigKey::PasteRestoreClipboard => "paste.restore_clipboard",
            ConfigKey::RecordingDevice => "recording.device",
            ConfigKey::RecordingMuteSystemAudio => "recording.mute_system_audio",
            ConfigKey::RecordingSilenceTimeoutSecs => "recording.silence_timeout_secs",
            ConfigKey::ScreenshotsPhrase => "screenshots.phrase",
            ConfigKey::TranscriptionLanguage => "transcription.language",
            ConfigKey::TranscriptionModelPath => "transcription.model_path",
            ConfigKey::TranscriptionUnloadAfterSecs => "transcription.unload_after_secs",
            ConfigKey::TranscriptionWordListPath => "transcription.word_list_path",
        }
    }
}

/// The setting of that name.
pub open spec fn key_named(name: Seq<char>) -> Option<ConfigKey> {
    if name == "history.max_age_days"@ {
        Some(ConfigKey::HistoryMaxAgeDays)
    } else if name == "history.max_recordings"@ {
        Some(ConfigKey::HistoryMaxRecordings)
    } else if name == "history.path"@ {
        Some(ConfigKey::HistoryPath)
    } else if name == "history.save_cancelled"@ {
        Some(ConfigKey::HistorySaveCancelled)
    } else if name == "hotkeys.cancel"@ {
        Some(ConfigKey::HotkeysCancel)
    } else if name == "hotkeys.consume_transcribe_key"@ {
        Some(ConfigKey::HotkeysConsumeTranscribeKey)
    } else if name == "hotkeys.image_editor"@ {
        Some(ConfigKey::HotkeysImageEditor)
    } else if name == "hotkeys.mode"@ {
        Some(ConfigKey::HotkeysMode)
    } else if name == "hotkeys.repaste"@ {
        Some(ConfigKey::HotkeysRepaste)
    } else if name == "hotkeys.transcribe"@ {
        Some(ConfigKey::HotkeysTranscribe)
    } else if name == "paste.method"@ {
        Some(ConfigKey::PasteMethod)
    } else if name == "paste.restore_clipboard"@ {
        Some(ConfigKey::PasteRestoreClipboard)
    } else if name == "recording.device"@ {
        Some(ConfigKey::RecordingDevice)
    } else if name == "recording.mute_system_audio"@ {
        Some(ConfigKey::RecordingMuteSystemAudio)
    } else if name == "recording.silence_timeout_secs"@ {
        Some(ConfigKey::RecordingSilenceTimeoutSecs)
    } else if name == "screenshots.phrase"@ {
        Some(ConfigKey::ScreenshotsPhrase)
    } else if name == "transcription.language"@ {
        Some(ConfigKey::TranscriptionLanguage)
    } else if name == "transcription.model_path"@ {
        Some(ConfigKey::TranscriptionModelPath)
    } else if name == "transcription.unload_after_secs"@ {
        Some(ConfigKey::TranscriptionUnloadAfterSecs)
    } else if name == "transcription.word_list_path"@ {
        Some(ConfigKey::TranscriptionWordListPath)
    } else {
        None
    }
}

/// The setting of that name.
pub fn parse_config_key(name: &str) -> (r: Option<ConfigKey>)
    ensures
        r == key_named(name@),
{
    if same_text(name, "history.max_age_days") {
        Some(ConfigKey::HistoryMaxAgeDays)
    } else if same_text(name, "history.max_recordings") {
        Some(ConfigKey::HistoryMaxRecordings)
    } else if same_text(name, "history.path") {
        Some(ConfigKey::HistoryPath)
    } else if same_text(name, "history.save_cancelled") {
        Some(ConfigKey::HistorySaveCancelled)
    } else if same_text(name, "hotkeys.cancel") {
        Some(ConfigKey::HotkeysCancel)
    } else if same_text(name, "hotkeys.consume_transcribe_key") {
        Some(ConfigKey::HotkeysConsumeTranscribeKey)
    } else if same_text(name, "hotkeys.image_editor") {
        Some(ConfigKey::HotkeysImageEditor)
    } else if same_text(name, "hotkeys.mode") {
        Some(ConfigKey::HotkeysMode)
    } else if same_text(name, "hotkeys.repaste") {
        Some(ConfigKey::HotkeysRepaste)
    } else if same_text(name, "hotkeys.transcribe") {
        Some(ConfigKey::HotkeysTranscribe)
    } else if same_text(name, "paste.method") {
        Some(ConfigKey::PasteMethod)
    } else if same_text(name, "paste.restore_clipboard") {
        Some(ConfigKey::PasteRestoreClipboard)
    } else if same_text(name, "recording.device") {
        Some(ConfigKey::RecordingDevice)
    } else if same_text(name, "recording.mute_system_audio") {
        Some(ConfigKey::RecordingMuteSystemAudio)
    } else if same_text(name, "recording.silence_timeout_secs") {
        Some(ConfigKey::RecordingSilenceTimeoutSecs)
    } else if same_text(name, "screenshots.phrase") {
        Some(ConfigKey::ScreenshotsPhrase)
    } else if same_text(name, "transcription.language") {
        Some(ConfigKey::TranscriptionLanguage)
    } else if same_text(name, "transcription.model_path") {
        Some(ConfigKey::TranscriptionModelPath)
    } else if same_text(name, "transcription.unload_after_secs") {
        Some(ConfigKey::TranscriptionUnloadAfterSecs)
    } else if same_text(name, "transcription.word_list_path") {
        Some(ConfigKey::TranscriptionWordListPath)
    } else {
        None
    }
}

/// All settings, in the order of their names.
pub open spec fn all_keys() -> Seq<ConfigKey> {
    seq![
        ConfigKey::HistoryMaxAgeDays,
        ConfigKey::HistoryMaxRecordings,
        ConfigKey::HistoryPath,
        ConfigKey::HistorySaveCancelled,
        ConfigKey::HotkeysCancel,
        ConfigKey::HotkeysConsumeTranscribeKey,
        ConfigKey::HotkeysImageEditor,
        ConfigKey::HotkeysMode,
        ConfigKey::HotkeysRepaste,
        ConfigKey::HotkeysTranscribe,
        ConfigKey::PasteMethod,
        ConfigKey::PasteRestoreClipboard,
        ConfigKey::RecordingDevice,
        ConfigKey::RecordingMuteSystemAudio,
        ConfigKey::RecordingSilenceTimeoutSecs,
        ConfigKey::ScreenshotsPhrase,
        ConfigKey::TranscriptionLanguage,
        ConfigKey::TranscriptionModelPath,
        ConfigKey::TranscriptionUnloadAfterSecs,
        ConfigKey::TranscriptionWordListPath,
    ]
}

/// All settings, in the order of their names.
pub fn config_keys() -> (r: Vec<ConfigKey>)
    ensures
        r@ == all_keys(),
{
    let r: Vec<ConfigKey> = vec![
        ConfigKey::HistoryMaxAgeDays,
        ConfigKey::HistoryMaxRecordings,
        ConfigKey::HistoryPath,
        ConfigKey::HistorySaveCancelled,
        ConfigKey::HotkeysCancel,
        ConfigKey::HotkeysConsumeTranscribeKey,
        ConfigKey::HotkeysImageEditor,
        ConfigKey::HotkeysMode,
        ConfigKey::HotkeysRepaste,
        ConfigKey::HotkeysTranscribe,
        ConfigKey::PasteMethod,
        ConfigKey::PasteRestoreClipboard,
        ConfigKey::RecordingDevice,
        ConfigKey::RecordingMuteSystemAudio,
        ConfigKey::RecordingSilenceTimeoutSecs,
        ConfigKey::ScreenshotsPhrase,
        ConfigKey::TranscriptionLanguage,
        ConfigKey::TranscriptionModelPath,
        ConfigKey::TranscriptionUnloadAfterSecs,
        ConfigKey::TranscriptionWordListPath,
    ];
    assert(r@ =~= all_keys());
    r
}

// ---------------------------------------------------------------------------
// Changing a setting
// ---------------------------------------------------------------------------

/// Why a setting was not changed.
#[derive(Debug, Clone, Copy, PartialEq, Eq, Structural)]
pub enum ConfigError {
    /// There is no setting of that name.
    UnknownKey,
    /// The text names no recording mode.
    InvalidMode,
    /// The text names no paste method.
    InvalidPasteMethod,
    /// The text is neither `true` nor `false`.
    ExpectedBool,
    /// The text is no number, or one that a configuration cannot hold.
    ExpectedNumber,
    /// The text is no number, or one that a configuration cannot hold, where 0
    /// is refused too.
    ExpectedPositiveNumber,
    /// A silence timeout of 0.
    SilenceTimeoutTooShort,
    /// A screenshot phrase without any character but white space.
    BlankPhrase,
}

/// The greatest number that a configuration holds. It is kept as a TOML
/// document, whose integers have 64 bits and a sign.
pub const MAX_NUMBER: u64 = 9_223_372_036_854_775_807;

/// The greatest count that a configuration holds, which has to fit the machine
/// too.
pub open spec fn max_count() -> nat {
    if usize::MAX < MAX_NUMBER {
        usize::MAX as nat
    } else {
        MAX_NUMBER as nat
    }
}

/// Reads a count.
fn parse_count(value: &str) -> (r: Option<usize>)
    ensures
        bounded_value(value@, max_count()) == match r {
            Some(v) => Some(v as nat),
            None => None,
        },
{
    let greatest: u64 = if (usize::MAX as u64) < MAX_NUMBER {
        usize::MAX as u64
    } else {
        MAX_NUMBER
    };
    match parse_bounded(value, greatest) {
        Some(v) => Some(v as usize),
        None => None,
    }
}

/// The recording mode of that name.
pub open spec fn mode_named(value: Seq<char>) -> Option<RecordingMode> {
    if value == "toggle"@ {
        Some(RecordingMode::Toggle)
    } else if value == "push_to_talk"@ {
        Some(RecordingMode::PushToTalk)
    } else {
        None
    }
}

/// The paste method of that name.
pub open spec fn method_named(value: Seq<char>) -> Option<PasteMethod> {
    if value == "immediate"@ {
        Some(PasteMethod::Immediate)
    } else if value == "ctrl_v"@ {
        Some(PasteMethod::CtrlV)
    } else if value == "ctrl_shift_v"@ {
        Some(PasteMethod::CtrlShiftV)
    } else if value == "clipboard"@ {
        Some(PasteMethod::Clipboard)
    } else if value == "none"@ {
        Some(PasteMethod::Off)
    } else {
        None
    }
}

/// The truth value of that name.
pub open spec fn bool_named(value: Seq<char>) -> Option<bool> {
    if value == "true"@ {
        Some(true)
    } else if value == "false"@ {
        Some(false)
    } else {
        None
    }
}

/// The recording mode of that name.
pub fn parse_mode(value: &str) -> (r: Option<RecordingMode>)
    ensures
        r == mode_named(value@),
{
    if same_text(value, "toggle") {
        Some(RecordingMode::Toggle)
    } else if same_text(value, "push_to_talk") {
        Some(RecordingMode::PushToTalk)
    } else {
        None
    }
}

/// The paste method of that name.
pub fn parse_method(value: &str) -> (r: Option<PasteMethod>)
    ensures
        r == method_named(value@),
{
    if same_text(value, "immediate") {
        Some(PasteMethod::Immediate)
    } else if same_text(value, "ctrl_v") {
        Some(PasteMethod::CtrlV)
    } else if same_text(value, "ctrl_shift_v") {
        Some(PasteMethod::CtrlShiftV)
    } else if same_text(value, "clipboard") {
        Some(PasteMethod::Clipboard)
    } else if same_text(value, "none") {
        Some(PasteMethod::Off)
    } else {
        None
    }
}

/// The truth value of that name.
pub fn parse_bool(value: &str) -> (r: Option<bool>)
    ensures
        r == bool_named(value@),
{
    if same_text(value, "true") {
        Some(true)
    } else if same_text(value, "false") {
        Some(false)
    } else {
        None
    }
}

/// The value of one setting.
pub ghost enum Setting {
    Text(Seq<char>),
    Flag(bool),
    Number(nat),
    Mode(RecordingMode),
    Method(PasteMethod),
}

/// The value that a setting takes from a text, or why it takes none.
pub open spec fn setting_from(key: ConfigKey, value: Seq<char>) -> Result<Setting, ConfigError> {
    match key {
        ConfigKey::HistoryMaxAgeDays => match bounded_value(value, MAX_NUMBER as nat) {
            Some(n) => Ok(Setting::Number(n)),
            None => Err(ConfigError::ExpectedNumber),
        },
        ConfigKey::HistoryMaxRecordings => match bounded_value(value, max_count()) {
            Some(n) => Ok(Setting::Number(n)),
            None => Err(ConfigError::ExpectedNumber),
        },
        ConfigKey::HistoryPath => Ok(Setting::Text(value)),
        ConfigKey::HistorySaveCancelled => match bool_named(value) {
            Some(b) => Ok(Setting::Flag(b)),
            None => Err(ConfigError::ExpectedBool),
        },
        ConfigKey::HotkeysCancel => Ok(Setting::Text(value)),
        ConfigKey::HotkeysConsumeTranscribeKey => match bool_named(value) {
            Some(b) => Ok(Setting::Flag(b)),
            None => Err(ConfigError::ExpectedBool),
        },
        ConfigKey::HotkeysImageEditor => Ok(Setting::Text(value)),
        ConfigKey::HotkeysMode => match mode_named(value) {
            Some(m) => Ok(Setting::Mode(m)),
            None => Err(ConfigError::InvalidMode),
        },
        ConfigKey::HotkeysRepaste => Ok(Setting::Text(value)),
        ConfigKey::HotkeysTranscribe => Ok(Setting::Text(value)),
        ConfigKey::PasteMethod => match method_named(value) {
            Some(m) => Ok(Setting::Method(m)),
            None => Err(ConfigError::InvalidPasteMethod),
        },
        ConfigKey::PasteRestoreClipboard => match bool_named(value) {
            Some(b) => Ok(Setting::Flag(b)),
            None => Err(ConfigError::ExpectedBool),
        },
        ConfigKey::RecordingDevice => Ok(Setting::Text(value)),
        ConfigKey::RecordingMuteSystemAudio => match bool_named(value) {
            Some(b) => Ok(Setting::Flag(b)),
            None => Err(ConfigError::ExpectedBool),
        },
        ConfigKey::RecordingSilenceTimeoutSecs => match bounded_value(value, MAX_NUMBER as nat) {
            Some(n) => if n == 0 {
                Err(ConfigError::SilenceTimeoutTooShort)
            } else {
                Ok(Setting::Number(n))
            },
            None => Err(ConfigError::ExpectedPositiveNumber),
        },
        ConfigKey::ScreenshotsPhrase => if trimmed(value).len() == 0 {
            Err(ConfigError::BlankPhrase)
        } else {
            Ok(Setting::Text(value))
        },
        ConfigKey::TranscriptionLanguage => Ok(Setting::Text(value)),
        ConfigKey::TranscriptionModelPath => Ok(Setting::Text(value)),
        ConfigKey::TranscriptionUnloadAfterSecs => match bounded_value(value, MAX_NUMBER as nat) {
            Some(n) => Ok(Setting::Number(n)),
            None => Err(ConfigError::ExpectedNumber),
        },
        ConfigKey::TranscriptionWordListPath => Ok(Setting::Text(value)),
    }
}

/// The value of one setting.
pub open spec fn setting(c: ConfigView, key: ConfigKey) -> Setting {
    match key {
        ConfigKey::HistoryMaxAgeDays => Setting::Number(c.history.max_age_days as nat),
        ConfigKey::HistoryMaxRecordings => Setting::Number(c.history.max_recordings as nat),
        ConfigKey::HistoryPath => Setting::Text(c.history.path),
        ConfigKey::HistorySaveCancelled => Setting::Flag(c.history.save_cancelled),
        ConfigKey::HotkeysCancel => Setting::Text(c.hotkeys.cancel),
        ConfigKey::HotkeysConsumeTranscribeKey => Setting::Flag(c.hotkeys.consume_transcribe_key),
        ConfigKey::HotkeysImageEditor => Setting::Text(c.hotkeys.image_editor),
        ConfigKey::HotkeysMode => Setting::Mode(c.hotkeys.mode),
        ConfigKey::HotkeysRepaste => Setting::Text(c.hotkeys.repaste),
        ConfigKey::HotkeysTranscribe => Setting::Text(c.hotkeys.transcribe),
        ConfigKey::PasteMethod => Setting::Method(c.paste.method),
        ConfigKey::PasteRestoreClipboard => Setting::Flag(c.paste.restore_clipboard),
        ConfigKey::RecordingDevice => Setting::Text(c.recording.device),
        ConfigKey::RecordingMuteSystemAudio => Setting::Flag(c.recording.mute_system_audio),
        ConfigKey::RecordingSilenceTimeoutSecs => Setting::Number(c.recording.silence_timeout_secs as nat),
        ConfigKey::ScreenshotsPhrase => Setting::Text(c.screenshots.phrase),
        ConfigKey::TranscriptionLanguage => Setting::Text(c.transcription.language),
        ConfigKey::TranscriptionModelPath => Setting::Text(c.transcription.model_path),
        ConfigKey::TranscriptionUnloadAfterSecs => Setting::Number(c.transcription.unload_after_secs as nat),
        ConfigKey::TranscriptionWordListPath => Setting::Text(c.transcription.word_list_path),
    }
}

/// The value of one setting, to be shown.
#[derive(Debug)]
pub enum SettingValue {
    Text(String),
    Flag(bool),
    Number(u64),
    Mode(RecordingMode),
    Method(PasteMethod),
}

impl View for SettingValue {
    type V = Setting;

    open spec fn view(&self) -> Setting {
        match self {
            SettingValue::Text(t) => Setting::Text(t@),
            SettingValue::Flag(b) => Setting::Flag(*b),
            SettingValue::Number(n) => Setting::Number(*n as nat),
            SettingValue::Mode(m) => Setting::Mode(*m),
            SettingValue::Method(m) => Setting::Method(*m),
        }
    }
}

/// The value of one setting.
pub fn setting_value(config: &Config, key: ConfigKey) -> (r: SettingValue)
    ensures
        r@ == setting(config@, key),
{
    match key {
        ConfigKey::HistoryMaxAgeDays => SettingValue::Number(config.history.max_age_days),
        ConfigKey::HistoryMaxRecordings => SettingValue::Number(
            config.history.max_recordings as u64,
        ),
        ConfigKey::HistoryPath => SettingValue::Text(config.history.path.clone()),
        ConfigKey::HistorySaveCancelled => SettingValue::Flag(config.history.save_cancelled),
        ConfigKey::HotkeysCancel => SettingValue::Text(config.hotkeys.cancel.clone()),
        ConfigKey::HotkeysConsumeTranscribeKey => SettingValue::Flag(
            config.hotkeys.consume_transcribe_key,
        ),
        ConfigKey::HotkeysImageEditor => SettingValue::Text(config.hotkeys.image_editor.clone()),
        ConfigKey::HotkeysMode => SettingValue::Mode(config.hotkeys.mode),
        ConfigKey::HotkeysRepaste => SettingValue::Text(config.hotkeys.repaste.clone()),
        ConfigKey::HotkeysTranscribe => SettingValue::Text(config.hotkeys.transcribe.clone()),
        ConfigKey::PasteMethod => SettingValue::Method(config.paste.method),
        ConfigKey::PasteRestoreClipboard => SettingValue::Flag(config.paste.restore_clipboard),
        ConfigKey::RecordingDevice => SettingValue::Text(config.recording.device.clone()),
        ConfigKey::RecordingMuteSystemAudio => SettingValue::Flag(
            config.recording.mute_system_audio,
        ),
        ConfigKey::RecordingSilenceTimeoutSecs => SettingValue::Number(
            config.recording.silence_timeout_secs,
        ),
        ConfigKey::ScreenshotsPhrase => SettingValue::Text(config.screenshots.phrase.clone()),
        ConfigKey::TranscriptionLanguage => SettingValue::Text(
            config.transcription.language.clone(),
        ),
        ConfigKey::TranscriptionModelPath => SettingValue::Text(
            config.transcription.model_path.clone(),
        ),
        ConfigKey::TranscriptionUnloadAfterSecs => SettingValue::Number(
            config.transcription.unload_after_secs,
        ),
        ConfigKey::TranscriptionWordListPath => SettingValue::Text(
            config.transcription.word_list_path.clone(),
        ),
    }
}

/// `new` is `old` with one setting changed and all others as they were.
pub open spec fn changes_only(
    old_config: ConfigView,
    new_config: ConfigView,
    key: ConfigKey,
    value: Setting,
) -> bool {
    &&& setting(new_config, key) == value
    &&& forall|other: ConfigKey|
        other != key ==> #[trigger] setting(new_config, other) == setting(old_config, other)
}

/// Two configurations with the same value for every setting are the same.
pub proof fn lemma_settings_determine_config(a: ConfigView, b: ConfigView)
    requires
        forall|key: ConfigKey| #[trigger] setting(a, key) == setting(b, key),
    ensures
        a == b,
{
    assert(setting(a, ConfigKey::HistoryMaxAgeDays) == setting(b, ConfigKey::HistoryMaxAgeDays));
    assert(setting(a, ConfigKey::HistoryMaxRecordings) == setting(b, ConfigKey::HistoryMaxRecordings));
    assert(setting(a, ConfigKey::HistoryPath) == setting(b, ConfigKey::HistoryPath));
    assert(setting(a, ConfigKey::HistorySaveCancelled) == setting(b, ConfigKey::HistorySaveCancelled));
    assert(setting(a, ConfigKey::HotkeysCancel) == setting(b, ConfigKey::HotkeysCancel));
    assert(setting(a, ConfigKey::HotkeysConsumeTranscribeKey) == setting(b, ConfigKey::HotkeysConsumeTranscribeKey));
    assert(setting(a, ConfigKey::HotkeysImageEditor) == setting(b, ConfigKey::HotkeysImageEditor));
    assert(setting(a, ConfigKey::HotkeysMode) == setting(b, ConfigKey::HotkeysMode));
    assert(setting(a, ConfigKey::HotkeysRepaste) == setting(b, ConfigKey::HotkeysRepaste));
    assert(setting(a, ConfigKey::HotkeysTranscribe) == setting(b, ConfigKey::HotkeysTranscribe));
    assert(setting(a, ConfigKey::PasteMethod) == setting(b, ConfigKey::PasteMethod));
    assert(setting(a, ConfigKey::PasteRestoreClipboard) == setting(b, ConfigKey::PasteRestoreClipboard));
    assert(setting(a, ConfigKey::RecordingDevice) == setting(b, ConfigKey::RecordingDevice));
    assert(setting(a, ConfigKey::RecordingMuteSystemAudio) == setting(b, ConfigKey::RecordingMuteSystemAudio));
    assert(setting(a, ConfigKey::RecordingSilenceTimeoutSecs) == setting(b, ConfigKey::RecordingSilenceTimeoutSecs));
    assert(setting(a, ConfigKey::ScreenshotsPhrase) == setting(b, ConfigKey::ScreenshotsPhrase));
    assert(setting(a, ConfigKey::TranscriptionLanguage) == setting(b, ConfigKey::TranscriptionLanguage));
    assert(setting(a, ConfigKey::TranscriptionModelPath) == setting(b, ConfigKey::TranscriptionModelPath));
    assert(setting(a, ConfigKey::TranscriptionUnloadAfterSecs) == setting(b, ConfigKey::TranscriptionUnloadAfterSecs));
    assert(setting(a, ConfigKey::TranscriptionWordListPath) == setting(b, ConfigKey::TranscriptionWordListPath));
    assert(a.history == b.history);
    assert(a.hotkeys == b.hotkeys);
    assert(a.paste == b.paste);
    assert(a.recording == b.recording);
    assert(a.screenshots == b.screenshots);
    assert(a.transcription == b.transcription);
}

/// Changes one setting to the value that a text gives it.
pub fn assign(config: &mut Config, key: ConfigKey, value: &str) -> (r: Result<(), ConfigError>)
    ensures
        match setting_from(key, value@) {
            Ok(v) => r is Ok && changes_only(old(config)@, final(config)@, key, v),
            Err(e) => r == Err::<(), ConfigError>(e) && final(config)@ == old(config)@,
        },
{
    match key {
        ConfigKey::HistoryMaxAgeDays => match parse_bounded(value, MAX_NUMBER) {
            Some(v) => {
                config.history.max_age_days = v;
            },
            None => {
                return Err(ConfigError::ExpectedNumber);
            },
        },
        ConfigKey::HistoryMaxRecordings => match parse_count(value) {
            Some(v) => {
                config.history.max_recordings = v;
            },
            None => {
                return Err(ConfigError::ExpectedNumber);
            },
        },
        ConfigKey::HistoryPath => {
            config.history.path = value.to_owned();
        },
        ConfigKey::HistorySaveCancelled => match parse_bool(value) {
            Some(v) => {
                config.history.save_cancelled = v;
            },
            None => {
                return Err(ConfigError::ExpectedBool);
            },
        },
        ConfigKey::HotkeysCancel => {
            config.hotkeys.cancel = value.to_owned();
        },
        ConfigKey::HotkeysConsumeTranscribeKey => match parse_bool(value) {
            Some(v) => {
                config.hotkeys.consume_transcribe_key = v;
            },
            None => {
                return Err(ConfigError::ExpectedBool);
            },
        },
        ConfigKey::HotkeysImageEditor => {
            config.hotkeys.image_editor = value.to_owned();
        },
        ConfigKey::HotkeysMode => match parse_mode(value) {
            Some(v) => {
                config.hotkeys.mode = v;
            },
            None => {
                return Err(ConfigError::InvalidMode);
            },
        },
        ConfigKey::HotkeysRepaste => {
            config.hotkeys.repaste = value.to_owned();
        },
        ConfigKey::HotkeysTranscribe => {
            config.hotkeys.transcribe = value.to_owned();
        },
        ConfigKey::PasteMethod => match parse_method(value) {
            Some(v) => {
                config.paste.method = v;
            },
            None => {
                return Err(ConfigError::InvalidPasteMethod);
            },
        },
        ConfigKey::PasteRestoreClipboard => match parse_bool(value) {
            Some(v) => {
                config.paste.restore_clipboard = v;
            },
            None => {
                return Err(ConfigError::ExpectedBool);
            },
        },
        ConfigKey::RecordingDevice => {
            config.recording.device = value.to_owned();
        },
        ConfigKey::RecordingMuteSystemAudio => match parse_bool(value) {
            Some(v) => {
                config.recording.mute_system_audio = v;
            },
            None => {
                return Err(ConfigError::ExpectedBool);
            },
        },
        ConfigKey::RecordingSilenceTimeoutSecs => match parse_bounded(value, MAX_NUMBER) {
            Some(v) => {
                if v == 0 {
                    return Err(ConfigError::SilenceTimeoutTooShort);
                }
                config.recording.silence_timeout_secs = v;
            },
            None => {
                return Err(ConfigError::ExpectedPositiveNumber);
            },
        },
        ConfigKey::ScreenshotsPhrase => {
            if is_blank(value) {
                return Err(ConfigError::BlankPhrase);
            }
            config.screenshots.phrase = value.to_owned();
        },
        ConfigKey::TranscriptionLanguage => {
            config.transcription.language = value.to_owned();
        },
        ConfigKey::TranscriptionModelPath => {
            config.transcription.model_path = value.to_owned();
        },
        ConfigKey::TranscriptionUnloadAfterSecs => match parse_bounded(value, MAX_NUMBER) {
            Some(v) => {
                config.transcription.unload_after_secs = v;
            },
            None => {
                return Err(ConfigError::ExpectedNumber);
            },
        },
        ConfigKey::TranscriptionWordListPath => {
            config.transcription.word_list_path = value.to_owned();
        },
    }
    Ok(())
}

/// Changes the setting of that name to the value that a text gives it.
pub fn set_config_value_at(config: &mut Config, key: &str, value: &str) -> (r: Result<
    (),
    ConfigError,
>)
    ensures
        match key_named(key@) {
            Some(k) => match setting_from(k, value@) {
                Ok(v) => r is Ok && changes_only(old(config)@, final(config)@, k, v),
                Err(e) => r == Err::<(), ConfigError>(e) && final(config)@ == old(config)@,
            },
            None => r == Err::<(), ConfigError>(ConfigError::UnknownKey) && final(config)@ == old(
                config,
            )@,
        },
{
    match parse_config_key(key) {
        Some(k) => assign(config, k, value),
        None => Err(ConfigError::UnknownKey),
    }
}

// ---------------------------------------------------------------------------
// Messages
// ---------------------------------------------------------------------------

/// The lines of the list of settings: two blanks and a name each.
pub open spec fn key_lines() -> Seq<Seq<char>> {
    all_keys().map_values(|k: ConfigKey| "  "@ + k.name())
}

/// The names of all settings, one on a line.
pub fn key_list() -> (r: String)
    ensures
        r@ == joined(key_lines(), "\n"@),
{
    let keys = config_keys();
    let mut lines: Vec<String> = Vec::new();
    let mut i: usize = 0;
    assert(texts(lines@) =~= key_lines().take(0));
    while i < keys.len()
        invariant
            keys@ == all_keys(),
            0 <= i <= keys@.len(),
            texts(lines@) == key_lines().take(i as int),
        decreases keys@.len() - i,
    {
        let mut line = "  ".to_owned();
        line.append(keys[i].as_str());
        let ghost before = texts(lines@);
        lines.push(line);
        assert(texts(lines@) =~= before.push(key_lines()[i as int]));
        assert(key_lines().take(i + 1) =~= key_lines().take(i as int).push(key_lines()[i as int]));
        i += 1;
    }
    assert(key_lines().take(key_lines().len() as int) =~= key_lines());
    join(&lines, "\n")
}

impl ConfigError {
    /// What the user is told when changing the setting named `key` to `value` failed.
    pub open spec fn text(self, key: Seq<char>, value: Seq<char>) -> Seq<char> {
        match self {
            ConfigError::UnknownKey => "Unknown config key: '"@ + key + "'\n\nValid keys:\n"@
                + joined(key_lines(), "\n"@),
            ConfigError::InvalidMode => "Invalid mode: '"@ + value
                + "'. Use 'toggle' or 'push_to_talk'"@,
            ConfigError::InvalidPasteMethod => "Invalid paste method: '"@ + value
                + "'. Use 'immediate', 'ctrl_v', 'ctrl_shift_v', 'clipboard', or 'none'"@,
            ConfigError::ExpectedBool => "Expected 'true' or 'false'"@,
            ConfigError::ExpectedNumber => "Expected a number"@,
            ConfigError::ExpectedPositiveNumber => "Expected a positive number"@,
            ConfigError::SilenceTimeoutTooShort => "silence_timeout_secs must be at least 1 (set a large number to effectively disable auto-stop)"@,
            ConfigError::BlankPhrase => "screenshots.phrase must not be empty"@,
        }
    }

    /// What the user is told when changing the setting named `key` to `value` failed.
    pub fn message(self, key: &str, value: &str) -> (r: String)
        ensures
            r@ == self.text(key@, value@),
    {
        match self {
            ConfigError::UnknownKey => {
                let mut r = "Unknown config key: '".to_owned();
                r.append(key);
                r.append("'\n\nValid keys:\n");
                r.append(key_list().as_str());
                r
            },
            ConfigError::InvalidMode => {
                let mut r = "Invalid mode: '".to_owned();
                r.append(value);
                r.append("'. Use 'toggle' or 'push_to_talk'");
                r
            },
            ConfigError::InvalidPasteMethod => {
                let mut r = "Invalid paste method: '".to_owned();
                r.append(value);
                r.append("'. Use 'immediate', 'ctrl_v', 'ctrl_shift_v', 'clipboard', or 'none'");
                r
            },
            ConfigError::ExpectedBool => "Expected 'true' or 'false'".to_owned(),
            ConfigError::ExpectedNumber => "Expected a number".to_owned(),
            ConfigError::ExpectedPositiveNumber => "Expected a positive number".to_owned(),
            ConfigError::SilenceTimeoutTooShort => "silence_timeout_secs must be at least 1 (set a large number to effectively disable auto-stop)".to_owned(),
            ConfigError::BlankPhrase => "screenshots.phrase must not be empty".to_owned(),
        }
    }
}

// ---------------------------------------------------------------------------
// Differences between two configurations
// ---------------------------------------------------------------------------

/// Whether a setting has the same value in two configurations.
pub fn same_setting(a: &Config, b: &Config, key: ConfigKey) -> (r: bool)
    ensures
        r == (setting(a@, key) == setting(b@, key)),
{
    match key {
        ConfigKey::HistoryMaxAgeDays => a.history.max_age_days == b.history.max_age_days,
        ConfigKey::HistoryMaxRecordings => a.history.max_recordings == b.history.max_recordings,
        ConfigKey::HistoryPath => same_text(a.history.path.as_str(), b.history.path.as_str()),
        ConfigKey::HistorySaveCancelled => a.history.save_cancelled == b.history.save_cancelled,
        ConfigKey::HotkeysCancel => same_text(a.hotkeys.cancel.as_str(), b.hotkeys.cancel.as_str()),
        ConfigKey::HotkeysConsumeTranscribeKey => a.hotkeys.consume_transcribe_key == b.hotkeys.consume_transcribe_key,
        ConfigKey::HotkeysImageEditor => same_text(a.hotkeys.image_editor.as_str(), b.hotkeys.image_editor.as_str()),
        ConfigKey::HotkeysMode => a.hotkeys.mode == b.hotkeys.mode,
        ConfigKey::HotkeysRepaste => same_text(a.hotkeys.repaste.as_str(), b.hotkeys.repaste.as_str()),
        ConfigKey::HotkeysTranscribe => same_text(a.hotkeys.transcribe.as_str(), b.hotkeys.transcribe.as_str()),
        ConfigKey::PasteMethod => a.paste.method == b.paste.method,
        ConfigKey::PasteRestoreClipboard => a.paste.restore_clipboard == b.paste.restore_clipboard,
        ConfigKey::RecordingDevice => same_text(a.recording.device.as_str(), b.recording.device.as_str()),
        ConfigKey::RecordingMuteSystemAudio => a.recording.mute_system_audio == b.recording.mute_system_audio,
        ConfigKey::RecordingSilenceTimeoutSecs => a.recording.silence_timeout_secs == b.recording.silence_timeout_secs,
        ConfigKey::ScreenshotsPhrase => same_text(a.screenshots.phrase.as_str(), b.screenshots.phrase.as_str()),
        ConfigKey::TranscriptionLanguage => same_text(a.transcription.language.as_str(), b.transcription.language.as_str()),
        ConfigKey::TranscriptionModelPath => same_text(a.transcription.model_path.as_str(), b.transcription.model_path.as_str()),
        ConfigKey::TranscriptionUnloadAfterSecs => a.transcription.unload_after_secs == b.transcription.unload_after_secs,
        ConfigKey::TranscriptionWordListPath => same_text(a.transcription.word_list_path.as_str(), b.transcription.word_list_path.as_str()),
    }
}

/// The settings whose changes take effect while the daemon runs and are
/// reported, in the order of the report. (The model path is reported by the
/// engine that loads it.)
pub open spec fn reported_keys() -> Seq<ConfigKey> {
    seq![
        ConfigKey::TranscriptionLanguage,
        ConfigKey::TranscriptionWordListPath,
        ConfigKey::TranscriptionUnloadAfterSecs,
        ConfigKey::RecordingDevice,
        ConfigKey::RecordingMuteSystemAudio,
        ConfigKey::RecordingSilenceTimeoutSecs,
        ConfigKey::PasteMethod,
        ConfigKey::PasteRestoreClipboard,
        ConfigKey::HistoryMaxRecordings,
        ConfigKey::HistoryMaxAgeDays,
        ConfigKey::HistorySaveCancelled,
    ]
}

/// Which of `keys` have different values in two configurations.
pub open spec fn differing(a: ConfigView, b: ConfigView, keys: Seq<ConfigKey>) -> Seq<ConfigKey> {
    keys.filter(|k: ConfigKey| setting(a, k) != setting(b, k))
}

/// Which of the reported settings a reload changed.
pub fn changed_keys(old_config: &Config, new_config: &Config) -> (r: Vec<ConfigKey>)
    ensures
        r@ == differing(old_config@, new_config@, reported_keys()),
{
    let keys: Vec<ConfigKey> = vec![
        ConfigKey::TranscriptionLanguage,
        ConfigKey::TranscriptionWordListPath,
        ConfigKey::TranscriptionUnloadAfterSecs,
        ConfigKey::RecordingDevice,
        ConfigKey::RecordingMuteSystemAudio,
        ConfigKey::RecordingSilenceTimeoutSecs,
        ConfigKey::PasteMethod,
        ConfigKey::PasteRestoreClipboard,
        ConfigKey::HistoryMaxRecordings,
        ConfigKey::HistoryMaxAgeDays,
        ConfigKey::HistorySaveCancelled,
    ];
    assert(keys@ =~= reported_keys());
    let ghost pred = |k: ConfigKey| setting(old_config@, k) != setting(new_config@, k);
    let mut r: Vec<ConfigKey> = Vec::new();
    let mut i: usize = 0;
    proof {
        reveal(Seq::filter);
    }
    assert(r@ =~= keys@.take(0).filter(pred));
    while i < keys.len()
        invariant
            0 <= i <= keys@.len(),
            pred == (|k: ConfigKey| setting(old_config@, k) != setting(new_config@, k)),
            r@ == keys@.take(i as int).filter(pred),
        decreases keys@.len() - i,
    {
        proof {
            reveal(Seq::filter);
        }
        assert(keys@.take(i + 1).drop_last() =~= keys@.take(i as int));
        if !same_setting(old_config, new_config, keys[i]) {
            r.push(keys[i]);
        }
        i += 1;
    }
    assert(keys@.take(keys@.len() as int) =~= keys@);
    r
}

/// Keys that take effect only when the daemon starts differ.
pub open spec fn keys_differ(a: HotkeysView, b: HotkeysView) -> bool {
    a.transcribe != b.transcribe || a.cancel != b.cancel || a.mode != b.mode
}

/// Whether a reload changed keys that take effect only when the daemon starts.
pub fn hotkeys_changed(old_config: &Config, new_config: &Config) -> (r: bool)
    ensures
        r == keys_differ(old_config.hotkeys@, new_config.hotkeys@),
        r == (old_config.hotkeys@.transcribe != new_config.hotkeys@.transcribe
            || old_config.hotkeys@.cancel != new_config.hotkeys@.cancel
            || old_config.hotkeys@.mode != new_config.hotkeys@.mode),
{
    !same_setting(old_config, new_config, ConfigKey::HotkeysTranscribe) || !same_setting(
        old_config,
        new_config,
        ConfigKey::HotkeysCancel,
    ) || !same_setting(old_config, new_config, ConfigKey::HotkeysMode)
}

// ---------------------------------------------------------------------------
// Laws
// ---------------------------------------------------------------------------

/// Where a setting stands in the list of all settings.
spec fn key_position(key: ConfigKey) -> int {
    match key {
        ConfigKey::HistoryMaxAgeDays => 0,
        ConfigKey::HistoryMaxRecordings => 1,
        ConfigKey::HistoryPath => 2,
        ConfigKey::HistorySaveCancelled => 3,
        ConfigKey::HotkeysCancel => 4,
        ConfigKey::HotkeysConsumeTranscribeKey => 5,
        ConfigKey::HotkeysImageEditor => 6,
        ConfigKey::HotkeysMode => 7,
        ConfigKey::HotkeysRepaste => 8,
        ConfigKey::HotkeysTranscribe => 9,
        ConfigKey::PasteMethod => 10,
        ConfigKey::PasteRestoreClipboard => 11,
        ConfigKey::RecordingDevice => 12,
        ConfigKey::RecordingMuteSystemAudio => 13,
        ConfigKey::RecordingSilenceTimeoutSecs => 14,
        ConfigKey::ScreenshotsPhrase => 15,
        ConfigKey::TranscriptionLanguage => 16,
        ConfigKey::TranscriptionModelPath => 17,
        ConfigKey::TranscriptionUnloadAfterSecs => 18,
        ConfigKey::TranscriptionWordListPath => 19,
    }
}

/// Every setting in the list of valid names is found under its name.
pub proof fn law_listed_keys_are_accepted(key: ConfigKey)
    ensures
        key_named(key.name()) == Some(key),
        all_keys().contains(key),
{
    reveal_strlit("history.max_age_days");
    assert("history.max_age_days"@.len() == 20);
    reveal_strlit("history.max_recordings");
    assert("history.max_recordings"@.len() == 22);
    reveal_strlit("history.path");
    assert("history.path"@.len() == 12);
    reveal_strlit("history.save_cancelled");
    assert("history.save_cancelled"@.len() == 22);
    reveal_strlit("hotkeys.cancel");
    assert("hotkeys.cancel"@.len() == 14);
    reveal_strlit("hotkeys.consume_transcribe_key");
    assert("hotkeys.consume_transcribe_key"@.len() == 30);
    reveal_strlit("hotkeys.image_editor");
    assert("hotkeys.image_editor"@.len() == 20);
    reveal_strlit("hotkeys.mode");
    assert("hotkeys.mode"@.len() == 12);
    reveal_strlit("hotkeys.repaste");
    assert("hotkeys.repaste"@.len() == 15);
    reveal_strlit("hotkeys.transcribe");
    assert("hotkeys.transcribe"@.len() == 18);
    reveal_strlit("paste.method");
    assert("paste.method"@.len() == 12);
    reveal_strlit("paste.restore_clipboard");
    assert("paste.restore_clipboard"@.len() == 23);
    reveal_strlit("recording.device");
    assert("recording.device"@.len() == 16);
    reveal_strlit("recording.mute_system_audio");
    assert("recording.mute_system_audio"@.len() == 27);
    reveal_strlit("recording.silence_timeout_secs");
    assert("recording.silence_timeout_secs"@.len() == 30);
    reveal_strlit("screenshots.phrase");
    assert("screenshots.phrase"@.len() == 18);
    reveal_strlit("transcription.language");
    assert("transcription.language"@.len() == 22);
    reveal_strlit("transcription.model_path");
    assert("transcription.model_path"@.len() == 24);
    reveal_strlit("transcription.unload_after_secs");
    assert("transcription.unload_after_secs"@.len() == 31);
    reveal_strlit("transcription.word_list_path");
    assert("transcription.word_list_path"@.len() == 28);
    assert("history.max_age_days"@[1] != "hotkeys.image_editor"@[1]);
    assert("history.max_recordings"@[8] != "history.save_cancelled"@[8]);
    assert("history.max_recordings"@[0] != "transcription.language"@[0]);
    assert("history.path"@[1] != "hotkeys.mode"@[1]);
    assert("history.path"@[0] != "paste.method"@[0]);
    assert("history.save_cancelled"@[0] != "transcription.language"@[0]);
    assert("hotkeys.consume_transcribe_key"@[0] != "recording.silence_timeout_secs"@[0]);
    assert("hotkeys.mode"@[0] != "paste.method"@[0]);
    assert("hotkeys.transcribe"@[0] != "screenshots.phrase"@[0]);
    let i = key_position(key);
    assert(all_keys()[i] == key);
}

/// Of two changes of one setting the later one alone counts.
pub proof fn law_last_change_wins(
    c: ConfigView,
    once: ConfigView,
    twice: ConfigView,
    direct: ConfigView,
    key: ConfigKey,
    first: Setting,
    second: Setting,
)
    requires
        changes_only(c, once, key, first),
        changes_only(once, twice, key, second),
        changes_only(c, direct, key, second),
    ensures
        twice == direct,
{
    assert forall|k: ConfigKey| #[trigger] setting(twice, k) == setting(direct, k) by {
        assert(setting(once, k) == setting(once, k));
    }
    lemma_settings_determine_config(twice, direct);
}

/// Changes of two different settings may be made in either order.
pub proof fn law_changes_commute(
    c: ConfigView,
    a: ConfigView,
    ab: ConfigView,
    b: ConfigView,
    ba: ConfigView,
    key_a: ConfigKey,
    value_a: Setting,
    key_b: ConfigKey,
    value_b: Setting,
)
    requires
        key_a != key_b,
        changes_only(c, a, key_a, value_a),
        changes_only(a, ab, key_b, value_b),
        changes_only(c, b, key_b, value_b),
        changes_only(b, ba, key_a, value_a),
    ensures
        ab == ba,
{
    assert forall|k: ConfigKey| #[trigger] setting(ab, k) == setting(ba, k) by {
        assert(setting(a, k) == setting(a, k));
        assert(setting(b, k) == setting(b, k));
    }
    lemma_settings_determine_config(ab, ba);
}

/// Every number in the configuration can be written to its file.
pub open spec fn can_be_kept(c: ConfigView) -> bool {
    forall|key: ConfigKey|
        (#[trigger] setting(c, key)) matches Setting::Number(n) ==> n <= MAX_NUMBER
}

/// A configuration that can be written to its file still can be after any
/// change that is accepted.
pub proof fn law_changes_can_be_kept(
    c: ConfigView,
    changed: ConfigView,
    key: ConfigKey,
    text: Seq<char>,
)
    requires
        can_be_kept(c),
        setting_from(key, text) is Ok,
        changes_only(c, changed, key, setting_from(key, text)->Ok_0),
    ensures
        can_be_kept(changed),
{
    assert forall|k: ConfigKey| (#[trigger] setting(changed, k)) is Number implies setting(
        changed,
        k,
    )->Number_0 <= MAX_NUMBER by {
        if k != key {
            assert(setting(c, k) == setting(changed, k));
        }
    }
}

/// Each setting of the history and the hotkeys is a value of its own: giving it
/// another value is seen under its key and under no other.
pub proof fn law_history_and_hotkey_settings(
    c: ConfigView,
    key: ConfigKey,
    t: Seq<char>,
    b: bool,
    n: u64,
    m: usize,
    mode: RecordingMode,
    method: PasteMethod,
)
    ensures
        setting(
            ConfigView { history: HistoryView { max_age_days: n, ..c.history }, ..c },
            key,
        ) == if key == ConfigKey::HistoryMaxAgeDays {
            Setting::Number(n as nat)
        } else {
            setting(c, key)
        },
        setting(
            ConfigView { history: HistoryView { max_recordings: m, ..c.history }, ..c },
            key,
        ) == if key == ConfigKey::HistoryMaxRecordings {
            Setting::Number(m as nat)
        } else {
            setting(c, key)
        },
        setting(
            ConfigView { history: HistoryView { path: t, ..c.history }, ..c },
            key,
        ) == if key == ConfigKey::HistoryPath {
            Setting::Text(t)
        } else {
            setting(c, key)
        },
        setting(
            ConfigView { history: HistoryView { save_cancelled: b, ..c.history }, ..c },
            key,
        ) == if key == ConfigKey::HistorySaveCancelled {
            Setting::Flag(b)
        } else {
            setting(c, key)
        },
        setting(
            ConfigView { hotkeys: HotkeysView { cancel: t, ..c.hotkeys }, ..c },
            key,
        ) == if key == ConfigKey::HotkeysCancel {
            Setting::Text(t)
        } else {
            setting(c, key)
        },
        setting(
            ConfigView { hotkeys: HotkeysView { consume_transcribe_key: b, ..c.hotkeys }, ..c },
            key,
        ) == if key == ConfigKey::HotkeysConsumeTranscribeKey {
            Setting::Flag(b)
        } else {
            setting(c, key)
        },
        setting(
            ConfigView { hotkeys: HotkeysView { image_editor: t, ..c.hotkeys }, ..c },
            key,
        ) == if key == ConfigKey::HotkeysImageEditor {
            Setting::Text(t)
        } else {
            setting(c, key)
        },
        setting(
            ConfigView { hotkeys: HotkeysView { mode, ..c.hotkeys }, ..c },
            key,
        ) == if key == ConfigKey::HotkeysMode {
            Setting::Mode(mode)
        } else {
            setting(c, key)
        },
        setting(
            ConfigView { hotkeys: HotkeysView { repaste: t, ..c.hotkeys }, ..c },
            key,
        ) == if key == ConfigKey::HotkeysRepaste {
            Setting::Text(t)
        } else {
            setting(c, key)
        },
        setting(
            ConfigView { hotkeys: HotkeysView { transcribe: t, ..c.hotkeys }, ..c },
            key,
        ) == if key == ConfigKey::HotkeysTranscribe {
            Setting::Text(t)
        } else {
            setting(c, key)
        },
{
}

/// Each other setting is a value of its own: giving it another value is seen under
/// its key and under no other.
pub proof fn law_other_settings(
    c: ConfigView,
    key: ConfigKey,
    t: Seq<char>,
    b: bool,
    n: u64,
    m: usize,
    mode: RecordingMode,
    method: PasteMethod,
)
    ensures
        setting(
            ConfigView { paste: PasteView { method, ..c.paste }, ..c },
            key,
        ) == if key == ConfigKey::PasteMethod {
            Setting::Method(method)
        } else {
            setting(c, key)
        },
        setting(
            ConfigView { paste: PasteView { restore_clipboard: b, ..c.paste }, ..c },
            key,
        ) == if key == ConfigKey::PasteRestoreClipboard {
            Setting::Flag(b)
        } else {
            setting(c, key)
        },
        setting(
            ConfigView { recording: RecordingView { device: t, ..c.recording }, ..c },
            key,
        ) == if key == ConfigKey::RecordingDevice {
            Setting::Text(t)
        } else {
            setting(c, key)
        },
        setting(
            ConfigView { recording: RecordingView { mute_system_audio: b, ..c.recording }, ..c },
            key,
        ) == if key == ConfigKey::RecordingMuteSystemAudio {
            Setting::Flag(b)
        } else {
            setting(c, key)
        },
        setting(
            ConfigView { recording: RecordingView { silence_timeout_secs: n, ..c.recording }, ..c },
            key,
        ) == if key == ConfigKey::RecordingSilenceTimeoutSecs {
            Setting::Number(n as nat)
        } else {
            setting(c, key)
        },
        setting(
            ConfigView { screenshots: ScreenshotsView { phrase: t }, ..c },
            key,
        ) == if key == ConfigKey::ScreenshotsPhrase {
            Setting::Text(t)
        } else {
            setting(c, key)
        },
        setting(
            ConfigView { transcription: TranscriptionView { language: t, ..c.transcription }, ..c },
            key,
        ) == if key == ConfigKey::TranscriptionLanguage {
            Setting::Text(t)
        } else {
            setting(c, key)
        },
        setting(
            ConfigView { transcription: TranscriptionView { model_path: t, ..c.transcription }, ..c },
            key,
        ) == if key == ConfigKey::TranscriptionModelPath {
            Setting::Text(t)
        } else {
            setting(c, key)
        },
        setting(
            ConfigView { transcription: TranscriptionView { unload_after_secs: n, ..c.transcription }, ..c },
            key,
        ) == if key == ConfigKey::TranscriptionUnloadAfterSecs {
            Setting::Number(n as nat)
        } else {
            setting(c, key)
        },
        setting(
            ConfigView { transcription: TranscriptionView { word_list_path: t, ..c.transcription }, ..c },
            key,
        ) == if key == ConfigKey::TranscriptionWordListPath {
            Setting::Text(t)
        } else {
            setting(c, key)
        },
{
}

/// The settings that are texts.
pub open spec fn is_text(key: ConfigKey) -> bool {
    ||| key is HistoryPath
    ||| key is HotkeysCancel
    ||| key is HotkeysImageEditor
    ||| key is HotkeysRepaste
    ||| key is HotkeysTranscribe
    ||| key is RecordingDevice
    ||| key is ScreenshotsPhrase
    ||| key is TranscriptionLanguage
    ||| key is TranscriptionModelPath
    ||| key is TranscriptionWordListPath
}

/// The settings that are true or false.
pub open spec fn is_flag(key: ConfigKey) -> bool {
    ||| key is HistorySaveCancelled
    ||| key is HotkeysConsumeTranscribeKey
    ||| key is PasteRestoreClipboard
    ||| key is RecordingMuteSystemAudio
}

/// The settings that are numbers.
pub open spec fn is_number(key: ConfigKey) -> bool {
    ||| key is HistoryMaxAgeDays
    ||| key is HistoryMaxRecordings
    ||| key is RecordingSilenceTimeoutSecs
    ||| key is TranscriptionUnloadAfterSecs
}

/// What a setting takes from a text. A text setting takes it as it is, but the
/// screenshot phrase no blank one. One that is true or false takes those words and no
/// other; a number takes its digits if it can be kept, but a silence timeout not 0; a
/// mode and a method take their names.
pub proof fn law_what_a_setting_takes(key: ConfigKey, text: Seq<char>)
    ensures
        ({
            let r = setting_from(key, text);
            let number = crate::numbers::number_value(text);
            let greatest = if key is HistoryMaxRecordings && usize::MAX < i64::MAX {
                usize::MAX as nat
            } else {
                i64::MAX as nat
            };
            let fits = number is Some && number->0 <= greatest;
            &&& is_text(key) || is_flag(key) || is_number(key) || key is HotkeysMode || key
                is PasteMethod
            &&& is_text(key) ==> r == if key is ScreenshotsPhrase && trimmed(text).len() == 0 {
                Err(ConfigError::BlankPhrase)
            } else {
                Ok(Setting::Text(text))
            }
            &&& is_flag(key) ==> r == if text == "true"@ {
                Ok(Setting::Flag(true))
            } else if text == "false"@ {
                Ok(Setting::Flag(false))
            } else {
                Err(ConfigError::ExpectedBool)
            }
            &&& is_number(key) && fits && !(key is RecordingSilenceTimeoutSecs && number->0 == 0)
                ==> r == Ok::<Setting, ConfigError>(Setting::Number(number->0))
            &&& is_number(key) && !fits ==> r == Err::<Setting, ConfigError>(
                if key is RecordingSilenceTimeoutSecs {
                    ConfigError::ExpectedPositiveNumber
                } else {
                    ConfigError::ExpectedNumber
                },
            )
            &&& key is RecordingSilenceTimeoutSecs && number == Some(0nat) ==> r == Err::<
                Setting,
                ConfigError,
            >(ConfigError::SilenceTimeoutTooShort)
        }),
{
    reveal_strlit("true");
    reveal_strlit("false");
}

/// Modes and methods go by one name each: two texts that are taken for the same are the
/// same, and every one of them has a name.
pub proof fn law_names_of_modes_and_methods(
    a: Seq<char>,
    b: Seq<char>,
    mode: RecordingMode,
    method: PasteMethod,
)
    ensures
        mode_named(a) is Some && mode_named(a) == mode_named(b) ==> a == b,
        method_named(a) is Some && method_named(a) == method_named(b) ==> a == b,
        exists|name: Seq<char>| #[trigger] mode_named(name) == Some(mode),
        exists|name: Seq<char>| #[trigger] method_named(name) == Some(method),
        mode_named(a) == Some(RecordingMode::Toggle) <==> a == "toggle"@,
        mode_named(a) == Some(RecordingMode::PushToTalk) <==> a == "push_to_talk"@,
        method_named(a) == Some(PasteMethod::Immediate) <==> a == "immediate"@,
        method_named(a) == Some(PasteMethod::CtrlV) <==> a == "ctrl_v"@,
        method_named(a) == Some(PasteMethod::CtrlShiftV) <==> a == "ctrl_shift_v"@,
        method_named(a) == Some(PasteMethod::Clipboard) <==> a == "clipboard"@,
        method_named(a) == Some(PasteMethod::Off) <==> a == "none"@,
        setting_from(ConfigKey::HotkeysMode, a) == match mode_named(a) {
            Some(m) => Ok(Setting::Mode(m)),
            None => Err(ConfigError::InvalidMode),
        },
        setting_from(ConfigKey::PasteMethod, a) == match method_named(a) {
            Some(m) => Ok(Setting::Method(m)),
            None => Err(ConfigError::InvalidPasteMethod),
        },
{
    reveal_strlit("toggle");
    reveal_strlit("push_to_talk");
    reveal_strlit("immediate");
    reveal_strlit("ctrl_v");
    reveal_strlit("ctrl_shift_v");
    reveal_strlit("clipboard");
    reveal_strlit("none");
    assert(mode_named("toggle"@) == Some(RecordingMode::Toggle));
    assert("push_to_talk"@.len() != "toggle"@.len());
    assert(mode_named("push_to_talk"@) == Some(RecordingMode::PushToTalk));
    assert("immediate"@.len() == 9 && "ctrl_v"@.len() == 6 && "ctrl_shift_v"@.len() == 12);
    assert("clipboard"@.len() == 9 && "none"@.len() == 4);
    assert("clipboard"@[0] != "immediate"@[0]);
    assert(method_named("immediate"@) == Some(PasteMethod::Immediate));
    assert(method_named("ctrl_v"@) == Some(PasteMethod::CtrlV));
    assert(method_named("ctrl_shift_v"@) == Some(PasteMethod::CtrlShiftV));
    assert(method_named("clipboard"@) == Some(PasteMethod::Clipboard));
    assert(method_named("none"@) == Some(PasteMethod::Off));
}

/// No two settings have the same name, and a text that names a setting is its name.
pub proof fn law_one_name_for_each_setting(name: Seq<char>, key: ConfigKey)
    ensures
        key_named(name) == Some(key) ==> name == key.name(),
{
}

/// A reload reports just the settings that differ, each once, of all but the hotkeys,
/// the places of the history and of the model, and the screenshot phrase.
pub proof fn law_what_a_reload_reports(a: ConfigView, b: ConfigView, key: ConfigKey)
    ensures
        differing(a, b, reported_keys()).contains(key) <==> setting(a, key) != setting(b, key)
            && !(key is HotkeysCancel || key is HotkeysConsumeTranscribeKey || key
            is HotkeysImageEditor || key is HotkeysMode || key is HotkeysRepaste || key
            is HotkeysTranscribe || key is HistoryPath || key is TranscriptionModelPath || key
            is ScreenshotsPhrase),
        a == b ==> differing(a, b, reported_keys()).len() == 0,
        differing(a, b, reported_keys()).no_duplicates(),
{
    let keys = reported_keys();
    let pred = |k: ConfigKey| setting(a, k) != setting(b, k);
    let found = keys.filter(pred);
    assert(keys[0] is TranscriptionLanguage);
    assert(keys[1] is TranscriptionWordListPath);
    assert(keys[2] is TranscriptionUnloadAfterSecs);
    assert(keys[3] is RecordingDevice);
    assert(keys[4] is RecordingMuteSystemAudio);
    assert(keys[5] is RecordingSilenceTimeoutSecs);
    assert(keys[6] is PasteMethod);
    assert(keys[7] is PasteRestoreClipboard);
    assert(keys[8] is HistoryMaxRecordings);
    assert(keys[9] is HistoryMaxAgeDays);
    assert(keys[10] is HistorySaveCancelled);
    assert(keys.no_duplicates());
    lemma_filtered(keys, pred);
    if a == b && found.len() > 0 {
        assert(found.contains(found[0]));
    }
}

proof fn lemma_filtered(keys: Seq<ConfigKey>, pred: spec_fn(ConfigKey) -> bool)
    ensures
        forall|k: ConfigKey| #[trigger] keys.filter(pred).contains(k) <==> keys.contains(k) && pred(
            k,
        ),
        keys.no_duplicates() ==> keys.filter(pred).no_duplicates(),
    decreases keys.len(),
{
    reveal(Seq::filter);
    if keys.len() > 0 {
        let rest = keys.drop_last();
        let last = keys.last();
        lemma_filtered(rest, pred);
        let before = rest.filter(pred);
        let all = keys.filter(pred);
        assert forall|k: ConfigKey| #[trigger] all.contains(k) <==> keys.contains(k) && pred(k) by {
            assert(keys.contains(k) <==> rest.contains(k) || k == last) by {
                if keys.contains(k) {
                    let i = keys.index_of(k);
                    if i < rest.len() {
                        assert(rest[i] == k);
                    }
                }
                if rest.contains(k) {
                    let i = rest.index_of(k);
                    assert(keys[i] == k);
                }
                assert(keys[keys.len() - 1] == last);
            }
            if pred(last) {
                assert(all == before.push(last));
                assert(all[before.len() as int] == last);
                if before.contains(k) {
                    let i = before.index_of(k);
                    assert(all[i] == k);
                }
                if all.contains(k) && k != last {
                    let i = all.index_of(k);
                    assert(before[i] == k);
                }
            }
        }
        if keys.no_duplicates() && pred(last) {
            assert(rest.no_duplicates());
            assert(!before.contains(last)) by {
                if before.contains(last) {
                    let i = rest.index_of(last);
                    assert(keys[i] == keys[keys.len() - 1]);
                }
            }
            assert forall|i: int, j: int| 0 <= i < j < all.len() implies all[i] != all[j] by {
                assert(before.contains(before[i]));
            }
        }
    }
}

/// Keys differ both ways or not at all; none differ exactly if all three settings stayed,
/// and the settings of other keys do not count.
pub proof fn law_changed_keys(a: HotkeysView, b: HotkeysView, other: HotkeysView)
    ensures
        !keys_differ(a, a),
        keys_differ(a, b) == keys_differ(b, a),
        !keys_differ(a, b) && !keys_differ(b, other) ==> !keys_differ(a, other),
        !keys_differ(
            a,
            HotkeysView { transcribe: a.transcribe, cancel: a.cancel, mode: a.mode, ..other },
        ),
        !keys_differ(a, b) ==> a.transcribe == b.transcribe && a.cancel == b.cancel && a.mode
            == b.mode,
{
}

/// The list of settings has a line for each, in their order: its name, indented by two.
pub proof fn law_key_lines(i: int)
    requires
        0 <= i < all_keys().len(),
    ensures
        key_lines().len() == all_keys().len(),
        key_lines()[i].len() == all_keys()[i].name().len() + 2,
        key_lines()[i].skip(2) == all_keys()[i].name(),
        key_lines()[i][0] == ' ' && key_lines()[i][1] == ' ',
{
    reveal_strlit("  ");
    assert(key_lines()[i].skip(2) =~= all_keys()[i].name());
}

/// What the user is told of a change that failed tells the name or the value that was
/// given, where that is what was wrong.
pub proof fn law_change_errors(key: Seq<char>, value: Seq<char>, other: Seq<char>)
    ensures
        ConfigError::UnknownKey.text(key, value).subrange(21, 21 + key.len() as int) == key,
        ConfigError::InvalidMode.text(key, value).subrange(15, 15 + value.len() as int) == value,
        ConfigError::InvalidPasteMethod.text(key, value).subrange(23, 23 + value.len() as int)
            == value,
        ConfigError::UnknownKey.text(key, value) == ConfigError::UnknownKey.text(key, other),
        ConfigError::InvalidMode.text(key, value) == ConfigError::InvalidMode.text(other, value),
{
    reveal_strlit("Unknown config key: '");
    reveal_strlit("Invalid mode: '");
    reveal_strlit("Invalid paste method: '");
    let (a, b, c) = (
        ConfigError::UnknownKey.text(key, value),
        ConfigError::InvalidMode.text(key, value),
        ConfigError::InvalidPasteMethod.text(key, value),
    );
    assert(a.subrange(21, 21 + key.len() as int) =~= key);
    assert(b.subrange(15, 15 + value.len() as int) =~= value);
    assert(c.subrange(23, 23 + value.len() as int) =~= value);
}

} // verus!
