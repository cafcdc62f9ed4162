//! The configuration: its types and its defaults.

use vstd::prelude::*;

verus! {

/// Name of the environment variable that overrides the path of the settings file.
pub const ENV_CONFIG_VAR: &'static str = "QUOTEME_CONFIGURATION_FILE";

/// What the transcribe key does.
#[derive(Debug, Clone, Copy, PartialEq, Eq, Structural)]
pub enum RecordingMode {
    /// A press starts recording, the next one stops it.
    Toggle,
    /// Recording lasts as long as the key is held.
    PushToTalk,
}

/// How a transcript reaches the focused application.
#[derive(Debug, Clone, Copy, PartialEq, Eq, Structural)]
pub enum PasteMethod {
    /// Through the clipboard, with Ctrl+V.
    Immediate,
    /// Through the clipboard, with Ctrl+V.
    CtrlV,
    /// Through the clipboard, with Ctrl+Shift+V.
    CtrlShiftV,
    /// It is left on the clipboard.
    Clipboard,
    /// Not at all.
    Off,
}

/// Keys and what they do.
#[derive(Debug, Clone)]
pub struct HotkeysConfig {
    /// Key that starts and stops recording.
    pub transcribe: String,
    /// Key that cancels recording.
    pub cancel: String,
    /// What pressing and releasing the transcribe key does.
    pub mode: RecordingMode,
    /// Key to re-paste the last transcription; empty is disabled. If it is the
    /// transcribe key (toggle mode only), a tap records and a hold re-pastes.
    pub repaste: String,
    /// Keep the transcribe key from the focused application.
    pub consume_transcribe_key: bool,
    /// Key that opens the screenshot review; empty is unbound.
    pub image_editor: String,
}

/// Recording.
#[derive(Debug, Clone)]
pub struct RecordingConfig {
    /// Part of the microphone's name; empty is the system default.
    pub device: String,
    /// Mute the speakers while recording.
    pub mute_system_audio: bool,
    /// Seconds of silence before recording stops by itself; 0 is never.
    pub silence_timeout_secs: u64,
}

/// Transcription.
#[derive(Debug, Clone)]
pub struct TranscriptionConfig {
    /// The Whisper model file.
    pub model_path: String,
    /// BCP-47 language code.
    pub language: String,
    /// File of preferred spellings; empty is none.
    pub word_list_path: String,
    /// Seconds idle before the model is unloaded; 0 is never.
    pub unload_after_secs: u64,
}

/// Pasting.
#[derive(Debug, Clone)]
pub struct PasteConfig {
    /// How a transcript reaches the focused application.
    pub method: PasteMethod,
    /// Put the former clipboard text back after pasting.
    pub restore_clipboard: bool,
}

/// History.
#[derive(Debug, Clone)]
pub struct HistoryConfig {
    /// History directory; empty is the default one.
    pub path: String,
    /// Number of entries to keep; 0 is all.
    pub max_recordings: usize,
    /// Age in days after which entries are pruned; 0 is never.
    pub max_age_days: u64,
    /// Keep cancelled recordings.
    pub save_cancelled: bool,
}

/// Screenshots.
#[derive(Debug, Clone)]
pub struct ScreenshotsConfig {
    /// Spoken command that takes a screenshot, in any letter case.
    pub phrase: String,
}

/// All settings.
#[derive(Debug, Clone)]
pub struct Config {
    pub hotkeys: HotkeysConfig,
    pub recording: RecordingConfig,
    pub transcription: TranscriptionConfig,
    pub paste: PasteConfig,
    pub history: HistoryConfig,
    pub screenshots: ScreenshotsConfig,
}

/// The values of a [`HotkeysConfig`].
pub ghost struct HotkeysView {
    pub transcribe: Seq<char>,
    pub cancel: Seq<char>,
    pub mode: RecordingMode,
    pub repaste: Seq<char>,
    pub consume_transcribe_key: bool,
    pub image_editor: Seq<char>,
}

/// The values of a [`RecordingConfig`].
pub ghost struct RecordingView {
    pub device: Seq<char>,
    pub mute_system_audio: bool,
    pub silence_timeout_secs: u64,
}

/// The values of a [`TranscriptionConfig`].
pub ghost struct TranscriptionView {
    pub model_path: Seq<char>,
    pub language: Seq<char>,
    pub word_list_path: Seq<char>,
    pub unload_after_secs: u64,
}

/// The values of a [`PasteConfig`].
pub ghost struct PasteView {
    pub method: PasteMethod,
    pub restore_clipboard: bool,
}

/// The values of a [`HistoryConfig`].
pub ghost struct HistoryView {
    pub path: Seq<char>,
    pub max_recordings: usize,
    pub max_age_days: u64,
    pub save_cancelled: bool,
}

/// The values of a [`ScreenshotsConfig`].
pub ghost struct ScreenshotsView {
    pub phrase: Seq<char>,
}

/// The values of a [`Config`].
pub ghost struct ConfigView {
    pub hotkeys: HotkeysView,
    pub recording: RecordingView,
    pub transcription: TranscriptionView,
    pub paste: PasteView,
    pub history: HistoryView,
    pub screenshots: ScreenshotsView,
}

impl View for HotkeysConfig {
    type V = HotkeysView;

    open spec fn view(&self) -> HotkeysView {
        HotkeysView {
            transcribe: self.transcribe@,
            cancel: self.cancel@,
            mode: self.mode,
            repaste: self.repaste@,
            consume_transcribe_key: self.consume_transcribe_key,
            image_editor: self.image_editor@,
        }
    }
}

impl View for RecordingConfig {
    type V = RecordingView;

    open spec fn view(&self) -> RecordingView {
        RecordingView {
            device: self.device@,
            mute_system_audio: self.mute_system_audio,
            silence_timeout_secs: self.silence_timeout_secs,
        }
    }
}

impl View for TranscriptionConfig {
    type V = TranscriptionView;

    open spec fn view(&self) -> TranscriptionView {
        TranscriptionView {
            model_path: self.model_path@,
            language: self.language@,
            word_list_path: self.word_list_path@,
            unload_after_secs: self.unload_after_secs,
        }
    }
}

impl View for PasteConfig {
    type V = PasteView;

    open spec fn view(&self) -> PasteView {
        PasteView {
            method: self.method,
            restore_clipboard: self.restore_clipboard,
        }
    }
}

impl View for HistoryConfig {
    type V = HistoryView;

    open spec fn view(&self) -> HistoryView {
        HistoryView {
            path: self.path@,
            max_recordings: self.max_recordings,
            max_age_days: self.max_age_days,
            save_cancelled: self.save_cancelled,
        }
    }
}

impl View for ScreenshotsConfig {
    type V = ScreenshotsView;

    open spec fn view(&self) -> ScreenshotsView {
        ScreenshotsView {
            phrase: self.phrase@,
        }
    }
}

impl View for Config {
    type V = ConfigView;

    open spec fn view(&self) -> ConfigView {
        ConfigView {
            hotkeys: self.hotkeys@,
            recording: self.recording@,
            transcription: self.transcription@,
            paste: self.paste@,
            history: self.history@,
            screenshots: self.screenshots@,
        }
    }
}

// ---------------------------------------------------------------------------
// Defaults
// ---------------------------------------------------------------------------

/// The default values of [`HotkeysConfig`].
pub open spec fn default_hotkeys() -> HotkeysView {
    HotkeysView {
        transcribe: "RAlt"@,
        cancel: "Escape"@,
        mode: RecordingMode::Toggle,
        repaste: Seq::empty(),
        consume_transcribe_key: false,
        image_editor: "Ctrl+Alt+I"@,
    }
}

/// The default values of [`RecordingConfig`].
pub open spec fn default_recording() -> RecordingView {
    RecordingView {
        device: Seq::empty(),
        mute_system_audio: false,
        silence_timeout_secs: 20,
    }
}

/// The default values of [`TranscriptionConfig`].
pub open spec fn default_transcription() -> TranscriptionView {
    TranscriptionView {
        model_path: Seq::empty(),
        language: "en"@,
        word_list_path: Seq::empty(),
        unload_after_secs: 300,
    }
}

/// The default values of [`PasteConfig`].
pub open spec fn default_paste() -> PasteView {
    PasteView {
        method: PasteMethod::CtrlV,
        restore_clipboard: true,
    }
}

/// The default values of [`HistoryConfig`].
pub open spec fn default_history() -> HistoryView {
    HistoryView {
        path: Seq::empty(),
        max_recordings: 0,
        max_age_days: 0,
        save_cancelled: false,
    }
}

/// The default values of [`ScreenshotsConfig`].
pub open spec fn default_screenshots() -> ScreenshotsView {
    ScreenshotsView {
        phrase: "this here"@,
    }
}

/// The default values of [`Config`].
pub open spec fn default_config() -> ConfigView {
    ConfigView {
        hotkeys: default_hotkeys(),
        recording: default_recording(),
        transcription: default_transcription(),
        paste: default_paste(),
        history: default_history(),
        screenshots: default_screenshots(),
    }
}

impl Default for HotkeysConfig {
    fn default() -> (r: Self)
        ensures
            r@ == default_hotkeys(),
    {
        HotkeysConfig {
            transcribe: "RAlt".to_owned(),
            cancel: "Escape".to_owned(),
            mode: RecordingMode::Toggle,
            repaste: String::new(),
            consume_transcribe_key: false,
            image_editor: "Ctrl+Alt+I".to_owned(),
        }
    }
}

impl Default for RecordingConfig {
    fn default() -> (r: Self)
        ensures
            r@ == default_recording(),
    {
        RecordingConfig {
            device: String::new(),
            mute_system_audio: false,
            silence_timeout_secs: 20,
        }
    }
}

impl Default for TranscriptionConfig {
    fn default() -> (r: Self)
        ensures
            r@ == default_transcription(),
    {
        TranscriptionConfig {
            model_path: String::new(),
            language: "en".to_owned(),
            word_list_path: String::new(),
            unload_after_secs: 300,
        }
    }
}

impl Default for PasteConfig {
    fn default() -> (r: Self)
        ensures
            r@ == default_paste(),
    {
        PasteConfig {
            method: PasteMethod::CtrlV,
            restore_clipboard: true,
        }
    }
}

impl Default for HistoryConfig {
    fn default() -> (r: Self)
        ensures
            r@ == default_history(),
    {
        HistoryConfig {
            path: String::new(),
            max_recordings: 0,
            max_age_days: 0,
            save_cancelled: false,
        }
    }
}

impl Default for ScreenshotsConfig {
    fn default() -> (r: Self)
        ensures
            r@ == default_screenshots(),
    {
        ScreenshotsConfig {
            phrase: "this here".to_owned(),
        }
    }
}

impl Default for Config {
    fn default() -> (r: Self)
        ensures
            r@ == default_config(),
    {
        Config {
            hotkeys: HotkeysConfig::default(),
            recording: RecordingConfig::default(),
            transcription: TranscriptionConfig::default(),
            paste: PasteConfig::default(),
            history: HistoryConfig::default(),
            screenshots: ScreenshotsConfig::default(),
        }
    }
}

} // verus!
