//! Checks of the configuration and its surroundings, each with a verdict and a
//! message for the user.

use crate::audio::{count_matches, devices_in, match_count, DeviceView, InputDevice};
use crate::config::{Config, ConfigView, HotkeysConfig, HotkeysView, RecordingMode};
use crate::numbers::{decimal, to_decimal};
use crate::paths::{extension, has_plain_name, law_extension_of_plain_path, may_be_extension};
use crate::pieces::Separator;
use crate::text::{
    ascii_lower, ascii_lower_char, same_ignoring_ascii_case, same_text, text3, text_in,
    to_ascii_lowercase,
};
use vstd::prelude::*;

verus! {

/// The verdict of a check.
#[derive(Debug, Clone, Copy, PartialEq, Eq, Structural)]
pub enum Status {
    Okay,
    Warn,
    Fail,
    Info,
}

/// The outcome of a check.
#[derive(Debug)]
pub struct CheckItem {
    pub status: Status,
    pub message: String,
}

/// The values of a [`CheckItem`].
pub ghost struct CheckView {
    pub status: Status,
    pub message: Seq<char>,
}

impl View for CheckItem {
    type V = CheckView;

    open spec fn view(&self) -> CheckView {
        CheckView { status: self.status, message: self.message@ }
    }
}

/// The views of a list of outcomes.
pub open spec fn checks_in(v: Seq<CheckItem>) -> Seq<CheckView> {
    v.map_values(|c: CheckItem| c@)
}

/// An outcome.
pub open spec fn check(status: Status, message: Seq<char>) -> CheckView {
    CheckView { status, message }
}

impl CheckItem {
    /// All is well.
    pub fn ok(message: String) -> (r: CheckItem)
        ensures
            r@ == check(Status::Okay, message@),
    {
        CheckItem { status: Status::Okay, message }
    }

    /// Something may be wrong.
    pub fn warn(message: String) -> (r: CheckItem)
        ensures
            r@ == check(Status::Warn, message@),
    {
        CheckItem { status: Status::Warn, message }
    }

    /// Something is wrong.
    pub fn fail(message: String) -> (r: CheckItem)
        ensures
            r@ == check(Status::Fail, message@),
    {
        CheckItem { status: Status::Fail, message }
    }

    /// Something to know.
    pub fn info(message: String) -> (r: CheckItem)
        ensures
            r@ == check(Status::Info, message@),
    {
        CheckItem { status: Status::Info, message }
    }

    /// Whether all is well.
    pub fn is_ok(&self) -> (r: bool)
        ensures
            r == (self.status == Status::Okay),
    {
        self.status == Status::Okay
    }

    /// The line that shows the outcome to the user.
    pub fn line(&self) -> (r: String)
        ensures
            r@ == self@.line_text(),
    {
        let mut r = match self.status {
            Status::Okay => "[ OK ] ".to_owned(),
            Status::Warn => "[WARN] ".to_owned(),
            Status::Fail => "[FAIL] ".to_owned(),
            Status::Info => "[INFO] ".to_owned(),
        };
        r.append(self.message.as_str());
        r
    }
}

impl CheckView {
    /// The line that shows the outcome to the user.
    pub open spec fn line_text(self) -> Seq<char> {
        (match self.status {
            Status::Okay => "[ OK ] "@,
            Status::Warn => "[WARN] "@,
            Status::Fail => "[FAIL] "@,
            Status::Info => "[INFO] "@,
        }) + self.message
    }
}

// ---------------------------------------------------------------------------
// Keys
// ---------------------------------------------------------------------------

/// The verdict on the key that re-pastes.
pub open spec fn repaste_verdict(h: HotkeysView) -> CheckView {
    let shared = ascii_lower(h.repaste) == ascii_lower(h.transcribe);
    if h.repaste.len() == 0 {
        check(Status::Info, "Repaste hotkey: not configured (optional)"@)
    } else if ascii_lower(h.repaste) == ascii_lower(h.cancel) {
        check(
            Status::Fail,
            "Repaste hotkey conflict: repaste and cancel are both bound to \""@ + h.repaste + "\""@,
        )
    } else if shared && h.mode == RecordingMode::PushToTalk {
        check(
            Status::Fail,
            "Repaste hotkey conflict: repaste is bound to \""@ + h.repaste
                + "\" (same as transcribe) but mode is push_to_talk — hold is already used for recording. Use a different repaste key or switch to toggle mode."@,
        )
    } else if shared {
        check(
            Status::Okay,
            "Repaste hotkey: \""@ + h.repaste
                + "\" — tap to record, hold to repaste (shared with transcribe)"@,
        )
    } else {
        check(Status::Okay, "Repaste hotkey: \""@ + h.repaste + "\""@)
    }
}

/// Checks the key that re-pastes.
pub fn check_repaste_hotkey(hotkeys: &HotkeysConfig) -> (r: CheckItem)
    ensures
        r@ == repaste_verdict(hotkeys@),
{
    let repaste = hotkeys.repaste.as_str();
    if repaste.is_empty() {
        return CheckItem::info("Repaste hotkey: not configured (optional)".to_owned());
    }
    if same_ignoring_ascii_case(repaste, hotkeys.cancel.as_str()) {
        return CheckItem::fail(
            text3(
                "Repaste hotkey conflict: repaste and cancel are both bound to \"",
                repaste,
                "\"",
            ),
        );
    }
    let shared = same_ignoring_ascii_case(repaste, hotkeys.transcribe.as_str());
    if shared && hotkeys.mode == RecordingMode::PushToTalk {
        return CheckItem::fail(
            text3(
                "Repaste hotkey conflict: repaste is bound to \"",
                repaste,
                "\" (same as transcribe) but mode is push_to_talk — hold is already used for recording. Use a different repaste key or switch to toggle mode.",
            ),
        );
    }
    if shared {
        CheckItem::ok(
            text3(
                "Repaste hotkey: \"",
                repaste,
                "\" — tap to record, hold to repaste (shared with transcribe)",
            ),
        )
    } else {
        CheckItem::ok(text3("Repaste hotkey: \"", repaste, "\""))
    }
}

/// The verdict on the keys that transcribe and cancel.
pub open spec fn hotkeys_verdict(transcribe: Seq<char>, cancel: Seq<char>) -> CheckView {
    if transcribe == cancel {
        check(
            Status::Fail,
            "Hotkey conflict: transcribe and cancel are both bound to \""@ + transcribe + "\""@,
        )
    } else {
        check(
            Status::Okay,
            "Hotkeys: \""@ + transcribe + "\" (transcribe), \""@ + cancel
                + "\" (cancel) — no conflict"@,
        )
    }
}

/// Checks the keys that transcribe and cancel.
pub fn check_hotkeys(transcribe: &str, cancel: &str) -> (r: CheckItem)
    ensures
        r@ == hotkeys_verdict(transcribe@, cancel@),
{
    if same_text(transcribe, cancel) {
        CheckItem::fail(
            text3(
                "Hotkey conflict: transcribe and cancel are both bound to \"",
                transcribe,
                "\"",
            ),
        )
    } else {
        let mut m = text3("Hotkeys: \"", transcribe, "\" (transcribe), \"");
        m.append(cancel);
        m.append("\" (cancel) — no conflict");
        CheckItem::ok(m)
    }
}

/// The verdict on the key that opens the screenshot review.
pub open spec fn image_editor_verdict(key: Seq<char>) -> CheckView {
    if key.len() == 0 {
        check(
            Status::Warn,
            "Image editor hotkey: not set — screenshot review is unbound (set hotkeys.image_editor)"@,
        )
    } else {
        check(Status::Okay, "Image editor hotkey: \""@ + key + "\""@)
    }
}

/// Checks the key that opens the screenshot review.
pub fn check_image_editor_hotkey(key: &str) -> (r: CheckItem)
    ensures
        r@ == image_editor_verdict(key@),
{
    if key.is_empty() {
        CheckItem::warn(
            "Image editor hotkey: not set — screenshot review is unbound (set hotkeys.image_editor)".to_owned(),
        )
    } else {
        CheckItem::ok(text3("Image editor hotkey: \"", key, "\""))
    }
}

// ---------------------------------------------------------------------------
// Files
// ---------------------------------------------------------------------------

/// An extension with its ASCII letters in lower case; nothing if there is none.
pub open spec fn lower_extension(ext: Option<Seq<char>>) -> Seq<char> {
    match ext {
        Some(e) => ascii_lower(e),
        None => Seq::empty(),
    }
}

/// The verdict on the model file, given its extension, and its length in bytes if
/// it exists.
pub open spec fn model_verdict(
    path: Seq<char>,
    ext: Option<Seq<char>>,
    length: Option<u64>,
) -> CheckView {
    if path.len() == 0 {
        check(
            Status::Fail,
            "Model path: not set — daemon cannot transcribe (set transcription.model_path)"@,
        )
    } else {
        match length {
            None => check(Status::Fail, "Model path: file not found at \""@ + path + "\""@),
            Some(n) => if lower_extension(ext) != "bin"@ && lower_extension(ext) != "gguf"@ {
                check(
                    Status::Fail,
                    "Model path: \""@ + path + "\" has extension ."@ + lower_extension(ext)
                        + " — whisper.cpp requires a GGML/GGUF .bin file. Download one from https://huggingface.co/ggerganov/whisper.cpp"@,
                )
            } else if n < 1_000_000 {
                check(
                    Status::Warn,
                    "Model path: \""@ + path
                        + "\" exists but is very small — may not be a valid model"@,
                )
            } else {
                check(Status::Okay, "Model path: \""@ + path + "\""@)
            },
        }
    }
}

/// Checks the model file, given its extension, and its length in bytes if it
/// exists.
pub fn model_check(model_path: &str, extension: &Option<String>, length: Option<u64>) -> (r:
    CheckItem)
    ensures
        r@ == model_verdict(model_path@, text_in(*extension), length),
{
    if model_path.is_empty() {
        return CheckItem::fail(
            "Model path: not set — daemon cannot transcribe (set transcription.model_path)".to_owned(),
        );
    }
    let n: u64 = match length {
        None => {
            return CheckItem::fail(text3("Model path: file not found at \"", model_path, "\""));
        },
        Some(n) => n,
    };
    let ext = match extension {
        Some(e) => to_ascii_lowercase(e.as_str()),
        None => String::new(),
    };
    assert(ext@ == lower_extension(text_in(*extension)));
    if !same_text(ext.as_str(), "bin") && !same_text(ext.as_str(), "gguf") {
        let mut m = text3("Model path: \"", model_path, "\" has extension .");
        m.append(ext.as_str());
        m.append(
            " — whisper.cpp requires a GGML/GGUF .bin file. Download one from https://huggingface.co/ggerganov/whisper.cpp",
        );
        return CheckItem::fail(m);
    }
    if n < 1_000_000 {
        return CheckItem::warn(
            text3(
                "Model path: \"",
                model_path,
                "\" exists but is very small — may not be a valid model",
            ),
        );
    }
    CheckItem::ok(text3("Model path: \"", model_path, "\""))
}

/// Checks the model file, given its length in bytes if it exists. What its
/// extension is goes by how the system reads paths.
pub fn check_model_path(model_path: &str, length: Option<u64>) -> (r: CheckItem)
    ensures
        exists|ext: Option<Seq<char>>| #[trigger]
            may_be_extension(model_path@, ext) && r@ == model_verdict(model_path@, ext, length),
{
    let ext = extension(model_path);
    model_check(model_path, &ext, length)
}

/// The verdict on the word list, given whether the file exists.
pub open spec fn word_list_verdict(path: Seq<char>, exists_there: bool) -> CheckView {
    if path.len() == 0 {
        check(Status::Okay, "Word list: not configured (optional)"@)
    } else if !exists_there {
        check(Status::Warn, "Word list: file not found at \""@ + path + "\""@)
    } else {
        check(Status::Okay, "Word list: \""@ + path + "\""@)
    }
}

/// Checks the word list, given whether the file exists.
pub fn check_word_list(word_list_path: &str, exists_there: bool) -> (r: CheckItem)
    ensures
        r@ == word_list_verdict(word_list_path@, exists_there),
{
    if word_list_path.is_empty() {
        CheckItem::ok("Word list: not configured (optional)".to_owned())
    } else if !exists_there {
        CheckItem::warn(text3("Word list: file not found at \"", word_list_path, "\""))
    } else {
        CheckItem::ok(text3("Word list: \"", word_list_path, "\""))
    }
}

/// What is known of a directory.
#[derive(Debug, Clone, Copy, PartialEq, Eq, Structural)]
pub struct DirFacts {
    pub exists_there: bool,
    /// Whether the directory above it exists, if there is one above it.
    pub parent_exists: Option<bool>,
}

/// The verdict on the history directory.
pub open spec fn history_verdict(dir: Seq<char>, facts: DirFacts) -> CheckView {
    if facts.exists_there {
        check(Status::Okay, "History directory: \""@ + dir + "\" (exists)"@)
    } else if facts.parent_exists == Some(false) {
        check(
            Status::Warn,
            "History directory: \""@ + dir + "\" — parent path does not exist"@,
        )
    } else {
        check(
            Status::Okay,
            "History directory: \""@ + dir + "\" (will be created on first recording)"@,
        )
    }
}

/// Checks the history directory.
pub fn check_history_dir(dir: &str, facts: DirFacts) -> (r: CheckItem)
    ensures
        r@ == history_verdict(dir@, facts),
{
    if facts.exists_there {
        return CheckItem::ok(text3("History directory: \"", dir, "\" (exists)"));
    }
    let parent_missing = match facts.parent_exists {
        Some(there) => !there,
        None => false,
    };
    if parent_missing {
        CheckItem::warn(text3("History directory: \"", dir, "\" — parent path does not exist"))
    } else {
        CheckItem::ok(
            text3("History directory: \"", dir, "\" (will be created on first recording)"),
        )
    }
}

/// The verdict on the configuration file.
pub open spec fn config_file_verdict(path: Seq<char>, exists_there: bool) -> CheckView {
    if exists_there {
        check(Status::Okay, "Config file: "@ + path)
    } else {
        check(Status::Info, "Config file: not found — using defaults ("@ + path + ")"@)
    }
}

/// Checks the configuration file, where it could be read or is missing.
pub fn check_config_file(path: &str, exists_there: bool) -> (r: CheckItem)
    ensures
        r@ == config_file_verdict(path@, exists_there),
{
    if exists_there {
        let mut m = "Config file: ".to_owned();
        m.append(path);
        CheckItem::ok(m)
    } else {
        CheckItem::info(text3("Config file: not found — using defaults (", path, ")"))
    }
}

/// The outcome for a configuration file that cannot be read.
pub fn config_file_unreadable(error: &str) -> (r: CheckItem)
    ensures
        r@ == check(Status::Fail, "Config file: parse error — "@ + error@),
{
    let mut m = "Config file: parse error — ".to_owned();
    m.append(error);
    CheckItem::fail(m)
}

/// The verdict on the log file.
pub open spec fn log_verdict(path: Seq<char>, exists_there: bool) -> CheckView {
    if exists_there {
        check(Status::Okay, "Log file: \""@ + path + "\""@)
    } else {
        check(
            Status::Info,
            "Log file: \""@ + path + "\" (will be created when daemon starts)"@,
        )
    }
}

/// Checks the log file.
pub fn check_log_file(path: &str, exists_there: bool) -> (r: CheckItem)
    ensures
        r@ == log_verdict(path@, exists_there),
{
    if exists_there {
        CheckItem::ok(text3("Log file: \"", path, "\""))
    } else {
        CheckItem::info(text3("Log file: \"", path, "\" (will be created when daemon starts)"))
    }
}

// ---------------------------------------------------------------------------
// Recording device
// ---------------------------------------------------------------------------

/// The lines that name the available microphones.
pub open spec fn available_lines(devices: Seq<DeviceView>) -> Seq<CheckView> {
    devices.map_values(
        |d: DeviceView|
            check(
                Status::Info,
                "    - "@ + d.name + (if d.is_default {
                    " (default)"@
                } else {
                    Seq::empty()
                }),
            ),
    )
}

/// The outcome of enumerating the microphones.
pub ghost enum DevicesView {
    Listed(Seq<DeviceView>),
    Failed(Seq<char>),
}

/// The views of the outcome of enumerating the microphones.
pub open spec fn enumeration(r: Result<Vec<InputDevice>, String>) -> DevicesView {
    match r {
        Ok(v) => DevicesView::Listed(devices_in(v@)),
        Err(e) => DevicesView::Failed(e@),
    }
}

/// The verdict on the microphone, given how many of those listed match.
pub open spec fn device_verdict(device: Seq<char>, devices: DevicesView, matched: nat) -> Seq<
    CheckView,
> {
    if device.len() == 0 {
        seq![
            check(
                Status::Okay,
                "Recording device: not set (will use system default microphone)"@,
            ),
        ]
    } else {
        match devices {
            DevicesView::Failed(error) => seq![
                check(
                    Status::Warn,
                    "Recording device: could not enumerate devices — "@ + error,
                ),
            ],
            DevicesView::Listed(list) => if matched == 0 {
                seq![
                    check(
                        Status::Fail,
                        "Recording device: no device matching \""@ + device + "\" found"@,
                    ),
                    check(Status::Info, "  Available devices:"@),
                ] + available_lines(list)
            } else {
                seq![
                    check(
                        Status::Okay,
                        "Recording device: \""@ + device + "\" matches "@ + decimal(matched)
                            + " device(s)"@,
                    ),
                ]
            },
        }
    }
}

/// How many of the microphones listed match.
pub open spec fn matched_devices(device: Seq<char>, devices: DevicesView) -> nat {
    match devices {
        DevicesView::Listed(list) => match_count(list, device),
        DevicesView::Failed(_) => 0,
    }
}

/// Says how it stands with the microphone, given how many of those listed match.
pub fn device_checks(
    device: &str,
    devices: &Result<Vec<InputDevice>, String>,
    matched: usize,
) -> (r: Vec<CheckItem>)
    ensures
        checks_in(r@) == device_verdict(device@, enumeration(*devices), matched as nat),
{
    let mut r: Vec<CheckItem> = Vec::new();
    let ghost expected = device_verdict(device@, enumeration(*devices), matched as nat);
    if device.is_empty() {
        r.push(
            CheckItem::ok(
                "Recording device: not set (will use system default microphone)".to_owned(),
            ),
        );
        assert(checks_in(r@) =~= expected);
        return r;
    }
    match devices {
        Err(error) => {
            let mut m = "Recording device: could not enumerate devices — ".to_owned();
            m.append(error.as_str());
            r.push(CheckItem::warn(m));
            assert(checks_in(r@) =~= expected);
        },
        Ok(list) => {
            if matched > 0 {
                let mut m = text3("Recording device: \"", device, "\" matches ");
                m.append(to_decimal(matched as u64).as_str());
                m.append(" device(s)");
                r.push(CheckItem::ok(m));
                assert(checks_in(r@) =~= expected);
                return r;
            }
            r.push(
                CheckItem::fail(
                    text3("Recording device: no device matching \"", device, "\" found"),
                ),
            );
            r.push(CheckItem::info("  Available devices:".to_owned()));
            let ghost lines = available_lines(devices_in(list@));
            let mut i: usize = 0;
            assert(checks_in(r@) =~= expected.take(2));
            while i < list.len()
                invariant
                    0 <= i <= list@.len(),
                    lines == available_lines(devices_in(list@)),
                    expected.len() == 2 + lines.len(),
                    forall|k: int| 0 <= k < lines.len() ==> expected[2 + k] == lines[k],
                    checks_in(r@) == expected.take(2 + i),
                decreases list@.len() - i,
            {
                let ghost before = checks_in(r@);
                let tag = if list[i].is_default {
                    " (default)"
                } else {
                    ""
                };
                proof {
                    reveal_strlit("");
                    assert(""@ =~= Seq::<char>::empty());
                }
                let item = CheckItem::info(text3("    - ", list[i].name.as_str(), tag));
                assert(devices_in(list@)[i as int] == list@[i as int]@);
                assert(item@ == lines[i as int]);
                r.push(item);
                assert(checks_in(r@) =~= before.push(lines[i as int]));
                assert(expected.take(2 + i + 1) =~= before.push(expected[2 + i]));
                i += 1;
            }
            assert(expected.take(expected.len() as int) =~= expected);
        },
    }
    r
}

/// Checks the microphone.
pub fn check_recording_device(device: &str, devices: &Result<Vec<InputDevice>, String>) -> (r: Vec<
    CheckItem,
>)
    ensures
        checks_in(r@) == device_verdict(
            device@,
            enumeration(*devices),
            matched_devices(device@, enumeration(*devices)),
        ),
{
    let matched: usize = match devices {
        Ok(list) => count_matches(list, device),
        Err(_) => 0,
    };
    device_checks(device, devices, matched)
}

// ---------------------------------------------------------------------------
// The whole report
// ---------------------------------------------------------------------------

/// What the report depends on besides the configuration.
#[derive(Debug)]
pub struct HealthFacts {
    pub config_path: String,
    pub config_exists: bool,
    /// Length of the model file in bytes, if it exists.
    pub model_length: Option<u64>,
    pub word_list_exists: bool,
    pub history_dir: String,
    pub history: DirFacts,
    pub log_path: String,
    pub log_exists: bool,
    pub devices: Result<Vec<InputDevice>, String>,
}

/// The report. A model that looks right is loaded as a test in the middle of it.
#[derive(Debug)]
pub struct HealthReport {
    pub before: Vec<CheckItem>,
    pub load_test: bool,
    pub after: Vec<CheckItem>,
}

/// What the report says before the model is loaded, given the extension of the
/// model file.
pub open spec fn report_before(
    c: ConfigView,
    ext: Option<Seq<char>>,
    facts: HealthFacts,
) -> Seq<CheckView> {
    seq![
        config_file_verdict(facts.config_path@, facts.config_exists),
        model_verdict(c.transcription.model_path, ext, facts.model_length),
    ]
}

/// The model looks right.
pub open spec fn model_is_ok(c: ConfigView, ext: Option<Seq<char>>, facts: HealthFacts) -> bool {
    model_verdict(c.transcription.model_path, ext, facts.model_length).status == Status::Okay
}

/// What the report says after that.
pub open spec fn report_after(
    c: ConfigView,
    ext: Option<Seq<char>>,
    facts: HealthFacts,
    minimal: bool,
) -> Seq<CheckView> {
    (if minimal && model_is_ok(c, ext, facts) {
        seq![check(Status::Info, "Model load test: skipped (--minimal)"@)]
    } else {
        Seq::empty()
    }) + seq![
        word_list_verdict(c.transcription.word_list_path, facts.word_list_exists),
        history_verdict(facts.history_dir@, facts.history),
        log_verdict(facts.log_path@, facts.log_exists),
    ] + device_verdict(
        c.recording.device,
        enumeration(facts.devices),
        matched_devices(c.recording.device, enumeration(facts.devices)),
    ) + seq![
        hotkeys_verdict(c.hotkeys.transcribe, c.hotkeys.cancel),
        repaste_verdict(c.hotkeys),
        image_editor_verdict(c.hotkeys.image_editor),
    ]
}

/// The report for a model file with that extension.
pub open spec fn is_report(
    r: HealthReport,
    c: ConfigView,
    ext: Option<Seq<char>>,
    facts: HealthFacts,
    minimal: bool,
) -> bool {
    &&& checks_in(r.before@) == report_before(c, ext, facts)
    &&& r.load_test == (model_is_ok(c, ext, facts) && !minimal)
    &&& checks_in(r.after@) == report_after(c, ext, facts, minimal)
}

/// Checks everything. With `minimal` the model is not loaded.
pub fn health_report(config: &Config, facts: &HealthFacts, minimal: bool) -> (r: HealthReport)
    ensures
        exists|ext: Option<Seq<char>>| #[trigger]
            may_be_extension(config@.transcription.model_path, ext) && is_report(
                r,
                config@,
                ext,
                *facts,
                minimal,
            ),
{
    let ext = extension(config.transcription.model_path.as_str());
    report_with_extension(config, &ext, facts, minimal)
}

/// Checks everything, given the extension of the model file. With `minimal` the
/// model is not loaded.
pub fn report_with_extension(
    config: &Config,
    extension: &Option<String>,
    facts: &HealthFacts,
    minimal: bool,
) -> (r: HealthReport)
    ensures
        is_report(r, config@, text_in(*extension), *facts, minimal),
{
    let ghost ext = text_in(*extension);
    let mut before: Vec<CheckItem> = Vec::new();
    before.push(check_config_file(facts.config_path.as_str(), facts.config_exists));
    let model = model_check(
        config.transcription.model_path.as_str(),
        extension,
        facts.model_length,
    );
    let model_ok = model.is_ok();
    before.push(model);
    assert(checks_in(before@) =~= report_before(config@, ext, *facts));

    let mut after: Vec<CheckItem> = Vec::new();
    if model_ok && minimal {
        after.push(CheckItem::info("Model load test: skipped (--minimal)".to_owned()));
    }
    after.push(
        check_word_list(config.transcription.word_list_path.as_str(), facts.word_list_exists),
    );
    after.push(check_history_dir(facts.history_dir.as_str(), facts.history));
    after.push(check_log_file(facts.log_path.as_str(), facts.log_exists));
    let mut devices = check_recording_device(config.recording.device.as_str(), &facts.devices);
    let ghost middle = checks_in(devices@);
    let ghost first = checks_in(after@);
    after.append(&mut devices);
    assert(checks_in(after@) =~= first + middle);
    after.push(
        check_hotkeys(config.hotkeys.transcribe.as_str(), config.hotkeys.cancel.as_str()),
    );
    after.push(check_repaste_hotkey(&config.hotkeys));
    after.push(check_image_editor_hotkey(config.hotkeys.image_editor.as_str()));
    assert(checks_in(after@) =~= report_after(config@, ext, *facts, minimal));
    HealthReport { before, load_test: model_ok && !minimal, after }
}

/// The check of the key that re-pastes goes by how the keys are written, letter
/// case aside. It fails if a key is set that is written like the cancel key, or
/// like the transcribe key where that has to be held to record.
pub proof fn law_repaste_fails_exactly_on_conflict(h: HotkeysView)
    ensures
        repaste_verdict(h).status == Status::Fail <==> h.repaste.len() > 0 && (ascii_lower(
            h.repaste,
        ) == ascii_lower(h.cancel) || (ascii_lower(h.repaste) == ascii_lower(h.transcribe)
            && h.mode == RecordingMode::PushToTalk)),
{
}

/// A key that re-pastes and is written like a transcribe key that has to be held
/// to record fails the check and is refused by the daemon.
pub proof fn law_conflict_in_writing_is_refused(h: HotkeysView)
    requires
        h.repaste.len() > 0,
        ascii_lower(h.repaste) == ascii_lower(h.transcribe),
        h.mode == RecordingMode::PushToTalk,
    ensures
        repaste_verdict(h).status == Status::Fail,
        crate::daemon::repaste_conflict(h),
{
}

/// A model file that is long enough and whose name ends in a dot and `bin` or
/// `gguf`, in any letter case, passes the check on every system.
pub proof fn law_model_file_is_accepted(
    stem: Seq<char>,
    e: Seq<char>,
    ext: Option<Seq<char>>,
    length: u64,
)
    requires
        stem.len() > 0,
        !Separator::Slash.cuts(stem.last()),
        ascii_lower(e) == "bin"@ || ascii_lower(e) == "gguf"@,
        has_plain_name(stem.push('.') + e),
        may_be_extension(stem.push('.') + e, ext),
        length >= 1_000_000,
    ensures
        model_verdict(stem.push('.') + e, ext, Some(length)).status == Status::Okay,
{
    reveal_strlit("bin");
    reveal_strlit("gguf");
    assert(ascii_lower(e).len() == e.len());
    assert forall|k: int| 0 <= k < e.len() implies e[k] != '.' && !Separator::Slash.cuts(
        #[trigger] e[k],
    ) by {
        let c = ascii_lower(e)[k];
        assert(c == ascii_lower_char(e[k]));
        assert(c == 'b' || c == 'i' || c == 'n' || c == 'g' || c == 'u' || c == 'f');
    }
    law_extension_of_plain_path(stem, e, ext);
}

/// A screenshot review that is left unbound shows up as a warning.
pub proof fn law_unbound_review_is_reported(
    c: ConfigView,
    ext: Option<Seq<char>>,
    facts: HealthFacts,
    minimal: bool,
)
    requires
        c.hotkeys.image_editor.len() == 0,
    ensures
        report_after(c, ext, facts, minimal).last().status == Status::Warn,
{
}

/// The verdict on the model: it is right exactly if there is a file of a million bytes
/// or more with an extension of `bin` or `gguf`, in whatever case; a shorter one is
/// warned of, and anything else fails.
pub proof fn law_model_verdict(path: Seq<char>, ext: Option<Seq<char>>, length: Option<u64>)
    ensures
        ({
            let status = model_verdict(path, ext, length).status;
            let lower = match ext {
                Some(e) => ascii_lower(e),
                None => Seq::empty(),
            };
            let found = path.len() > 0 && length is Some && (lower == seq!['b', 'i', 'n'] || lower
                == seq!['g', 'g', 'u', 'f']);
            &&& status == Status::Okay <==> found && length->0 >= 1_000_000
            &&& status == Status::Warn <==> found && length->0 < 1_000_000
            &&& status == Status::Fail <==> !found
        }),
{
    reveal_strlit("bin");
    reveal_strlit("gguf");
    assert("bin"@ =~= seq!['b', 'i', 'n']);
    assert("gguf"@ =~= seq!['g', 'g', 'u', 'f']);
}

/// The verdicts on keys: transcribing and cancelling by one key fails; an image editor
/// that is left unbound is warned of; a key to re-paste may be left out.
pub proof fn law_key_verdicts(transcribe: Seq<char>, cancel: Seq<char>, h: HotkeysView)
    ensures
        hotkeys_verdict(transcribe, cancel).status == if transcribe == cancel {
            Status::Fail
        } else {
            Status::Okay
        },
        image_editor_verdict(h.image_editor).status == if h.image_editor.len() == 0 {
            Status::Warn
        } else {
            Status::Okay
        },
        repaste_verdict(h).status == Status::Info <==> h.repaste.len() == 0,
        repaste_verdict(h).status != Status::Warn,
{
}

/// The verdicts on files: a word list that is configured has to be there; a history
/// directory needs one above it unless it is there; a configuration and a log may be
/// missing.
pub proof fn law_file_verdicts(path: Seq<char>, there: bool, facts: DirFacts)
    ensures
        word_list_verdict(path, there).status == if path.len() > 0 && !there {
            Status::Warn
        } else {
            Status::Okay
        },
        history_verdict(path, facts).status == if !facts.exists_there && facts.parent_exists
            == Some(false) {
            Status::Warn
        } else {
            Status::Okay
        },
        config_file_verdict(path, there).status == if there {
            Status::Okay
        } else {
            Status::Info
        },
        log_verdict(path, there).status == if there {
            Status::Okay
        } else {
            Status::Info
        },
{
}

/// The verdict on the microphone: one that is not set is right; else it is warned that
/// none could be listed; else it is right if any of those listed matches; and if none
/// does, it fails and all that there are follow.
pub proof fn law_device_verdict(device: Seq<char>, devices: DevicesView)
    ensures
        ({
            let matched = matched_devices(device, devices);
            let r = device_verdict(device, devices, matched);
            &&& r.len() > 0
            &&& device.len() == 0 ==> r.len() == 1 && r[0].status == Status::Okay
            &&& device.len() > 0 ==> match devices {
                DevicesView::Failed(_) => r.len() == 1 && r[0].status == Status::Warn,
                DevicesView::Listed(list) => {
                    &&& matched == match_count(list, device)
                    &&& matched > 0 ==> r.len() == 1 && r[0].status == Status::Okay
                    &&& matched == 0 ==> r.len() == 2 + list.len() && r[0].status == Status::Fail
                        && forall|i: int|
                        0 <= i < list.len() ==> {
                            let name = (#[trigger] list[i]).name;
                            let line = r[2 + i];
                            &&& line.status == Status::Info
                            &&& line.message.subrange(6, 6 + name.len() as int) == name
                            &&& line.message.len() == name.len() + if list[i].is_default {
                                16int
                            } else {
                                6int
                            }
                        }
                },
            }
        }),
{
    reveal_strlit("    - ");
    reveal_strlit(" (default)");
    if let DevicesView::Listed(list) = devices {
        assert forall|i: int| 0 <= i < list.len() implies available_lines(list)[i].message.subrange(
            6,
            6 + (#[trigger] list[i]).name.len() as int,
        ) == list[i].name by {
            assert(available_lines(list)[i].message.subrange(6, 6 + list[i].name.len() as int)
                =~= list[i].name);
        }
    }
}

/// No microphone matches where none could be listed; else any matches exactly if the name
/// of one does.
pub proof fn law_matched_devices(device: Seq<char>, list: Seq<DeviceView>, error: Seq<char>)
    ensures
        matched_devices(device, DevicesView::Failed(error)) == 0,
        matched_devices(device, DevicesView::Listed(list)) > 0 <==> exists|i: int|
            0 <= i < list.len() && crate::audio::name_matches((#[trigger] list[i]).name, device),
    decreases list.len(),
{
    if list.len() > 0 {
        let rest = list.drop_last();
        law_matched_devices(device, rest, error);
        assert(list.last() == list[list.len() - 1]);
        if exists|i: int|
            0 <= i < list.len() && crate::audio::name_matches((#[trigger] list[i]).name, device) {
            let i = choose|i: int|
                0 <= i < list.len() && crate::audio::name_matches(
                    (#[trigger] list[i]).name,
                    device,
                );
            if i < rest.len() {
                assert(rest[i] == list[i]);
            }
        }
        if matched_devices(device, DevicesView::Listed(rest)) > 0 {
            let i = choose|i: int|
                0 <= i < rest.len() && crate::audio::name_matches(
                    (#[trigger] rest[i]).name,
                    device,
                );
            assert(list[i] == rest[i]);
        }
    }
}

/// The report: before the model is loaded, on the configuration file and the model; after
/// that, that loading was skipped if it was to be and the model is right, then on the word
/// list, the history, the log, the microphone, and the three kinds of keys.
pub proof fn law_report(
    c: ConfigView,
    ext: Option<Seq<char>>,
    facts: HealthFacts,
    minimal: bool,
)
    ensures
        ({
            let before = report_before(c, ext, facts);
            let after = report_after(c, ext, facts, minimal);
            let model = model_verdict(c.transcription.model_path, ext, facts.model_length);
            let devices = device_verdict(
                c.recording.device,
                enumeration(facts.devices),
                matched_devices(c.recording.device, enumeration(facts.devices)),
            );
            let from = if minimal && model.status == Status::Okay {
                1int
            } else {
                0int
            };
            let n = devices.len();
            &&& before.len() == 2
            &&& before[0] == config_file_verdict(facts.config_path@, facts.config_exists)
            &&& before[1] == model
            &&& model_is_ok(c, ext, facts) <==> model.status == Status::Okay
            &&& after.len() == from + 3 + n + 3
            &&& from == 1 ==> after[0].status == Status::Info
            &&& after[from] == word_list_verdict(
                c.transcription.word_list_path,
                facts.word_list_exists,
            )
            &&& after[from + 1] == history_verdict(facts.history_dir@, facts.history)
            &&& after[from + 2] == log_verdict(facts.log_path@, facts.log_exists)
            &&& after.subrange(from + 3, from + 3 + n) == devices
            &&& after[from + 3 + n] == hotkeys_verdict(c.hotkeys.transcribe, c.hotkeys.cancel)
            &&& after[from + 4 + n] == repaste_verdict(c.hotkeys)
            &&& after[from + 5 + n] == image_editor_verdict(c.hotkeys.image_editor)
        }),
{
    let after = report_after(c, ext, facts, minimal);
    let devices = device_verdict(
        c.recording.device,
        enumeration(facts.devices),
        matched_devices(c.recording.device, enumeration(facts.devices)),
    );
    let from = if minimal && model_is_ok(c, ext, facts) {
        1int
    } else {
        0int
    };
    assert(after.subrange(from + 3, from + 3 + devices.len()) =~= devices);
}

/// A line tells its status by its first seven characters, another for each status, and
/// then says the message.
pub proof fn law_line(a: CheckView, b: CheckView)
    ensures
        a.line_text().len() == a.message.len() + 7,
        a.line_text().skip(7) == a.message,
        a.line_text().take(7) == b.line_text().take(7) <==> a.status == b.status,
        a.status == Status::Okay <==> a.line_text()[2] == 'O',
        a.status == Status::Warn <==> a.line_text()[1] == 'W',
        a.status == Status::Fail <==> a.line_text()[1] == 'F',
        a.status == Status::Info <==> a.line_text()[1] == 'I',
{
    reveal_strlit("[ OK ] ");
    reveal_strlit("[WARN] ");
    reveal_strlit("[FAIL] ");
    reveal_strlit("[INFO] ");
    assert(a.line_text().skip(7) =~= a.message);
    let (x, y) = (a.line_text().take(7), b.line_text().take(7));
    if a.status == b.status {
        assert(x =~= y);
    } else {
        assert(x[1] == a.line_text()[1]);
        assert(y[1] == b.line_text()[1]);
    }
}

/// The model is loaded as a test exactly if it looks right and loading was not ruled out.
pub proof fn law_load_test(
    r: HealthReport,
    c: ConfigView,
    ext: Option<Seq<char>>,
    facts: HealthFacts,
    minimal: bool,
)
    requires
        is_report(r, c, ext, facts, minimal),
    ensures
        r.load_test <==> !minimal && model_verdict(
            c.transcription.model_path,
            ext,
            facts.model_length,
        ).status == Status::Okay,
        r.before@.len() == 2,
        r.before@[1].status == Status::Okay && !r.load_test ==> minimal && r.after@[0].status
            == Status::Info,
{
    law_report(c, ext, facts, minimal);
    assert(checks_in(r.before@)[1] == r.before@[1]@);
    assert(checks_in(r.before@).len() == r.before@.len());
    assert(checks_in(r.after@).len() == r.after@.len());
    assert(checks_in(r.after@)[0] == r.after@[0]@);
}

} // verus!
