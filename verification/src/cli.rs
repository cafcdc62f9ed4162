//! What the commands decide and print.

use crate::config::{HotkeysConfig, HotkeysView, RecordingMode};
use crate::health::{model_check, model_verdict, CheckItem, CheckView, Status};
use crate::history::{entry_views, EntryView, HistoryEntry};
use crate::moments::{moment_pattern, show_utc, utc_text};
use crate::numbers::{decimal, padded, to_decimal, to_padded_decimal};
use crate::paths::{extension, may_be_extension};
use crate::pieces::{entries, join, joined, pieces, split_entries, texts, Separator};
use crate::text::{chars_of, is_white, same_text, text3, text_in, text_of};
use vstd::prelude::*;

verus! {

// ---------------------------------------------------------------------------
// The editor
// ---------------------------------------------------------------------------

/// A command: a program and its arguments.
#[derive(Debug)]
pub struct EditorCommand {
    pub program: String,
    pub args: Vec<String>,
}

/// Why no editor can be started.
#[derive(Clone, Copy, Debug, PartialEq, Eq, Structural)]
pub enum EditorError {
    NotConfigured,
    EmptyCommand,
}

impl EditorError {
    /// What the user is told.
    pub open spec fn text(self) -> Seq<char> {
        match self {
            EditorError::NotConfigured => "No editor configured. Set $VISUAL or $EDITOR, or use --run-with \"<command>\"."@,
            EditorError::EmptyCommand => "Editor command is empty"@,
        }
    }

    /// What the user is told.
    pub fn message(&self) -> (r: String)
        ensures
            r@ == self.text(),
    {
        match self {
            EditorError::NotConfigured => "No editor configured. Set $VISUAL or $EDITOR, or use --run-with \"<command>\".".to_owned(),
            EditorError::EmptyCommand => "Editor command is empty".to_owned(),
        }
    }
}

/// The command line of the editor: the one that is asked for, else that of
/// `VISUAL`, else that of `EDITOR`.
pub open spec fn editor_line(
    run_with: Option<Seq<char>>,
    visual: Option<Seq<char>>,
    editor: Option<Seq<char>>,
) -> Option<Seq<char>> {
    if run_with is Some {
        run_with
    } else if visual is Some {
        visual
    } else {
        editor
    }
}

/// The words of a command line.
pub open spec fn words(line: Seq<char>) -> Seq<Seq<char>> {
    entries(pieces(line, Separator::White))
}

/// The command that opens a file in an editor: a program and the arguments
/// before the file.
pub fn editor_command(
    run_with: Option<String>,
    visual: Option<String>,
    editor: Option<String>,
) -> (r: Result<EditorCommand, EditorError>)
    ensures
        match editor_line(text_in(run_with), text_in(visual), text_in(editor)) {
            None => r == Err::<EditorCommand, EditorError>(EditorError::NotConfigured),
            Some(line) => if words(line).len() == 0 {
                r == Err::<EditorCommand, EditorError>(EditorError::EmptyCommand)
            } else {
                r matches Ok(c) && c.program@ == words(line)[0] && texts(c.args@) == words(
                    line,
                ).drop_first()
            },
        },
{
    let line = match run_with {
        Some(line) => line,
        None => match visual {
            Some(line) => line,
            None => match editor {
                Some(line) => line,
                None => {
                    return Err(EditorError::NotConfigured);
                },
            },
        },
    };
    let mut args = split_entries(line.as_str(), Separator::White);
    if args.len() == 0 {
        assert(words(line@).len() == 0);
        return Err(EditorError::EmptyCommand);
    }
    let ghost all = texts(args@);
    let program = args.remove(0);
    assert(texts(args@) =~= all.drop_first());
    assert(program@ == all[0]);
    Ok(EditorCommand { program, args })
}

// ---------------------------------------------------------------------------
// Changing a setting
// ---------------------------------------------------------------------------

/// What the user is told of a new value besides that it has been set: only of a
/// model that cannot be used, and only if it is to be looked at.
pub open spec fn warning_after_set(
    key: Seq<char>,
    value: Seq<char>,
    ext: Option<Seq<char>>,
    no_validation: bool,
    length: Option<u64>,
) -> Option<CheckView> {
    let verdict = model_verdict(value, ext, length);
    if no_validation || key != "transcription.model_path"@ || verdict.status == Status::Okay {
        None
    } else {
        Some(verdict)
    }
}

/// The view of an optional check.
pub open spec fn check_in(r: Option<CheckItem>) -> Option<CheckView> {
    match r {
        Some(item) => Some(item@),
        None => None,
    }
}

/// Looks at the new value of a setting, given the extension of the file at that
/// path, and its length in bytes if there is one.
pub fn check_with_extension(
    key: &str,
    value: &str,
    extension: &Option<String>,
    no_validation: bool,
    length: Option<u64>,
) -> (r: Option<CheckItem>)
    ensures
        check_in(r) == warning_after_set(key@, value@, text_in(*extension), no_validation, length),
{
    if no_validation || !same_text(key, "transcription.model_path") {
        return None;
    }
    let item = model_check(value, extension, length);
    if item.is_ok() {
        None
    } else {
        Some(item)
    }
}

/// Looks at the new value of a setting, given the length of the file at that
/// path in bytes if there is one. What its extension is goes by how the system
/// reads paths.
pub fn check_after_set(key: &str, value: &str, no_validation: bool, length: Option<u64>) -> (r:
    Option<CheckItem>)
    ensures
        exists|ext: Option<Seq<char>>| #[trigger]
            may_be_extension(value@, ext) && check_in(r) == warning_after_set(
                key@,
                value@,
                ext,
                no_validation,
                length,
            ),
{
    let ext = extension(value);
    check_with_extension(key, value, &ext, no_validation, length)
}

/// The lines above a listing of the configuration: of what the file holds, or
/// of what is in effect.
pub open spec fn heading_lines(path: Seq<char>, exists_there: bool, overrides_only: bool) -> Seq<
    Seq<char>,
> {
    if overrides_only {
        if exists_there {
            seq!["Config overrides ("@ + path + ")"@, Seq::empty()]
        } else {
            seq![
                "No config file found — no overrides set."@,
                "(default location: "@ + path + ")"@,
            ]
        }
    } else if exists_there {
        seq!["Active configuration ("@ + path + ")"@, Seq::empty()]
    } else {
        seq![
            "Active configuration — all defaults (no config file at "@ + path + ")"@,
            Seq::empty(),
        ]
    }
}

/// The lines above a listing of the configuration.
pub fn configuration_heading(path: &str, exists_there: bool, overrides_only: bool) -> (r: Vec<
    String,
>)
    ensures
        texts(r@) == heading_lines(path@, exists_there, overrides_only),
{
    let mut r: Vec<String> = Vec::new();
    if overrides_only && !exists_there {
        r.push("No config file found — no overrides set.".to_owned());
        r.push(text3("(default location: ", path, ")"));
    } else {
        r.push(
            if overrides_only {
                text3("Config overrides (", path, ")")
            } else if exists_there {
                text3("Active configuration (", path, ")")
            } else {
                text3("Active configuration — all defaults (no config file at ", path, ")")
            },
        );
        r.push(String::new());
    }
    assert(texts(r@) =~= heading_lines(path@, exists_there, overrides_only));
    r
}

/// The lines that tell where the program keeps its files.
pub fn derived_paths(history: &str, log: &str, pid: &str) -> (r: Vec<String>)
    ensures
        texts(r@) == seq![
            "# Derived paths (resolved at runtime)"@,
            "history = "@ + history@,
            "log     = "@ + log@,
            "pid     = "@ + pid@,
        ],
{
    let mut r: Vec<String> = Vec::new();
    r.push("# Derived paths (resolved at runtime)".to_owned());
    r.push(text3("history = ", history, ""));
    r.push(text3("log     = ", log, ""));
    r.push(text3("pid     = ", pid, ""));
    proof {
        reveal_strlit("");
        assert("history = "@ + history@ + ""@ =~= "history = "@ + history@);
        assert("log     = "@ + log@ + ""@ =~= "log     = "@ + log@);
        assert("pid     = "@ + pid@ + ""@ =~= "pid     = "@ + pid@);
    }
    assert(texts(r@) =~= seq![
        "# Derived paths (resolved at runtime)"@,
        "history = "@ + history@,
        "log     = "@ + log@,
        "pid     = "@ + pid@,
    ]);
    r
}

/// What the user is told when the daemon runs.
pub open spec fn running_text(hotkeys: HotkeysView) -> Seq<char> {
    "quoteme daemon running. Press "@ + hotkeys.transcribe + " to "@ + (if hotkeys.mode
        == RecordingMode::Toggle {
        "toggle"@
    } else {
        "hold"@
    }) + ", "@ + hotkeys.cancel + " to cancel."@
}

/// What the user is told when the daemon runs.
pub fn running_message(hotkeys: &HotkeysConfig) -> (r: String)
    ensures
        r@ == running_text(hotkeys@),
{
    let mut r = "quoteme daemon running. Press ".to_owned();
    r.append(hotkeys.transcribe.as_str());
    r.append(" to ");
    if hotkeys.mode == RecordingMode::Toggle {
        r.append("toggle");
    } else {
        r.append("hold");
    }
    r.append(", ");
    r.append(hotkeys.cancel.as_str());
    r.append(" to cancel.");
    r
}

// ---------------------------------------------------------------------------
// Arguments of the image editor
// ---------------------------------------------------------------------------

/// Where the first value after `--history` stands among the arguments.
pub open spec fn history_value(args: Seq<Seq<char>>) -> Option<int>
    decreases args.len(),
{
    if args.len() < 2 {
        None
    } else if args[0] == "--history"@ {
        Some(1)
    } else {
        match history_value(args.drop_first()) {
            Some(i) => Some(i + 1),
            None => None,
        }
    }
}

/// Where the value of `--history` stands among the arguments.
pub fn history_argument(args: &Vec<String>) -> (r: Option<usize>)
    ensures
        history_value(texts(args@)) == match r {
            Some(i) => Some(i as int),
            None => None,
        },
        r matches Some(i) ==> i < args@.len(),
{
    let ghost all = texts(args@);
    let n: usize = args.len();
    let mut i: usize = 0;
    assert(all.skip(0) =~= all);
    while i < n && n - i >= 2
        invariant
            all == texts(args@),
            n == args@.len(),
            0 <= i <= n,
            history_value(all) == match history_value(all.skip(i as int)) {
                Some(k) => Some(k + i),
                None => None,
            },
        decreases n - i,
    {
        assert(all.skip(i as int)[0] == args@[i as int]@);
        if same_text(args[i].as_str(), "--history") {
            return Some(i + 1);
        }
        assert(all.skip(i as int).drop_first() =~= all.skip(i + 1));
        i += 1;
    }
    None
}

// ---------------------------------------------------------------------------
// Listing the history
// ---------------------------------------------------------------------------

/// A listing of more entries than this goes to a file.
pub const INLINE_THRESHOLD: usize = 40;

/// Characters of a transcript that are listed.
pub const PREVIEW_CHARS: usize = 80;

/// The number of bytes of a character in UTF-8.
pub open spec fn char_bytes(c: char) -> nat {
    if (c as u32) < 0x80 {
        1
    } else if (c as u32) < 0x800 {
        2
    } else if (c as u32) < 0x1_0000 {
        3
    } else {
        4
    }
}

/// The number of bytes of a text in UTF-8.
pub open spec fn byte_length(s: Seq<char>) -> nat
    decreases s.len(),
{
    if s.len() == 0 {
        0
    } else {
        byte_length(s.drop_last()) + char_bytes(s.last())
    }
}

/// The beginning of a text, with a mark if the text has more bytes than the
/// beginning may have characters.
pub open spec fn preview(text: Seq<char>) -> Seq<char> {
    (if text.len() <= PREVIEW_CHARS {
        text
    } else {
        text.take(PREVIEW_CHARS as int)
    }) + (if byte_length(text) > PREVIEW_CHARS {
        "…"@
    } else {
        Seq::empty()
    })
}

/// Whether a text has more bytes than a number.
fn is_longer(chars: &Vec<char>, most: usize) -> (r: bool)
    requires
        most <= 0xffff,
    ensures
        r == (byte_length(chars@) > most),
{
    let mut bytes: usize = 0;
    let mut i: usize = 0;
    assert(chars@.take(0) =~= Seq::empty());
    while i < chars.len()
        invariant
            most <= 0xffff,
            0 <= i <= chars@.len(),
            bytes == byte_length(chars@.take(i as int)),
            bytes <= most,
        decreases chars@.len() - i,
    {
        assert(chars@.take(i + 1).drop_last() =~= chars@.take(i as int));
        let c: u32 = chars[i] as u32;
        bytes += if c < 0x80 {
            1
        } else if c < 0x800 {
            2
        } else if c < 0x1_0000 {
            3
        } else {
            4
        };
        i += 1;
        if bytes > most {
            proof {
                lemma_byte_length_grows(chars@, i as int);
            }
            return true;
        }
    }
    assert(chars@.take(chars@.len() as int) =~= chars@);
    false
}

proof fn lemma_byte_length_grows(s: Seq<char>, n: int)
    requires
        0 <= n <= s.len(),
    ensures
        byte_length(s.take(n)) <= byte_length(s),
    decreases s.len() - n,
{
    if n == s.len() {
        assert(s.take(n) =~= s);
    } else {
        lemma_byte_length_grows(s, n + 1);
        assert(s.take(n + 1).drop_last() =~= s.take(n));
    }
}

/// A line of the listing: the number, the moment, the duration in seconds and
/// the beginning of the transcript.
pub open spec fn listing_line(
    number: nat,
    moment: Seq<char>,
    duration: Seq<char>,
    entry: EntryView,
) -> Seq<char> {
    padded(decimal(number), 3, ' ') + ". "@ + moment + "  "@ + duration + "s  "@ + (
    if entry.cancelled {
        "[cancelled] "@
    } else {
        Seq::empty()
    }) + preview(entry.text)
}

/// A line of the listing, given the moment and the duration as they are shown.
pub fn history_line(number: usize, moment: &str, duration: &str, entry: &HistoryEntry) -> (r:
    String)
    ensures
        r@ == listing_line(number as nat, moment@, duration@, entry@),
{
    let mut r = to_padded_decimal(number as u64, 3, ' ');
    r.append(". ");
    r.append(moment);
    r.append("  ");
    r.append(duration);
    r.append("s  ");
    if entry.cancelled {
        r.append("[cancelled] ");
    }
    let chars = chars_of(entry.text.as_str());
    let shown: usize = if chars.len() <= PREVIEW_CHARS {
        chars.len()
    } else {
        PREVIEW_CHARS
    };
    r.append(text_of(&chars, 0, shown).as_str());
    if is_longer(&chars, PREVIEW_CHARS) {
        r.append("…");
    }
    assert(r@ =~= listing_line(number as nat, moment@, duration@, entry@));
    r
}

/// The moments of some entries as they are shown, if the calendar has them all.
pub open spec fn moments_of(entries: Seq<EntryView>) -> Seq<Option<Seq<char>>> {
    entries.map_values(
        |e: EntryView| utc_text(e.timestamp.secs, e.timestamp.nanos, moment_pattern()),
    )
}

/// Every moment can be shown.
pub open spec fn all_shown(moments: Seq<Option<Seq<char>>>) -> bool {
    forall|i: int| 0 <= i < moments.len() ==> #[trigger] moments[i] is Some
}

/// The lines of the listing.
pub open spec fn listing(
    entries: Seq<EntryView>,
    moments: Seq<Option<Seq<char>>>,
    durations: Seq<Seq<char>>,
) -> Seq<Seq<char>> {
    Seq::new(
        entries.len(),
        |i: int|
            listing_line(
                (i + 1) as nat,
                match moments[i] {
                    Some(m) => m,
                    None => Seq::empty(),
                },
                durations[i],
                entries[i],
            ),
    )
}

/// The lines of the listing of entries with those durations as they are shown;
/// `None` if the calendar lacks a moment of one.
pub fn history_lines(entries: &Vec<HistoryEntry>, durations: &Vec<String>) -> (r: Option<
    Vec<String>,
>)
    requires
        durations@.len() == entries@.len(),
    ensures
        r is Some <==> all_shown(moments_of(entry_views(entries@))),
        r matches Some(lines) ==> texts(lines@) == listing(
            entry_views(entries@),
            moments_of(entry_views(entries@)),
            texts(durations@),
        ),
{
    let ghost all = entry_views(entries@);
    let ghost moments = moments_of(all);
    let ghost lines = listing(all, moments, texts(durations@));
    let n: usize = entries.len();
    let mut r: Vec<String> = Vec::new();
    let mut i: usize = 0;
    while i < n
        invariant
            n == entries@.len() == durations@.len(),
            all == entry_views(entries@),
            moments == moments_of(all),
            lines == listing(all, moments, texts(durations@)),
            0 <= i <= n,
            texts(r@) =~= lines.take(i as int),
            forall|k: int| 0 <= k < i ==> #[trigger] moments[k] is Some,
        decreases n - i,
    {
        assert(all[i as int] == entries@[i as int]@);
        match show_utc(&entries[i].timestamp) {
            Some(moment) => {
                let ghost before = texts(r@);
                let line = history_line(i + 1, moment.as_str(), durations[i].as_str(), &entries[i]);
                assert(moments[i as int] == Some(moment@));
                assert(line@ == lines[i as int]);
                r.push(line);
                assert(texts(r@) =~= before.push(line@));
            },
            None => {
                assert(moments[i as int] is None);
                return None;
            },
        }
        i += 1;
    }
    assert(lines.take(n as int) =~= lines);
    Some(r)
}

/// How the listing is given out.
#[derive(Debug)]
pub enum HistoryOutput {
    /// There is nothing to list.
    Nothing,
    /// These lines are printed.
    Lines(Vec<String>),
    /// This text is written to a file.
    File(String),
}

/// How a listing of these lines is given out: up to `INLINE_THRESHOLD` lines
/// are printed.
pub fn history_output(lines: Vec<String>) -> (r: HistoryOutput)
    ensures
        match r {
            HistoryOutput::Nothing => lines@.len() == 0,
            HistoryOutput::Lines(shown) => 0 < lines@.len() <= INLINE_THRESHOLD && shown@ == lines@,
            HistoryOutput::File(text) => lines@.len() > INLINE_THRESHOLD && text@ == joined(
                texts(lines@),
                "\n"@,
            ),
        },
{
    if lines.len() == 0 {
        HistoryOutput::Nothing
    } else if lines.len() > INLINE_THRESHOLD {
        HistoryOutput::File(join(&lines, "\n"))
    } else {
        HistoryOutput::Lines(lines)
    }
}

/// The place of the entry with that number, counted from 1, of so many.
pub open spec fn place_of_number(n: int, count: int) -> Option<int> {
    if 1 <= n <= count {
        Some(n - 1)
    } else {
        None
    }
}

/// The place of the entry with that number, counted from 1; or what the user
/// is told if there is none.
pub fn entry_number(n: usize, count: usize) -> (r: Result<usize, String>)
    ensures
        place_of_number(n as int, count as int) == match r {
            Ok(i) => Some(i as int),
            Err(_) => None,
        },
        r is Ok <==> 1 <= n <= count,
        r matches Ok(i) ==> i == n - 1,
        r matches Err(e) ==> e@ == "Index "@ + decimal(n as nat) + " out of range (1–"@ + decimal(
            count as nat,
        ) + ")"@,
{
    if n == 0 || n > count {
        let mut e = "Index ".to_owned();
        e.append(to_decimal(n as u64).as_str());
        e.append(" out of range (1–");
        e.append(to_decimal(count as u64).as_str());
        e.append(")");
        return Err(e);
    }
    Ok(n - 1)
}

/// The editor is the one that is asked for; if none is, the one that `VISUAL` names; if
/// that is not set, the one that `EDITOR` names.
pub proof fn law_which_editor(
    run_with: Option<Seq<char>>,
    visual: Option<Seq<char>>,
    editor: Option<Seq<char>>,
)
    ensures
        run_with is Some ==> editor_line(run_with, visual, editor) == run_with,
        run_with is None && visual is Some ==> editor_line(run_with, visual, editor) == visual,
        run_with is None && visual is None ==> editor_line(run_with, visual, editor) == editor,
{
}

/// The words of two texts with white space between them are those of the one, then those
/// of the other; a text without white space is one word, or none if it is empty.
pub proof fn law_words(a: Seq<char>, c: char, b: Seq<char>)
    ensures
        is_white(c) ==> words(a.push(c) + b) == words(a) + words(b),
        (forall|i: int| 0 <= i < a.len() ==> !is_white(#[trigger] a[i])) ==> words(a)
            == if a.len() > 0 {
            seq![a]
        } else {
            Seq::<Seq<char>>::empty()
        },
{
    let sep = Separator::White;
    if is_white(c) {
        crate::pieces::lemma_pieces_of_two(a, c, b, sep);
        crate::pieces::lemma_entries_of_two(pieces(a, sep), pieces(b, sep));
    }
    if forall|i: int| 0 <= i < a.len() ==> !is_white(#[trigger] a[i]) {
        crate::pieces::lemma_one_piece(a, sep);
        crate::pieces::law_entry_of_one(a);
        crate::text::lemma_trimmed_is_tight(a);
    }
}

/// After a setting is changed the user is warned exactly of a model path that is looked at
/// and is not right, with the verdict on it.
pub proof fn law_warning_after_set(
    key: Seq<char>,
    value: Seq<char>,
    ext: Option<Seq<char>>,
    no_validation: bool,
    length: Option<u64>,
)
    ensures
        ({
            let r = warning_after_set(key, value, ext, no_validation, length);
            let verdict = model_verdict(value, ext, length);
            &&& r is Some <==> !no_validation && key == "transcription.model_path"@
                && verdict.status != Status::Okay
            &&& r matches Some(v) ==> v == verdict
        }),
{
}

/// The value of `--history` is what follows its first occurrence that anything follows.
pub proof fn law_history_argument(args: Seq<Seq<char>>)
    ensures
        match history_value(args) {
            Some(i) => {
                &&& 1 <= i < args.len()
                &&& args[i - 1] == "--history"@
                &&& forall|k: int| 0 <= k < i - 1 ==> #[trigger] args[k] != "--history"@
            },
            None => forall|k: int| 0 <= k < args.len() - 1 ==> #[trigger] args[k] != "--history"@,
        },
    decreases args.len(),
{
    if args.len() >= 2 && args[0] != "--history"@ {
        let rest = args.drop_first();
        law_history_argument(rest);
        match history_value(rest) {
            Some(i) => {
                assert(rest[i - 1] == args[i]);
                assert forall|k: int| 0 <= k < i implies #[trigger] args[k] != "--history"@ by {
                    if k > 0 {
                        assert(rest[k - 1] == args[k]);
                    }
                }
            },
            None => {
                assert forall|k: int| 0 <= k < args.len() - 1 implies #[trigger] args[k]
                    != "--history"@ by {
                    if k > 0 {
                        assert(rest[k - 1] == args[k]);
                    }
                }
            },
        }
    }
}

/// The bytes of a text are those of its characters: one for ASCII, two up to 0x7ff, three
/// up to 0xffff, four above.
pub proof fn law_byte_length(a: Seq<char>, b: Seq<char>, c: char)
    ensures
        byte_length(a + b) == byte_length(a) + byte_length(b),
        byte_length(seq![c]) == 1 <==> (c as u32) <= 0x7f,
        byte_length(seq![c]) == 2 <==> 0x80 <= (c as u32) <= 0x7ff,
        byte_length(seq![c]) == 3 <==> 0x800 <= (c as u32) <= 0xffff,
        byte_length(seq![c]) == 4 <==> 0x1_0000 <= (c as u32),
    decreases b.len(),
{
    reveal_with_fuel(byte_length, 2);
    assert(seq![c].drop_last() =~= Seq::empty());
    if b.len() == 0 {
        assert(a + b =~= a);
    } else {
        law_byte_length(a, b.drop_last(), c);
        assert((a + b).drop_last() =~= a + b.drop_last());
        assert((a + b).last() == b.last());
    }
}

/// What is listed of a transcript is its first 80 characters, or all if it has no more;
/// and a mark behind them exactly if it has more than 80 bytes.
pub proof fn law_preview(text: Seq<char>)
    ensures
        ({
            let r = preview(text);
            let n = if text.len() < 80 {
                text.len()
            } else {
                80
            };
            &&& r.take(n as int) == text.take(n as int)
            &&& byte_length(text) <= 80 ==> r.len() == n
            &&& byte_length(text) > 80 ==> r.len() == n + 1 && r.last() == '…'
        }),
{
    reveal_strlit("…");
    let r = preview(text);
    let n = if text.len() < 80 {
        text.len()
    } else {
        80
    };
    assert(r.take(n as int) =~= text.take(n as int));
}

/// The listing has a line for each entry, in order and numbered from 1: the number at
/// least three wide, the moment, the duration, a mark if it was cancelled, and the
/// beginning of its text.
pub proof fn law_listing(
    entries: Seq<EntryView>,
    moments: Seq<Option<Seq<char>>>,
    durations: Seq<Seq<char>>,
    i: int,
)
    requires
        0 <= i < entries.len(),
        entries.len() == durations.len(),
        entries.len() == moments.len(),
        moments[i] is Some,
    ensures
        ({
            let lines = listing(entries, moments, durations);
            let head = padded(decimal((i + 1) as nat), 3, ' ') + seq!['.', ' '] + moments[i]->0
                + seq![' ', ' '] + durations[i] + seq!['s', ' ', ' '];
            &&& lines.len() == entries.len()
            &&& entries[i].cancelled ==> lines[i] == head + "[cancelled] "@ + preview(
                entries[i].text,
            )
            &&& !entries[i].cancelled ==> lines[i] == head + preview(entries[i].text)
        }),
{
    reveal_strlit(". ");
    reveal_strlit("  ");
    reveal_strlit("s  ");
    assert(". "@ =~= seq!['.', ' ']);
    assert("  "@ =~= seq![' ', ' ']);
    assert("s  "@ =~= seq!['s', ' ', ' ']);
    let lines = listing(entries, moments, durations);
    let head = padded(decimal((i + 1) as nat), 3, ' ') + seq!['.', ' '] + moments[i]->0 + seq![
        ' ',
        ' ',
    ] + durations[i] + seq!['s', ' ', ' '];
    if !entries[i].cancelled {
        assert(lines[i] =~= head + preview(entries[i].text));
    }
}

/// A listing can be shown exactly if the calendar has the moments of all entries, and then
/// each is shown at its own.
pub proof fn law_moments_shown(entries: Seq<EntryView>)
    ensures
        moments_of(entries).len() == entries.len(),
        forall|i: int|
            0 <= i < entries.len() ==> #[trigger] moments_of(entries)[i] == utc_text(
                entries[i].timestamp.secs,
                entries[i].timestamp.nanos,
                moment_pattern(),
            ),
        all_shown(moments_of(entries)) <==> forall|i: int|
            0 <= i < entries.len() ==> utc_text(
                (#[trigger] entries[i]).timestamp.secs,
                entries[i].timestamp.nanos,
                moment_pattern(),
            ) is Some,
{
    let moments = moments_of(entries);
    if all_shown(moments) {
        assert forall|i: int| 0 <= i < entries.len() implies utc_text(
            (#[trigger] entries[i]).timestamp.secs,
            entries[i].timestamp.nanos,
            moment_pattern(),
        ) is Some by {
            assert(moments[i] is Some);
        }
    }
}

/// Numbers name places one for one: each place of the list has the number one above it,
/// and no other number names one.
pub proof fn law_numbers_name_places(n: int, count: int, i: int)
    ensures
        place_of_number(n, count) == Some(i) <==> 0 <= i < count && n == i + 1,
{
}

/// The daemon's greeting names the key to transcribe and the one to cancel, and says to
/// hold the first exactly if it has to be held.
pub proof fn law_running_text(h: HotkeysView)
    ensures
        ({
            let text = running_text(h);
            let n = h.transcribe.len();
            let verb = if h.mode == RecordingMode::PushToTalk {
                4nat
            } else {
                6nat
            };
            &&& text.len() == 30 + n + 4 + verb + 2 + h.cancel.len() + 11
            &&& text.subrange(30, 30 + n as int) == h.transcribe
            &&& text.subrange(34 + n as int, 34 + n + verb as int) == if h.mode
                == RecordingMode::PushToTalk {
                "hold"@
            } else {
                "toggle"@
            }
            &&& text.subrange(36 + n + verb as int, 36 + n + verb + h.cancel.len() as int)
                == h.cancel
        }),
{
    reveal_strlit("quoteme daemon running. Press ");
    reveal_strlit(" to ");
    reveal_strlit("toggle");
    reveal_strlit("hold");
    reveal_strlit(", ");
    reveal_strlit(" to cancel.");
    let text = running_text(h);
    let n = h.transcribe.len();
    let verb = if h.mode == RecordingMode::PushToTalk {
        4nat
    } else {
        6nat
    };
    assert(text.subrange(30, 30 + n as int) =~= h.transcribe);
    if h.mode == RecordingMode::PushToTalk {
        assert(text.subrange(34 + n as int, 34 + n + verb as int) =~= "hold"@);
    } else {
        assert(text.subrange(34 + n as int, 34 + n + verb as int) =~= "toggle"@);
    }
    assert(text.subrange(36 + n + verb as int, 36 + n + verb + h.cancel.len() as int)
        =~= h.cancel);
}

/// The heading of a listing has two lines, names the path, and is another one for each of
/// the four cases.
pub proof fn law_heading(path: Seq<char>, exists_there: bool, only: bool)
    ensures
        ({
            let lines = heading_lines(path, exists_there, only);
            let at: int = if only && !exists_there {
                1
            } else {
                0
            };
            let named = lines[at];
            &&& lines.len() == 2
            &&& named.len() > path.len()
            &&& named.subrange(named.len() - 1 - path.len(), named.len() - 1) == path
            &&& only && exists_there ==> named.len() == path.len() + 19
            &&& only && !exists_there ==> named.len() == path.len() + 20 && lines[0].len() == 40
            &&& !only && exists_there ==> named.len() == path.len() + 23
            &&& !only && !exists_there ==> named.len() == path.len() + 56
            &&& at == 0 ==> lines[1].len() == 0
        }),
{
    reveal_strlit("Config overrides (");
    reveal_strlit("No config file found — no overrides set.");
    reveal_strlit("(default location: ");
    reveal_strlit("Active configuration (");
    reveal_strlit("Active configuration — all defaults (no config file at ");
    reveal_strlit(")");
    let lines = heading_lines(path, exists_there, only);
    let at: int = if only && !exists_there {
        1
    } else {
        0
    };
    let named = lines[at];
    assert(named.subrange(named.len() - 1 - path.len(), named.len() - 1) =~= path);
}

} // verus!
