//! Keys and key combinations by name.

use crate::pieces::{pieces, split, texts, Separator};
use crate::text::{
    all_ascii, ascii_lower, lemma_trim_bounds, lowercase, same_text, to_lowercase, trim,
    trimmed,
};
use vstd::prelude::*;

verus! {

/// A key. Keys that cannot be bound are told apart by a number.
#[derive(Debug, Clone, Copy, PartialEq, Eq, Structural)]
pub enum Key {
    AltGr,
    Alt,
    ControlRight,
    ControlLeft,
    ShiftRight,
    ShiftLeft,
    Escape,
    Space,
    Tab,
    Return,
    F1,
    F2,
    F3,
    F4,
    F5,
    F6,
    F7,
    F8,
    F9,
    F10,
    F11,
    F12,
    KeyA,
    KeyB,
    KeyC,
    KeyD,
    KeyE,
    KeyF,
    KeyG,
    KeyH,
    KeyI,
    KeyJ,
    KeyK,
    KeyL,
    KeyM,
    KeyN,
    KeyO,
    KeyP,
    KeyQ,
    KeyR,
    KeyS,
    KeyT,
    KeyU,
    KeyV,
    KeyW,
    KeyX,
    KeyY,
    KeyZ,
    Other(u32),
}

/// The key of that name, in lower case.
pub open spec fn key_named(name: Seq<char>) -> Option<Key> {
    if name == "ralt"@ || name == "right_alt"@ || name == "altgr"@ {
        Some(Key::AltGr)
    } else if name == "lalt"@ || name == "alt"@ || name == "left_alt"@ {
        Some(Key::Alt)
    } else if name == "rctrl"@ || name == "right_ctrl"@ || name == "right_control"@ {
        Some(Key::ControlRight)
    } else if name == "lctrl"@ || name == "ctrl"@ || name == "left_ctrl"@ || name == "left_control"@ || name == "control"@ {
        Some(Key::ControlLeft)
    } else if name == "rshift"@ || name == "right_shift"@ {
        Some(Key::ShiftRight)
    } else if name == "lshift"@ || name == "shift"@ || name == "left_shift"@ {
        Some(Key::ShiftLeft)
    } else if name == "escape"@ || name == "esc"@ {
        Some(Key::Escape)
    } else if name == "space"@ {
        Some(Key::Space)
    } else if name == "tab"@ {
        Some(Key::Tab)
    } else if name == "return"@ || name == "enter"@ {
        Some(Key::Return)
    } else if name == "f1"@ {
        Some(Key::F1)
    } else if name == "f2"@ {
        Some(Key::F2)
    } else if name == "f3"@ {
        Some(Key::F3)
    } else if name == "f4"@ {
        Some(Key::F4)
    } else if name == "f5"@ {
        Some(Key::F5)
    } else if name == "f6"@ {
        Some(Key::F6)
    } else if name == "f7"@ {
        Some(Key::F7)
    } else if name == "f8"@ {
        Some(Key::F8)
    } else if name == "f9"@ {
        Some(Key::F9)
    } else if name == "f10"@ {
        Some(Key::F10)
    } else if name == "f11"@ {
        Some(Key::F11)
    } else if name == "f12"@ {
        Some(Key::F12)
    } else if name == "a"@ {
        Some(Key::KeyA)
    } else if name == "b"@ {
        Some(Key::KeyB)
    } else if name == "c"@ {
        Some(Key::KeyC)
    } else if name == "d"@ {
        Some(Key::KeyD)
    } else if name == "e"@ {
        Some(Key::KeyE)
    } else if name == "f"@ {
        Some(Key::KeyF)
    } else if name == "g"@ {
        Some(Key::KeyG)
    } else if name == "h"@ {
        Some(Key::KeyH)
    } else if name == "i"@ {
        Some(Key::KeyI)
    } else if name == "j"@ {
        Some(Key::KeyJ)
    } else if name == "k"@ {
        Some(Key::KeyK)
    } else if name == "l"@ {
        Some(Key::KeyL)
    } else if name == "m"@ {
        Some(Key::KeyM)
    } else if name == "n"@ {
        Some(Key::KeyN)
    } else if name == "o"@ {
        Some(Key::KeyO)
    } else if name == "p"@ {
        Some(Key::KeyP)
    } else if name == "q"@ {
        Some(Key::KeyQ)
    } else if name == "r"@ {
        Some(Key::KeyR)
    } else if name == "s"@ {
        Some(Key::KeyS)
    } else if name == "t"@ {
        Some(Key::KeyT)
    } else if name == "u"@ {
        Some(Key::KeyU)
    } else if name == "v"@ {
        Some(Key::KeyV)
    } else if name == "w"@ {
        Some(Key::KeyW)
    } else if name == "x"@ {
        Some(Key::KeyX)
    } else if name == "y"@ {
        Some(Key::KeyY)
    } else if name == "z"@ {
        Some(Key::KeyZ)
    } else {
        None
    }
}

/// The key of that name, in lower case.
pub fn key_of_name(name: &str) -> (r: Option<Key>)
    ensures
        r == key_named(name@),
{
    if same_text(name, "ralt") || same_text(name, "right_alt") || same_text(name, "altgr") {
        Some(Key::AltGr)
    } else if same_text(name, "lalt") || same_text(name, "alt") || same_text(name, "left_alt") {
        Some(Key::Alt)
    } else if same_text(name, "rctrl") || same_text(name, "right_ctrl") || same_text(name, "right_control") {
        Some(Key::ControlRight)
    } else if same_text(name, "lctrl") || same_text(name, "ctrl") || same_text(name, "left_ctrl") || same_text(name, "left_control") || same_text(name, "control") {
        Some(Key::ControlLeft)
    } else if same_text(name, "rshift") || same_text(name, "right_shift") {
        Some(Key::ShiftRight)
    } else if same_text(name, "lshift") || same_text(name, "shift") || same_text(name, "left_shift") {
        Some(Key::ShiftLeft)
    } else if same_text(name, "escape") || same_text(name, "esc") {
        Some(Key::Escape)
    } else if same_text(name, "space") {
        Some(Key::Space)
    } else if same_text(name, "tab") {
        Some(Key::Tab)
    } else if same_text(name, "return") || same_text(name, "enter") {
        Some(Key::Return)
    } else if same_text(name, "f1") {
        Some(Key::F1)
    } else if same_text(name, "f2") {
        Some(Key::F2)
    } else if same_text(name, "f3") {
        Some(Key::F3)
    } else if same_text(name, "f4") {
        Some(Key::F4)
    } else if same_text(name, "f5") {
        Some(Key::F5)
    } else if same_text(name, "f6") {
        Some(Key::F6)
    } else if same_text(name, "f7") {
        Some(Key::F7)
    } else if same_text(name, "f8") {
        Some(Key::F8)
    } else if same_text(name, "f9") {
        Some(Key::F9)
    } else if same_text(name, "f10") {
        Some(Key::F10)
    } else if same_text(name, "f11") {
        Some(Key::F11)
    } else if same_text(name, "f12") {
        Some(Key::F12)
    } else if same_text(name, "a") {
        Some(Key::KeyA)
    } else if same_text(name, "b") {
        Some(Key::KeyB)
    } else if same_text(name, "c") {
        Some(Key::KeyC)
    } else if same_text(name, "d") {
        Some(Key::KeyD)
    } else if same_text(name, "e") {
        Some(Key::KeyE)
    } else if same_text(name, "f") {
        Some(Key::KeyF)
    } else if same_text(name, "g") {
        Some(Key::KeyG)
    } else if same_text(name, "h") {
        Some(Key::KeyH)
    } else if same_text(name, "i") {
        Some(Key::KeyI)
    } else if same_text(name, "j") {
        Some(Key::KeyJ)
    } else if same_text(name, "k") {
        Some(Key::KeyK)
    } else if same_text(name, "l") {
        Some(Key::KeyL)
    } else if same_text(name, "m") {
        Some(Key::KeyM)
    } else if same_text(name, "n") {
        Some(Key::KeyN)
    } else if same_text(name, "o") {
        Some(Key::KeyO)
    } else if same_text(name, "p") {
        Some(Key::KeyP)
    } else if same_text(name, "q") {
        Some(Key::KeyQ)
    } else if same_text(name, "r") {
        Some(Key::KeyR)
    } else if same_text(name, "s") {
        Some(Key::KeyS)
    } else if same_text(name, "t") {
        Some(Key::KeyT)
    } else if same_text(name, "u") {
        Some(Key::KeyU)
    } else if same_text(name, "v") {
        Some(Key::KeyV)
    } else if same_text(name, "w") {
        Some(Key::KeyW)
    } else if same_text(name, "x") {
        Some(Key::KeyX)
    } else if same_text(name, "y") {
        Some(Key::KeyY)
    } else if same_text(name, "z") {
        Some(Key::KeyZ)
    } else {
        None
    }
}

/// Why a text is no key or key combination.
#[derive(Debug)]
pub enum HotkeyError {
    /// No key has this name (in lower case).
    UnknownKey(String),
    /// A key name is missing in this combination.
    EmptyPart(String),
}

/// The values of a [`HotkeyError`].
pub ghost enum HotkeyErrorView {
    UnknownKey(Seq<char>),
    EmptyPart(Seq<char>),
}

impl View for HotkeyError {
    type V = HotkeyErrorView;

    open spec fn view(&self) -> HotkeyErrorView {
        match self {
            HotkeyError::UnknownKey(name) => HotkeyErrorView::UnknownKey(name@),
            HotkeyError::EmptyPart(s) => HotkeyErrorView::EmptyPart(s@),
        }
    }
}

impl HotkeyErrorView {
    /// What the user is told.
    pub open spec fn text(self) -> Seq<char> {
        match self {
            HotkeyErrorView::UnknownKey(name) => "Unknown key: '"@ + name
                + "'. Supported: RAlt, LAlt, RCtrl, LCtrl, RShift, LShift, Escape, Space, Tab, Return, A-Z, F1-F12"@,
            HotkeyErrorView::EmptyPart(s) => "Invalid hotkey '"@ + s
                + "': empty key name in expression"@,
        }
    }
}

impl HotkeyError {
    /// What the user is told.
    pub fn message(&self) -> (r: String)
        ensures
            r@ == self@.text(),
    {
        match self {
            HotkeyError::UnknownKey(name) => {
                let mut r = "Unknown key: '".to_owned();
                r.append(name.as_str());
                r.append(
                    "'. Supported: RAlt, LAlt, RCtrl, LCtrl, RShift, LShift, Escape, Space, Tab, Return, A-Z, F1-F12",
                );
                r
            },
            HotkeyError::EmptyPart(s) => {
                let mut r = "Invalid hotkey '".to_owned();
                r.append(s.as_str());
                r.append("': empty key name in expression");
                r
            },
        }
    }
}

/// The key of that name, or the error that says there is none.
pub open spec fn named_key(name: Seq<char>) -> Result<Key, HotkeyErrorView> {
    match key_named(name) {
        Some(k) => Ok(k),
        None => Err(HotkeyErrorView::UnknownKey(name)),
    }
}

/// The values of the outcome of reading a key.
pub open spec fn key_outcome(r: Result<Key, HotkeyError>) -> Result<Key, HotkeyErrorView> {
    match r {
        Ok(k) => Ok(k),
        Err(e) => Err(e@),
    }
}

/// Reads a key name in lower case.
fn key_of_lower_name(name: String) -> (r: Result<Key, HotkeyError>)
    ensures
        key_outcome(r) == named_key(name@),
{
    match key_of_name(name.as_str()) {
        Some(k) => Ok(k),
        None => Err(HotkeyError::UnknownKey(name)),
    }
}

/// Reads a key name in any letter case.
pub fn parse_key(s: &str) -> (r: Result<Key, HotkeyError>)
    ensures
        key_outcome(r) == named_key(lowercase(s@)),
        all_ascii(s@) ==> key_outcome(r) == named_key(ascii_lower(s@)),
{
    key_of_lower_name(to_lowercase(s))
}

/// A key combination: modifier keys that are held, and the key whose press
/// completes it.
#[derive(Debug)]
pub struct Hotkey {
    pub modifiers: Vec<Key>,
    pub trigger: Key,
}

/// The values of a [`Hotkey`].
pub ghost struct HotkeyView {
    pub modifiers: Seq<Key>,
    pub trigger: Key,
}

impl View for Hotkey {
    type V = HotkeyView;

    open spec fn view(&self) -> HotkeyView {
        HotkeyView { modifiers: self.modifiers@, trigger: self.trigger }
    }
}

/// The first of `names` that names no key.
pub open spec fn first_unknown(names: Seq<Seq<char>>) -> Option<Seq<char>>
    decreases names.len(),
{
    if names.len() == 0 {
        None
    } else if first_unknown(names.drop_last()) is Some {
        first_unknown(names.drop_last())
    } else if key_named(names.last()) is None {
        Some(names.last())
    } else {
        None
    }
}

/// The combination whose keys have these names, the last one being the
/// trigger. An unknown trigger is reported before unknown modifiers.
pub open spec fn hotkey_named(names: Seq<Seq<char>>) -> Result<HotkeyView, HotkeyErrorView> {
    match named_key(names.last()) {
        Err(e) => Err(e),
        Ok(trigger) => match first_unknown(names.drop_last()) {
            Some(name) => Err(HotkeyErrorView::UnknownKey(name)),
            None => Ok(
                HotkeyView {
                    modifiers: names.drop_last().map_values(
                        |name: Seq<char>| key_named(name)->0,
                    ),
                    trigger,
                },
            ),
        },
    }
}

/// The values of the outcome of reading a combination.
pub open spec fn hotkey_outcome(r: Result<Hotkey, HotkeyError>) -> Result<
    HotkeyView,
    HotkeyErrorView,
> {
    match r {
        Ok(h) => Ok(h@),
        Err(e) => Err(e@),
    }
}

/// Puts a combination together from key names in lower case.
pub fn hotkey_of_names(names: &Vec<String>) -> (r: Result<Hotkey, HotkeyError>)
    requires
        names@.len() > 0,
    ensures
        hotkey_outcome(r) == hotkey_named(texts(names@)),
{
    let ghost all = texts(names@);
    let ghost before = all.drop_last();
    let ghost key_in = |name: Seq<char>| key_named(name)->0;
    let last: usize = names.len() - 1;
    assert(all.last() == names@[last as int]@);
    let trigger = match key_of_lower_name(names[last].clone()) {
        Ok(k) => k,
        Err(e) => {
            return Err(e);
        },
    };
    let mut modifiers: Vec<Key> = Vec::new();
    let mut i: usize = 0;
    assert(modifiers@ =~= before.take(0).map_values(key_in));
    while i < last
        invariant
            all == texts(names@),
            before == all.drop_last(),
            key_in == (|name: Seq<char>| key_named(name)->0),
            last == names@.len() - 1,
            0 <= i <= last,
            named_key(all.last()) == Ok::<Key, HotkeyErrorView>(trigger),
            first_unknown(before.take(i as int)) is None,
            modifiers@ == before.take(i as int).map_values(key_in),
        decreases last - i,
    {
        assert(before[i as int] == names@[i as int]@);
        assert(before.take(i + 1).drop_last() =~= before.take(i as int));
        match key_of_lower_name(names[i].clone()) {
            Ok(k) => {
                modifiers.push(k);
                assert(modifiers@ =~= before.take(i + 1).map_values(key_in));
            },
            Err(e) => {
                proof {
                    lemma_first_unknown(before, i + 1);
                }
                return Err(e);
            },
        }
        i += 1;
    }
    assert(before.take(last as int) =~= before);
    Ok(Hotkey { modifiers, trigger })
}

proof fn lemma_first_unknown(names: Seq<Seq<char>>, i: int)
    requires
        0 <= i <= names.len(),
        first_unknown(names.take(i)) is Some,
    ensures
        first_unknown(names) == first_unknown(names.take(i)),
    decreases names.len() - i,
{
    if i < names.len() {
        assert(names.take(i + 1).drop_last() =~= names.take(i));
        lemma_first_unknown(names, i + 1);
    } else {
        assert(names.take(i) =~= names);
    }
}

/// The parts of a combination: what stands between the `+` signs, trimmed.
pub open spec fn hotkey_parts(s: Seq<char>) -> Seq<Seq<char>> {
    pieces(s, Separator::At('+')).map_values(|p: Seq<char>| trimmed(p))
}

/// Some part of the combination is blank.
pub open spec fn lacks_part(s: Seq<char>) -> bool {
    exists|i: int| 0 <= i < hotkey_parts(s).len() && (#[trigger] hotkey_parts(s)[i]).len() == 0
}

/// The combination that a text stands for.
pub open spec fn parsed_hotkey(s: Seq<char>) -> Result<HotkeyView, HotkeyErrorView> {
    if lacks_part(s) {
        Err(HotkeyErrorView::EmptyPart(s))
    } else {
        hotkey_named(hotkey_parts(s).map_values(|p: Seq<char>| lowercase(p)))
    }
}

/// The combination that a text in ASCII stands for.
pub open spec fn parsed_ascii_hotkey(s: Seq<char>) -> Result<HotkeyView, HotkeyErrorView> {
    if lacks_part(s) {
        Err(HotkeyErrorView::EmptyPart(s))
    } else {
        hotkey_named(hotkey_parts(s).map_values(|p: Seq<char>| ascii_lower(p)))
    }
}

proof fn lemma_ascii_pieces(s: Seq<char>, sep: Separator)
    requires
        all_ascii(s),
    ensures
        forall|i: int| 0 <= i < pieces(s, sep).len() ==> all_ascii(#[trigger] pieces(s, sep)[i]),
        pieces(s, sep).len() > 0,
    decreases s.len(),
{
    if s.len() > 0 {
        assert(all_ascii(s.drop_last())) by {
            assert forall|i: int| 0 <= i < s.len() - 1 implies (#[trigger] s.drop_last()[i] as u32)
                < 128 by {
                assert(s.drop_last()[i] == s[i]);
            }
        }
        lemma_ascii_pieces(s.drop_last(), sep);
        let before = pieces(s.drop_last(), sep);
        assert((s[s.len() - 1] as u32) < 128);
        assert(all_ascii(before[before.len() - 1]));
    }
}

proof fn lemma_ascii_parts(s: Seq<char>)
    requires
        all_ascii(s),
    ensures
        forall|i: int| 0 <= i < hotkey_parts(s).len() ==> all_ascii(#[trigger] hotkey_parts(s)[i]),
{
    lemma_ascii_pieces(s, Separator::At('+'));
    assert forall|i: int| 0 <= i < hotkey_parts(s).len() implies all_ascii(
        #[trigger] hotkey_parts(s)[i],
    ) by {
        let p = pieces(s, Separator::At('+'))[i];
        let (a, b) = lemma_trim_bounds(p);
        assert forall|k: int| 0 <= k < b - a implies (#[trigger] p.subrange(a, b)[k] as u32)
            < 128 by {
            assert(p.subrange(a, b)[k] == p[a + k]);
        }
    }
}

/// Reads a combination such as `RAlt`, `Ctrl+Space` or `LCtrl+Shift+F9`.
pub fn parse_hotkey(s: &str) -> (r: Result<Hotkey, HotkeyError>)
    ensures
        hotkey_outcome(r) == parsed_hotkey(s@),
        all_ascii(s@) ==> hotkey_outcome(r) == parsed_ascii_hotkey(s@),
{
    let parts = split(s, Separator::At('+'));
    let ghost ps = pieces(s@, Separator::At('+'));
    let ghost trimmed_parts = hotkey_parts(s@);
    let ghost lower = |p: Seq<char>| lowercase(p);
    let mut names: Vec<String> = Vec::new();
    let mut i: usize = 0;
    proof {
        crate::pieces::lemma_pieces(s@, Separator::At('+'));
        if all_ascii(s@) {
            lemma_ascii_parts(s@);
        }
    }
    while i < parts.len()
        invariant
            texts(parts@) == ps,
            ps == pieces(s@, Separator::At('+')),
            trimmed_parts == hotkey_parts(s@),
            0 <= i <= parts@.len(),
            names@.len() == i,
            forall|k: int| 0 <= k < i ==> (#[trigger] trimmed_parts[k]).len() > 0,
            forall|k: int| 0 <= k < i ==> #[trigger] names@[k]@ == lowercase(trimmed_parts[k]),
            forall|k: int|
                0 <= k < i && all_ascii(trimmed_parts[k]) ==> #[trigger] names@[k]@ == ascii_lower(
                    trimmed_parts[k],
                ),
        decreases parts@.len() - i,
    {
        assert(ps[i as int] == parts@[i as int]@);
        let part = trim(parts[i].as_str());
        assert(part@ == trimmed_parts[i as int]);
        if part.is_empty() {
            assert(lacks_part(s@));
            return Err(HotkeyError::EmptyPart(s.to_owned()));
        }
        names.push(to_lowercase(part));
        i += 1;
    }
    assert(!lacks_part(s@));
    assert(texts(names@) =~= trimmed_parts.map_values(lower));
    proof {
        if all_ascii(s@) {
            assert(texts(names@) =~= trimmed_parts.map_values(|p: Seq<char>| ascii_lower(p)));
        }
    }
    hotkey_of_names(&names)
}

/// The letter that is on a key, if there is one.
pub open spec fn letter_on(k: Key) -> Option<char> {
    match k {
        Key::KeyA => Some('a'),
        Key::KeyB => Some('b'),
        Key::KeyC => Some('c'),
        Key::KeyD => Some('d'),
        Key::KeyE => Some('e'),
        Key::KeyF => Some('f'),
        Key::KeyG => Some('g'),
        Key::KeyH => Some('h'),
        Key::KeyI => Some('i'),
        Key::KeyJ => Some('j'),
        Key::KeyK => Some('k'),
        Key::KeyL => Some('l'),
        Key::KeyM => Some('m'),
        Key::KeyN => Some('n'),
        Key::KeyO => Some('o'),
        Key::KeyP => Some('p'),
        Key::KeyQ => Some('q'),
        Key::KeyR => Some('r'),
        Key::KeyS => Some('s'),
        Key::KeyT => Some('t'),
        Key::KeyU => Some('u'),
        Key::KeyV => Some('v'),
        Key::KeyW => Some('w'),
        Key::KeyX => Some('x'),
        Key::KeyY => Some('y'),
        Key::KeyZ => Some('z'),
        _ => None,
    }
}

/// The number of a function key.
pub open spec fn function_number(k: Key) -> Option<nat> {
    match k {
        Key::F1 => Some(1),
        Key::F2 => Some(2),
        Key::F3 => Some(3),
        Key::F4 => Some(4),
        Key::F5 => Some(5),
        Key::F6 => Some(6),
        Key::F7 => Some(7),
        Key::F8 => Some(8),
        Key::F9 => Some(9),
        Key::F10 => Some(10),
        Key::F11 => Some(11),
        Key::F12 => Some(12),
        _ => None,
    }
}

/// Every key with a letter goes by that letter.
#[verifier::rlimit(40)]
pub proof fn law_letters_name_keys(k: Key, c: char)
    requires
        letter_on(k) == Some(c),
    ensures
        key_named(seq![c]) == Some(k),
{
    reveal_strlit("ralt");
    reveal_strlit("right_alt");
    reveal_strlit("altgr");
    reveal_strlit("lalt");
    reveal_strlit("alt");
    reveal_strlit("left_alt");
    reveal_strlit("rctrl");
    reveal_strlit("right_ctrl");
    reveal_strlit("right_control");
    reveal_strlit("lctrl");
    reveal_strlit("ctrl");
    reveal_strlit("left_ctrl");
    reveal_strlit("left_control");
    reveal_strlit("control");
    reveal_strlit("rshift");
    reveal_strlit("right_shift");
    reveal_strlit("lshift");
    reveal_strlit("shift");
    reveal_strlit("left_shift");
    reveal_strlit("escape");
    reveal_strlit("esc");
    reveal_strlit("space");
    reveal_strlit("tab");
    reveal_strlit("return");
    reveal_strlit("enter");
    reveal_strlit("f1");
    reveal_strlit("f2");
    reveal_strlit("f3");
    reveal_strlit("f4");
    reveal_strlit("f5");
    reveal_strlit("f6");
    reveal_strlit("f7");
    reveal_strlit("f8");
    reveal_strlit("f9");
    reveal_strlit("f10");
    reveal_strlit("f11");
    reveal_strlit("f12");
    reveal_strlit("a");
    reveal_strlit("b");
    reveal_strlit("c");
    reveal_strlit("d");
    reveal_strlit("e");
    reveal_strlit("f");
    reveal_strlit("g");
    reveal_strlit("h");
    reveal_strlit("i");
    reveal_strlit("j");
    reveal_strlit("k");
    reveal_strlit("l");
    reveal_strlit("m");
    reveal_strlit("n");
    reveal_strlit("o");
    reveal_strlit("p");
    reveal_strlit("q");
    reveal_strlit("r");
    reveal_strlit("s");
    reveal_strlit("t");
    reveal_strlit("u");
    reveal_strlit("v");
    reveal_strlit("w");
    reveal_strlit("x");
    reveal_strlit("y");
    reveal_strlit("z");
    let name = seq![c];
    assert(name.len() == 1 && name[0] == c);
    assert("a"@ =~= seq!['a']);
    assert("b"@ =~= seq!['b']);
    assert("c"@ =~= seq!['c']);
    assert("d"@ =~= seq!['d']);
    assert("e"@ =~= seq!['e']);
    assert("f"@ =~= seq!['f']);
    assert("g"@ =~= seq!['g']);
    assert("h"@ =~= seq!['h']);
    assert("i"@ =~= seq!['i']);
    assert("j"@ =~= seq!['j']);
    assert("k"@ =~= seq!['k']);
    assert("l"@ =~= seq!['l']);
    assert("m"@ =~= seq!['m']);
    assert("n"@ =~= seq!['n']);
    assert("o"@ =~= seq!['o']);
    assert("p"@ =~= seq!['p']);
    assert("q"@ =~= seq!['q']);
    assert("r"@ =~= seq!['r']);
    assert("s"@ =~= seq!['s']);
    assert("t"@ =~= seq!['t']);
    assert("u"@ =~= seq!['u']);
    assert("v"@ =~= seq!['v']);
    assert("w"@ =~= seq!['w']);
    assert("x"@ =~= seq!['x']);
    assert("y"@ =~= seq!['y']);
    assert("z"@ =~= seq!['z']);
}

/// Function keys go by an F and their number.
#[verifier::rlimit(40)]
pub proof fn law_function_keys_are_numbered(k: Key, n: nat)
    requires
        function_number(k) == Some(n),
    ensures
        key_named(seq!['f'] + crate::numbers::decimal(n)) == Some(k),
{
    reveal_strlit("ralt");
    reveal_strlit("right_alt");
    reveal_strlit("altgr");
    reveal_strlit("lalt");
    reveal_strlit("alt");
    reveal_strlit("left_alt");
    reveal_strlit("rctrl");
    reveal_strlit("right_ctrl");
    reveal_strlit("right_control");
    reveal_strlit("lctrl");
    reveal_strlit("ctrl");
    reveal_strlit("left_ctrl");
    reveal_strlit("left_control");
    reveal_strlit("control");
    reveal_strlit("rshift");
    reveal_strlit("right_shift");
    reveal_strlit("lshift");
    reveal_strlit("shift");
    reveal_strlit("left_shift");
    reveal_strlit("escape");
    reveal_strlit("esc");
    reveal_strlit("space");
    reveal_strlit("tab");
    reveal_strlit("return");
    reveal_strlit("enter");
    reveal_strlit("f1");
    reveal_strlit("f2");
    reveal_strlit("f3");
    reveal_strlit("f4");
    reveal_strlit("f5");
    reveal_strlit("f6");
    reveal_strlit("f7");
    reveal_strlit("f8");
    reveal_strlit("f9");
    reveal_strlit("f10");
    reveal_strlit("f11");
    reveal_strlit("f12");
    reveal_strlit("a");
    reveal_strlit("b");
    reveal_strlit("c");
    reveal_strlit("d");
    reveal_strlit("e");
    reveal_strlit("f");
    reveal_strlit("g");
    reveal_strlit("h");
    reveal_strlit("i");
    reveal_strlit("j");
    reveal_strlit("k");
    reveal_strlit("l");
    reveal_strlit("m");
    reveal_strlit("n");
    reveal_strlit("o");
    reveal_strlit("p");
    reveal_strlit("q");
    reveal_strlit("r");
    reveal_strlit("s");
    reveal_strlit("t");
    reveal_strlit("u");
    reveal_strlit("v");
    reveal_strlit("w");
    reveal_strlit("x");
    reveal_strlit("y");
    reveal_strlit("z");
    reveal_with_fuel(crate::numbers::decimal, 2);
    let name = seq!['f'] + crate::numbers::decimal(n);
    assert(name[0] == 'f');
    if n < 10 {
        assert(name.len() == 2);
        assert(name[1] == crate::numbers::digit(n));
    } else {
        assert(name.len() == 3);
        assert(name[1] == crate::numbers::digit(1));
        assert(name[2] == crate::numbers::digit((n % 10) as nat));
    }
    assert("f1"@ =~= seq!['f', '1']);
    assert("f2"@ =~= seq!['f', '2']);
    assert("f3"@ =~= seq!['f', '3']);
    assert("f4"@ =~= seq!['f', '4']);
    assert("f5"@ =~= seq!['f', '5']);
    assert("f6"@ =~= seq!['f', '6']);
    assert("f7"@ =~= seq!['f', '7']);
    assert("f8"@ =~= seq!['f', '8']);
    assert("f9"@ =~= seq!['f', '9']);
    assert("f10"@ =~= seq!['f', '1', '0']);
    assert("f11"@ =~= seq!['f', '1', '1']);
    assert("f12"@ =~= seq!['f', '1', '2']);
    assert(name =~= if n < 10 {
        seq!['f', crate::numbers::digit(n)]
    } else {
        seq!['f', '1', crate::numbers::digit((n % 10) as nat)]
    });
}

/// A combination is read from its parts, whose white space and case do not matter:
/// the last names its last key, the others its modifiers, in order. It cannot be read
/// if a part is blank, or names no key: of these the last part is named first, then
/// the first of the others.
pub proof fn law_parts_of_a_combination(names: Seq<Seq<char>>)
    requires
        names.len() > 0,
    ensures
        ({
            let r = hotkey_named(names);
            &&& r is Ok <==> forall|i: int| 0 <= i < names.len() ==> key_named(
                #[trigger] names[i],
            ) is Some
            &&& r matches Ok(h) ==> key_named(names.last()) == Some(h.trigger) && h.modifiers.len()
                == names.len() - 1 && forall|i: int|
                0 <= i < h.modifiers.len() ==> key_named(names[i]) == Some(
                    #[trigger] h.modifiers[i],
                )
            &&& r matches Err(e) ==> exists|i: int|
                {
                    &&& 0 <= i < names.len()
                    &&& e == HotkeyErrorView::UnknownKey(#[trigger] names[i])
                    &&& key_named(names[i]) is None
                    &&& i < names.len() - 1 ==> key_named(names.last()) is Some && forall|k: int|
                        0 <= k < i ==> key_named(#[trigger] names[k]) is Some
                }
        }),
{
    let before = names.drop_last();
    lemma_which_is_unknown(before);
    assert(names[names.len() - 1] == names.last());
    assert forall|i: int| 0 <= i < before.len() implies before[i] == names[i] by {}
    if key_named(names.last()) is Some {
        if let Some(name) = first_unknown(before) {
            let i = choose|i: int|
                {
                    &&& 0 <= i < before.len()
                    &&& #[trigger] before[i] == name
                    &&& key_named(name) is None
                    &&& forall|k: int| 0 <= k < i ==> key_named(#[trigger] before[k]) is Some
                };
            assert(names[i] == name);
            assert forall|k: int| 0 <= k < i implies key_named(#[trigger] names[k]) is Some by {
                assert(before[k] == names[k]);
            }
        } else {
            assert forall|i: int| 0 <= i < names.len() implies key_named(
                #[trigger] names[i],
            ) is Some by {
                if i < before.len() {
                    assert(before[i] == names[i]);
                }
            }
        }
    }
}

proof fn lemma_which_is_unknown(names: Seq<Seq<char>>)
    ensures
        match first_unknown(names) {
            Some(name) => exists|i: int|
                {
                    &&& 0 <= i < names.len()
                    &&& #[trigger] names[i] == name
                    &&& key_named(name) is None
                    &&& forall|k: int| 0 <= k < i ==> key_named(#[trigger] names[k]) is Some
                },
            None => forall|k: int| 0 <= k < names.len() ==> key_named(#[trigger] names[k]) is Some,
        },
    decreases names.len(),
{
    if names.len() > 0 {
        let rest = names.drop_last();
        lemma_which_is_unknown(rest);
        if let Some(name) = first_unknown(rest) {
            let i = choose|i: int|
                {
                    &&& 0 <= i < rest.len()
                    &&& #[trigger] rest[i] == name
                    &&& key_named(name) is None
                    &&& forall|k: int| 0 <= k < i ==> key_named(#[trigger] rest[k]) is Some
                };
            assert(names[i] == name);
            assert forall|k: int| 0 <= k < i implies key_named(#[trigger] names[k]) is Some by {
                assert(rest[k] == names[k]);
            }
        } else {
            assert forall|k: int| 0 <= k < rest.len() implies key_named(
                #[trigger] names[k],
            ) is Some by {
                assert(rest[k] == names[k]);
            }
            assert(names[names.len() - 1] == names.last());
        }
    }
}

/// The parts of two texts with a plus between them are those of the one, then those of
/// the other; a text without a plus is one part, without the white space around it. A
/// combination with a blank part is refused as such.
pub proof fn law_combination_parts(a: Seq<char>, b: Seq<char>)
    ensures
        hotkey_parts(a.push('+') + b) == hotkey_parts(a) + hotkey_parts(b),
        !a.contains('+') ==> hotkey_parts(a) == seq![trimmed(a)],
        lacks_part(a) <==> exists|i: int|
            0 <= i < hotkey_parts(a).len() && (#[trigger] hotkey_parts(a)[i]).len() == 0,
        lacks_part(a) ==> parsed_hotkey(a) == Err::<HotkeyView, HotkeyErrorView>(
            HotkeyErrorView::EmptyPart(a),
        ),
        !lacks_part(a) ==> parsed_hotkey(a) == hotkey_named(
            hotkey_parts(a).map_values(|p: Seq<char>| lowercase(p)),
        ) && parsed_ascii_hotkey(a) == hotkey_named(
            hotkey_parts(a).map_values(|p: Seq<char>| ascii_lower(p)),
        ),
{
    let sep = Separator::At('+');
    crate::pieces::lemma_pieces_of_two(a, '+', b, sep);
    assert(hotkey_parts(a.push('+') + b) =~= hotkey_parts(a) + hotkey_parts(b));
    if !a.contains('+') {
        assert forall|i: int| 0 <= i < a.len() implies !sep.cuts(#[trigger] a[i]) by {
            if a[i] == '+' {
                assert(a.contains('+'));
            }
        }
        crate::pieces::lemma_one_piece(a, sep);
        assert(hotkey_parts(a) =~= seq![trimmed(a)]);
    }
}

/// The name that is reported names no key, and all names before it do; and none is
/// reported exactly if all of them do.
pub proof fn law_first_unknown(names: Seq<Seq<char>>)
    ensures
        first_unknown(names) is None <==> forall|i: int|
            0 <= i < names.len() ==> key_named(#[trigger] names[i]) is Some,
        first_unknown(names) matches Some(name) ==> exists|k: int|
            0 <= k < names.len() && #[trigger] names[k] == name && key_named(name) is None
                && forall|i: int| 0 <= i < k ==> key_named(#[trigger] names[i]) is Some,
    decreases names.len(),
{
    if names.len() > 0 {
        let before = names.drop_last();
        law_first_unknown(before);
        assert forall|i: int| 0 <= i < before.len() implies before[i] == names[i] by {}
        match first_unknown(before) {
            Some(name) => {
                let k = choose|k: int|
                    0 <= k < before.len() && #[trigger] before[k] == name && key_named(name) is None
                        && forall|i: int| 0 <= i < k ==> key_named(#[trigger] before[i]) is Some;
                assert(names[k] == name);
                assert forall|i: int| 0 <= i < k implies key_named(#[trigger] names[i]) is Some by {
                    assert(before[i] == names[i]);
                }
            },
            None => {
                assert forall|i: int| 0 <= i < before.len() implies key_named(
                    #[trigger] names[i],
                ) is Some by {
                    assert(before[i] == names[i]);
                }
                assert(names.last() == names[names.len() - 1]);
            },
        }
    }
}

/// What the user is told of a combination tells it, or the key in it that is not known.
pub proof fn law_hotkey_errors(s: Seq<char>)
    ensures
        HotkeyErrorView::UnknownKey(s).text().subrange(14, 14 + s.len() as int) == s,
        HotkeyErrorView::EmptyPart(s).text().subrange(16, 16 + s.len() as int) == s,
        HotkeyErrorView::UnknownKey(s).text() != HotkeyErrorView::EmptyPart(s).text(),
{
    reveal_strlit("Unknown key: '");
    reveal_strlit("Invalid hotkey '");
    let a = HotkeyErrorView::UnknownKey(s).text();
    let b = HotkeyErrorView::EmptyPart(s).text();
    assert(a.subrange(14, 14 + s.len() as int) =~= s);
    assert(b.subrange(16, 16 + s.len() as int) =~= s);
    assert(a[0] != b[0]);
}

} // verus!
