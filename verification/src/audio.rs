//! Choosing a microphone.

use crate::numbers::{bounded_value, decimal, parse_usize, to_decimal};
use crate::pieces::{contains, contains_text};
use crate::text::{
    all_ascii, ascii_lower, is_blank, lowercase, same_text, text_in, to_lowercase, trim, trimmed,
};
use vstd::prelude::*;

verus! {

/// Samples per second that the transcriber works with.
pub const WHISPER_SAMPLE_RATE: u32 = 16000;

/// A microphone.
#[derive(Debug)]
pub struct InputDevice {
    pub name: String,
    /// It is the one that the system uses unless told otherwise.
    pub is_default: bool,
}

/// The values of an [`InputDevice`].
pub ghost struct DeviceView {
    pub name: Seq<char>,
    pub is_default: bool,
}

impl View for InputDevice {
    type V = DeviceView;

    open spec fn view(&self) -> DeviceView {
        DeviceView { name: self.name@, is_default: self.is_default }
    }
}

/// The views of a list of microphones.
pub open spec fn devices_in(v: Seq<InputDevice>) -> Seq<DeviceView> {
    v.map_values(|d: InputDevice| d@)
}

/// The microphones whose names are known, in order, with the default marked.
pub open spec fn listed(names: Seq<Option<Seq<char>>>, default_name: Option<Seq<char>>) -> Seq<
    DeviceView,
>
    decreases names.len(),
{
    if names.len() == 0 {
        Seq::empty()
    } else {
        let before = listed(names.drop_last(), default_name);
        match names.last() {
            Some(name) => before.push(
                DeviceView { name, is_default: default_name == Some(name) },
            ),
            None => before,
        }
    }
}

/// The views of a list of optional texts.
pub open spec fn optional_texts(v: Seq<Option<String>>) -> Seq<Option<Seq<char>>> {
    v.map_values(|s: Option<String>| text_in(s))
}

/// Lists the microphones whose names the system tells, and marks the default.
pub fn list_input_devices(names: &Vec<Option<String>>, default_name: &Option<String>) -> (r: Vec<
    InputDevice,
>)
    ensures
        devices_in(r@) == listed(optional_texts(names@), text_in(*default_name)),
{
    let ghost all = optional_texts(names@);
    let ghost default_text = text_in(*default_name);
    let mut r: Vec<InputDevice> = Vec::new();
    let mut i: usize = 0;
    assert(devices_in(r@) =~= listed(all.take(0), default_text));
    while i < names.len()
        invariant
            all == optional_texts(names@),
            default_text == text_in(*default_name),
            0 <= i <= names@.len(),
            devices_in(r@) == listed(all.take(i as int), default_text),
        decreases names@.len() - i,
    {
        assert(all[i as int] == text_in(names@[i as int]));
        assert(all.take(i + 1).drop_last() =~= all.take(i as int));
        let ghost before = devices_in(r@);
        if let Some(name) = &names[i] {
            let is_default = match default_name {
                Some(d) => same_text(name.as_str(), d.as_str()),
                None => false,
            };
            let device = InputDevice { name: name.clone(), is_default };
            let ghost seen = device@;
            r.push(device);
            assert(devices_in(r@) =~= before.push(seen));
        }
        i += 1;
    }
    assert(all.take(all.len() as int) =~= all);
    r
}

/// The pattern stands in the name, letter case aside.
pub open spec fn name_matches(name: Seq<char>, pattern: Seq<char>) -> bool {
    contains_text(lowercase(name), lowercase(pattern))
}

/// Whether the pattern stands in the name, letter case aside.
pub fn matches_pattern(name: &str, pattern: &str) -> (r: bool)
    ensures
        r == name_matches(name@, pattern@),
        all_ascii(name@) && all_ascii(pattern@) ==> r == contains_text(
            ascii_lower(name@),
            ascii_lower(pattern@),
        ),
{
    contains(to_lowercase(name).as_str(), to_lowercase(pattern).as_str())
}

/// Which microphone to record from.
#[derive(Debug, Clone, Copy, PartialEq, Eq, Structural)]
pub enum DeviceChoice {
    /// The system's default.
    SystemDefault,
    /// The one at this place in the list.
    At(usize),
    /// No microphone matches.
    NoMatch,
}

/// The microphone at place `i` has a known name that matches.
pub open spec fn device_matches(names: Seq<Option<Seq<char>>>, pattern: Seq<char>, i: int) -> bool {
    names[i] matches Some(name) && name_matches(name, pattern)
}

/// The first microphone whose name matches; the system's default if there is no
/// pattern.
pub open spec fn is_choice(
    names: Seq<Option<Seq<char>>>,
    pattern: Seq<char>,
    choice: DeviceChoice,
) -> bool {
    match choice {
        DeviceChoice::SystemDefault => pattern.len() == 0,
        DeviceChoice::At(i) => pattern.len() > 0 && i < names.len() && device_matches(
            names,
            pattern,
            i as int,
        ) && forall|k: int| 0 <= k < i ==> !device_matches(names, pattern, k),
        DeviceChoice::NoMatch => pattern.len() > 0 && forall|k: int|
            0 <= k < names.len() ==> !device_matches(names, pattern, k),
    }
}

/// Chooses the first microphone whose name matches; the system's default if
/// there is no pattern.
pub fn find_device(names: &Vec<Option<String>>, pattern: &str) -> (r: DeviceChoice)
    ensures
        is_choice(optional_texts(names@), pattern@, r),
        (r == DeviceChoice::SystemDefault) == (pattern@.len() == 0),
        r matches DeviceChoice::At(i) ==> i < names@.len() && device_matches(
            optional_texts(names@),
            pattern@,
            i as int,
        ) && forall|k: int|
            0 <= k < i ==> !device_matches(optional_texts(names@), pattern@, k),
        r == DeviceChoice::NoMatch ==> forall|k: int|
            0 <= k < names@.len() ==> !device_matches(optional_texts(names@), pattern@, k),
{
    if pattern.is_empty() {
        return DeviceChoice::SystemDefault;
    }
    let mut i: usize = 0;
    while i < names.len()
        invariant
            0 <= i <= names@.len(),
            pattern@.len() > 0,
            forall|k: int| 0 <= k < i ==> !device_matches(optional_texts(names@), pattern@, k),
        decreases names@.len() - i,
    {
        assert(optional_texts(names@)[i as int] == text_in(names@[i as int]));
        if let Some(name) = &names[i] {
            if matches_pattern(name.as_str(), pattern) {
                return DeviceChoice::At(i);
            }
        }
        i += 1;
    }
    DeviceChoice::NoMatch
}

/// What the user is told when no microphone matches.
pub fn no_match_message(pattern: &str) -> (r: String)
    ensures
        r@ == "No input device matching '"@ + pattern@ + "' found"@,
{
    let mut r = "No input device matching '".to_owned();
    r.append(pattern);
    r.append("' found");
    r
}

/// How many of the microphones match.
pub open spec fn match_count(devices: Seq<DeviceView>, pattern: Seq<char>) -> nat
    decreases devices.len(),
{
    if devices.len() == 0 {
        0
    } else {
        match_count(devices.drop_last(), pattern) + (if name_matches(devices.last().name, pattern) {
            1nat
        } else {
            0nat
        })
    }
}

/// Counts the microphones that match.
pub fn count_matches(devices: &Vec<InputDevice>, pattern: &str) -> (r: usize)
    ensures
        r == match_count(devices_in(devices@), pattern@),
        r <= devices@.len(),
{
    let ghost all = devices_in(devices@);
    let mut r: usize = 0;
    let mut i: usize = 0;
    assert(all.take(0) =~= Seq::empty());
    while i < devices.len()
        invariant
            all == devices_in(devices@),
            0 <= i <= devices@.len(),
            r == match_count(all.take(i as int), pattern@),
            r <= i,
        decreases devices@.len() - i,
    {
        assert(all[i as int] == devices@[i as int]@);
        assert(all.take(i + 1).drop_last() =~= all.take(i as int));
        if matches_pattern(devices[i].name.as_str(), pattern) {
            r += 1;
        }
        i += 1;
    }
    assert(all.take(all.len() as int) =~= all);
    r
}

// ---------------------------------------------------------------------------
// Choosing from a list
// ---------------------------------------------------------------------------

/// One line of the list of microphones, numbered from 1.
pub open spec fn device_line_text(number: nat, d: DeviceView) -> Seq<char> {
    "  "@ + decimal(number) + ". "@ + d.name + (if d.is_default {
        "  <- system default"@
    } else {
        Seq::empty()
    })
}

/// One line of the list of microphones.
pub fn device_line(number: usize, device: &InputDevice) -> (r: String)
    ensures
        r@ == device_line_text(number as nat, device@),
{
    let mut r = "  ".to_owned();
    r.append(to_decimal(number as u64).as_str());
    r.append(". ");
    r.append(device.name.as_str());
    if device.is_default {
        r.append("  <- system default");
    }
    assert(r@ =~= device_line_text(number as nat, device@));
    r
}

/// What the user entered when asked for a microphone.
#[derive(Debug, Clone, Copy, PartialEq, Eq, Structural)]
pub enum MicrophoneAnswer {
    /// Nothing.
    Cancelled,
    /// The system's default.
    SystemDefault,
    /// The one at this place in the list, counted from 0.
    At(usize),
    /// No number.
    NotANumber,
    /// A number that is not in the list.
    OutOfRange,
}

/// What an answer means where `count` microphones are listed from 1 on and 0
/// is the system's default.
pub open spec fn answer_in(input: Seq<char>, count: nat) -> MicrophoneAnswer {
    if trimmed(input).len() == 0 {
        MicrophoneAnswer::Cancelled
    } else {
        match bounded_value(trimmed(input), usize::MAX as nat) {
            None => MicrophoneAnswer::NotANumber,
            Some(n) => if n == 0 {
                MicrophoneAnswer::SystemDefault
            } else if n <= count {
                MicrophoneAnswer::At((n - 1) as usize)
            } else {
                MicrophoneAnswer::OutOfRange
            },
        }
    }
}

/// Reads the user's answer.
pub fn parse_microphone_answer(input: &str, count: usize) -> (r: MicrophoneAnswer)
    ensures
        r == answer_in(input@, count as nat),
        r matches MicrophoneAnswer::At(i) ==> i < count,
{
    if is_blank(input) {
        return MicrophoneAnswer::Cancelled;
    }
    match parse_usize(trim(input)) {
        None => MicrophoneAnswer::NotANumber,
        Some(n) => if n == 0 {
            MicrophoneAnswer::SystemDefault
        } else if n <= count {
            MicrophoneAnswer::At(n - 1)
        } else {
            MicrophoneAnswer::OutOfRange
        },
    }
}

/// What the user is told of an answer that cannot be used.
pub open spec fn answer_problem(answer: MicrophoneAnswer, count: nat) -> Option<Seq<char>> {
    match answer {
        MicrophoneAnswer::NotANumber => Some("Expected a number"@),
        MicrophoneAnswer::OutOfRange => Some(
            "Number out of range (0–"@ + decimal(count) + ")"@,
        ),
        _ => None,
    }
}

/// What the user is told of an answer that cannot be used.
pub fn answer_error(answer: MicrophoneAnswer, count: usize) -> (r: Option<String>)
    ensures
        text_in(r) == answer_problem(answer, count as nat),
{
    match answer {
        MicrophoneAnswer::NotANumber => Some("Expected a number".to_owned()),
        MicrophoneAnswer::OutOfRange => {
            let mut r = "Number out of range (0–".to_owned();
            r.append(to_decimal(count as u64).as_str());
            r.append(")");
            Some(r)
        },
        _ => None,
    }
}

/// The microphones of two lists are those of the one, then those of the other; one with
/// a name is listed by it, as the default exactly if the default has that name; one
/// without a name is left out.
pub proof fn law_listed(
    a: Seq<Option<Seq<char>>>,
    b: Seq<Option<Seq<char>>>,
    default_name: Option<Seq<char>>,
    name: Seq<char>,
)
    ensures
        listed(a + b, default_name) == listed(a, default_name) + listed(b, default_name),
        listed(seq![Some(name)], default_name) == seq![
            DeviceView { name, is_default: default_name == Some(name) },
        ],
        listed(seq![None], default_name) == Seq::<DeviceView>::empty(),
    decreases b.len(),
{
    reveal_with_fuel(listed, 2);
    assert(seq![Some(name)].drop_last() =~= Seq::empty());
    assert(seq![None::<Seq<char>>].drop_last() =~= Seq::empty());
    assert(listed(seq![Some(name)], default_name) =~= seq![
        DeviceView { name, is_default: default_name == Some(name) },
    ]);
    assert(listed(seq![None], default_name) =~= Seq::<DeviceView>::empty());
    if b.len() == 0 {
        assert(a + b =~= a);
        assert(listed(a, default_name) + listed(b, default_name) =~= listed(a, default_name));
    } else {
        law_listed(a, b.drop_last(), default_name, name);
        assert((a + b).drop_last() =~= a + b.drop_last());
        assert((a + b).last() == b.last());
        assert(listed(a + b, default_name) =~= listed(a, default_name) + listed(b, default_name));
    }
}

/// A pattern matches a name exactly if it stands in it somewhere, letter for letter, both
/// in lower case.
pub proof fn law_pattern_stands_in_name(name: Seq<char>, pattern: Seq<char>)
    ensures
        ({
            let (n, p) = (lowercase(name), lowercase(pattern));
            name_matches(name, pattern) <==> exists|i: int|
                0 <= i <= n.len() - p.len() && #[trigger] n.subrange(i, i + p.len()) == p
        }),
{
    let (n, p) = (lowercase(name), lowercase(pattern));
    if name_matches(name, pattern) {
        let i = choose|i: int| crate::pieces::occurs_at(n, p, i);
        assert(n.subrange(i, i + p.len()) == p);
    }
    if exists|i: int| 0 <= i <= n.len() - p.len() && #[trigger] n.subrange(i, i + p.len()) == p {
        let i = choose|i: int|
            0 <= i <= n.len() - p.len() && #[trigger] n.subrange(i, i + p.len()) == p;
        assert(crate::pieces::occurs_at(n, p, i));
    }
}

/// Microphones that match are counted one by one.
pub proof fn law_match_count(
    a: Seq<DeviceView>,
    b: Seq<DeviceView>,
    d: DeviceView,
    pattern: Seq<char>,
)
    ensures
        match_count(Seq::empty(), pattern) == 0,
        match_count(seq![d], pattern) == if name_matches(d.name, pattern) {
            1nat
        } else {
            0nat
        },
        match_count(a + b, pattern) == match_count(a, pattern) + match_count(b, pattern),
    decreases b.len(),
{
    reveal_with_fuel(match_count, 2);
    assert(seq![d].drop_last() =~= Seq::empty());
    if b.len() == 0 {
        assert(a + b =~= a);
    } else {
        law_match_count(a, b.drop_last(), d, pattern);
        assert((a + b).drop_last() =~= a + b.drop_last());
        assert((a + b).last() == b.last());
    }
}

/// What an answer means: nothing entered cancels; a number counts the microphones from 1
/// and 0 is the default; any other number is out of range, and any other text is none.
pub proof fn law_answers(input: Seq<char>, count: nat)
    requires
        count <= usize::MAX,
    ensures
        ({
            let r = answer_in(input, count);
            let t = trimmed(input);
            let number = crate::numbers::number_value(t);
            let fits = number is Some && number->0 <= usize::MAX;
            &&& r is Cancelled <==> t.len() == 0
            &&& r is NotANumber <==> t.len() > 0 && !fits
            &&& r is SystemDefault <==> t.len() > 0 && number == Some(0nat)
            &&& r is OutOfRange <==> t.len() > 0 && fits && number->0 > count
            &&& r is At <==> t.len() > 0 && number is Some && 1 <= number->0 <= count
            &&& r matches MicrophoneAnswer::At(i) ==> i + 1 == number->0
        }),
{
}

/// Without a pattern the system's default is chosen. With one, a microphone is chosen
/// exactly if its name matches and that of none before it does; and none is, exactly if
/// no name matches. So there is one choice, and more microphones behind do not change it.
pub proof fn law_device_choice(
    names: Seq<Option<Seq<char>>>,
    more: Seq<Option<Seq<char>>>,
    pattern: Seq<char>,
    a: DeviceChoice,
    b: DeviceChoice,
    i: usize,
    name: Seq<char>,
)
    requires
        is_choice(names, pattern, a),
        is_choice(names, pattern, b),
    ensures
        a == b,
        a == DeviceChoice::SystemDefault <==> pattern.len() == 0,
        a matches DeviceChoice::At(_) ==> is_choice(names + more, pattern, a),
        a == DeviceChoice::NoMatch && i < names.len() && names[i as int] == Some(name)
            ==> !name_matches(name, pattern),
        a == DeviceChoice::At(i) ==> i < names.len() && names[i as int] is Some && name_matches(
            names[i as int]->0,
            pattern,
        ),
        a matches DeviceChoice::At(j) ==> (i < j && names[i as int] == Some(name)
            ==> !name_matches(name, pattern)),
{
    assert forall|k: int| 0 <= k < names.len() implies device_matches(names, pattern, k)
        == device_matches(names + more, pattern, k) by {
        assert((names + more)[k] == names[k]);
    }
    if let DeviceChoice::At(j) = a {
        if let DeviceChoice::At(k) = b {
            if j < k {
                assert(!device_matches(names, pattern, j as int));
            }
            if k < j {
                assert(!device_matches(names, pattern, k as int));
            }
        }
        assert forall|k: int| 0 <= k < j implies !device_matches(names + more, pattern, k) by {
            assert(!device_matches(names, pattern, k));
        }
        if i < j {
            assert(!device_matches(names, pattern, i as int));
        }
    }
    if a == DeviceChoice::NoMatch && i < names.len() {
        assert(!device_matches(names, pattern, i as int));
    }
}

/// The user is told of an answer exactly if it is no number or out of range, and how far
/// the numbers go in the second case.
pub proof fn law_answer_problem(answer: MicrophoneAnswer, count: nat, other: nat)
    ensures
        answer_problem(answer, count) is Some <==> answer == MicrophoneAnswer::NotANumber || answer
            == MicrophoneAnswer::OutOfRange,
        answer == MicrophoneAnswer::OutOfRange && count != other ==> answer_problem(answer, count)
            != answer_problem(answer, other),
        answer == MicrophoneAnswer::NotANumber ==> answer_problem(answer, count)
            == answer_problem(answer, other),
{
    let (p, s) = ("Number out of range (0–"@, ")"@);
    let (x, y) = (decimal(count), decimal(other));
    let (l, r) = (p + x + s, p + y + s);
    if l == r {
        assert(l.subrange(p.len() as int, l.len() - s.len()) =~= x);
        assert(r.subrange(p.len() as int, r.len() - s.len()) =~= y);
        crate::numbers::law_decimal(count);
        crate::numbers::law_decimal(other);
    }
}

/// The line of a microphone ends with its name, unless it is the default, and begins with
/// its number; the default's line goes on behind that.
pub proof fn law_device_line(number: nat, name: Seq<char>)
    ensures
        ({
            let plain = device_line_text(number, DeviceView { name, is_default: false });
            let marked = device_line_text(number, DeviceView { name, is_default: true });
            let digits = decimal(number);
            &&& plain.len() == 4 + digits.len() + name.len()
            &&& plain.subrange(2, 2 + digits.len() as int) == digits
            &&& plain.skip(4 + digits.len() as int) == name
            &&& marked.len() == plain.len() + 19
            &&& marked.take(plain.len() as int) == plain
        }),
{
    reveal_strlit("  ");
    reveal_strlit(". ");
    reveal_strlit("  <- system default");
    let plain = device_line_text(number, DeviceView { name, is_default: false });
    let marked = device_line_text(number, DeviceView { name, is_default: true });
    let digits = decimal(number);
    assert(plain.subrange(2, 2 + digits.len() as int) =~= digits);
    assert(plain.skip(4 + digits.len() as int) =~= name);
    assert(marked.take(plain.len() as int) =~= plain);
}

} // verus!
