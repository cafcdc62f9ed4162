//! What pressing and releasing keys makes the program do.

use crate::config::HotkeysConfig;
use crate::hotkey::{
    parse_hotkey, parsed_ascii_hotkey, parsed_hotkey, Hotkey, HotkeyError, HotkeyErrorView,
    HotkeyView, Key,
};
use crate::text::{all_ascii, ascii_lower, same_ignoring_ascii_case};
use vstd::multiset::Multiset;
use vstd::prelude::*;

verus! {

/// What a key makes the program do.
#[derive(Debug, Clone, Copy, PartialEq, Eq, Structural)]
pub enum HotkeyEvent {
    /// The transcribe combination was completed.
    TranscribeDown,
    /// The key that completed it was released.
    TranscribeUp,
    /// The cancel combination was completed.
    Cancel,
    /// The combination that re-pastes the last transcription was completed.
    /// Only where it is not the transcribe combination: one that is shared is
    /// told apart by how long it is held.
    Repaste,
    /// The combination that opens the screenshot review was completed.
    OpenImageEditor,
}

// ---------------------------------------------------------------------------
// Modifiers
// ---------------------------------------------------------------------------

/// `k` is a modifier key.
pub open spec fn is_modifier_key(k: Key) -> bool {
    ||| k == Key::ControlLeft
    ||| k == Key::ControlRight
    ||| k == Key::ShiftLeft
    ||| k == Key::ShiftRight
    ||| k == Key::Alt
    ||| k == Key::AltGr
}

/// The left one of a modifier's two keys; any other key as it is.
pub open spec fn family(k: Key) -> Key {
    match k {
        Key::ControlRight => Key::ControlLeft,
        Key::ShiftRight => Key::ShiftLeft,
        Key::AltGr => Key::Alt,
        _ => k,
    }
}

/// Each key's family.
pub open spec fn families(keys: Seq<Key>) -> Seq<Key> {
    keys.map_values(|k: Key| family(k))
}

/// The modifier keys among `keys`.
pub open spec fn modifiers_of(keys: Seq<Key>) -> Seq<Key> {
    keys.filter(|k: Key| is_modifier_key(k))
}

/// The modifiers that are held are those that the combination asks for, as
/// many of each family and no others; left and right count as the same.
pub open spec fn modifiers_match(held: Seq<Key>, hotkey: HotkeyView) -> bool {
    families(modifiers_of(held)).to_multiset() == families(hotkey.modifiers).to_multiset()
}

/// Whether `k` is a modifier key.
pub fn is_modifier(k: Key) -> (r: bool)
    ensures
        r == is_modifier_key(k),
{
    matches!(
        k,
        Key::ControlLeft | Key::ControlRight | Key::ShiftLeft | Key::ShiftRight | Key::Alt
            | Key::AltGr
    )
}

/// Whether two keys are the same, or the left and right key of one modifier.
pub fn same_modifier_family(a: Key, b: Key) -> (r: bool)
    ensures
        r == (family(a) == family(b)),
{
    a == b || (matches!(a, Key::ControlLeft | Key::ControlRight) && matches!(
        b,
        Key::ControlLeft | Key::ControlRight
    )) || (matches!(a, Key::ShiftLeft | Key::ShiftRight) && matches!(
        b,
        Key::ShiftLeft | Key::ShiftRight
    )) || (matches!(a, Key::Alt | Key::AltGr) && matches!(b, Key::Alt | Key::AltGr))
}

/// The modifier keys among `keys`.
fn held_modifiers(keys: &Vec<Key>) -> (r: Vec<Key>)
    ensures
        r@ == modifiers_of(keys@),
{
    let ghost pred = |k: Key| is_modifier_key(k);
    let mut r: Vec<Key> = Vec::new();
    let mut i: usize = 0;
    proof {
        reveal(Seq::filter);
    }
    assert(r@ =~= keys@.take(0).filter(pred));
    while i < keys.len()
        invariant
            0 <= i <= keys@.len(),
            pred == (|k: Key| is_modifier_key(k)),
            r@ == keys@.take(i as int).filter(pred),
        decreases keys@.len() - i,
    {
        proof {
            reveal(Seq::filter);
        }
        assert(keys@.take(i + 1).drop_last() =~= keys@.take(i as int));
        if is_modifier(keys[i]) {
            r.push(keys[i]);
        }
        i += 1;
    }
    assert(keys@.take(keys@.len() as int) =~= keys@);
    r
}

/// The first of `keys` in the family of `expected`.
fn position_in_family(keys: &Vec<Key>, expected: Key) -> (r: Option<usize>)
    ensures
        match r {
            Some(i) => i < keys@.len() && family(keys@[i as int]) == family(expected),
            None => forall|k: int|
                0 <= k < keys@.len() ==> family(#[trigger] keys@[k]) != family(expected),
        },
{
    let mut i: usize = 0;
    while i < keys.len()
        invariant
            0 <= i <= keys@.len(),
            forall|k: int| 0 <= k < i ==> family(#[trigger] keys@[k]) != family(expected),
        decreases keys@.len() - i,
    {
        if same_modifier_family(expected, keys[i]) {
            return Some(i);
        }
        i += 1;
    }
    None
}

/// Moving one key from one list to another leaves the two together the same.
proof fn lemma_move_key(from: Seq<Key>, i: int, to: Seq<Key>)
    requires
        0 <= i < from.len(),
    ensures
        from.remove(i).to_multiset().add(to.push(from[i]).to_multiset()) == from.to_multiset().add(
            to.to_multiset(),
        ),
{
    broadcast use vstd::multiset::group_multiset_axioms;

    let f = from[i];
    vstd::seq_lib::to_multiset_remove(from, i);
    vstd::seq_lib::to_multiset_build(to, f);
    from.to_multiset_ensures();
    assert(from.contains(f));
    assert(from.to_multiset().count(f) > 0);
    let a = from.remove(i).to_multiset().add(to.push(f).to_multiset());
    let b = from.to_multiset().add(to.to_multiset());
    assert forall|x: Key| #[trigger] a.count(x) == b.count(x) by {
        assert(Multiset::singleton(f).count(x) == if x == f {
            1nat
        } else {
            0nat
        });
    }
    assert(a =~= b);
}

/// A key that is in a list once more than in another makes them differ.
proof fn lemma_one_more(rest: Seq<Key>, asked: Seq<Key>, i: int)
    requires
        0 <= i < asked.len(),
        !rest.contains(asked[i]),
    ensures
        rest.to_multiset().add(asked.take(i).to_multiset()) != asked.to_multiset(),
{
    broadcast use vstd::multiset::group_multiset_axioms;

    let f = asked[i];
    let more = asked.skip(i + 1);
    rest.to_multiset_ensures();
    assert(asked =~= asked.take(i).push(f) + more);
    vstd::seq_lib::lemma_multiset_commutative(asked.take(i).push(f), more);
    vstd::seq_lib::to_multiset_build(asked.take(i), f);
    assert(Multiset::singleton(f).count(f) == 1);
    assert(rest.to_multiset().count(f) == 0);
    assert(asked.to_multiset().count(f) == asked.take(i).to_multiset().count(f) + 1
        + more.to_multiset().count(f));
}

/// Whether there are as many keys of each family in one list as in another.
fn same_families(keys: Vec<Key>, expected_keys: &Vec<Key>) -> (r: bool)
    ensures
        r == (families(keys@).to_multiset() == families(expected_keys@).to_multiset()),
{
    broadcast use vstd::seq_lib::group_to_multiset_ensures;
    broadcast use vstd::multiset::group_multiset_axioms;

    let mut remaining = keys;
    let ghost all = families(remaining@).to_multiset();
    let ghost asked = families(expected_keys@);
    assert(all.len() == remaining@.len());
    assert(asked.to_multiset().len() == asked.len());
    if remaining.len() != expected_keys.len() {
        return false;
    }
    let mut i: usize = 0;
    assert(all =~= families(remaining@).to_multiset().add(asked.take(0).to_multiset()));
    while i < expected_keys.len()
        invariant
            all == families(keys@).to_multiset(),
            asked == families(expected_keys@),
            0 <= i <= expected_keys@.len(),
            remaining@.len() == expected_keys@.len() - i,
            all == families(remaining@).to_multiset().add(asked.take(i as int).to_multiset()),
        decreases expected_keys@.len() - i,
    {
        let expected = expected_keys[i];
        let ghost f = family(expected);
        let ghost rest = families(remaining@);
        assert(asked[i as int] == f);
        assert(asked.take(i + 1) =~= asked.take(i as int).push(f));
        match position_in_family(&remaining, expected) {
            Some(k) => {
                assert(rest[k as int] == f);
                remaining.remove(k);
                assert(families(remaining@) =~= rest.remove(k as int));
                proof {
                    lemma_move_key(rest, k as int, asked.take(i as int));
                }
            },
            None => {
                proof {
                    assert(!rest.contains(f)) by {
                        if rest.contains(f) {
                            let k = choose|k: int| 0 <= k < rest.len() && rest[k] == f;
                            assert(family(remaining@[k]) == f);
                        }
                    }
                    lemma_one_more(rest, asked, i as int);
                }
                return false;
            },
        }
        i += 1;
    }
    assert(remaining@.len() == 0);
    assert(families(remaining@) =~= Seq::<Key>::empty());
    assert(asked.take(asked.len() as int) =~= asked);
    assert(all =~= asked.to_multiset());
    true
}

/// Whether the modifiers that are held are those that a combination asks for.
pub fn modifiers_held(held: &Vec<Key>, hotkey: &Hotkey) -> (r: bool)
    ensures
        r == modifiers_match(held@, hotkey@),
{
    same_families(held_modifiers(held), &hotkey.modifiers)
}

/// The keys of a list.
fn copy_keys(keys: &Vec<Key>) -> (r: Vec<Key>)
    ensures
        r@ == keys@,
{
    let mut r: Vec<Key> = Vec::new();
    let mut i: usize = 0;
    while i < keys.len()
        invariant
            0 <= i <= keys@.len(),
            r@ == keys@.take(i as int),
        decreases keys@.len() - i,
    {
        r.push(keys[i]);
        assert(keys@.take(i + 1) =~= keys@.take(i as int).push(keys@[i as int]));
        i += 1;
    }
    assert(keys@.take(keys@.len() as int) =~= keys@);
    r
}

// ---------------------------------------------------------------------------
// Combinations that are the same
// ---------------------------------------------------------------------------

/// The same press completes both combinations: they have the same last key and
/// ask for the same modifiers, in any order and on either side.
pub open spec fn same_combination(a: HotkeyView, b: HotkeyView) -> bool {
    a.trigger == b.trigger && families(a.modifiers).to_multiset() == families(
        b.modifiers,
    ).to_multiset()
}

/// Two texts are the same but for letter case, or are read as the same
/// combination.
pub open spec fn same_when_read(
    read: spec_fn(Seq<char>) -> Result<HotkeyView, HotkeyErrorView>,
    a: Seq<char>,
    b: Seq<char>,
) -> bool {
    ||| ascii_lower(a) == ascii_lower(b)
    ||| match (read(a), read(b)) {
        (Ok(x), Ok(y)) => same_combination(x, y),
        _ => false,
    }
}

/// Two texts stand for the same combination. One that cannot be read is only
/// the same as one with the same letters.
pub open spec fn same_hotkey(a: Seq<char>, b: Seq<char>) -> bool {
    same_when_read(|s: Seq<char>| parsed_hotkey(s), a, b)
}

/// Two texts in ASCII stand for the same combination.
pub open spec fn same_ascii_hotkey(a: Seq<char>, b: Seq<char>) -> bool {
    same_when_read(|s: Seq<char>| parsed_ascii_hotkey(s), a, b)
}

/// Whether two texts stand for the same combination.
pub fn is_same_hotkey(a: &str, b: &str) -> (r: bool)
    ensures
        r == same_hotkey(a@, b@),
        all_ascii(a@) && all_ascii(b@) ==> r == same_ascii_hotkey(a@, b@),
{
    if same_ignoring_ascii_case(a, b) {
        return true;
    }
    let x = parse_hotkey(a);
    let y = parse_hotkey(b);
    match (x, y) {
        (Ok(x), Ok(y)) => x.trigger == y.trigger && same_families(
            copy_keys(&x.modifiers),
            &y.modifiers,
        ),
        _ => false,
    }
}

// ---------------------------------------------------------------------------
// Bindings
// ---------------------------------------------------------------------------

/// Which combination does what.
#[derive(Debug)]
pub struct Bindings {
    pub transcribe: Hotkey,
    pub cancel: Hotkey,
    pub repaste: Option<Hotkey>,
    pub image_editor: Option<Hotkey>,
    /// Keep the key that completes the transcribe combination from the focused
    /// application.
    pub consume_transcribe_key: bool,
}

/// The values of [`Bindings`].
pub ghost struct BindingsView {
    pub transcribe: HotkeyView,
    pub cancel: HotkeyView,
    pub repaste: Option<HotkeyView>,
    pub image_editor: Option<HotkeyView>,
    pub consume_transcribe_key: bool,
}

/// The view of an optional combination.
pub open spec fn hotkey_in(h: Option<Hotkey>) -> Option<HotkeyView> {
    match h {
        Some(h) => Some(h@),
        None => None,
    }
}

impl View for Bindings {
    type V = BindingsView;

    open spec fn view(&self) -> BindingsView {
        BindingsView {
            transcribe: self.transcribe@,
            cancel: self.cancel@,
            repaste: hotkey_in(self.repaste),
            image_editor: hotkey_in(self.image_editor),
            consume_transcribe_key: self.consume_transcribe_key,
        }
    }
}

/// Why there are no bindings.
#[derive(Debug)]
pub enum BindingError {
    /// The transcribe combination cannot be read.
    Transcribe(HotkeyError),
    /// The cancel combination cannot be read.
    Cancel(HotkeyError),
}

/// The values of a [`BindingError`].
pub ghost enum BindingErrorView {
    Transcribe(HotkeyErrorView),
    Cancel(HotkeyErrorView),
}

impl View for BindingError {
    type V = BindingErrorView;

    open spec fn view(&self) -> BindingErrorView {
        match self {
            BindingError::Transcribe(e) => BindingErrorView::Transcribe(e@),
            BindingError::Cancel(e) => BindingErrorView::Cancel(e@),
        }
    }
}

/// The view of an optional text.
pub open spec fn str_in(s: Option<&str>) -> Option<Seq<char>> {
    match s {
        Some(t) => Some(t@),
        None => None,
    }
}

/// The text of the re-paste combination, unless it stands for the transcribe
/// combination.
pub open spec fn own_repaste_when_read(
    read: spec_fn(Seq<char>) -> Result<HotkeyView, HotkeyErrorView>,
    transcribe: Seq<char>,
    repaste: Option<Seq<char>>,
) -> Option<Seq<char>> {
    match repaste {
        Some(t) => if same_when_read(read, t, transcribe) {
            None
        } else {
            Some(t)
        },
        None => None,
    }
}

/// The text of the re-paste combination, unless it stands for the transcribe
/// combination: one combination that does both is told apart by how long it is
/// held.
pub open spec fn own_repaste(transcribe: Seq<char>, repaste: Option<Seq<char>>) -> Option<
    Seq<char>,
> {
    own_repaste_when_read(|s: Seq<char>| parsed_hotkey(s), transcribe, repaste)
}

/// The combination that an optional text is read as; none if it is read as none.
pub open spec fn optional_when_read(
    read: spec_fn(Seq<char>) -> Result<HotkeyView, HotkeyErrorView>,
    s: Option<Seq<char>>,
) -> Option<HotkeyView> {
    match s {
        Some(t) => match read(t) {
            Ok(h) => Some(h),
            Err(_) => None,
        },
        None => None,
    }
}

/// The bindings that the texts of the combinations give, by a way to read one.
/// The transcribe and the cancel combination must be readable; one of the
/// others that is not is left unbound.
pub open spec fn bindings_when_read(
    read: spec_fn(Seq<char>) -> Result<HotkeyView, HotkeyErrorView>,
    transcribe: Seq<char>,
    cancel: Seq<char>,
    repaste: Option<Seq<char>>,
    image_editor: Option<Seq<char>>,
    consume_transcribe_key: bool,
) -> Result<BindingsView, BindingErrorView> {
    match read(transcribe) {
        Err(e) => Err(BindingErrorView::Transcribe(e)),
        Ok(t) => match read(cancel) {
            Err(e) => Err(BindingErrorView::Cancel(e)),
            Ok(c) => Ok(
                BindingsView {
                    transcribe: t,
                    cancel: c,
                    repaste: optional_when_read(
                        read,
                        own_repaste_when_read(read, transcribe, repaste),
                    ),
                    image_editor: optional_when_read(read, image_editor),
                    consume_transcribe_key,
                },
            ),
        },
    }
}

/// The bindings that the texts of the combinations give.
pub open spec fn bindings_from(
    transcribe: Seq<char>,
    cancel: Seq<char>,
    repaste: Option<Seq<char>>,
    image_editor: Option<Seq<char>>,
    consume_transcribe_key: bool,
) -> Result<BindingsView, BindingErrorView> {
    bindings_when_read(
        |s: Seq<char>| parsed_hotkey(s),
        transcribe,
        cancel,
        repaste,
        image_editor,
        consume_transcribe_key,
    )
}

/// The bindings that texts in ASCII give.
pub open spec fn bindings_from_ascii(
    transcribe: Seq<char>,
    cancel: Seq<char>,
    repaste: Option<Seq<char>>,
    image_editor: Option<Seq<char>>,
    consume_transcribe_key: bool,
) -> Result<BindingsView, BindingErrorView> {
    bindings_when_read(
        |s: Seq<char>| parsed_ascii_hotkey(s),
        transcribe,
        cancel,
        repaste,
        image_editor,
        consume_transcribe_key,
    )
}

/// The text is in ASCII, if there is one.
pub open spec fn optional_is_ascii(s: Option<Seq<char>>) -> bool {
    s matches Some(t) ==> all_ascii(t)
}

fn parse_optional(s: Option<&str>) -> (r: Option<Hotkey>)
    ensures
        hotkey_in(r) == optional_when_read(|t: Seq<char>| parsed_hotkey(t), str_in(s)),
        optional_is_ascii(str_in(s)) ==> hotkey_in(r) == optional_when_read(
            |t: Seq<char>| parsed_ascii_hotkey(t),
            str_in(s),
        ),
{
    match s {
        Some(t) => match parse_hotkey(t) {
            Ok(h) => Some(h),
            Err(_) => None,
        },
        None => None,
    }
}

/// The outcome of reading bindings.
pub open spec fn bindings_outcome(r: Result<Bindings, BindingError>) -> Result<
    BindingsView,
    BindingErrorView,
> {
    match r {
        Ok(b) => Ok(b@),
        Err(e) => Err(e@),
    }
}

/// Reads the combinations.
pub fn parse_bindings(
    transcribe: &str,
    cancel: &str,
    repaste: Option<&str>,
    image_editor: Option<&str>,
    consume_transcribe_key: bool,
) -> (r: Result<Bindings, BindingError>)
    ensures
        bindings_outcome(r) == bindings_from(
            transcribe@,
            cancel@,
            str_in(repaste),
            str_in(image_editor),
            consume_transcribe_key,
        ),
        all_ascii(transcribe@) && all_ascii(cancel@) && optional_is_ascii(str_in(repaste))
            && optional_is_ascii(str_in(image_editor)) ==> bindings_outcome(r)
            == bindings_from_ascii(
            transcribe@,
            cancel@,
            str_in(repaste),
            str_in(image_editor),
            consume_transcribe_key,
        ),
{
    let t = match parse_hotkey(transcribe) {
        Ok(h) => h,
        Err(e) => {
            return Err(BindingError::Transcribe(e));
        },
    };
    let c = match parse_hotkey(cancel) {
        Ok(h) => h,
        Err(e) => {
            return Err(BindingError::Cancel(e));
        },
    };
    let own = match repaste {
        Some(text) => if is_same_hotkey(text, transcribe) {
            None
        } else {
            Some(text)
        },
        None => None,
    };
    Ok(
        Bindings {
            transcribe: t,
            cancel: c,
            repaste: parse_optional(own),
            image_editor: parse_optional(image_editor),
            consume_transcribe_key,
        },
    )
}

/// A text, unless it is empty, which stands for no combination.
pub open spec fn unless_empty(s: Seq<char>) -> Option<Seq<char>> {
    if s.len() == 0 {
        None
    } else {
        Some(s)
    }
}

fn nonempty(s: &str) -> (r: Option<&str>)
    ensures
        str_in(r) == unless_empty(s@),
{
    if s.is_empty() {
        None
    } else {
        Some(s)
    }
}

/// Reads the combinations that are configured. One to re-paste or to open the
/// screenshot review may be left out.
pub fn configured_bindings(hotkeys: &HotkeysConfig) -> (r: Result<Bindings, BindingError>)
    ensures
        bindings_outcome(r) == bindings_from(
            hotkeys@.transcribe,
            hotkeys@.cancel,
            unless_empty(hotkeys@.repaste),
            unless_empty(hotkeys@.image_editor),
            hotkeys@.consume_transcribe_key,
        ),
        all_ascii(hotkeys@.transcribe) && all_ascii(hotkeys@.cancel) && all_ascii(hotkeys@.repaste)
            && all_ascii(hotkeys@.image_editor) ==> bindings_outcome(r) == bindings_from_ascii(
            hotkeys@.transcribe,
            hotkeys@.cancel,
            unless_empty(hotkeys@.repaste),
            unless_empty(hotkeys@.image_editor),
            hotkeys@.consume_transcribe_key,
        ),
{
    parse_bindings(
        hotkeys.transcribe.as_str(),
        hotkeys.cancel.as_str(),
        nonempty(hotkeys.repaste.as_str()),
        nonempty(hotkeys.image_editor.as_str()),
        hotkeys.consume_transcribe_key,
    )
}

// ---------------------------------------------------------------------------
// The listener
// ---------------------------------------------------------------------------

/// Follows the keyboard and says what each press and release makes the program do.
#[derive(Debug)]
pub struct Listener {
    bindings: Bindings,
    /// Keys that are down, in the order of their presses.
    held: Vec<Key>,
    /// Between the press that completed the transcribe combination and the
    /// release of that key.
    transcribe_active: bool,
    /// That press was kept from the focused application.
    trigger_consumed: bool,
}

/// The values of a [`Listener`].
pub ghost struct ListenerView {
    pub bindings: BindingsView,
    pub held: Seq<Key>,
    pub transcribe_active: bool,
    pub trigger_consumed: bool,
}

/// A key goes down or up. While it is down, further presses are repetitions.
pub ghost enum KeyInput {
    Press(Key),
    Release(Key),
}

/// What a press or release leads to.
pub ghost struct Reaction {
    pub next: ListenerView,
    /// What the program has to do, in this order.
    pub events: Seq<HotkeyEvent>,
    /// The press or release is kept from the focused application.
    pub swallow: bool,
}

/// `key` completes the combination `h` while the keys `held` are down.
pub open spec fn completes(held: Seq<Key>, key: Key, h: HotkeyView) -> bool {
    key == h.trigger && modifiers_match(held, h)
}

/// `key` completes the combination, if there is one.
pub open spec fn completes_optional(held: Seq<Key>, key: Key, h: Option<HotkeyView>) -> bool {
    h matches Some(h) && completes(held, key, h)
}

/// Any key but this one.
pub open spec fn other_than(key: Key) -> spec_fn(Key) -> bool {
    |k: Key| k != key
}

/// `keys` without `key`.
pub open spec fn keys_without(keys: Seq<Key>, key: Key) -> Seq<Key> {
    keys.filter(other_than(key))
}

/// The event, if the condition holds.
pub open spec fn event_if(condition: bool, event: HotkeyEvent) -> Seq<HotkeyEvent> {
    if condition {
        seq![event]
    } else {
        Seq::empty()
    }
}

impl ListenerView {
    /// No key is down twice; the transcribe combination is active only while
    /// its last key is down, and that key is swallowed just while it is active,
    /// if the bindings ask for it.
    pub open spec fn wf(self) -> bool {
        &&& self.held.no_duplicates()
        &&& self.transcribe_active ==> self.held.contains(self.bindings.transcribe.trigger)
        &&& self.trigger_consumed <==> self.transcribe_active
            && self.bindings.consume_transcribe_key
    }

    /// Nothing is down.
    pub open spec fn idle(bindings: BindingsView) -> ListenerView {
        ListenerView {
            bindings,
            held: Seq::empty(),
            transcribe_active: false,
            trigger_consumed: false,
        }
    }

    /// A key goes down. A combination is completed by a first press only, and
    /// its modifiers are the keys that were down before. Where the press is
    /// swallowed, cancelling and re-pasting are not looked at.
    pub open spec fn press(self, key: Key) -> Reaction {
        let first = !self.held.contains(key);
        let starts = first && completes(self.held, key, self.bindings.transcribe);
        let opens = first && completes_optional(self.held, key, self.bindings.image_editor);
        let cancels = first && completes(self.held, key, self.bindings.cancel);
        let repastes = first && completes_optional(self.held, key, self.bindings.repaste);
        let consumed = if starts {
            self.bindings.consume_transcribe_key
        } else {
            self.trigger_consumed
        };
        let swallow = key == self.bindings.transcribe.trigger && consumed;
        Reaction {
            next: ListenerView {
                bindings: self.bindings,
                held: if first {
                    self.held.push(key)
                } else {
                    self.held
                },
                transcribe_active: starts || self.transcribe_active,
                trigger_consumed: consumed,
            },
            events: event_if(starts, HotkeyEvent::TranscribeDown) + event_if(
                opens,
                HotkeyEvent::OpenImageEditor,
            ) + event_if(cancels && !swallow, HotkeyEvent::Cancel) + event_if(
                repastes && !swallow,
                HotkeyEvent::Repaste,
            ),
            swallow,
        }
    }

    /// A key goes up.
    pub open spec fn release(self, key: Key) -> Reaction {
        let ends = key == self.bindings.transcribe.trigger && self.transcribe_active;
        Reaction {
            next: ListenerView {
                bindings: self.bindings,
                held: keys_without(self.held, key),
                transcribe_active: self.transcribe_active && !ends,
                trigger_consumed: self.trigger_consumed && !ends,
            },
            events: event_if(ends, HotkeyEvent::TranscribeUp),
            swallow: ends && self.trigger_consumed,
        }
    }

    /// A key goes down or up.
    pub open spec fn react(self, input: KeyInput) -> Reaction {
        match input {
            KeyInput::Press(key) => self.press(key),
            KeyInput::Release(key) => self.release(key),
        }
    }
}

impl View for Listener {
    type V = ListenerView;

    closed spec fn view(&self) -> ListenerView {
        ListenerView {
            bindings: self.bindings@,
            held: self.held@,
            transcribe_active: self.transcribe_active,
            trigger_consumed: self.trigger_consumed,
        }
    }
}

/// What the program has to do about a press or release.
#[derive(Debug)]
pub struct KeyResponse {
    pub events: Vec<HotkeyEvent>,
    /// Keep it from the focused application.
    pub swallow: bool,
}

/// Whether `key` is among `keys`.
fn is_held(keys: &Vec<Key>, key: Key) -> (r: bool)
    ensures
        r == keys@.contains(key),
{
    let mut i: usize = 0;
    while i < keys.len()
        invariant
            0 <= i <= keys@.len(),
            forall|k: int| 0 <= k < i ==> keys@[k] != key,
        decreases keys@.len() - i,
    {
        if keys[i] == key {
            return true;
        }
        i += 1;
    }
    false
}

/// `keys` without `key`.
fn without(keys: &Vec<Key>, key: Key) -> (r: Vec<Key>)
    ensures
        r@ == keys_without(keys@, key),
{
    let mut r: Vec<Key> = Vec::new();
    let mut i: usize = 0;
    proof {
        reveal(Seq::filter);
    }
    assert(r@ =~= keys_without(keys@.take(0), key));
    while i < keys.len()
        invariant
            0 <= i <= keys@.len(),
            r@ == keys_without(keys@.take(i as int), key),
        decreases keys@.len() - i,
    {
        proof {
            reveal(Seq::filter);
        }
        assert(keys@.take(i + 1).drop_last() =~= keys@.take(i as int));
        if keys[i] != key {
            r.push(keys[i]);
        }
        i += 1;
    }
    assert(keys@.take(keys@.len() as int) =~= keys@);
    r
}

fn is_completed(held: &Vec<Key>, key: Key, h: &Hotkey) -> (r: bool)
    ensures
        r == completes(held@, key, h@),
{
    key == h.trigger && modifiers_held(held, h)
}

fn is_completed_optional(held: &Vec<Key>, key: Key, h: &Option<Hotkey>) -> (r: bool)
    ensures
        r == completes_optional(held@, key, hotkey_in(*h)),
{
    match h {
        Some(h) => is_completed(held, key, h),
        None => false,
    }
}

impl Listener {
    /// A listener before any key is down.
    pub fn new(bindings: Bindings) -> (r: Listener)
        ensures
            r@ == ListenerView::idle(bindings@),
            r@.wf(),
    {
        Listener { bindings, held: Vec::new(), transcribe_active: false, trigger_consumed: false }
    }

    /// A key goes down.
    pub fn press(&mut self, key: Key) -> (r: KeyResponse)
        ensures
            old(self)@.press(key) == (Reaction {
                next: final(self)@,
                events: r.events@,
                swallow: r.swallow,
            }),
            old(self)@.wf() ==> final(self)@.wf(),
    {
        proof {
            if self@.wf() {
                law_listener_stays_well_formed(self@, KeyInput::Press(key));
            }
        }
        let first = !is_held(&self.held, key);
        let starts = first && is_completed(&self.held, key, &self.bindings.transcribe);
        let opens = first && is_completed_optional(&self.held, key, &self.bindings.image_editor);
        let cancels = first && is_completed(&self.held, key, &self.bindings.cancel);
        let repastes = first && is_completed_optional(&self.held, key, &self.bindings.repaste);
        if first {
            self.held.push(key);
        }
        let mut events: Vec<HotkeyEvent> = Vec::new();
        if starts {
            self.transcribe_active = true;
            self.trigger_consumed = self.bindings.consume_transcribe_key;
            events.push(HotkeyEvent::TranscribeDown);
        }
        if opens {
            events.push(HotkeyEvent::OpenImageEditor);
        }
        let swallow = key == self.bindings.transcribe.trigger && self.trigger_consumed;
        if cancels && !swallow {
            events.push(HotkeyEvent::Cancel);
        }
        if repastes && !swallow {
            events.push(HotkeyEvent::Repaste);
        }
        assert(events@ =~= old(self)@.press(key).events);
        KeyResponse { events, swallow }
    }

    /// A key goes up.
    pub fn release(&mut self, key: Key) -> (r: KeyResponse)
        ensures
            old(self)@.release(key) == (Reaction {
                next: final(self)@,
                events: r.events@,
                swallow: r.swallow,
            }),
            old(self)@.wf() ==> final(self)@.wf(),
    {
        proof {
            if self@.wf() {
                law_listener_stays_well_formed(self@, KeyInput::Release(key));
            }
        }
        let mut events: Vec<HotkeyEvent> = Vec::new();
        let mut swallow = false;
        if key == self.bindings.transcribe.trigger && self.transcribe_active {
            self.transcribe_active = false;
            swallow = self.trigger_consumed;
            self.trigger_consumed = false;
            events.push(HotkeyEvent::TranscribeUp);
        }
        self.held = without(&self.held, key);
        assert(events@ =~= old(self)@.release(key).events);
        KeyResponse { events, swallow }
    }
}

// ---------------------------------------------------------------------------
// Laws
// ---------------------------------------------------------------------------

/// Presses and releases keep a listener well-formed.
pub proof fn law_listener_stays_well_formed(v: ListenerView, input: KeyInput)
    requires
        v.wf(),
    ensures
        v.react(input).next.wf(),
{
    match input {
        KeyInput::Press(key) => {
            let next = v.press(key).next;
            let t = v.bindings.transcribe.trigger;
            if v.held.contains(t) && !v.held.contains(key) {
                let i = v.held.index_of(t);
                assert(next.held[i] == t);
            }
            if !v.held.contains(key) {
                assert(next.held[v.held.len() as int] == key);
                lemma_push_new(v.held, key);
                assert(next.held == v.held.push(key));
            } else {
                assert(next.held == v.held);
            }
        },
        KeyInput::Release(key) => {
            lemma_filter_keeps(v.held, other_than(key));
        },
    }
}

proof fn lemma_push_new(s: Seq<Key>, key: Key)
    requires
        s.no_duplicates(),
        !s.contains(key),
    ensures
        s.push(key).no_duplicates(),
{
    assert forall|i: int, j: int| 0 <= i < j < s.len() + 1 implies s.push(key)[i] != s.push(
        key,
    )[j] by {
        assert(s.contains(s[i]));
    }
}

proof fn lemma_filter_keeps(s: Seq<Key>, pred: spec_fn(Key) -> bool)
    ensures
        forall|k: Key| #[trigger] s.filter(pred).contains(k) <==> s.contains(k) && pred(k),
        s.no_duplicates() ==> s.filter(pred).no_duplicates(),
    decreases s.len(),
{
    reveal(Seq::filter);
    if s.len() > 0 {
        let t = s.drop_last();
        lemma_filter_keeps(t, pred);
        assert forall|k: Key| #[trigger] s.filter(pred).contains(k) <==> s.contains(k) && pred(k) by {
            assert(s.contains(k) <==> t.contains(k) || k == s.last()) by {
                if s.contains(k) && k != s.last() {
                    let i = s.index_of(k);
                    assert(t[i] == k);
                }
                if t.contains(k) {
                    let i = t.index_of(k);
                    assert(s[i] == k);
                }
                if k == s.last() {
                    assert(s[s.len() - 1] == k);
                }
            }
            let f = t.filter(pred);
            if pred(s.last()) {
                if f.contains(k) {
                    let i = f.index_of(k);
                    assert(f.push(s.last())[i] == k);
                }
                if k == s.last() {
                    assert(f.push(s.last())[f.len() as int] == k);
                }
            }
        }
        if s.no_duplicates() {
            assert(t.no_duplicates());
            assert(!t.filter(pred).contains(s.last()));
            lemma_push_new(t.filter(pred), s.last());
        }
    }
}

/// Repetitions of a key that is down do nothing.
pub proof fn law_repetition_does_nothing(v: ListenerView, key: Key)
    requires
        v.held.contains(key),
    ensures
        v.press(key).next == v,
        v.press(key).events == Seq::<HotkeyEvent>::empty(),
{
    assert(v.press(key).events =~= Seq::<HotkeyEvent>::empty());
}

/// Where a run of presses and releases leads.
pub open spec fn after(v: ListenerView, inputs: Seq<KeyInput>) -> ListenerView
    decreases inputs.len(),
{
    if inputs.len() == 0 {
        v
    } else {
        after(v, inputs.drop_last()).react(inputs.last()).next
    }
}

/// How often a run of presses and releases leads to an event.
pub open spec fn occurrences(v: ListenerView, inputs: Seq<KeyInput>, event: HotkeyEvent) -> nat
    decreases inputs.len(),
{
    if inputs.len() == 0 {
        0
    } else {
        let before = after(v, inputs.drop_last());
        occurrences(v, inputs.drop_last(), event) + (if before.react(
            inputs.last(),
        ).events.contains(event) {
            1nat
        } else {
            0nat
        })
    }
}

/// `TranscribeDown` comes only while the transcribe combination is not active,
/// and makes it active; `TranscribeUp` comes only while it is active, and
/// ends that.
pub proof fn law_transcribe_events(v: ListenerView, input: KeyInput)
    requires
        v.wf(),
    ensures
        ({
            let r = v.react(input);
            let down = r.events.contains(HotkeyEvent::TranscribeDown);
            let up = r.events.contains(HotkeyEvent::TranscribeUp);
            &&& down ==> !v.transcribe_active && r.next.transcribe_active
            &&& up ==> v.transcribe_active && !r.next.transcribe_active
            &&& !down && !up ==> r.next.transcribe_active == v.transcribe_active
        }),
{
    let r = v.react(input);
    match input {
        KeyInput::Press(key) => {
            let first = !v.held.contains(key);
            let starts = first && completes(v.held, key, v.bindings.transcribe);
            if starts {
                assert(r.events[0] == HotkeyEvent::TranscribeDown);
            }
            assert(!r.events.contains(HotkeyEvent::TranscribeUp));
            if !starts {
                assert(!r.events.contains(HotkeyEvent::TranscribeDown));
            }
        },
        KeyInput::Release(key) => {
            if key == v.bindings.transcribe.trigger && v.transcribe_active {
                assert(r.events[0] == HotkeyEvent::TranscribeUp);
            }
            assert(!r.events.contains(HotkeyEvent::TranscribeDown));
        },
    }
}

/// Whatever keys go down and up, `TranscribeDown` and `TranscribeUp` alternate,
/// beginning with the former: there has been one more of it exactly while the
/// transcribe combination is active.
pub proof fn law_transcribe_events_alternate(bindings: BindingsView, inputs: Seq<KeyInput>)
    ensures
        ({
            let start = ListenerView::idle(bindings);
            let end = after(start, inputs);
            &&& end.wf()
            &&& end.bindings == bindings
            &&& occurrences(start, inputs, HotkeyEvent::TranscribeDown) == occurrences(
                start,
                inputs,
                HotkeyEvent::TranscribeUp,
            ) + (if end.transcribe_active {
                1nat
            } else {
                0nat
            })
        }),
    decreases inputs.len(),
{
    let start = ListenerView::idle(bindings);
    if inputs.len() > 0 {
        law_transcribe_events_alternate(bindings, inputs.drop_last());
        let before = after(start, inputs.drop_last());
        law_listener_stays_well_formed(before, inputs.last());
        law_transcribe_events(before, inputs.last());
    }
}

/// Unless the bindings ask for it, no press and no release is kept from the
/// focused application.
pub proof fn law_nothing_swallowed_unasked(v: ListenerView, input: KeyInput)
    requires
        v.wf(),
        !v.bindings.consume_transcribe_key,
    ensures
        !v.react(input).swallow,
{
}

/// The press or release is one of this key.
pub open spec fn is_of_key(input: KeyInput, key: Key) -> bool {
    match input {
        KeyInput::Press(k) => k == key,
        KeyInput::Release(k) => k == key,
    }
}

/// If the bindings ask for it, what is kept from the focused application is
/// just what the last key of the transcribe combination does from the press
/// that completes the combination to the release that ends it.
pub proof fn law_swallowed_from_down_to_up(v: ListenerView, input: KeyInput)
    requires
        v.wf(),
        v.bindings.consume_transcribe_key,
    ensures
        v.react(input).swallow <==> is_of_key(input, v.bindings.transcribe.trigger) && (
        v.transcribe_active || v.react(input).next.transcribe_active),
{
}

/// If the press that completes the transcribe combination is swallowed, so is
/// every repetition of it, and so is its release; if not, none of them is.
pub proof fn law_release_is_swallowed_with_press(v: ListenerView, key: Key)
    requires
        v.wf(),
        v.press(key).events.contains(HotkeyEvent::TranscribeDown),
    ensures
        v.press(key).swallow == v.bindings.consume_transcribe_key,
        v.press(key).next.press(key).swallow == v.press(key).swallow,
        v.press(key).next.release(key).swallow == v.press(key).swallow,
        v.press(key).next.release(key).events == seq![HotkeyEvent::TranscribeUp],
{
    law_transcribe_events(v, KeyInput::Press(key));
    let first = !v.held.contains(key);
    let starts = first && completes(v.held, key, v.bindings.transcribe);
    assert(starts) by {
        if !starts {
            assert(!v.press(key).events.contains(HotkeyEvent::TranscribeDown));
        }
    }
    let next = v.press(key).next;
    assert(next.held[v.held.len() as int] == key);
    assert(next.held.contains(key));
    law_repetition_does_nothing(next, key);
}

/// A combination whose key is pressed while a modifier is down that it does
/// not ask for is not completed.
pub proof fn law_extra_modifier_blocks(held: Seq<Key>, h: HotkeyView, extra: Key)
    requires
        held.contains(extra),
        is_modifier_key(extra),
        !families(h.modifiers).contains(family(extra)),
    ensures
        !modifiers_match(held, h),
{
    let mods = modifiers_of(held);
    lemma_filter_keeps(held, |k: Key| is_modifier_key(k));
    let i = mods.index_of(extra);
    assert(mods.contains(extra));
    assert(families(mods)[i] == family(extra));
    families(mods).to_multiset_ensures();
    families(h.modifiers).to_multiset_ensures();
    assert(families(mods).contains(family(extra)));
    assert(families(mods).to_multiset().count(family(extra)) > 0);
    assert(families(h.modifiers).to_multiset().count(family(extra)) == 0);
}

/// With bindings that were read from texts, no press both starts a transcription
/// and re-pastes.
pub proof fn law_no_press_records_and_repastes(
    transcribe: Seq<char>,
    cancel: Seq<char>,
    repaste: Option<Seq<char>>,
    image_editor: Option<Seq<char>>,
    consume_transcribe_key: bool,
    v: ListenerView,
    key: Key,
)
    requires
        bindings_from(transcribe, cancel, repaste, image_editor, consume_transcribe_key) == Ok::<
            BindingsView,
            BindingErrorView,
        >(v.bindings),
    ensures
        v.press(key).events.contains(HotkeyEvent::TranscribeDown) ==> !v.press(
            key,
        ).events.contains(HotkeyEvent::Repaste),
{
    let events = v.press(key).events;
    let first = !v.held.contains(key);
    let starts = first && completes(v.held, key, v.bindings.transcribe);
    let repastes = first && completes_optional(v.held, key, v.bindings.repaste);
    if !starts {
        assert(!events.contains(HotkeyEvent::TranscribeDown));
    }
    if !repastes {
        assert(!events.contains(HotkeyEvent::Repaste));
    }
    if starts && repastes {
        let read = |s: Seq<char>| parsed_hotkey(s);
        let text = repaste->Some_0;
        assert(read(text) == Ok::<HotkeyView, HotkeyErrorView>(v.bindings.repaste->Some_0));
        assert(read(transcribe) == Ok::<HotkeyView, HotkeyErrorView>(v.bindings.transcribe));
        assert(same_combination(v.bindings.repaste->Some_0, v.bindings.transcribe));
        assert(same_when_read(read, text, transcribe));
        assert(false);
    }
}

// ---------------------------------------------------------------------------
// What completes a combination
// ---------------------------------------------------------------------------

/// How many of the keys are of that modifier, on either side.
pub open spec fn count_in_family(keys: Seq<Key>, f: Key) -> nat
    decreases keys.len(),
{
    if keys.len() == 0 {
        0
    } else {
        count_in_family(keys.drop_last(), f) + (if family(keys.last()) == f {
            1nat
        } else {
            0nat
        })
    }
}

/// How many of the keys are modifiers of that family.
pub open spec fn count_modifiers(keys: Seq<Key>, f: Key) -> nat
    decreases keys.len(),
{
    if keys.len() == 0 {
        0
    } else {
        count_modifiers(keys.drop_last(), f) + (if is_modifier_key(keys.last()) && family(
            keys.last(),
        ) == f {
            1nat
        } else {
            0nat
        })
    }
}

proof fn lemma_family_count(keys: Seq<Key>, f: Key)
    ensures
        families(keys).to_multiset().count(f) == count_in_family(keys, f),
    decreases keys.len(),
{
    broadcast use vstd::multiset::group_multiset_axioms;

    let all = families(keys);
    all.to_multiset_ensures();
    if keys.len() == 0 {
        assert(all =~= Seq::<Key>::empty());
        assert(!all.contains(f));
    } else {
        let rest = keys.drop_last();
        lemma_family_count(rest, f);
        assert(all =~= families(rest).push(family(keys.last())));
        vstd::seq_lib::to_multiset_build(families(rest), family(keys.last()));
        assert(Multiset::singleton(family(keys.last())).count(f) == if family(keys.last()) == f {
            1nat
        } else {
            0nat
        });
    }
}

proof fn lemma_modifier_count(keys: Seq<Key>, f: Key)
    ensures
        count_in_family(modifiers_of(keys), f) == count_modifiers(keys, f),
    decreases keys.len(),
{
    reveal(Seq::filter);
    if keys.len() > 0 {
        let rest = keys.drop_last();
        lemma_modifier_count(rest, f);
        let some = modifiers_of(rest);
        if is_modifier_key(keys.last()) {
            assert(modifiers_of(keys) =~= some.push(keys.last()));
            assert(modifiers_of(keys).drop_last() =~= some);
        } else {
            assert(modifiers_of(keys) =~= some);
        }
    }
}

/// A key completes a combination exactly if it is its last key and of every modifier
/// as many keys are down as the combination asks for, on either side: no fewer, no
/// more, and no other ones. Keys that are no modifiers do not matter.
pub proof fn law_completes(held: Seq<Key>, key: Key, h: HotkeyView)
    ensures
        completes(held, key, h) <==> key == h.trigger && forall|f: Key| #[trigger]
            count_modifiers(held, f) == count_in_family(h.modifiers, f),
{
    broadcast use vstd::multiset::group_multiset_axioms;

    let a = families(modifiers_of(held)).to_multiset();
    let b = families(h.modifiers).to_multiset();
    assert forall|f: Key| #[trigger] count_modifiers(held, f) == a.count(f) by {
        lemma_family_count(modifiers_of(held), f);
        lemma_modifier_count(held, f);
    }
    assert forall|f: Key| #[trigger] count_in_family(h.modifiers, f) == b.count(f) by {
        lemma_family_count(h.modifiers, f);
    }
    if forall|f: Key| #[trigger] count_modifiers(held, f) == count_in_family(h.modifiers, f) {
        assert forall|f: Key| #[trigger] a.count(f) == b.count(f) by {
            assert(count_modifiers(held, f) == a.count(f));
        }
        assert(a =~= b);
    }
    if a == b {
        assert forall|f: Key| #[trigger] count_modifiers(held, f) == count_in_family(
            h.modifiers,
            f,
        ) by {
            assert(count_in_family(h.modifiers, f) == b.count(f));
        }
    }
}

/// Two keys are of one modifier if they are the same or its left and right key; and
/// the modifiers are the control, shift and alt keys.
pub proof fn law_modifier_keys(a: Key, b: Key)
    ensures
        ({
            let control = |k: Key| k == Key::ControlLeft || k == Key::ControlRight;
            let shift = |k: Key| k == Key::ShiftLeft || k == Key::ShiftRight;
            let alt = |k: Key| k == Key::Alt || k == Key::AltGr;
            &&& is_modifier_key(a) <==> control(a) || shift(a) || alt(a)
            &&& family(a) == family(b) <==> a == b || (control(a) && control(b)) || (shift(a)
                && shift(b)) || (alt(a) && alt(b))
            &&& family(a) == family(family(a))
        }),
{
}

/// What a press does. Only the first press of a key that is not down does anything.
/// It starts transcribing, opens the review, cancels and re-pastes exactly if it
/// completes the combination for that, the last two not if the press is swallowed;
/// in this order. It is swallowed if it is of the transcribe combination's last key,
/// that key is to be swallowed, and transcribing is or becomes active.
pub proof fn law_what_a_press_does(v: ListenerView, key: Key)
    requires
        v.wf(),
    ensures
        ({
            let r = v.react(KeyInput::Press(key));
            let first = !v.held.contains(key);
            let b = v.bindings;
            let starts = first && completes(v.held, key, b.transcribe);
            let opens = first && b.image_editor is Some && completes(
                v.held,
                key,
                b.image_editor->0,
            );
            let cancels = first && completes(v.held, key, b.cancel) && !r.swallow;
            let repastes = first && b.repaste is Some && completes(v.held, key, b.repaste->0)
                && !r.swallow;
            let one = |yes: bool| if yes {
                1int
            } else {
                0int
            };
            &&& r.events.contains(HotkeyEvent::TranscribeDown) <==> starts
            &&& r.events.contains(HotkeyEvent::OpenImageEditor) <==> opens
            &&& r.events.contains(HotkeyEvent::Cancel) <==> cancels
            &&& r.events.contains(HotkeyEvent::Repaste) <==> repastes
            &&& !r.events.contains(HotkeyEvent::TranscribeUp)
            &&& r.events.len() == one(starts) + one(opens) + one(cancels) + one(repastes)
            &&& starts ==> r.events[0] == HotkeyEvent::TranscribeDown
            &&& repastes ==> r.events.last() == HotkeyEvent::Repaste
            &&& r.swallow <==> key == b.transcribe.trigger && b.consume_transcribe_key && (starts
                || v.transcribe_active)
            &&& r.next.bindings == b
            &&& r.next.held == (if first {
                v.held.push(key)
            } else {
                v.held
            })
            &&& r.next.transcribe_active <==> starts || v.transcribe_active
        }),
{
    let r = v.press(key);
    let first = !v.held.contains(key);
    let b = v.bindings;
    let starts = first && completes(v.held, key, b.transcribe);
    let opens = first && completes_optional(v.held, key, b.image_editor);
    let cancels = first && completes(v.held, key, b.cancel) && !r.swallow;
    let repastes = first && completes_optional(v.held, key, b.repaste) && !r.swallow;
    let n1 = if starts {
        1int
    } else {
        0int
    };
    let n2 = n1 + if opens {
        1int
    } else {
        0int
    };
    let n3 = n2 + if cancels {
        1int
    } else {
        0int
    };
    if starts {
        assert(r.events[0] == HotkeyEvent::TranscribeDown);
    }
    if opens {
        assert(r.events[n1] == HotkeyEvent::OpenImageEditor);
    }
    if cancels {
        assert(r.events[n2] == HotkeyEvent::Cancel);
    }
    if repastes {
        assert(r.events[n3] == HotkeyEvent::Repaste);
    }
}

/// What a release does. The release of the transcribe combination's last key ends
/// transcribing if it is active, and is swallowed just if that key is to be; any other
/// release does nothing. The key is no longer down, and all others are.
pub proof fn law_what_a_release_does(v: ListenerView, key: Key)
    requires
        v.wf(),
    ensures
        ({
            let r = v.react(KeyInput::Release(key));
            let ends = key == v.bindings.transcribe.trigger && v.transcribe_active;
            &&& r.events == (if ends {
                seq![HotkeyEvent::TranscribeUp]
            } else {
                Seq::<HotkeyEvent>::empty()
            })
            &&& r.swallow <==> ends && v.bindings.consume_transcribe_key
            &&& r.next.bindings == v.bindings
            &&& r.next.transcribe_active <==> v.transcribe_active && !ends
            &&& forall|k: Key| #[trigger] r.next.held.contains(k) <==> v.held.contains(k) && k
                != key
        }),
{
    lemma_filter_keeps(v.held, other_than(key));
    let next = v.release(key).next;
    assert forall|k: Key| #[trigger] next.held.contains(k) <==> v.held.contains(k) && k != key by {
        assert(next.held == v.held.filter(other_than(key)));
    }
}

/// Nothing is down before any key is.
pub proof fn law_listener_begins_idle(bindings: BindingsView, key: Key)
    ensures
        ({
            let v = ListenerView::idle(bindings);
            &&& v.wf()
            &&& v.bindings == bindings
            &&& !v.held.contains(key)
            &&& !v.transcribe_active
        }),
{
}

/// What is bound: the transcribe and the cancel key as they are read, or an error that
/// says which cannot be; the others as they are read, or not at all; and the re-paste
/// key not if it is the transcribe key.
pub proof fn law_what_is_bound(
    transcribe: Seq<char>,
    cancel: Seq<char>,
    repaste: Option<Seq<char>>,
    image_editor: Option<Seq<char>>,
    consume: bool,
)
    ensures
        ({
            let r = bindings_from(transcribe, cancel, repaste, image_editor, consume);
            let t = parsed_hotkey(transcribe);
            let c = parsed_hotkey(cancel);
            &&& r is Ok <==> t is Ok && c is Ok
            &&& t is Err ==> r == Err::<BindingsView, BindingErrorView>(
                BindingErrorView::Transcribe(t->Err_0),
            )
            &&& t is Ok && c is Err ==> r == Err::<BindingsView, BindingErrorView>(
                BindingErrorView::Cancel(c->Err_0),
            )
            &&& r matches Ok(b) ==> {
                &&& b.transcribe == t->Ok_0
                &&& b.cancel == c->Ok_0
                &&& b.consume_transcribe_key == consume
                &&& b.image_editor matches Some(h) ==> image_editor is Some && parsed_hotkey(
                    image_editor->0,
                ) == Ok::<HotkeyView, HotkeyErrorView>(h)
                &&& b.image_editor is None ==> image_editor is None || parsed_hotkey(
                    image_editor->0,
                ) is Err
                &&& b.repaste matches Some(h) ==> repaste is Some && parsed_hotkey(repaste->0)
                    == Ok::<HotkeyView, HotkeyErrorView>(h) && !same_combination(h, b.transcribe)
                &&& b.repaste is None ==> repaste is None || parsed_hotkey(repaste->0) is Err || (
                same_combination(parsed_hotkey(repaste->0)->Ok_0, b.transcribe) || ascii_lower(
                    repaste->0,
                ) == ascii_lower(transcribe))
            }
        }),
{
    let read = |s: Seq<char>| parsed_hotkey(s);
    assert(read(transcribe) == parsed_hotkey(transcribe));
    assert(read(cancel) == parsed_hotkey(cancel));
    if repaste is Some {
        assert(read(repaste->0) == parsed_hotkey(repaste->0));
    }
    if image_editor is Some {
        assert(read(image_editor->0) == parsed_hotkey(image_editor->0));
    }
}

/// Combinations are the same exactly if every press that completes the one completes
/// the other, whatever is down.
pub proof fn law_same_combination(a: HotkeyView, b: HotkeyView, held: Seq<Key>, key: Key)
    ensures
        same_combination(a, b) ==> (completes(held, key, a) <==> completes(held, key, b)),
        same_combination(a, b) == same_combination(b, a),
        same_combination(a, a),
        same_combination(a, b) <==> a.trigger == b.trigger && forall|f: Key| #[trigger]
            count_in_family(a.modifiers, f) == count_in_family(b.modifiers, f),
{
    broadcast use vstd::multiset::group_multiset_axioms;

    let x = families(a.modifiers).to_multiset();
    let y = families(b.modifiers).to_multiset();
    assert forall|f: Key| #[trigger] count_in_family(a.modifiers, f) == x.count(f) by {
        lemma_family_count(a.modifiers, f);
    }
    assert forall|f: Key| #[trigger] count_in_family(b.modifiers, f) == y.count(f) by {
        lemma_family_count(b.modifiers, f);
    }
    if forall|f: Key| #[trigger]
        count_in_family(a.modifiers, f) == count_in_family(b.modifiers, f) {
        assert forall|f: Key| #[trigger] x.count(f) == y.count(f) by {
            assert(count_in_family(a.modifiers, f) == x.count(f));
        }
        assert(x =~= y);
    }
    if x == y {
        assert forall|f: Key| #[trigger] count_in_family(a.modifiers, f) == count_in_family(
            b.modifiers,
            f,
        ) by {
            assert(count_in_family(b.modifiers, f) == y.count(f));
        }
    }
}

/// An empty text stands for no combination, and any other for the one that it names.
pub proof fn law_unless_empty(s: Seq<char>)
    ensures
        unless_empty(s) is None <==> s.len() == 0,
        unless_empty(s) matches Some(t) ==> t == s,
{
}

/// Texts that differ in more than letter case stand for the same combination exactly if
/// both can be read and what is read is the same; so one that cannot be read is like no
/// other.
pub proof fn law_same_hotkey(a: Seq<char>, b: Seq<char>)
    ensures
        same_hotkey(a, a),
        same_hotkey(a, b) == same_hotkey(b, a),
        ascii_lower(a) == ascii_lower(b) ==> same_hotkey(a, b) && same_ascii_hotkey(a, b),
        ascii_lower(a) != ascii_lower(b) ==> (same_hotkey(a, b) <==> parsed_hotkey(a) is Ok
            && parsed_hotkey(b) is Ok && same_combination(
            parsed_hotkey(a)->Ok_0,
            parsed_hotkey(b)->Ok_0,
        )),
        ascii_lower(a) != ascii_lower(b) ==> (same_ascii_hotkey(a, b) <==> parsed_ascii_hotkey(
            a,
        ) is Ok && parsed_ascii_hotkey(b) is Ok && same_combination(
            parsed_ascii_hotkey(a)->Ok_0,
            parsed_ascii_hotkey(b)->Ok_0,
        )),
{
}

} // verus!
