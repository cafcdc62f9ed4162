//! Cutting a text into pieces, putting pieces together, and looking for one
//! text inside another.

use crate::text::{chars_of, is_white, is_whitespace, trim, trimmed};
use vstd::prelude::*;

verus! {

/// Where a text is cut.
#[derive(Clone, Copy)]
pub enum Separator {
    /// At every occurrence of one character.
    At(char),
    /// At line ends and at commas.
    LineOrComma,
    /// At white space.
    White,
    /// At the slashes and backslashes of a path.
    Slash,
}

impl Separator {
    /// Whether a text is cut at `c`.
    pub open spec fn cuts(self, c: char) -> bool {
        match self {
            Separator::At(d) => c == d,
            Separator::LineOrComma => c == '\n' || c == ',',
            Separator::White => is_white(c),
            Separator::Slash => c == '/' || c == '\\',
        }
    }

    /// Whether a text is cut at `c`.
    pub fn cuts_at(self, c: char) -> (r: bool)
        ensures
            r == self.cuts(c),
    {
        match self {
            Separator::At(d) => c == d,
            Separator::LineOrComma => c == '\n' || c == ',',
            Separator::White => is_whitespace(c),
            Separator::Slash => c == '/' || c == '\\',
        }
    }
}

/// The views of a list of texts.
pub open spec fn texts(v: Seq<String>) -> Seq<Seq<char>> {
    v.map_values(|s: String| s@)
}

/// The pieces between the separators of `s`, empty ones included: each further
/// character either ends the last piece or is added to it.
pub open spec fn pieces(s: Seq<char>, sep: Separator) -> Seq<Seq<char>>
    decreases s.len(),
{
    if s.len() == 0 {
        seq![Seq::<char>::empty()]
    } else {
        let before = pieces(s.drop_last(), sep);
        if sep.cuts(s.last()) {
            before.push(Seq::<char>::empty())
        } else {
            before.drop_last().push(before.last().push(s.last()))
        }
    }
}

/// There is always at least one piece, and no piece holds a separator.
pub proof fn lemma_pieces(s: Seq<char>, sep: Separator)
    ensures
        pieces(s, sep).len() > 0,
        forall|i: int, k: int|
            0 <= i < pieces(s, sep).len() && 0 <= k < pieces(s, sep)[i].len() ==> !sep.cuts(
                #[trigger] pieces(s, sep)[i][k],
            ),
    decreases s.len(),
{
    if s.len() > 0 {
        lemma_pieces(s.drop_last(), sep);
    }
}

/// Cuts a text at its separators.
pub fn split(s: &str, sep: Separator) -> (r: Vec<String>)
    ensures
        texts(r@) == pieces(s@, sep),
{
    let chars = chars_of(s);
    let mut r: Vec<String> = Vec::new();
    let mut last = String::new();
    let mut i: usize = 0;
    assert(texts(r@).push(last@) =~= pieces(s@.take(0), sep));
    while i < chars.len()
        invariant
            chars@ == s@,
            0 <= i <= chars@.len(),
            texts(r@).push(last@) == pieces(s@.take(i as int), sep),
        decreases chars@.len() - i,
    {
        let c = chars[i];
        let ghost before = texts(r@).push(last@);
        assert(s@.take(i + 1).drop_last() =~= s@.take(i as int));
        if sep.cuts_at(c) {
            r.push(last);
            last = String::new();
            assert(texts(r@) =~= before);
            assert(texts(r@).push(last@) =~= before.push(Seq::<char>::empty()));
        } else {
            last.push(c);
            assert(texts(r@).push(last@) =~= before.drop_last().push(before.last().push(c)));
        }
        i += 1;
    }
    assert(s@.take(s@.len() as int) =~= s@);
    let ghost all = texts(r@).push(last@);
    r.push(last);
    assert(texts(r@) =~= all);
    r
}

/// The trimmed pieces, without those that are blank.
pub open spec fn entries(ps: Seq<Seq<char>>) -> Seq<Seq<char>>
    decreases ps.len(),
{
    if ps.len() == 0 {
        Seq::empty()
    } else {
        let before = entries(ps.drop_last());
        let entry = trimmed(ps.last());
        if entry.len() > 0 {
            before.push(entry)
        } else {
            before
        }
    }
}

/// Cuts a text at its separators, trims the pieces and drops the blank ones.
pub fn split_entries(s: &str, sep: Separator) -> (r: Vec<String>)
    ensures
        texts(r@) == entries(pieces(s@, sep)),
{
    let parts = split(s, sep);
    let ghost ps = pieces(s@, sep);
    let mut r: Vec<String> = Vec::new();
    let mut i: usize = 0;
    assert(texts(r@) =~= entries(ps.take(0)));
    while i < parts.len()
        invariant
            texts(parts@) == ps,
            0 <= i <= parts@.len(),
            texts(r@) == entries(ps.take(i as int)),
        decreases parts@.len() - i,
    {
        assert(texts(parts@)[i as int] == parts@[i as int]@);
        assert(ps.take(i + 1).drop_last() =~= ps.take(i as int));
        let ghost before = texts(r@);
        let entry = trim(parts[i].as_str());
        if !entry.is_empty() {
            r.push(entry.to_owned());
            assert(texts(r@) =~= before.push(trimmed(ps[i as int])));
        }
        i += 1;
    }
    assert(ps.take(ps.len() as int) =~= ps);
    r
}

/// The texts one after the other, with `sep` between them.
pub open spec fn joined(ps: Seq<Seq<char>>, sep: Seq<char>) -> Seq<char>
    decreases ps.len(),
{
    if ps.len() == 0 {
        Seq::empty()
    } else if ps.len() == 1 {
        ps[0]
    } else {
        joined(ps.drop_last(), sep) + sep + ps.last()
    }
}

/// Cutting two texts with a separator between them is cutting each.
pub proof fn lemma_pieces_of_two(a: Seq<char>, c: char, b: Seq<char>, sep: Separator)
    requires
        sep.cuts(c),
    ensures
        pieces(a.push(c) + b, sep) == pieces(a, sep) + pieces(b, sep),
    decreases b.len(),
{
    let all = a.push(c) + b;
    if b.len() == 0 {
        assert(all =~= a.push(c));
        assert(all.drop_last() =~= a);
        assert(pieces(all, sep) =~= pieces(a, sep) + pieces(b, sep));
    } else {
        let rest = b.drop_last();
        lemma_pieces_of_two(a, c, rest, sep);
        lemma_pieces(rest, sep);
        assert(all.drop_last() =~= a.push(c) + rest);
        assert(all.last() == b.last());
        let before = pieces(a, sep) + pieces(rest, sep);
        assert(before.last() == pieces(rest, sep).last());
        assert(before.drop_last() =~= pieces(a, sep) + pieces(rest, sep).drop_last());
        assert(pieces(all, sep) =~= pieces(a, sep) + pieces(b, sep));
    }
}

/// A text without separators is one piece.
pub proof fn lemma_one_piece(s: Seq<char>, sep: Separator)
    requires
        forall|i: int| 0 <= i < s.len() ==> !sep.cuts(#[trigger] s[i]),
    ensures
        pieces(s, sep) == seq![s],
    decreases s.len(),
{
    if s.len() > 0 {
        let rest = s.drop_last();
        assert forall|i: int| 0 <= i < rest.len() implies !sep.cuts(#[trigger] rest[i]) by {
            assert(rest[i] == s[i]);
        }
        lemma_one_piece(rest, sep);
        assert(pieces(rest, sep).last() == rest);
        assert(rest.push(s.last()) =~= s);
        assert(pieces(s, sep) =~= seq![s]);
    } else {
        assert(s =~= Seq::<char>::empty());
    }
}

/// The entries of two lists of pieces are those of the one, then of the other.
pub proof fn lemma_entries_of_two(a: Seq<Seq<char>>, b: Seq<Seq<char>>)
    ensures
        entries(a + b) == entries(a) + entries(b),
    decreases b.len(),
{
    if b.len() == 0 {
        assert(a + b =~= a);
        assert(entries(a) + entries(b) =~= entries(a));
    } else {
        lemma_entries_of_two(a, b.drop_last());
        assert((a + b).drop_last() =~= a + b.drop_last());
        assert((a + b).last() == b.last());
        assert(entries(a + b) =~= entries(a) + entries(b));
    }
}

/// Every entry is a piece without the white space around it, and is not empty.
pub proof fn lemma_entries(ps: Seq<Seq<char>>)
    ensures
        forall|i: int|
            0 <= i < entries(ps).len() ==> (#[trigger] entries(ps)[i]).len() > 0 && exists|k: int|
                0 <= k < ps.len() && entries(ps)[i] == trimmed(#[trigger] ps[k]),
    decreases ps.len(),
{
    if ps.len() > 0 {
        let rest = ps.drop_last();
        lemma_entries(rest);
        assert forall|i: int| 0 <= i < entries(ps).len() implies (#[trigger] entries(ps)[i]).len()
            > 0 && exists|k: int| 0 <= k < ps.len() && entries(ps)[i] == trimmed(#[trigger] ps[k]) by {
            if i < entries(rest).len() {
                assert(entries(ps)[i] == entries(rest)[i]);
                let k = choose|k: int|
                    0 <= k < rest.len() && entries(rest)[i] == trimmed(#[trigger] rest[k]);
                assert(ps[k] == rest[k]);
            } else {
                assert(entries(ps)[i] == trimmed(ps.last()));
                assert(ps[ps.len() - 1] == ps.last());
            }
        }
    }
}

/// Puts texts one after the other, with `sep` between them.
pub fn join(parts: &Vec<String>, sep: &str) -> (r: String)
    ensures
        r@ == joined(texts(parts@), sep@),
{
    let ghost ps = texts(parts@);
    let mut r = String::new();
    let mut i: usize = 0;
    assert(r@ =~= joined(ps.take(0), sep@));
    while i < parts.len()
        invariant
            ps == texts(parts@),
            0 <= i <= parts@.len(),
            r@ == joined(ps.take(i as int), sep@),
        decreases parts@.len() - i,
    {
        assert(ps[i as int] == parts@[i as int]@);
        assert(ps.take(i + 1).drop_last() =~= ps.take(i as int));
        if i > 0 {
            r.append(sep);
        }
        r.append(parts[i].as_str());
        assert(r@ =~= joined(ps.take(i + 1), sep@));
        i += 1;
    }
    assert(ps.take(ps.len() as int) =~= ps);
    r
}

// ---------------------------------------------------------------------------
// Searching
// ---------------------------------------------------------------------------

/// `needle` stands in `hay` at position `i`.
pub open spec fn occurs_at(hay: Seq<char>, needle: Seq<char>, i: int) -> bool {
    0 <= i && i + needle.len() <= hay.len() && hay.subrange(i, i + needle.len()) == needle
}

/// `needle` stands somewhere in `hay`.
pub open spec fn contains_text(hay: Seq<char>, needle: Seq<char>) -> bool {
    exists|i: int| occurs_at(hay, needle, i)
}

/// `r` is the first place at or after `from` where `needle` stands in `hay`,
/// if there is one.
pub open spec fn is_first_from(
    hay: Seq<char>,
    needle: Seq<char>,
    from: int,
    r: Option<int>,
) -> bool {
    match r {
        Some(i) => from <= i && occurs_at(hay, needle, i) && forall|k: int|
            from <= k < i ==> !occurs_at(hay, needle, k),
        None => forall|k: int| from <= k ==> !occurs_at(hay, needle, k),
    }
}

/// The first place at or after `from` where `needle` stands in `hay`.
pub open spec fn first_from(hay: Seq<char>, needle: Seq<char>, from: int) -> Option<int>
    decreases hay.len() + 1 - from,
{
    if from + needle.len() > hay.len() {
        None
    } else if occurs_at(hay, needle, from) {
        Some(from)
    } else {
        first_from(hay, needle, from + 1)
    }
}

pub proof fn lemma_first_from(hay: Seq<char>, needle: Seq<char>, from: int)
    requires
        0 <= from,
    ensures
        is_first_from(hay, needle, from, first_from(hay, needle, from)),
    decreases hay.len() + 1 - from,
{
    if from + needle.len() <= hay.len() && !occurs_at(hay, needle, from) {
        lemma_first_from(hay, needle, from + 1);
    }
}

/// Whether `needle` stands in `hay` at position `i`.
fn is_at(hay: &Vec<char>, needle: &Vec<char>, i: usize) -> (r: bool)
    requires
        i + needle@.len() <= hay@.len(),
    ensures
        r == occurs_at(hay@, needle@, i as int),
{
    let n: usize = hay.len();
    let mut k: usize = 0;
    while k < needle.len()
        invariant
            i + needle@.len() <= hay@.len(),
            n == hay@.len(),
            0 <= k <= needle@.len(),
            forall|m: int| 0 <= m < k ==> hay@[i + m] == #[trigger] needle@[m],
        decreases needle@.len() - k,
    {
        if hay[i + k] != needle[k] {
            assert(hay@.subrange(i as int, i + needle@.len())[k as int] != needle@[k as int]);
            return false;
        }
        k += 1;
    }
    assert(hay@.subrange(i as int, i + needle@.len()) =~= needle@);
    true
}

/// The first place at or after `from` where `needle` stands in `hay`.
pub fn find_from(hay: &Vec<char>, needle: &Vec<char>, from: usize) -> (r: Option<usize>)
    requires
        from <= hay@.len(),
    ensures
        r matches Some(i) ==> i + needle@.len() <= hay@.len(),
        first_from(hay@, needle@, from as int) == match r {
            Some(i) => Some(i as int),
            None => None,
        },
{
    let mut i: usize = from;
    while needle.len() <= hay.len() - i
        invariant
            from <= i <= hay@.len(),
            first_from(hay@, needle@, from as int) == first_from(hay@, needle@, i as int),
        decreases hay@.len() - i,
    {
        if is_at(hay, needle, i) {
            return Some(i);
        }
        assert(needle@.len() == 0 ==> hay@.subrange(i as int, i as int) =~= needle@);
        i += 1;
    }
    None
}

/// Whether `needle` stands somewhere in `hay`.
pub fn contains(hay: &str, needle: &str) -> (r: bool)
    ensures
        r == contains_text(hay@, needle@),
{
    let h = chars_of(hay);
    let n = chars_of(needle);
    proof {
        lemma_first_from(hay@, needle@, 0);
    }
    match find_from(&h, &n, 0) {
        Some(i) => {
            assert(occurs_at(hay@, needle@, i as int));
            true
        },
        None => false,
    }
}

/// `s` starts with `prefix`.
pub open spec fn has_prefix(s: Seq<char>, prefix: Seq<char>) -> bool {
    occurs_at(s, prefix, 0)
}

/// `s` ends with `suffix`.
pub open spec fn has_suffix(s: Seq<char>, suffix: Seq<char>) -> bool {
    occurs_at(s, suffix, s.len() - suffix.len())
}

/// Whether `s` starts with `prefix`.
pub fn starts_with(s: &str, prefix: &str) -> (r: bool)
    ensures
        r == has_prefix(s@, prefix@),
{
    let h = chars_of(s);
    let n = chars_of(prefix);
    n.len() <= h.len() && is_at(&h, &n, 0)
}

/// Whether `s` ends with `suffix`.
pub fn ends_with(s: &str, suffix: &str) -> (r: bool)
    ensures
        r == has_suffix(s@, suffix@),
{
    let h = chars_of(s);
    let n = chars_of(suffix);
    n.len() <= h.len() && is_at(&h, &n, h.len() - n.len())
}

/// Joining two lists of texts puts one more separator between them; a list of
/// one text is that text, and an empty one is nothing.
pub proof fn law_joined(a: Seq<Seq<char>>, b: Seq<Seq<char>>, p: Seq<char>, sep: Seq<char>)
    ensures
        joined(Seq::empty(), sep) == Seq::<char>::empty(),
        joined(seq![p], sep) == p,
        a.len() > 0 && b.len() > 0 ==> joined(a + b, sep) == joined(a, sep) + sep + joined(b, sep),
    decreases b.len(),
{
    if a.len() > 0 && b.len() > 0 {
        let all = a + b;
        let rest = b.drop_last();
        assert(all.drop_last() =~= a + rest);
        assert(all.last() == b.last());
        law_joined(a, rest, p, sep);
        if rest.len() == 0 {
            assert(a + rest =~= a);
            assert(joined(all, sep) =~= joined(a, sep) + sep + joined(b, sep));
        } else {
            assert(joined(all, sep) =~= joined(a, sep) + sep + joined(b, sep));
        }
    }
}

/// A single piece is one entry, without the white space around it, or none if it
/// is blank.
pub proof fn law_entry_of_one(p: Seq<char>)
    ensures
        entries(seq![p]) == if trimmed(p).len() > 0 {
            seq![trimmed(p)]
        } else {
            Seq::<Seq<char>>::empty()
        },
{
    reveal_with_fuel(entries, 2);
    assert(seq![p].drop_last() =~= Seq::empty());
    assert(entries(seq![p].drop_last()) =~= Seq::<Seq<char>>::empty());
    assert(Seq::<Seq<char>>::empty().push(trimmed(p)) =~= seq![trimmed(p)]);
}

/// One text stands in another at a place just if each of its characters does.
pub proof fn law_occurs_at(hay: Seq<char>, needle: Seq<char>, i: int)
    ensures
        occurs_at(hay, needle, i) <==> 0 <= i && i + needle.len() <= hay.len() && forall|k: int|
            0 <= k < needle.len() ==> hay[i + k] == #[trigger] needle[k],
{
    if 0 <= i && i + needle.len() <= hay.len() {
        let part = hay.subrange(i, i + needle.len());
        if forall|k: int| 0 <= k < needle.len() ==> hay[i + k] == #[trigger] needle[k] {
            assert(part =~= needle);
        }
        if part == needle {
            assert forall|k: int| 0 <= k < needle.len() implies hay[i + k] == #[trigger] needle[k] by {
                assert(part[k] == hay[i + k]);
            }
        }
    }
}

/// A text begins and ends with the two parts it is put together from, and holds
/// what stands between two others.
pub proof fn law_parts_of_a_text(a: Seq<char>, b: Seq<char>, c: Seq<char>)
    ensures
        has_prefix(a + b, a),
        has_suffix(a + b, b),
        contains_text(a + b + c, b),
{
    assert((a + b).subrange(0, a.len() as int) =~= a);
    assert((a + b).subrange(a.len() as int, (a + b).len() as int) =~= b);
    let all = a + b + c;
    assert(all.subrange(a.len() as int, (a.len() + b.len()) as int) =~= b);
    assert(occurs_at(all, b, a.len() as int));
}

/// Text that is cut at characters: line ends and commas; white space; slashes and
/// backslashes; or one character alone.
pub proof fn law_separators(c: char, d: char)
    ensures
        Separator::At(d).cuts(c) <==> c == d,
        Separator::LineOrComma.cuts(c) <==> c == ',' || c == '\n',
        Separator::White.cuts(c) <==> is_white(c),
        Separator::Slash.cuts(c) <==> c == '/' || c == '\\',
{
}

/// A text begins with another just if its first characters are that one, and ends
/// with it just if its last are.
pub proof fn law_prefix_and_suffix(s: Seq<char>, part: Seq<char>)
    ensures
        has_prefix(s, part) <==> part.len() <= s.len() && s.take(part.len() as int) == part,
        has_suffix(s, part) <==> part.len() <= s.len() && s.skip(s.len() - part.len()) == part,
{
    if part.len() <= s.len() {
        assert(s.subrange(0, part.len() as int) =~= s.take(part.len() as int));
        assert(s.subrange(s.len() - part.len(), s.len() as int) =~= s.skip(s.len() - part.len()));
    }
}

/// What is found first stands there, at or behind the start and with no other occurrence
/// between; and nothing is found exactly if there is none from the start on.
pub proof fn law_first_from(hay: Seq<char>, needle: Seq<char>, from: int, k: int)
    requires
        0 <= from <= k,
    ensures
        first_from(hay, needle, from) matches Some(i) ==> from <= i && occurs_at(hay, needle, i) && (
        k < i ==> !occurs_at(hay, needle, k)),
        first_from(hay, needle, from) is None ==> !occurs_at(hay, needle, k),
{
    lemma_first_from(hay, needle, from);
}

} // verus!
