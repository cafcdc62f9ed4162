//! Screenshots taken while dictating: their names, their place in the
//! transcript, and the geometry and pixels of a captured window.

use crate::location::Location;
use crate::numbers::{decimal, padded, to_padded_decimal};
use crate::pieces::{find_from, first_from, joined, lemma_first_from, occurs_at, texts};
use crate::text::{
    all_ascii, ascii_lower, chars_of, is_blank, is_white, law_blank_means_all_white, lowercase,
    text_of, to_lowercase, trimmed,
};
use vstd::prelude::*;

verus! {

// ---------------------------------------------------------------------------
// Names
// ---------------------------------------------------------------------------

/// The name of a screenshot's file.
pub open spec fn screenshot_name(number: nat) -> Seq<char> {
    "screenshot-"@ + padded(decimal(number), 3, '0') + ".png"@
}

/// Where the screenshot of that number is kept.
pub fn next_path(entry_dir: &Location, number: usize) -> (r: Location)
    ensures
        r@ == entry_dir@.below(screenshot_name(number as nat)),
{
    let mut name = "screenshot-".to_owned();
    name.append(to_padded_decimal(number as u64, 3, '0').as_str());
    name.append(".png");
    entry_dir.duplicate().join(name.as_str())
}

// ---------------------------------------------------------------------------
// Paths in the transcript
// ---------------------------------------------------------------------------

/// A path as it stands in a transcript.
pub open spec fn quoted(path: Seq<char>) -> Seq<char> {
    " \""@ + path + "\""@
}

/// Where the first `n` matches of `needle` end, each looked for behind the one
/// before.
pub open spec fn match_ends(lower: Seq<char>, needle: Seq<char>, n: nat, from: int) -> Seq<int>
    decreases n,
{
    if n == 0 {
        Seq::empty()
    } else {
        match first_from(lower, needle, from) {
            Some(i) => seq![i + needle.len()] + match_ends(
                lower,
                needle,
                (n - 1) as nat,
                i + needle.len(),
            ),
            None => Seq::empty(),
        }
    }
}

/// How many characters of a text it takes until they are `at` characters long
/// in lower case, given how long each of them is there.
pub open spec fn origin(widths: Seq<nat>, at: int) -> int
    decreases widths.len(),
{
    if at <= 0 || widths.len() == 0 {
        0
    } else {
        1 + origin(widths.drop_first(), at - widths[0])
    }
}

/// Where in the text the paths go.
pub open spec fn places(
    lower: Seq<char>,
    needle: Seq<char>,
    widths: Seq<nat>,
    n: nat,
) -> Seq<int> {
    match_ends(lower, needle, n, 0).map_values(|end: int| origin(widths, end))
}

/// Where the text goes on behind the first `k` places.
pub open spec fn resume(places: Seq<int>, k: int) -> int {
    if k <= 0 {
        0
    } else {
        places[k - 1]
    }
}

/// The text up to the last of the first `k` places, with a path at each.
pub open spec fn woven(
    text: Seq<char>,
    places: Seq<int>,
    paths: Seq<Seq<char>>,
    k: int,
) -> Seq<char>
    decreases k,
{
    if k <= 0 {
        Seq::empty()
    } else {
        woven(text, places, paths, k - 1) + text.subrange(resume(places, k - 1), places[k - 1])
            + quoted(paths[k - 1])
    }
}

/// The whole text with a path at each place.
pub open spec fn with_places(text: Seq<char>, places: Seq<int>, paths: Seq<Seq<char>>) -> Seq<
    char,
> {
    woven(text, places, paths, places.len() as int) + text.subrange(
        resume(places, places.len() as int),
        text.len() as int,
    )
}

/// A text followed by the phrase and each of the paths.
pub open spec fn with_leftovers(body: Seq<char>, phrase: Seq<char>, paths: Seq<Seq<char>>) -> Seq<
    char,
>
    decreases paths.len(),
{
    if paths.len() == 0 {
        body
    } else {
        let before = with_leftovers(body, phrase, paths.drop_last());
        let gap = if trimmed(before).len() > 0 {
            " "@
        } else {
            Seq::empty()
        };
        before + gap + phrase + quoted(paths.last())
    }
}

/// The text with the paths in it: each behind an occurrence of the phrase, in
/// order, and the rest at the end, each behind a phrase of its own. `lower` and
/// `needle` are the text and the phrase in lower case, `widths` says how long
/// each character of the text is in lower case.
pub open spec fn injected(
    text: Seq<char>,
    phrase: Seq<char>,
    lower: Seq<char>,
    needle: Seq<char>,
    widths: Seq<nat>,
    paths: Seq<Seq<char>>,
) -> Seq<char> {
    if trimmed(phrase).len() == 0 || paths.len() == 0 {
        text
    } else {
        let found = places(lower, needle, widths, paths.len());
        with_leftovers(
            with_places(text, found, paths),
            phrase,
            paths.skip(found.len() as int),
        )
    }
}

/// How long each character of a text is in lower case.
pub open spec fn lower_widths(text: Seq<char>) -> Seq<nat> {
    text.map_values(|c: char| lowercase(seq![c]).len())
}

/// As many ones.
pub open spec fn ones(n: nat) -> Seq<nat> {
    Seq::new(n, |i: int| 1nat)
}

/// The values of a list of numbers.
pub open spec fn nats(v: Seq<usize>) -> Seq<nat> {
    v.map_values(|n: usize| n as nat)
}

proof fn lemma_origin(widths: Seq<nat>, a: int, b: int)
    requires
        a <= b,
    ensures
        0 <= origin(widths, a) <= origin(widths, b) <= widths.len(),
    decreases widths.len(),
{
    if b > 0 && widths.len() > 0 {
        lemma_origin(widths.drop_first(), a - widths[0], b - widths[0]);
    }
}

/// How many characters of a text it takes until they are `at` long in lower
/// case.
fn find_origin(widths: &Vec<usize>, at: usize) -> (r: usize)
    ensures
        r == origin(nats(widths@), at as int),
        r <= widths@.len(),
{
    let ghost all = nats(widths@);
    let mut left: usize = at;
    let mut i: usize = 0;
    assert(all.skip(0) =~= all);
    while i < widths.len() && left > 0
        invariant
            all == nats(widths@),
            0 <= i <= widths@.len(),
            origin(all, at as int) == i + origin(all.skip(i as int), left as int),
        decreases widths@.len() - i,
    {
        let width: usize = widths[i];
        assert(all.skip(i as int).drop_first() =~= all.skip(i + 1));
        assert(all.skip(i as int)[0] == width);
        if width >= left {
            assert(origin(all.skip(i + 1), left - width) == 0);
            left = 0;
        } else {
            left -= width;
        }
        i += 1;
    }
    i
}

/// Appends a path as it stands in a transcript.
fn push_quoted(r: &mut String, path: &str)
    ensures
        final(r)@ == old(r)@ + quoted(path@),
{
    let ghost before = r@;
    r.append(" \"");
    r.append(path);
    r.append("\"");
    assert(r@ =~= before + quoted(path@));
}

proof fn lemma_match_ends(lower: Seq<char>, needle: Seq<char>, n: nat, from: int)
    requires
        0 <= from,
    ensures
        match_ends(lower, needle, n, from).len() <= n,
        forall|k: int|
            0 <= k < match_ends(lower, needle, n, from).len() ==> from <= #[trigger] match_ends(
                lower,
                needle,
                n,
                from,
            )[k] <= lower.len() && occurs_at(
                lower,
                needle,
                match_ends(lower, needle, n, from)[k] - needle.len(),
            ),
        forall|j: int, k: int|
            0 <= j <= k < match_ends(lower, needle, n, from).len() ==> (#[trigger] match_ends(
                lower,
                needle,
                n,
                from,
            )[j]) <= (#[trigger] match_ends(lower, needle, n, from)[k]),
    decreases n,
{
    if n > 0 {
        lemma_first_from(lower, needle, from);
        if let Some(i) = first_from(lower, needle, from) {
            lemma_match_ends(lower, needle, (n - 1) as nat, i + needle.len());
        }
    }
}

/// The places are in the text and in order.
proof fn lemma_places(lower: Seq<char>, needle: Seq<char>, widths: Seq<nat>, n: nat)
    ensures
        places(lower, needle, widths, n).len() <= n,
        forall|k: int|
            0 <= k < places(lower, needle, widths, n).len() ==> 0 <= #[trigger] places(
                lower,
                needle,
                widths,
                n,
            )[k] <= widths.len(),
        forall|j: int, k: int|
            0 <= j <= k < places(lower, needle, widths, n).len() ==> (#[trigger] places(
                lower,
                needle,
                widths,
                n,
            )[j]) <= (#[trigger] places(lower, needle, widths, n)[k]),
{
    lemma_match_ends(lower, needle, n, 0);
    let ends = match_ends(lower, needle, n, 0);
    let all = places(lower, needle, widths, n);
    assert forall|k: int| 0 <= k < all.len() implies 0 <= #[trigger] all[k] <= widths.len() by {
        lemma_origin(widths, ends[k], ends[k]);
    }
    assert forall|j: int, k: int| 0 <= j <= k < all.len() implies (#[trigger] all[j])
        <= (#[trigger] all[k]) by {
        lemma_origin(widths, ends[j], ends[k]);
    }
}

/// Puts the paths into the text, given the text and the phrase in lower case
/// and how long each character of the text is there.
pub fn inject_at(
    text: &str,
    phrase: &str,
    lower: &str,
    needle: &str,
    widths: &Vec<usize>,
    paths: &[String],
) -> (r: String)
    requires
        widths@.len() == text@.len(),
    ensures
        r@ == injected(text@, phrase@, lower@, needle@, nats(widths@), texts(paths@)),
{
    if is_blank(phrase) || paths.len() == 0 {
        return text.to_owned();
    }
    let ghost ps = texts(paths@);
    let ghost found = places(lower@, needle@, nats(widths@), ps.len());
    let ghost ends = match_ends(lower@, needle@, ps.len(), 0);
    proof {
        lemma_places(lower@, needle@, nats(widths@), ps.len());
        lemma_match_ends(lower@, needle@, ps.len(), 0);
    }
    let chars = chars_of(text);
    let lower_chars = chars_of(lower);
    let needle_chars = chars_of(needle);
    let lower_len: usize = lower_chars.len();
    let mut r = String::new();
    let mut text_at: usize = 0;
    let mut search_at: usize = 0;
    let mut k: usize = 0;
    let mut more = true;
    while k < paths.len() && more
        invariant
            ps == texts(paths@),
            chars@ == text@,
            lower_chars@ == lower@,
            needle_chars@ == needle@,
            lower_len == lower@.len(),
            widths@.len() == text@.len(),
            ends == match_ends(lower@, needle@, ps.len(), 0),
            found == places(lower@, needle@, nats(widths@), ps.len()),
            found.len() <= ps.len(),
            forall|j: int| 0 <= j < found.len() ==> 0 <= #[trigger] found[j] <= text@.len(),
            forall|i: int, j: int|
                0 <= i <= j < found.len() ==> (#[trigger] found[i]) <= (#[trigger] found[j]),
            0 <= k <= found.len(),
            k <= paths@.len(),
            search_at <= lower@.len(),
            text_at == resume(found, k as int),
            text_at <= text@.len(),
            more ==> ends.skip(k as int) == match_ends(
                lower@,
                needle@,
                (ps.len() - k) as nat,
                search_at as int,
            ),
            !more ==> k == found.len(),
            r@ == woven(text@, found, ps, k as int),
        decreases paths@.len() - k, (if more { 1int } else { 0int }),
    {
        match find_from(&lower_chars, &needle_chars, search_at) {
            Some(i) => {
                let end: usize = i + needle_chars.len();
                assert(found.len() == ends.len());
                assert(ends.skip(k as int).len() > 0);
                assert(ends.skip(k as int)[0] == end);
                assert(ends[k as int] == end);
                assert(found[k as int] == origin(nats(widths@), end as int));
                assert(k > 0 ==> found[k - 1] <= found[k as int]);
                let place: usize = find_origin(widths, end);
                r.append(text_of(&chars, text_at, place).as_str());
                push_quoted(&mut r, paths[k].as_str());
                assert(ends.skip(k + 1) =~= ends.skip(k as int).skip(1));
                assert(ends.skip(k as int).skip(1) =~= match_ends(
                    lower@,
                    needle@,
                    (ps.len() - k - 1) as nat,
                    end as int,
                ));
                text_at = place;
                search_at = end;
                k += 1;
            },
            None => {
                assert(ends.skip(k as int).len() == 0);
                more = false;
            },
        }
    }
    proof {
        if more {
            assert(k == found.len());
        }
    }
    r.append(text_of(&chars, text_at, chars.len()).as_str());
    let ghost body = with_places(text@, found, ps);
    let ghost rest = ps.skip(found.len() as int);
    assert(r@ =~= body);
    let first: usize = k;
    assert(rest.take(0) =~= Seq::empty());
    while k < paths.len()
        invariant
            ps == texts(paths@),
            first <= k <= paths@.len(),
            first == found.len(),
            rest == ps.skip(first as int),
            r@ == with_leftovers(body, phrase@, rest.take(k - first)),
        decreases paths@.len() - k,
    {
        let ghost now = rest.take(k + 1 - first);
        assert(now.drop_last() =~= rest.take(k - first));
        assert(now.last() == paths@[k as int]@);
        if !is_blank(r.as_str()) {
            r.append(" ");
        }
        r.append(phrase);
        push_quoted(&mut r, paths[k].as_str());
        assert(r@ =~= with_leftovers(body, phrase@, now));
        k += 1;
    }
    assert(rest.take(rest.len() as int) =~= rest);
    r
}

/// Puts the paths into a transcript: each right behind an occurrence of the
/// phrase, in order, whatever the case of its letters, and the rest at the end,
/// so that no screenshot is lost when the phrase was heard but spelled
/// otherwise.
pub fn inject_paths(text: &str, phrase: &str, paths: &[String]) -> (r: String)
    ensures
        r@ == injected(
            text@,
            phrase@,
            lowercase(text@),
            lowercase(phrase@),
            lower_widths(text@),
            texts(paths@),
        ),
        all_ascii(text@) && all_ascii(phrase@) ==> r@ == injected(
            text@,
            phrase@,
            ascii_lower(text@),
            ascii_lower(phrase@),
            ones(text@.len()),
            texts(paths@),
        ),
{
    let lower = to_lowercase(text);
    let needle = to_lowercase(phrase);
    let chars = chars_of(text);
    let mut widths: Vec<usize> = Vec::new();
    let mut i: usize = 0;
    while i < chars.len()
        invariant
            chars@ == text@,
            0 <= i <= chars@.len(),
            nats(widths@) =~= lower_widths(text@).take(i as int),
            all_ascii(text@) ==> forall|j: int| 0 <= j < i ==> #[trigger] nats(widths@)[j] == 1,
        decreases chars@.len() - i,
    {
        let one = text_of(&chars, i, i + 1);
        assert(one@ =~= seq![text@[i as int]]);
        let lowered = to_lowercase(one.as_str());
        let lowered_chars = chars_of(lowered.as_str());
        let ghost before = nats(widths@);
        widths.push(lowered_chars.len());
        assert(nats(widths@) =~= before.push(lowered@.len()));
        assert(lower_widths(text@)[i as int] == lowered@.len());
        i += 1;
    }
    assert(nats(widths@) =~= lower_widths(text@));
    assert(all_ascii(text@) ==> nats(widths@) =~= ones(text@.len()));
    inject_at(text, phrase, lower.as_str(), needle.as_str(), &widths, paths)
}

// ---------------------------------------------------------------------------
// What holds of every transcript with paths
// ---------------------------------------------------------------------------

/// In a text of ASCII characters, each path stands right behind the phrase, in
/// whatever case its letters are.
pub proof fn law_paths_follow_the_phrase(text: Seq<char>, phrase: Seq<char>, n: nat, k: int)
    requires
        all_ascii(text),
        all_ascii(phrase),
        0 <= k < places(ascii_lower(text), ascii_lower(phrase), ones(text.len()), n).len(),
    ensures
        ({
            let place = places(ascii_lower(text), ascii_lower(phrase), ones(text.len()), n)[k];
            &&& phrase.len() <= place <= text.len()
            &&& ascii_lower(text.subrange(place - phrase.len(), place)) == ascii_lower(phrase)
        }),
{
    let lower = ascii_lower(text);
    let needle = ascii_lower(phrase);
    lemma_match_ends(lower, needle, n, 0);
    let end = match_ends(lower, needle, n, 0)[k];
    lemma_origin_of_ones(text.len(), end);
    assert(lower.subrange(end - needle.len(), end) == needle);
    assert(ascii_lower(text.subrange(end - phrase.len(), end)) =~= lower.subrange(
        end - needle.len(),
        end,
    ));
}

proof fn lemma_origin_of_ones(n: nat, at: int)
    requires
        0 <= at <= n,
    ensures
        origin(ones(n), at) == at,
    decreases n,
{
    if at > 0 {
        assert(ones(n).drop_first() =~= ones((n - 1) as nat));
        lemma_origin_of_ones((n - 1) as nat, at - 1);
    }
}

/// The quoted paths stand in `text` one behind the other, in order.
pub open spec fn holds_in_order(text: Seq<char>, paths: Seq<Seq<char>>) -> bool
    decreases paths.len(),
{
    paths.len() == 0 || exists|i: int|
        #[trigger] occurs_at(text, quoted(paths.last()), i) && holds_in_order(
            text.take(i),
            paths.drop_last(),
        )
}

proof fn lemma_holds_in_longer(a: Seq<char>, b: Seq<char>, paths: Seq<Seq<char>>)
    requires
        holds_in_order(a, paths),
    ensures
        holds_in_order(a + b, paths),
    decreases paths.len(),
{
    if paths.len() > 0 {
        let q = quoted(paths.last());
        let i = choose|i: int|
            #[trigger] occurs_at(a, q, i) && holds_in_order(a.take(i), paths.drop_last());
        assert((a + b).subrange(i, i + q.len()) =~= a.subrange(i, i + q.len()));
        assert(occurs_at(a + b, q, i));
        assert((a + b).take(i) =~= a.take(i));
    }
}

proof fn lemma_holds_one_more(a: Seq<char>, paths: Seq<Seq<char>>)
    requires
        paths.len() > 0,
        holds_in_order(a, paths.drop_last()),
    ensures
        holds_in_order(a + quoted(paths.last()), paths),
{
    let q = quoted(paths.last());
    let all = a + q;
    assert(all.subrange(a.len() as int, all.len() as int) =~= q);
    assert(occurs_at(all, q, a.len() as int));
    assert(all.take(a.len() as int) =~= a);
}

proof fn lemma_woven_holds(
    text: Seq<char>,
    places: Seq<int>,
    paths: Seq<Seq<char>>,
    k: int,
)
    requires
        0 <= k <= places.len() <= paths.len(),
    ensures
        holds_in_order(woven(text, places, paths, k), paths.take(k)),
    decreases k,
{
    if k > 0 {
        lemma_woven_holds(text, places, paths, k - 1);
        let before = woven(text, places, paths, k - 1);
        let between = text.subrange(resume(places, k - 1), places[k - 1]);
        lemma_holds_in_longer(before, between, paths.take(k - 1));
        assert(paths.take(k).drop_last() =~= paths.take(k - 1));
        assert(paths.take(k).last() == paths[k - 1]);
        lemma_holds_one_more(before + between, paths.take(k));
    }
}

proof fn lemma_leftovers_hold(
    body: Seq<char>,
    phrase: Seq<char>,
    first: Seq<Seq<char>>,
    rest: Seq<Seq<char>>,
)
    requires
        holds_in_order(body, first),
    ensures
        holds_in_order(with_leftovers(body, phrase, rest), first + rest),
    decreases rest.len(),
{
    if rest.len() == 0 {
        assert(first + rest =~= first);
    } else {
        let fewer = rest.drop_last();
        lemma_leftovers_hold(body, phrase, first, fewer);
        let before = with_leftovers(body, phrase, fewer);
        let gap = if trimmed(before).len() > 0 {
            " "@
        } else {
            Seq::empty()
        };
        lemma_holds_in_longer(before, gap, first + fewer);
        lemma_holds_in_longer(before + gap, phrase, first + fewer);
        assert((first + rest).drop_last() =~= first + fewer);
        assert((first + rest).last() == rest.last());
        lemma_holds_one_more(before + gap + phrase, first + rest);
    }
}

/// No screenshot is lost: unless the phrase is blank, all paths stand in the
/// transcript, in order, wherever the phrase was found.
pub proof fn law_no_path_is_lost(
    text: Seq<char>,
    phrase: Seq<char>,
    lower: Seq<char>,
    needle: Seq<char>,
    widths: Seq<nat>,
    paths: Seq<Seq<char>>,
)
    requires
        widths.len() == text.len(),
        trimmed(phrase).len() > 0,
    ensures
        holds_in_order(injected(text, phrase, lower, needle, widths, paths), paths),
{
    if paths.len() > 0 {
        let found = places(lower, needle, widths, paths.len());
        let n = found.len() as int;
        lemma_places(lower, needle, widths, paths.len());
        lemma_woven_holds(text, found, paths, n);
        lemma_holds_in_longer(
            woven(text, found, paths, n),
            text.subrange(resume(found, n), text.len() as int),
            paths.take(n),
        );
        lemma_leftovers_hold(with_places(text, found, paths), phrase, paths.take(n), paths.skip(n));
        assert(paths.take(n) + paths.skip(n) =~= paths);
    }
}

/// The characters of `part` stand in `whole` in the same order, with others
/// between them.
pub open spec fn is_part_of(part: Seq<char>, whole: Seq<char>) -> bool
    decreases whole.len(),
{
    if part.len() == 0 {
        true
    } else if whole.len() == 0 {
        false
    } else {
        ||| part.last() == whole.last() && is_part_of(part.drop_last(), whole.drop_last())
        ||| is_part_of(part, whole.drop_last())
    }
}

proof fn lemma_part_of_longer(part: Seq<char>, whole: Seq<char>, more: Seq<char>)
    requires
        is_part_of(part, whole),
    ensures
        is_part_of(part, whole + more),
    decreases more.len(),
{
    if more.len() == 0 {
        assert(whole + more =~= whole);
    } else {
        lemma_part_of_longer(part, whole, more.drop_last());
        assert((whole + more).drop_last() =~= whole + more.drop_last());
    }
}

proof fn lemma_both_longer(part: Seq<char>, whole: Seq<char>, more: Seq<char>)
    requires
        is_part_of(part, whole),
    ensures
        is_part_of(part + more, whole + more),
    decreases more.len(),
{
    if more.len() == 0 {
        assert(part + more =~= part);
        assert(whole + more =~= whole);
    } else {
        lemma_both_longer(part, whole, more.drop_last());
        assert((part + more).drop_last() =~= part + more.drop_last());
        assert((whole + more).drop_last() =~= whole + more.drop_last());
    }
}

proof fn lemma_woven_keeps_text(
    text: Seq<char>,
    places: Seq<int>,
    paths: Seq<Seq<char>>,
    k: int,
)
    requires
        0 <= k <= places.len() <= paths.len(),
        forall|j: int| 0 <= j < places.len() ==> 0 <= #[trigger] places[j] <= text.len(),
        forall|i: int, j: int|
            0 <= i <= j < places.len() ==> (#[trigger] places[i]) <= (#[trigger] places[j]),
    ensures
        is_part_of(text.take(resume(places, k)), woven(text, places, paths, k)),
    decreases k,
{
    if k > 0 {
        lemma_woven_keeps_text(text, places, paths, k - 1);
        let from = resume(places, k - 1);
        let to = places[k - 1];
        assert(0 <= from <= to);
        let before = woven(text, places, paths, k - 1);
        lemma_both_longer(text.take(from), before, text.subrange(from, to));
        assert(text.take(from) + text.subrange(from, to) =~= text.take(to));
        lemma_part_of_longer(
            text.take(to),
            before + text.subrange(from, to),
            quoted(paths[k - 1]),
        );
    }
}

proof fn lemma_leftovers_keep(
    part: Seq<char>,
    body: Seq<char>,
    phrase: Seq<char>,
    paths: Seq<Seq<char>>,
)
    requires
        is_part_of(part, body),
    ensures
        is_part_of(part, with_leftovers(body, phrase, paths)),
    decreases paths.len(),
{
    if paths.len() > 0 {
        lemma_leftovers_keep(part, body, phrase, paths.drop_last());
        let before = with_leftovers(body, phrase, paths.drop_last());
        let gap = if trimmed(before).len() > 0 {
            " "@
        } else {
            Seq::empty()
        };
        lemma_part_of_longer(part, before, gap);
        lemma_part_of_longer(part, before + gap, phrase);
        lemma_part_of_longer(part, before + gap + phrase, quoted(paths.last()));
    }
}

/// Nothing of the dictated text is lost or changed.
pub proof fn law_text_is_kept(
    text: Seq<char>,
    phrase: Seq<char>,
    lower: Seq<char>,
    needle: Seq<char>,
    widths: Seq<nat>,
    paths: Seq<Seq<char>>,
)
    requires
        widths.len() == text.len(),
    ensures
        is_part_of(text, injected(text, phrase, lower, needle, widths, paths)),
{
    let empty = Seq::<char>::empty();
    if trimmed(phrase).len() == 0 || paths.len() == 0 {
        lemma_both_longer(empty, empty, text);
        assert(empty + text =~= text);
    } else {
        let found = places(lower, needle, widths, paths.len());
        let n = found.len() as int;
        lemma_places(lower, needle, widths, paths.len());
        lemma_woven_keeps_text(text, found, paths, n);
        let at = resume(found, n);
        let tail = text.subrange(at, text.len() as int);
        lemma_both_longer(text.take(at), woven(text, found, paths, n), tail);
        assert(text.take(at) + tail =~= text);
        lemma_leftovers_keep(text, with_places(text, found, paths), phrase, paths.skip(n));
    }
}

// ---------------------------------------------------------------------------
// A captured window
// ---------------------------------------------------------------------------

/// The bounds of a window on the screen.
#[derive(Clone, Copy, Debug)]
pub struct WindowRect {
    pub left: i32,
    pub top: i32,
    pub right: i32,
    pub bottom: i32,
}

impl WindowRect {
    /// The window has a positive width and height that fit a 32-bit number.
    pub open spec fn is_valid(self) -> bool {
        &&& 0 < self.right - self.left <= i32::MAX
        &&& 0 < self.bottom - self.top <= i32::MAX
    }

    /// The point lies in the window.
    pub open spec fn holds(self, x: i32, y: i32) -> bool {
        self.left <= x < self.right && self.top <= y < self.bottom
    }

    /// The width and the height, or `None` if a window cannot have them.
    pub open spec fn extent(self) -> Option<(int, int)> {
        if self.is_valid() {
            Some((self.right - self.left, self.bottom - self.top))
        } else {
            None
        }
    }

    /// The width and the height, or `None` if a window cannot have them.
    pub fn size(&self) -> (r: Option<(u32, u32)>)
        ensures
            self.extent() == match r {
                Some((w, h)) => Some((w as int, h as int)),
                None => None,
            },
            r is Some <==> self.is_valid(),
            r matches Some((w, h)) ==> w == self.right - self.left && h == self.bottom - self.top,
    {
        let width: i64 = self.right as i64 - self.left as i64;
        let height: i64 = self.bottom as i64 - self.top as i64;
        if width <= 0 || height <= 0 || width > 0x7fff_ffff || height > 0x7fff_ffff {
            None
        } else {
            Some((width as u32, height as u32))
        }
    }
}

/// The mouse cursor as it is on the screen, with the position of its hot spot
/// in the cursor's picture if that is known.
#[derive(Clone, Copy, Debug)]
pub struct ScreenCursor {
    pub showing: bool,
    pub x: i32,
    pub y: i32,
    pub hotspot: Option<(u32, u32)>,
}

/// Where in the window's picture the cursor is drawn, if it is.
pub open spec fn cursor_drawn(cursor: ScreenCursor, rect: WindowRect) -> Option<(int, int)> {
    if !cursor.showing || !rect.holds(cursor.x, cursor.y) {
        None
    } else {
        match cursor.hotspot {
            Some((hx, hy)) => Some((cursor.x - rect.left - hx, cursor.y - rect.top - hy)),
            None => Some((cursor.x - rect.left, cursor.y - rect.top)),
        }
    }
}

/// Where in the window's picture the cursor is drawn: only if it shows and
/// points into the window, with its hot spot at that point.
pub fn cursor_place(cursor: &ScreenCursor, rect: &WindowRect) -> (r: Option<(i32, i32)>)
    requires
        rect.is_valid(),
        cursor.hotspot matches Some((hx, hy)) ==> hx <= i32::MAX && hy <= i32::MAX,
    ensures
        cursor_drawn(*cursor, *rect) == match r {
            Some((x, y)) => Some((x as int, y as int)),
            None => None,
        },
        r is Some <==> cursor.showing && rect.holds(cursor.x, cursor.y),
        r matches Some((x, y)) ==> match cursor.hotspot {
            Some((hx, hy)) => x == cursor.x - rect.left - hx && y == cursor.y - rect.top - hy,
            None => x == cursor.x - rect.left && y == cursor.y - rect.top,
        },
{
    if !cursor.showing || cursor.x < rect.left || cursor.x >= rect.right || cursor.y < rect.top
        || cursor.y >= rect.bottom {
        return None;
    }
    let x: i32 = cursor.x - rect.left;
    let y: i32 = cursor.y - rect.top;
    match cursor.hotspot {
        Some((hx, hy)) => Some((x - hx as i32, y - hy as i32)),
        None => Some((x, y)),
    }
}

/// One byte of a picture whose pixels have four bytes each, with the first and
/// the third byte of every whole pixel exchanged.
pub open spec fn swapped_byte(pixels: Seq<u8>, i: int) -> u8 {
    if i >= pixels.len() - pixels.len() % 4 {
        pixels[i]
    } else if i % 4 == 0 {
        pixels[i + 2]
    } else if i % 4 == 2 {
        pixels[i - 2]
    } else {
        pixels[i]
    }
}

/// A picture with red and blue exchanged.
pub open spec fn swapped(pixels: Seq<u8>) -> Seq<u8> {
    Seq::new(pixels.len(), |i: int| swapped_byte(pixels, i))
}

/// A picture with every whole pixel opaque: its fourth byte is 255.
pub open spec fn opaque_pixels(pixels: Seq<u8>) -> Seq<u8> {
    Seq::new(
        pixels.len(),
        |i: int|
            if i % 4 == 3 {
                255u8
            } else {
                pixels[i]
            },
    )
}

/// Exchanges red and blue.
pub fn swap_red_and_blue(pixels: &mut Vec<u8>)
    ensures
        final(pixels)@ == swapped(old(pixels)@),
{
    let ghost before = pixels@;
    let n: usize = pixels.len();
    let mut i: usize = 0;
    while n - i >= 4
        invariant
            n == pixels@.len() == before.len(),
            i <= n,
            i % 4 == 0,
            forall|k: int| 0 <= k < i ==> pixels@[k] == swapped_byte(before, k),
            forall|k: int| i <= k < n ==> pixels@[k] == before[k],
        decreases n - i,
    {
        let first: u8 = pixels[i];
        let third: u8 = pixels[i + 2];
        pixels.set(i, third);
        pixels.set(i + 2, first);
        i += 4;
    }
    assert(pixels@ =~= swapped(before));
}

/// Turns a picture as the screen gives it, blue first and without
/// transparency, into one with red first and every pixel opaque.
pub fn to_rgba(pixels: &mut Vec<u8>)
    ensures
        final(pixels)@ == opaque_pixels(swapped(old(pixels)@)),
{
    swap_red_and_blue(pixels);
    let ghost before = pixels@;
    let n: usize = pixels.len();
    let mut i: usize = 0;
    while n - i >= 4
        invariant
            n == pixels@.len() == before.len(),
            i <= n,
            i % 4 == 0,
            forall|k: int| 0 <= k < i ==> pixels@[k] == opaque_pixels(before)[k],
            forall|k: int| i <= k < n ==> pixels@[k] == before[k],
        decreases n - i,
    {
        pixels.set(i + 3, 255);
        i += 4;
    }
    assert(pixels@ =~= opaque_pixels(before));
}

/// Exchanging red and blue twice gives the picture back.
pub proof fn law_swapping_twice(pixels: Seq<u8>)
    ensures
        swapped(swapped(pixels)) == pixels,
{
    assert(swapped(swapped(pixels)) =~= pixels);
}

// ---------------------------------------------------------------------------
// Which places are found, and what stands there
// ---------------------------------------------------------------------------

/// Where the search for the `k`-th occurrence begins.
pub open spec fn search_start(from: int, ends: Seq<int>, k: int) -> int {
    if k <= 0 {
        from
    } else {
        ends[k - 1]
    }
}

/// Up to `n` occurrences of `needle` end at `ends`, none before `from`, and none is
/// passed over: none begins between the end of one and the beginning of the
/// next, and none behind the last, unless there are `n` already.
pub open spec fn finds_all(
    lower: Seq<char>,
    needle: Seq<char>,
    from: int,
    ends: Seq<int>,
    n: nat,
) -> bool {
    &&& ends.len() <= n
    &&& forall|k: int|
        0 <= k < ends.len() ==> search_start(from, ends, k) <= (#[trigger] ends[k]) - needle.len()
            && occurs_at(lower, needle, ends[k] - needle.len())
    &&& forall|k: int, i: int|
        #![trigger ends[k], occurs_at(lower, needle, i)]
        0 <= k < ends.len() && search_start(from, ends, k) <= i < ends[k] - needle.len()
            ==> !occurs_at(lower, needle, i)
    &&& ends.len() < n ==> forall|i: int|
        search_start(from, ends, ends.len() as int) <= i ==> !(#[trigger] occurs_at(
            lower,
            needle,
            i,
        ))
}

/// The occurrences of the phrase are taken one behind the other, and none is
/// passed over.
pub proof fn law_no_occurrence_is_passed_over(
    lower: Seq<char>,
    needle: Seq<char>,
    n: nat,
    from: int,
)
    requires
        0 <= from,
    ensures
        finds_all(lower, needle, from, match_ends(lower, needle, n, from), n),
    decreases n,
{
    let ends = match_ends(lower, needle, n, from);
    if n > 0 {
        lemma_first_from(lower, needle, from);
        if let Some(first) = first_from(lower, needle, from) {
            let end = first + needle.len();
            let rest = match_ends(lower, needle, (n - 1) as nat, end);
            law_no_occurrence_is_passed_over(lower, needle, (n - 1) as nat, end);
            assert(ends == seq![end] + rest);
            assert(ends[0] == end);
            assert forall|k: int| 0 <= k < ends.len() implies search_start(from, ends, k) <= (
            #[trigger] ends[k]) - needle.len() && occurs_at(
                lower,
                needle,
                ends[k] - needle.len(),
            ) by {
                if k > 0 {
                    assert(ends[k] == rest[k - 1]);
                    assert(search_start(from, ends, k) == search_start(end, rest, k - 1));
                }
            }
            assert forall|k: int, i: int|
                #![trigger ends[k], occurs_at(lower, needle, i)]
                0 <= k < ends.len() && search_start(from, ends, k) <= i < ends[k]
                    - needle.len() implies !occurs_at(lower, needle, i) by {
                if k > 0 {
                    assert(ends[k] == rest[k - 1]);
                    assert(search_start(from, ends, k) == search_start(end, rest, k - 1));
                }
            }
            assert(search_start(from, ends, ends.len() as int) == search_start(
                end,
                rest,
                rest.len() as int,
            ));
        }
    }
}

/// As many paths find a place in the text as can: of any occurrences of the
/// phrase that do not overlap, no more than there are places, unless there is a
/// place for every path.
pub proof fn law_as_many_places_as_can_be(
    lower: Seq<char>,
    needle: Seq<char>,
    n: nat,
    others: Seq<int>,
)
    requires
        forall|k: int| 0 <= k < others.len() ==> occurs_at(lower, needle, #[trigger] others[k]),
        forall|j: int, k: int|
            0 <= j < k < others.len() ==> (#[trigger] others[j]) + needle.len() <= (
            #[trigger] others[k]),
    ensures
        match_ends(lower, needle, n, 0).len() == n || others.len() <= match_ends(
            lower,
            needle,
            n,
            0,
        ).len(),
{
    law_no_occurrence_is_passed_over(lower, needle, n, 0);
    let ends = match_ends(lower, needle, n, 0);
    let m = ends.len() as int;
    if m < n && m < others.len() {
        lemma_not_behind(lower, needle, n, ends, others, m);
        assert(occurs_at(lower, needle, others[m]));
        if m > 0 {
            assert(others[m - 1] + needle.len() <= others[m]);
        }
        assert(false);
    }
}

proof fn lemma_not_behind(
    lower: Seq<char>,
    needle: Seq<char>,
    n: nat,
    ends: Seq<int>,
    others: Seq<int>,
    k: int,
)
    requires
        finds_all(lower, needle, 0, ends, n),
        0 <= k <= ends.len(),
        k <= others.len(),
        forall|j: int| 0 <= j < others.len() ==> occurs_at(lower, needle, #[trigger] others[j]),
        forall|i: int, j: int|
            0 <= i < j < others.len() ==> (#[trigger] others[i]) + needle.len() <= (
            #[trigger] others[j]),
    ensures
        k > 0 ==> ends[k - 1] <= others[k - 1] + needle.len(),
    decreases k,
{
    if k > 0 {
        lemma_not_behind(lower, needle, n, ends, others, k - 1);
        let i = others[k - 1];
        assert(occurs_at(lower, needle, i));
        if k > 1 {
            assert(others[k - 2] + needle.len() <= others[k - 1]);
        }
        assert(search_start(0, ends, k - 1) <= i);
        if i < ends[k - 1] - needle.len() {
            assert(!occurs_at(lower, needle, i));
        }
    }
}

/// The sum of some numbers.
pub open spec fn total(widths: Seq<nat>) -> nat
    decreases widths.len(),
{
    if widths.len() == 0 {
        0
    } else {
        total(widths.drop_last()) + widths.last()
    }
}

/// The characters before `place` are the fewest that are at least `at` long in
/// lower case, or all there are.
pub open spec fn reaches(widths: Seq<nat>, at: int, place: int) -> bool {
    &&& 0 <= place <= widths.len()
    &&& place > 0 ==> total(widths.take(place - 1)) < at
    &&& place < widths.len() ==> total(widths.take(place)) >= at
}

proof fn lemma_total_of_first(widths: Seq<nat>, k: int)
    requires
        0 < k <= widths.len(),
    ensures
        total(widths.take(k)) == widths[0] + total(widths.drop_first().take(k - 1)),
    decreases k,
{
    let rest = widths.drop_first();
    assert(widths.take(k).drop_last() =~= widths.take(k - 1));
    assert(widths.take(k).last() == widths[k - 1]);
    if k == 1 {
        assert(widths.take(0) =~= Seq::empty());
        assert(rest.take(0) =~= Seq::empty());
        assert(total(widths.take(0)) == 0);
        assert(total(rest.take(0)) == 0);
    } else {
        lemma_total_of_first(widths, k - 1);
        assert(rest.take(k - 1).drop_last() =~= rest.take(k - 2));
        assert(rest.take(k - 1).last() == widths[k - 1]);
    }
}

/// A place in the lower-case text is found in the text where the characters before
/// it are just as long in lower case.
pub proof fn law_origin_reaches(widths: Seq<nat>, at: int)
    ensures
        reaches(widths, at, origin(widths, at)),
    decreases widths.len(),
{
    let place = origin(widths, at);
    if at <= 0 || widths.len() == 0 {
        assert(widths.take(0) =~= Seq::empty());
        assert(total(widths.take(0)) == 0);
    } else {
        let rest = widths.drop_first();
        law_origin_reaches(rest, at - widths[0]);
        assert(place == 1 + origin(rest, at - widths[0]));
        if place > 1 {
            lemma_total_of_first(widths, place - 1);
        } else {
            assert(widths.take(0) =~= Seq::empty());
            assert(total(widths.take(0)) == 0);
        }
        if place < widths.len() {
            lemma_total_of_first(widths, place);
        }
    }
}

/// The text with paths at some places, in quotes and with a blank before each: at
/// the last place the last of the paths, before it the text up to there with the
/// others in it, behind it the rest of the text.
pub open spec fn spliced(text: Seq<char>, places: Seq<int>, paths: Seq<Seq<char>>) -> Seq<char>
    decreases places.len(),
{
    if places.len() == 0 {
        text
    } else {
        let place = places.last();
        spliced(text.take(place), places.drop_last(), paths) + seq![' ', '"'] + paths[places.len()
            - 1] + seq!['"'] + text.skip(place)
    }
}

/// The places are in the text, one not before the other.
pub open spec fn are_places_in(text: Seq<char>, places: Seq<int>) -> bool {
    &&& forall|j: int| 0 <= j < places.len() ==> 0 <= #[trigger] places[j] <= text.len()
    &&& forall|i: int, j: int|
        0 <= i <= j < places.len() ==> (#[trigger] places[i]) <= (#[trigger] places[j])
}

proof fn lemma_woven_of_part(
    text: Seq<char>,
    places: Seq<int>,
    paths: Seq<Seq<char>>,
    k: int,
)
    requires
        are_places_in(text, places),
        0 <= k < places.len(),
    ensures
        woven(text.take(places.last()), places.drop_last(), paths, k) == woven(
            text,
            places,
            paths,
            k,
        ),
    decreases k,
{
    if k > 0 {
        lemma_woven_of_part(text, places, paths, k - 1);
        let part = text.take(places.last());
        let fewer = places.drop_last();
        assert(fewer[k - 1] == places[k - 1]);
        assert(places[k - 1] <= places[places.len() - 1]);
        assert(resume(fewer, k - 1) == resume(places, k - 1));
        if k > 1 {
            assert(places[k - 2] <= places[k - 1]);
        }
        assert(part.subrange(resume(fewer, k - 1), fewer[k - 1]) =~= text.subrange(
            resume(places, k - 1),
            places[k - 1],
        ));
    }
}

proof fn lemma_spliced(text: Seq<char>, places: Seq<int>, paths: Seq<Seq<char>>)
    requires
        are_places_in(text, places),
        places.len() <= paths.len(),
    ensures
        with_places(text, places, paths) == spliced(text, places, paths),
    decreases places.len(),
{
    let m = places.len() as int;
    if m == 0 {
        assert(with_places(text, places, paths) =~= text);
    } else {
        reveal_strlit(" \"");
        reveal_strlit("\"");
        let place = places.last();
        let part = text.take(place);
        let fewer = places.drop_last();
        assert(0 <= places[m - 1] <= text.len());
        assert forall|j: int| 0 <= j < fewer.len() implies 0 <= #[trigger] fewer[j]
            <= part.len() by {
            assert(fewer[j] == places[j]);
            assert(places[j] <= places[m - 1]);
        }
        assert forall|i: int, j: int| 0 <= i <= j < fewer.len() implies (#[trigger] fewer[i]) <= (
        #[trigger] fewer[j]) by {
            assert(places[i] <= places[j]);
        }
        lemma_spliced(part, fewer, paths);
        lemma_woven_of_part(text, places, paths, m - 1);
        let from = resume(places, m - 1);
        if m > 1 {
            assert(places[m - 2] <= places[m - 1]);
            assert(fewer[m - 2] == places[m - 2]);
        }
        assert(resume(fewer, m - 1) == from);
        assert(part.subrange(from, part.len() as int) =~= text.subrange(from, place));
        let q = paths[m - 1];
        assert(quoted(q) =~= seq![' ', '"'] + q + seq!['"']);
        assert(text.subrange(resume(places, m), text.len() as int) =~= text.skip(place));
        assert(with_places(text, places, paths) =~= with_places(part, fewer, paths) + quoted(q)
            + text.skip(place));
        assert(with_places(text, places, paths) =~= spliced(text, places, paths));
    }
}

/// The phrase with a path behind it.
pub open spec fn spoken(phrase: Seq<char>, path: Seq<char>) -> Seq<char> {
    phrase + seq![' ', '"'] + path + seq!['"']
}

/// The phrase with each of the paths behind it.
pub open spec fn all_spoken(phrase: Seq<char>, paths: Seq<Seq<char>>) -> Seq<Seq<char>> {
    paths.map_values(|path: Seq<char>| spoken(phrase, path))
}

/// The text, and behind it the phrase with each of the paths, with a blank between
/// any two.
pub open spec fn followed(body: Seq<char>, phrase: Seq<char>, paths: Seq<Seq<char>>) -> Seq<
    char,
> {
    if paths.len() == 0 {
        body
    } else if trimmed(body).len() == 0 {
        body + joined(all_spoken(phrase, paths), seq![' '])
    } else {
        body + seq![' '] + joined(all_spoken(phrase, paths), seq![' '])
    }
}

proof fn lemma_dark_inside(before: Seq<char>, phrase: Seq<char>, after: Seq<char>)
    requires
        trimmed(phrase).len() > 0,
    ensures
        trimmed(before + phrase + after).len() > 0,
{
    law_blank_means_all_white(phrase);
    law_blank_means_all_white(before + phrase + after);
    let all = before + phrase + after;
    let i = choose|i: int| 0 <= i < phrase.len() && !is_white(#[trigger] phrase[i]);
    assert(all[before.len() + i] == phrase[i]);
}

proof fn lemma_followed(body: Seq<char>, phrase: Seq<char>, paths: Seq<Seq<char>>)
    requires
        trimmed(phrase).len() > 0,
    ensures
        with_leftovers(body, phrase, paths) == followed(body, phrase, paths),
    decreases paths.len(),
{
    if paths.len() > 0 {
        reveal_strlit(" \"");
        reveal_strlit("\"");
        reveal_strlit(" ");
        assert(" "@ =~= seq![' ']);
        let fewer = paths.drop_last();
        let q = paths.last();
        lemma_followed(body, phrase, fewer);
        let before = with_leftovers(body, phrase, fewer);
        let all = all_spoken(phrase, paths);
        assert(all.drop_last() =~= all_spoken(phrase, fewer));
        assert(all.last() == spoken(phrase, q));
        assert(phrase + quoted(q) =~= spoken(phrase, q));
        if fewer.len() == 0 {
            assert(before == body);
            assert(all =~= seq![spoken(phrase, q)]);
            assert(joined(all, seq![' ']) == spoken(phrase, q));
        } else {
            let last = fewer.last();
            let start = with_leftovers(body, phrase, fewer.drop_last());
            let gap = if trimmed(start).len() > 0 {
                " "@
            } else {
                Seq::empty()
            };
            assert(before == start + gap + phrase + quoted(last));
            lemma_dark_inside(start + gap, phrase, quoted(last));
            assert(joined(all, seq![' ']) == joined(all.drop_last(), seq![' ']) + seq![' ']
                + spoken(phrase, q));
        }
        assert(with_leftovers(body, phrase, paths) =~= followed(body, phrase, paths));
    }
}

/// What putting paths into a text comes to. The first paths go into the text: each
/// right behind an occurrence of the phrase, of which none is passed over. The
/// rest follow at the end, each behind a phrase of its own. All stand in quotes,
/// in order, and the text is as it was between them.
pub proof fn law_where_the_paths_go(
    text: Seq<char>,
    phrase: Seq<char>,
    lower: Seq<char>,
    needle: Seq<char>,
    widths: Seq<nat>,
    paths: Seq<Seq<char>>,
)
    requires
        widths.len() == text.len(),
    ensures
        trimmed(phrase).len() == 0 || paths.len() == 0 ==> injected(
            text,
            phrase,
            lower,
            needle,
            widths,
            paths,
        ) == text,
        trimmed(phrase).len() > 0 && paths.len() > 0 ==> exists|ends: Seq<int>, found: Seq<int>|
            {
                &&& #[trigger] finds_all(lower, needle, 0, ends, paths.len())
                &&& found.len() == ends.len()
                &&& forall|k: int|
                    0 <= k < found.len() ==> reaches(widths, ends[k], #[trigger] found[k])
                &&& injected(text, phrase, lower, needle, widths, paths) == followed(
                    #[trigger] spliced(text, found, paths),
                    phrase,
                    paths.skip(found.len() as int),
                )
            },
{
    if trimmed(phrase).len() > 0 && paths.len() > 0 {
        let n = paths.len();
        let ends = match_ends(lower, needle, n, 0);
        let found = places(lower, needle, widths, n);
        law_no_occurrence_is_passed_over(lower, needle, n, 0);
        lemma_places(lower, needle, widths, n);
        assert forall|k: int| 0 <= k < found.len() implies reaches(
            widths,
            ends[k],
            #[trigger] found[k],
        ) by {
            law_origin_reaches(widths, ends[k]);
        }
        assert(are_places_in(text, found));
        lemma_spliced(text, found, paths);
        lemma_followed(spliced(text, found, paths), phrase, paths.skip(found.len() as int));
    }
}

/// In a text of ASCII characters the paths go right behind the occurrences: a
/// place in lower case is the same place in the text.
pub proof fn law_ascii_places_are_the_same(n: nat, at: int, place: int)
    requires
        0 <= at <= n,
    ensures
        reaches(ones(n), at, place) <==> place == at,
{
    if 0 <= place <= n {
        lemma_total_of_ones(n, place);
        if place > 0 {
            lemma_total_of_ones(n, place - 1);
        }
    }
}

proof fn lemma_total_of_ones(n: nat, k: int)
    requires
        0 <= k <= n,
    ensures
        total(ones(n).take(k)) == k,
    decreases k,
{
    let some = ones(n).take(k);
    if k > 0 {
        lemma_total_of_ones(n, k - 1);
        assert(some.drop_last() =~= ones(n).take(k - 1));
    }
}

/// How long each character is in lower case is asked of each by itself.
pub proof fn law_widths(text: Seq<char>, i: int)
    requires
        0 <= i < text.len(),
    ensures
        lower_widths(text).len() == text.len(),
        lower_widths(text)[i] == lowercase(seq![text[i]]).len(),
{
}

/// Pictures: a whole pixel of four bytes has its first and its third byte
/// exchanged, and its second and fourth kept; opaque, its fourth is 255 and the
/// others are kept. Bytes that make no whole pixel are kept.
pub proof fn law_pixels(pixels: Seq<u8>, p: int)
    requires
        0 <= p,
    ensures
        swapped(pixels).len() == pixels.len(),
        opaque_pixels(pixels).len() == pixels.len(),
        4 * p + 3 < pixels.len() ==> {
            let s = swapped(pixels);
            let o = opaque_pixels(pixels);
            &&& s[4 * p] == pixels[4 * p + 2]
            &&& s[4 * p + 1] == pixels[4 * p + 1]
            &&& s[4 * p + 2] == pixels[4 * p]
            &&& s[4 * p + 3] == pixels[4 * p + 3]
            &&& o[4 * p] == pixels[4 * p]
            &&& o[4 * p + 1] == pixels[4 * p + 1]
            &&& o[4 * p + 2] == pixels[4 * p + 2]
            &&& o[4 * p + 3] == 255
        },
        forall|i: int|
            pixels.len() - pixels.len() % 4 <= i < pixels.len() ==> (#[trigger] swapped(pixels)[i])
                == pixels[i] && (#[trigger] opaque_pixels(pixels)[i]) == pixels[i],
{
    if 4 * p + 3 < pixels.len() {
        assert(4 * p + 3 < pixels.len() - pixels.len() % 4);
    }
}

/// The cursor is drawn exactly if it shows and its point lies in the window, and then its
/// hot spot, or its corner if it has none, is at that point of the picture.
pub proof fn law_cursor_is_where_it_points(cursor: ScreenCursor, rect: WindowRect)
    ensures
        cursor_drawn(cursor, rect) is Some <==> cursor.showing && rect.left <= cursor.x
            < rect.right && rect.top <= cursor.y < rect.bottom,
        cursor_drawn(cursor, rect) matches Some((x, y)) ==> {
            let (hx, hy) = match cursor.hotspot {
                Some((hx, hy)) => (hx as int, hy as int),
                None => (0int, 0int),
            };
            rect.left + x + hx == cursor.x && rect.top + y + hy == cursor.y
        },
{
}

/// A window has a size exactly if both its sides are positive and fit: then the right
/// side lies that much to the right of the left, and the bottom that much below the top.
pub proof fn law_window_size(rect: WindowRect)
    ensures
        rect.extent() is Some <==> 1 <= rect.right - rect.left <= 0x7fff_ffff && 1 <= rect.bottom
            - rect.top <= 0x7fff_ffff,
        rect.extent() matches Some((w, h)) ==> rect.left + w == rect.right && rect.top + h
            == rect.bottom,
{
}

/// The name of a screenshot tells its number, in at least three digits: the names of
/// different numbers differ.
pub proof fn law_screenshot_numbers(a: nat, b: nat)
    ensures
        screenshot_name(a) == "screenshot-"@ + padded(decimal(a), 3, '0') + ".png"@,
        crate::images::is_screenshot(screenshot_name(a)),
        screenshot_name(a) == screenshot_name(b) ==> a == b,
{
    let (p, s) = ("screenshot-"@, ".png"@);
    reveal_strlit("screenshot-");
    reveal_strlit(".png");
    crate::images::law_screenshot_names(screenshot_name(a));
    let x = padded(decimal(a), 3, '0');
    let y = padded(decimal(b), 3, '0');
    assert(screenshot_name(a) == p + x + s);
    if screenshot_name(a) == screenshot_name(b) {
        let n = screenshot_name(a);
        assert(n.subrange(11, n.len() - 4) =~= x);
        assert(n.subrange(11, n.len() - 4) =~= y);
        lemma_padded_value(a);
        lemma_padded_value(b);
    }
}

proof fn lemma_padded_value(n: nat)
    ensures
        crate::numbers::digits_value(padded(decimal(n), 3, '0')) == n,
{
    let s = decimal(n);
    crate::numbers::law_decimal(n);
    let r = padded(s, 3, '0');
    let zeros = r.take(r.len() - s.len());
    crate::numbers::law_padded(s, 3, '0');
    assert(r =~= zeros + s);
    crate::numbers::law_digits_have_places(zeros, s, 0);
    assert forall|i: int| 0 <= i < zeros.len() implies #[trigger] zeros[i] == '0' by {
        assert(r[i] == '0');
    }
    lemma_zeros(zeros);
    assert(0 * crate::numbers::power_of_ten(s.len()) == 0);
}

proof fn lemma_zeros(zeros: Seq<char>)
    requires
        forall|i: int| 0 <= i < zeros.len() ==> #[trigger] zeros[i] == '0',
    ensures
        crate::numbers::digits_value(zeros) == 0,
    decreases zeros.len(),
{
    if zeros.len() > 0 {
        assert(zeros.last() == zeros[zeros.len() - 1]);
        lemma_zeros(zeros.drop_last());
    }
}

/// A path stands in a transcript between quotation marks, with a blank before them.
pub proof fn law_quoted(path: Seq<char>)
    ensures
        quoted(path) == seq![' ', '"'] + path + seq!['"'],
{
    reveal_strlit(" \"");
    reveal_strlit("\"");
    assert(quoted(path) =~= seq![' ', '"'] + path + seq!['"']);
}

} // verus!
