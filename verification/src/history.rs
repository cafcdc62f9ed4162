//! Past recordings: what is saved of them, how they are listed, and which are
//! removed.

use crate::config::{HistoryConfig, HistoryView};
use crate::location::{Location, LocationView};
use crate::moments::{is_no_later, nanos_between, nanos_since, Timestamp};
use crate::pieces::texts;
use crate::sorting::{is_sorting, sort, Ranked};
use crate::text::{same_text, text_in};
use vstd::prelude::*;

verus! {

// ---------------------------------------------------------------------------
// Entries
// ---------------------------------------------------------------------------

/// A past recording. The duration is the bit pattern of a number of seconds.
#[derive(Debug)]
pub struct HistoryEntry {
    pub id: String,
    pub timestamp: Timestamp,
    pub text: String,
    pub duration_bits: u64,
    pub cancelled: bool,
}

/// The values of a [`HistoryEntry`].
pub ghost struct EntryView {
    pub id: Seq<char>,
    pub timestamp: Timestamp,
    pub text: Seq<char>,
    pub duration_bits: u64,
    pub cancelled: bool,
}

impl View for HistoryEntry {
    type V = EntryView;

    open spec fn view(&self) -> EntryView {
        EntryView {
            id: self.id@,
            timestamp: self.timestamp,
            text: self.text@,
            duration_bits: self.duration_bits,
            cancelled: self.cancelled,
        }
    }
}

/// The views of a list of entries.
pub open spec fn entry_views(v: Seq<HistoryEntry>) -> Seq<EntryView> {
    v.map_values(|e: HistoryEntry| e@)
}

/// Newer entries come first.
impl Ranked for HistoryEntry {
    open spec fn leads(&self, other: &Self) -> bool {
        is_no_later(other.timestamp, self.timestamp)
    }

    proof fn leads_is_total(a: &Self, b: &Self) {
    }

    proof fn leads_is_transitive(a: &Self, b: &Self, c: &Self) {
    }

    fn may_lead(&self, other: &Self) -> (r: bool) {
        other.timestamp.secs < self.timestamp.secs || (other.timestamp.secs == self.timestamp.secs
            && other.timestamp.nanos <= self.timestamp.nanos)
    }
}

/// A lower-case hexadecimal digit.
pub open spec fn is_hex(c: char) -> bool {
    ('0' <= c && c <= '9') || ('a' <= c && c <= 'f')
}

/// The text of a random identifier: five groups of lower-case hexadecimal
/// digits with hyphens between them, marked as version 4.
pub open spec fn is_random_id(s: Seq<char>) -> bool {
    &&& s.len() == 36
    &&& s[8] == '-' && s[13] == '-' && s[18] == '-' && s[23] == '-'
    &&& forall|i: int|
        0 <= i < 36 && i != 8 && i != 13 && i != 18 && i != 23 ==> is_hex(#[trigger] s[i])
    &&& s[14] == '4'
    &&& s[19] == '8' || s[19] == '9' || s[19] == 'a' || s[19] == 'b'
}

/// `uuid::Uuid::new_v4`, as text: an identifier made of random bits. Which one
/// it is nobody can say; that it has the form of a random identifier is all
/// that is claimed.
#[verifier::external_body]
fn new_id() -> (r: String)
    ensures
        is_random_id(r@),
{
    uuid::Uuid::new_v4().to_string()
}

/// An entry to be saved, and where its parts go.
pub struct NewEntry {
    pub entry: HistoryEntry,
    pub dir: Location,
    pub transcription: Location,
    pub audio: Location,
    pub metadata: Location,
}

impl NewEntry {
    /// This is the entry of that identifier below that directory.
    pub open spec fn is_for(
        self,
        history: LocationView,
        id: Seq<char>,
        timestamp: Timestamp,
        text: Seq<char>,
        duration_bits: u64,
        cancelled: bool,
    ) -> bool {
        &&& self.entry@ == EntryView { id, timestamp, text, duration_bits, cancelled }
        &&& self.dir@ == history.below(id)
        &&& self.transcription@ == history.below(id).below("transcription.txt"@)
        &&& self.audio@ == history.below(id).below("audio.wav"@)
        &&& self.metadata@ == history.below(id).below("metadata.json"@)
    }
}

/// An entry of that identifier, to be saved below a directory.
pub fn entry_with_id(
    history: &Location,
    id: String,
    timestamp: Timestamp,
    text: &str,
    duration_bits: u64,
    cancelled: bool,
) -> (r: NewEntry)
    ensures
        r.is_for(history@, id@, timestamp, text@, duration_bits, cancelled),
{
    let dir = history.duplicate().join(id.as_str());
    let transcription = dir.duplicate().join("transcription.txt");
    let audio = dir.duplicate().join("audio.wav");
    let metadata = dir.duplicate().join("metadata.json");
    let entry = HistoryEntry { id, timestamp, text: text.to_owned(), duration_bits, cancelled };
    NewEntry { entry, dir, transcription, audio, metadata }
}

/// A new entry, to be saved below a directory of its own.
pub fn save_entry(
    history: &Location,
    timestamp: Timestamp,
    text: &str,
    duration_bits: u64,
    cancelled: bool,
) -> (r: NewEntry)
    ensures
        is_random_id(r.entry@.id),
        r.is_for(history@, r.entry@.id, timestamp, text@, duration_bits, cancelled),
{
    entry_with_id(history, new_id(), timestamp, text, duration_bits, cancelled)
}

// ---------------------------------------------------------------------------
// Listing
// ---------------------------------------------------------------------------

/// The entries that could be read.
pub open spec fn readable(found: Seq<Option<HistoryEntry>>) -> Seq<HistoryEntry>
    decreases found.len(),
{
    if found.len() == 0 {
        Seq::empty()
    } else {
        let before = readable(found.drop_last());
        match found.last() {
            Some(e) => before.push(e),
            None => before,
        }
    }
}

/// The entries found in the history directory, newest first. What could not be
/// read is left out.
pub fn list_entries(found: Vec<Option<HistoryEntry>>) -> (r: Vec<HistoryEntry>)
    ensures
        is_sorting(readable(found@), r@),
{
    let ghost all = found@;
    let mut found = found;
    let mut reversed: Vec<HistoryEntry> = Vec::new();
    while found.len() > 0
        invariant
            found@.len() <= all.len(),
            found@ == all.take(found@.len() as int),
            readable(all) == readable(found@) + reversed@.reverse(),
        decreases found@.len(),
    {
        let ghost before = found@;
        let ghost seen = reversed@;
        if let Some(one) = found.pop() {
            assert(before.drop_last() =~= found@);
            match one {
                Some(e) => {
                    reversed.push(e);
                    assert(reversed@.reverse() =~= seq![e] + seen.reverse());
                    assert(readable(before) + seen.reverse() =~= readable(found@) + (seq![e]
                        + seen.reverse()));
                },
                None => {},
            }
        }
    }
    let mut entries: Vec<HistoryEntry> = Vec::new();
    let ghost total = reversed@;
    while reversed.len() > 0
        invariant
            reversed@.len() <= total.len(),
            reversed@ == total.take(reversed@.len() as int),
            entries@ =~= total.reverse().take(total.len() - reversed@.len()),
        decreases reversed@.len(),
    {
        if let Some(e) = reversed.pop() {
            entries.push(e);
        }
    }
    assert(entries@ =~= readable(all));
    sort(entries)
}

/// The text that is pasted again: that of the newest entry that has one.
pub open spec fn last_said(entries: Seq<EntryView>) -> Option<Seq<char>>
    decreases entries.len(),
{
    if entries.len() == 0 {
        None
    } else if entries[0].text.len() > 0 {
        Some(entries[0].text)
    } else {
        last_said(entries.drop_first())
    }
}

/// The text that is pasted again, of entries listed newest first.
pub fn last_text(entries: &Vec<HistoryEntry>) -> (r: Option<String>)
    ensures
        text_in(r) == last_said(entry_views(entries@)),
{
    let ghost all = entry_views(entries@);
    let mut i: usize = 0;
    assert(all.skip(0) =~= all);
    while i < entries.len()
        invariant
            all == entry_views(entries@),
            0 <= i <= entries@.len(),
            last_said(all) == last_said(all.skip(i as int)),
        decreases entries@.len() - i,
    {
        assert(all.skip(i as int)[0] == entries@[i as int]@);
        if !entries[i].text.as_str().is_empty() {
            return Some(entries[i].text.clone());
        }
        assert(all.skip(i as int).drop_first() =~= all.skip(i + 1));
        i += 1;
    }
    None
}

// ---------------------------------------------------------------------------
// Removing old entries
// ---------------------------------------------------------------------------

/// The entry is older than the age limit.
pub open spec fn is_expired(limits: HistoryView, now: Timestamp, entry: EntryView) -> bool {
    &&& limits.max_age_days > 0
    &&& nanos_between(entry.timestamp, now) > limits.max_age_days * 86_400_000_000_000
}

/// None of the newest entries, as many as are kept, has that identifier.
pub open spec fn is_beyond_limit(
    limits: HistoryView,
    entries: Seq<EntryView>,
    id: Seq<char>,
) -> bool {
    &&& 0 < limits.max_recordings < entries.len()
    &&& forall|k: int| 0 <= k < limits.max_recordings ==> #[trigger] entries[k].id != id
}

/// The entry at place `i` is to be removed.
pub open spec fn is_doomed(
    limits: HistoryView,
    now: Timestamp,
    entries: Seq<EntryView>,
    i: int,
) -> bool {
    is_expired(limits, now, entries[i]) || is_beyond_limit(limits, entries, entries[i].id)
}

/// What is kept under that identifier is removed: an entry of that name is too
/// old or too many.
pub open spec fn is_removed(
    limits: HistoryView,
    now: Timestamp,
    entries: Seq<EntryView>,
    id: Seq<char>,
) -> bool {
    exists|i: int|
        0 <= i < entries.len() && (#[trigger] entries[i]).id == id && is_doomed(
            limits,
            now,
            entries,
            i,
        )
}

/// Whether a list of texts holds one.
fn holds(list: &Vec<String>, s: &str) -> (r: bool)
    ensures
        r == texts(list@).contains(s@),
{
    let mut i: usize = 0;
    while i < list.len()
        invariant
            0 <= i <= list@.len(),
            forall|k: int| 0 <= k < i ==> #[trigger] texts(list@)[k] != s@,
        decreases list@.len() - i,
    {
        if same_text(list[i].as_str(), s) {
            assert(texts(list@)[i as int] == s@);
            return true;
        }
        i += 1;
    }
    false
}

/// Whether one of the first `n` entries has that identifier.
fn is_among_first(entries: &Vec<HistoryEntry>, n: usize, id: &str) -> (r: bool)
    requires
        n <= entries@.len(),
    ensures
        r == exists|k: int| 0 <= k < n && (#[trigger] entry_views(entries@)[k]).id == id@,
{
    let mut k: usize = 0;
    while k < n
        invariant
            0 <= k <= n <= entries@.len(),
            forall|j: int| 0 <= j < k ==> (#[trigger] entry_views(entries@)[j]).id != id@,
        decreases n - k,
    {
        assert(entry_views(entries@)[k as int] == entries@[k as int]@);
        if same_text(entries[k].id.as_str(), id) {
            return true;
        }
        k += 1;
    }
    false
}

/// Whether the entry at place `i` is to be removed.
fn is_to_go(config: &HistoryConfig, now: &Timestamp, entries: &Vec<HistoryEntry>, i: usize) -> (r:
    bool)
    requires
        i < entries@.len(),
    ensures
        r == is_doomed(config@, *now, entry_views(entries@), i as int),
{
    let ghost all = entry_views(entries@);
    assert(all[i as int] == entries@[i as int]@);
    if config.max_age_days > 0 {
        let limit: i128 = config.max_age_days as i128 * 86_400_000_000_000;
        if nanos_since(&entries[i].timestamp, now) > limit {
            return true;
        }
    }
    if config.max_recordings > 0 && entries.len() > config.max_recordings {
        return !is_among_first(entries, config.max_recordings, entries[i].id.as_str());
    }
    false
}

/// The identifiers of the entries to remove, of entries listed newest first:
/// those older than the age limit, and those beyond the number that is kept. A
/// limit of 0 is none.
pub fn cleanup(config: &HistoryConfig, now: &Timestamp, entries: &Vec<HistoryEntry>) -> (r: Vec<
    String,
>)
    ensures
        texts(r@).no_duplicates(),
        forall|id: Seq<char>|
            #[trigger] texts(r@).contains(id) <==> is_removed(
                config@,
                *now,
                entry_views(entries@),
                id,
            ),
{
    let ghost all = entry_views(entries@);
    let mut r: Vec<String> = Vec::new();
    let mut i: usize = 0;
    while i < entries.len()
        invariant
            all == entry_views(entries@),
            0 <= i <= entries@.len(),
            texts(r@).no_duplicates(),
            forall|id: Seq<char>|
                #[trigger] texts(r@).contains(id) <==> exists|k: int|
                    0 <= k < i && (#[trigger] all[k]).id == id && is_doomed(config@, *now, all, k),
        decreases entries@.len() - i,
    {
        let ghost before = texts(r@);
        let ghost id_here = all[i as int].id;
        assert(all[i as int] == entries@[i as int]@);
        if is_to_go(config, now, entries, i) {
            if !holds(&r, entries[i].id.as_str()) {
                r.push(entries[i].id.clone());
                assert(texts(r@) =~= before.push(id_here));
                assert forall|id: Seq<char>| #[trigger] texts(r@).contains(id) <==> (before.contains(
                    id,
                ) || id == id_here) by {
                    if before.contains(id) {
                        let k = choose|k: int| 0 <= k < before.len() && before[k] == id;
                        assert(texts(r@)[k] == id);
                    }
                    if id == id_here {
                        assert(texts(r@)[before.len() as int] == id);
                    }
                }
            }
            assert(texts(r@).contains(id_here));
        }
        assert forall|id: Seq<char>| #[trigger] texts(r@).contains(id) <==> exists|k: int|
            0 <= k < i + 1 && (#[trigger] all[k]).id == id && is_doomed(config@, *now, all, k) by {
            let doomed = is_doomed(config@, *now, all, i as int);
            assert(texts(r@).contains(id) <==> (before.contains(id) || (doomed && id == id_here)));
            if doomed && id == id_here {
                assert(all[i as int].id == id);
            }
        }
        i += 1;
    }
    r
}

// ---------------------------------------------------------------------------
// What holds of every history
// ---------------------------------------------------------------------------

/// No two entries have the same identifier.
pub open spec fn ids_differ(entries: Seq<EntryView>) -> bool {
    forall|i: int, j: int|
        0 <= i < j < entries.len() ==> (#[trigger] entries[i]).id != (#[trigger] entries[j]).id
}

/// Entries are listed newest first.
pub open spec fn newest_first(entries: Seq<EntryView>) -> bool {
    forall|i: int, j: int|
        0 <= i < j < entries.len() ==> is_no_later(
            (#[trigger] entries[j]).timestamp,
            (#[trigger] entries[i]).timestamp,
        )
}

/// Listed entries are the readable ones, newest first.
pub proof fn law_listed_newest_first(found: Seq<Option<HistoryEntry>>, r: Seq<HistoryEntry>)
    requires
        is_sorting(readable(found), r),
    ensures
        newest_first(entry_views(r)),
        r.len() == readable(found).len(),
        forall|e: HistoryEntry| r.contains(e) <==> found.contains(Some(e)),
{
    let all = readable(found);
    crate::sorting::law_sorting_keeps_values(all, r);
    lemma_readable(found);
    let views = entry_views(r);
    assert forall|i: int, j: int| 0 <= i < j < views.len() implies is_no_later(
        (#[trigger] views[j]).timestamp,
        (#[trigger] views[i]).timestamp,
    ) by {
        crate::sorting::law_sorted(all, r, i, j);
    }
}

proof fn lemma_readable(found: Seq<Option<HistoryEntry>>)
    ensures
        forall|e: HistoryEntry| readable(found).contains(e) <==> found.contains(Some(e)),
    decreases found.len(),
{
    if found.len() > 0 {
        let rest = found.drop_last();
        lemma_readable(rest);
        assert forall|e: HistoryEntry| readable(found).contains(e) <==> found.contains(Some(e)) by {
            if readable(found).contains(e) {
                let i = choose|i: int| 0 <= i < readable(found).len() && readable(found)[i] == e;
                if i < readable(rest).len() {
                    assert(readable(rest)[i] == e && readable(rest).contains(e));
                    assert(rest.contains(Some(e)));
                    let k = choose|k: int| 0 <= k < rest.len() && rest[k] == Some(e);
                    assert(found[k] == Some(e));
                } else {
                    assert(found[found.len() - 1] == Some(e));
                }
            }
            if found.contains(Some(e)) {
                let k = choose|k: int| 0 <= k < found.len() && found[k] == Some(e);
                if k < rest.len() {
                    assert(rest[k] == Some(e));
                    assert(readable(rest).contains(e));
                    let i = choose|i: int| 0 <= i < readable(rest).len() && readable(rest)[i] == e;
                    assert(readable(found)[i] == e);
                } else {
                    assert(readable(found)[readable(rest).len() as int] == e);
                }
            }
        }
    }
}

/// Without limits nothing is removed.
pub proof fn law_no_limits_remove_nothing(
    limits: HistoryView,
    now: Timestamp,
    entries: Seq<EntryView>,
    id: Seq<char>,
)
    requires
        limits.max_recordings == 0,
        limits.max_age_days == 0,
    ensures
        !is_removed(limits, now, entries, id),
{
}

/// The newest entries, as many as the limit says, stay unless they are too
/// old; what is too old goes; and what is beyond the limit goes.
pub proof fn law_limits_are_kept(
    limits: HistoryView,
    now: Timestamp,
    entries: Seq<EntryView>,
    i: int,
)
    requires
        ids_differ(entries),
        0 <= i < entries.len(),
    ensures
        is_removed(limits, now, entries, entries[i].id) <==> is_expired(limits, now, entries[i])
            || 0 < limits.max_recordings <= i,
{
    let id = entries[i].id;
    if is_removed(limits, now, entries, id) {
        let k = choose|k: int|
            0 <= k < entries.len() && (#[trigger] entries[k]).id == id && is_doomed(
                limits,
                now,
                entries,
                k,
            );
        assert(k == i);
    }
    if is_expired(limits, now, entries[i]) || 0 < limits.max_recordings <= i {
        assert(is_doomed(limits, now, entries, i));
    }
}

/// The entry is not removed.
pub open spec fn stays(limits: HistoryView, now: Timestamp, entries: Seq<EntryView>) -> spec_fn(
    EntryView,
) -> bool {
    |e: EntryView| !is_removed(limits, now, entries, e.id)
}

/// The entries that are left.
pub open spec fn survivors(
    limits: HistoryView,
    now: Timestamp,
    entries: Seq<EntryView>,
) -> Seq<EntryView> {
    entries.filter(stays(limits, now, entries))
}

/// No more entries are left than the limit says, and removing again at the
/// same moment removes nothing.
pub proof fn law_cleanup_is_enough(
    limits: HistoryView,
    now: Timestamp,
    entries: Seq<EntryView>,
    id: Seq<char>,
)
    requires
        ids_differ(entries),
    ensures
        limits.max_recordings > 0 ==> survivors(limits, now, entries).len()
            <= limits.max_recordings,
        !is_removed(limits, now, survivors(limits, now, entries), id),
{
    let keep = stays(limits, now, entries);
    let left = survivors(limits, now, entries);
    let max = limits.max_recordings as int;
    entries.lemma_filter_len(keep);
    if 0 < max < entries.len() {
        let first = entries.take(max);
        let rest = entries.skip(max);
        assert(first + rest =~= entries);
        Seq::filter_distributes_over_add(first, rest, keep);
        first.lemma_filter_len(keep);
        rest.lemma_filter_len(keep);
        assert(rest.filter(keep).len() == 0) by {
            if rest.filter(keep).len() > 0 {
                let e = rest.filter(keep)[0];
                rest.lemma_filter_pred(keep, 0);
                lemma_filter_takes_from(rest, keep, 0);
                let k = choose|k: int| 0 <= k < rest.len() && rest[k] == e;
                assert(entries[max + k] == e);
                law_limits_are_kept(limits, now, entries, max + k);
            }
        }
    }
    if is_removed(limits, now, left, id) {
        let k = choose|k: int|
            0 <= k < left.len() && (#[trigger] left[k]).id == id && is_doomed(
                limits,
                now,
                left,
                k,
            );
        entries.lemma_filter_pred(keep, k);
        lemma_filter_takes_from(entries, keep, k);
        let i = choose|i: int| 0 <= i < entries.len() && entries[i] == left[k];
        law_limits_are_kept(limits, now, entries, i);
    }
}

proof fn lemma_filter_takes_from<A>(s: Seq<A>, pred: spec_fn(A) -> bool, k: int)
    requires
        0 <= k < s.filter(pred).len(),
    ensures
        s.contains(s.filter(pred)[k]),
    decreases s.len(),
{
    reveal(Seq::filter);
    if s.len() > 0 {
        let rest = s.drop_last();
        if k < rest.filter(pred).len() {
            lemma_filter_takes_from(rest, pred, k);
            let i = choose|i: int| 0 <= i < rest.len() && rest[i] == rest.filter(pred)[k];
            assert(s[i] == s.filter(pred)[k]);
        } else {
            assert(s[s.len() - 1] == s.filter(pred)[k]);
        }
    }
}

/// Where only the number of entries is limited, the oldest go: no entry that
/// is removed is newer than one that stays.
pub proof fn law_oldest_go_first(
    limits: HistoryView,
    now: Timestamp,
    entries: Seq<EntryView>,
    kept: int,
    removed: int,
)
    requires
        ids_differ(entries),
        newest_first(entries),
        limits.max_age_days == 0,
        0 <= kept < entries.len(),
        0 <= removed < entries.len(),
        !is_removed(limits, now, entries, entries[kept].id),
        is_removed(limits, now, entries, entries[removed].id),
    ensures
        is_no_later(entries[removed].timestamp, entries[kept].timestamp),
{
    law_limits_are_kept(limits, now, entries, kept);
    law_limits_are_kept(limits, now, entries, removed);
}

/// What is pasted again is the text of the newest entry that has one: every entry
/// before it is without a text. There is nothing to paste just if no entry has a
/// text.
pub proof fn law_last_text_is_the_newest(entries: Seq<EntryView>)
    ensures
        match last_said(entries) {
            Some(text) => text.len() > 0 && exists|i: int|
                {
                    &&& 0 <= i < entries.len()
                    &&& (#[trigger] entries[i]).text == text
                    &&& forall|k: int| 0 <= k < i ==> (#[trigger] entries[k]).text.len() == 0
                },
            None => forall|k: int|
                0 <= k < entries.len() ==> (#[trigger] entries[k]).text.len() == 0,
        },
    decreases entries.len(),
{
    if entries.len() > 0 {
        if entries[0].text.len() == 0 {
            let rest = entries.drop_first();
            law_last_text_is_the_newest(rest);
            match last_said(rest) {
                Some(text) => {
                    let i = choose|i: int|
                        {
                            &&& 0 <= i < rest.len()
                            &&& (#[trigger] rest[i]).text == text
                            &&& forall|k: int| 0 <= k < i ==> (#[trigger] rest[k]).text.len() == 0
                        };
                    assert(entries[i + 1].text == text);
                    assert forall|k: int| 0 <= k < i + 1 implies (
                    #[trigger] entries[k]).text.len() == 0 by {
                        if k > 0 {
                            assert(rest[k - 1] == entries[k]);
                        }
                    }
                },
                None => {
                    assert forall|k: int| 0 <= k < entries.len() implies (
                    #[trigger] entries[k]).text.len() == 0 by {
                        if k > 0 {
                            assert(rest[k - 1] == entries[k]);
                        }
                    }
                },
            }
        } else {
            assert(entries[0].text == last_said(entries)->0);
        }
    }
}

/// A newer entry with a text is what is pasted from then on; one without a text
/// changes nothing.
pub proof fn law_newer_text_is_pasted(newer: EntryView, entries: Seq<EntryView>)
    ensures
        newer.text.len() > 0 ==> last_said(seq![newer] + entries) == Some(newer.text),
        newer.text.len() == 0 ==> last_said(seq![newer] + entries) == last_said(entries),
{
    let all = seq![newer] + entries;
    assert(all.drop_first() =~= entries);
}

/// What is read of two parts of the history is read of each; an entry that can be
/// read is there, and one that cannot is left out.
pub proof fn law_readable(
    a: Seq<Option<HistoryEntry>>,
    b: Seq<Option<HistoryEntry>>,
    e: HistoryEntry,
)
    ensures
        readable(a + b) == readable(a) + readable(b),
        readable(seq![Some(e)]) == seq![e],
        readable(seq![None]) == Seq::<HistoryEntry>::empty(),
    decreases b.len(),
{
    reveal_with_fuel(readable, 2);
    assert(seq![Some(e)].drop_last() =~= Seq::empty());
    assert(readable(seq![Some(e)]) =~= seq![e]);
    assert(seq![None::<HistoryEntry>].drop_last() =~= Seq::empty());
    assert(readable(seq![None]) =~= Seq::<HistoryEntry>::empty());
    if b.len() == 0 {
        assert(a + b =~= a);
        assert(readable(a) + readable(b) =~= readable(a));
    } else {
        law_readable(a, b.drop_last(), e);
        assert((a + b).drop_last() =~= a + b.drop_last());
        assert((a + b).last() == b.last());
        assert(readable(a + b) =~= readable(a) + readable(b));
    }
}

/// An entry is too old exactly if there is an age limit and more than that many
/// days of 24 hours have passed since, to the nanosecond. Where neither moment
/// lies in a leap second that is plain counting.
pub proof fn law_too_old(limits: HistoryView, now: Timestamp, entry: EntryView)
    requires
        now.nanos < 1_000_000_000,
        entry.timestamp.nanos < 1_000_000_000,
    ensures
        is_expired(limits, now, entry) <==> limits.max_age_days > 0 && (now.secs
            - entry.timestamp.secs) * 1_000_000_000 + (now.nanos - entry.timestamp.nanos)
            > limits.max_age_days * 24 * 60 * 60 * 1_000_000_000,
{
    let a: int = limits.max_age_days as int;
    assert(a * 24 * 60 * 60 * 1_000_000_000 == a * 86_400_000_000_000);
}

/// What is too old stays so: an entry that is removed for its age is removed at
/// every later moment, and so is every entry that is older.
pub proof fn law_older_goes_too(
    limits: HistoryView,
    now: Timestamp,
    later: Timestamp,
    entry: EntryView,
    older: EntryView,
)
    requires
        now.nanos < 1_000_000_000,
        later.nanos < 1_000_000_000,
        entry.timestamp.nanos < 1_000_000_000,
        older.timestamp.nanos < 1_000_000_000,
        is_no_later(now, later),
        is_no_later(older.timestamp, entry.timestamp),
        is_expired(limits, now, entry),
    ensures
        is_expired(limits, later, older),
{
}

/// Which identifiers are removed, also where some are the same: those of an entry
/// that is too old, and, if there are more entries than are kept, those of which
/// none is among the newest that are.
pub proof fn law_removed_identifiers(
    limits: HistoryView,
    now: Timestamp,
    entries: Seq<EntryView>,
    id: Seq<char>,
)
    ensures
        ({
            let listed = exists|i: int|
                0 <= i < entries.len() && (#[trigger] entries[i]).id == id;
            let too_old = exists|i: int|
                0 <= i < entries.len() && (#[trigger] entries[i]).id == id && is_expired(
                    limits,
                    now,
                    entries[i],
                );
            let among_newest = exists|k: int|
                0 <= k < limits.max_recordings && k < entries.len() && (#[trigger] entries[k]).id
                    == id;
            is_removed(limits, now, entries, id) <==> too_old || (listed && 0
                < limits.max_recordings < entries.len() && !among_newest)
        }),
{
    let too_old = exists|i: int|
        0 <= i < entries.len() && (#[trigger] entries[i]).id == id && is_expired(
            limits,
            now,
            entries[i],
        );
    let listed = exists|i: int| 0 <= i < entries.len() && (#[trigger] entries[i]).id == id;
    if too_old {
        let i = choose|i: int|
            0 <= i < entries.len() && (#[trigger] entries[i]).id == id && is_expired(
                limits,
                now,
                entries[i],
            );
        assert(is_doomed(limits, now, entries, i));
    }
    if is_beyond_limit(limits, entries, id) && listed {
        let i = choose|i: int| 0 <= i < entries.len() && (#[trigger] entries[i]).id == id;
        assert(is_doomed(limits, now, entries, i));
    }
    if 0 < limits.max_recordings < entries.len() && !is_beyond_limit(limits, entries, id) {
        let k = choose|k: int| 0 <= k < limits.max_recordings && #[trigger] entries[k].id == id;
        assert(entries[k].id == id);
    }
}

/// A new entry keeps all that it is made of, and its parts are three different
/// files in a directory of its own, named by its identifier, in the history.
pub proof fn law_new_entry(
    new: NewEntry,
    history: LocationView,
    id: Seq<char>,
    timestamp: Timestamp,
    text: Seq<char>,
    duration_bits: u64,
    cancelled: bool,
)
    requires
        new.is_for(history, id, timestamp, text, duration_bits, cancelled),
    ensures
        new.entry@.id == id,
        new.entry@.timestamp == timestamp,
        new.entry@.text == text,
        new.entry@.duration_bits == duration_bits,
        new.entry@.cancelled == cancelled,
        new.dir@.base == history.base,
        new.dir@.parts == history.parts + seq![id],
        new.transcription@.base == history.base && new.audio@.base == history.base
            && new.metadata@.base == history.base,
        new.transcription@.parts.drop_last() == new.dir@.parts,
        new.audio@.parts.drop_last() == new.dir@.parts,
        new.metadata@.parts.drop_last() == new.dir@.parts,
        new.transcription@ != new.audio@,
        new.audio@ != new.metadata@,
        new.transcription@ != new.metadata@,
{
    reveal_strlit("transcription.txt");
    reveal_strlit("audio.wav");
    reveal_strlit("metadata.json");
    let dir = history.below(id);
    assert(dir.parts =~= history.parts + seq![id]);
    assert(dir.parts.push("transcription.txt"@).drop_last() =~= dir.parts);
    assert(dir.parts.push("audio.wav"@).drop_last() =~= dir.parts);
    assert(dir.parts.push("metadata.json"@).drop_last() =~= dir.parts);
    assert(new.transcription@.parts.last().len() == 17);
    assert(new.audio@.parts.last().len() == 9);
    assert(new.metadata@.parts.last().len() == 13);
}

} // verus!
