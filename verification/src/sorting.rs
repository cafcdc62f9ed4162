//! Sorting that keeps the order of what ranks the same.

use crate::text::chars_of;
use vstd::prelude::*;
use vstd::set_lib::{lemma_int_range, lemma_subset_equality, set_int_range};

verus! {

/// Values with a rank among each other.
pub trait Ranked: Sized {
    /// `self` comes before `other` or ranks the same.
    spec fn leads(&self, other: &Self) -> bool;

    /// Of any two values one leads the other.
    proof fn leads_is_total(a: &Self, b: &Self)
        ensures
            a.leads(b) || b.leads(a),
    ;

    /// What leads a value leads all that the value leads.
    proof fn leads_is_transitive(a: &Self, b: &Self, c: &Self)
        requires
            a.leads(b),
            b.leads(c),
        ensures
            a.leads(c),
    ;

    /// Whether `self` comes before `other` or ranks the same.
    fn may_lead(&self, other: &Self) -> (r: bool)
        ensures
            r == self.leads(other),
    ;
}

/// `order` lists the places of all values of `v` by rank; of those that rank
/// the same the first comes first.
pub open spec fn ranks<T: Ranked>(v: Seq<T>, order: Seq<int>) -> bool {
    &&& order.len() == v.len()
    &&& forall|i: int| 0 <= i < order.len() ==> 0 <= #[trigger] order[i] < v.len()
    &&& forall|i: int, j: int|
        0 <= i < j < order.len() ==> in_turn(v, #[trigger] order[i], #[trigger] order[j])
}

/// The value at place `a` is listed before the one at place `b`.
pub open spec fn in_turn<T: Ranked>(v: Seq<T>, a: int, b: int) -> bool {
    &&& v[a].leads(&v[b])
    &&& v[b].leads(&v[a]) ==> a < b
}

/// The values of `v` in that order.
pub open spec fn listed<T>(v: Seq<T>, order: Seq<int>) -> Seq<T> {
    order.map_values(|i: int| v[i])
}

/// `r` holds the values of `v`, sorted by rank; those that rank the same stay
/// in order.
pub open spec fn is_sorting<T: Ranked>(v: Seq<T>, r: Seq<T>) -> bool {
    exists|order: Seq<int>| #[trigger] ranks(v, order) && r == listed(v, order)
}

/// Sorts by rank; values that rank the same stay in order.
pub fn sort<T: Ranked>(items: Vec<T>) -> (r: Vec<T>)
    ensures
        is_sorting(items@, r@),
{
    let ghost v = items@;
    let mut items = items;
    let mut r: Vec<T> = Vec::new();
    let ghost mut order: Seq<int> = Seq::empty();
    while items.len() > 0
        invariant
            items@.len() <= v.len(),
            items@ == v.take(items@.len() as int),
            ranks_from(v, order, items@.len() as int),
            r@ == listed(v, order),
        decreases items@.len(),
    {
        let ghost here = items@.len() - 1;
        if let Some(item) = items.pop() {
            assert(item == v[here]);
            let mut at: usize = 0;
            while at < r.len() && !item.may_lead(&r[at])
                invariant
                    0 <= at <= r@.len(),
                    r@ == listed(v, order),
                    item == v[here],
                    forall|i: int| 0 <= i < at ==> !v[here].leads(&v[#[trigger] order[i]]),
                decreases r@.len() - at,
            {
                assert(r@[at as int] == v[order[at as int]]);
                at += 1;
            }
            proof {
                assert(at < r@.len() ==> r@[at as int] == v[order[at as int]]);
                lemma_one_more_ranked(v, order, here, at as int);
            }
            r.insert(at, item);
            assert(r@ =~= listed(v, order.insert(at as int, here)));
            proof {
                order = order.insert(at as int, here);
            }
            assert(items@ =~= v.take(here));
        }
    }
    assert(ranks(v, order));
    r
}

/// `order` lists the places from `from` on by rank.
spec fn ranks_from<T: Ranked>(v: Seq<T>, order: Seq<int>, from: int) -> bool {
    &&& order.len() == v.len() - from
    &&& forall|i: int| 0 <= i < order.len() ==> from <= #[trigger] order[i] < v.len()
    &&& forall|i: int, j: int|
        0 <= i < j < order.len() ==> in_turn(v, #[trigger] order[i], #[trigger] order[j])
}

proof fn lemma_one_more_ranked<T: Ranked>(v: Seq<T>, order: Seq<int>, here: int, at: int)
    requires
        0 <= here < v.len(),
        ranks_from(v, order, here + 1),
        0 <= at <= order.len(),
        forall|i: int| 0 <= i < at ==> !v[here].leads(&v[#[trigger] order[i]]),
        at < order.len() ==> v[here].leads(&v[order[at]]),
    ensures
        ranks_from(v, order.insert(at, here), here),
{
    let more = order.insert(at, here);
    assert forall|i: int, j: int| 0 <= i < j < more.len() implies in_turn(
        v,
        #[trigger] more[i],
        #[trigger] more[j],
    ) by {
        if j < at {
            assert(more[i] == order[i] && more[j] == order[j]);
        } else if j == at {
            assert(more[i] == order[i]);
            T::leads_is_total(&v[order[i]], &v[here]);
        } else if i < at {
            assert(more[i] == order[i] && more[j] == order[j - 1]);
        } else if i == at {
            assert(more[j] == order[j - 1]);
            if j - 1 > at {
                assert(in_turn(v, order[at], order[j - 1]));
                T::leads_is_transitive(&v[here], &v[order[at]], &v[order[j - 1]]);
            }
        } else {
            assert(more[i] == order[i - 1] && more[j] == order[j - 1]);
        }
    }
}

/// There is only one way to sort a list.
pub proof fn law_sorting_is_unique<T: Ranked>(v: Seq<T>, r: Seq<T>, s: Seq<T>)
    requires
        is_sorting(v, r),
        is_sorting(v, s),
    ensures
        r == s,
{
    let p = choose|order: Seq<int>| #[trigger] ranks(v, order) && r == listed(v, order);
    let q = choose|order: Seq<int>| #[trigger] ranks(v, order) && s == listed(v, order);
    lemma_same_order(v, p, q, v.len() as int);
    assert(p =~= q);
}

proof fn lemma_same_order<T: Ranked>(v: Seq<T>, p: Seq<int>, q: Seq<int>, n: int)
    requires
        ranks(v, p),
        ranks(v, q),
        0 <= n <= v.len(),
    ensures
        forall|i: int| 0 <= i < n ==> p[i] == q[i],
    decreases n,
{
    if n > 0 {
        lemma_same_order(v, p, q, n - 1);
        let k = n - 1;
        if p[k] != q[k] {
            let i = lemma_listed_somewhere(v, p, q[k]);
            let j = lemma_listed_somewhere(v, q, p[k]);
            assert(i > k && j > k) by {
                if i < k {
                    assert(p[i] == q[i]);
                    assert(in_turn(v, q[i], q[k]));
                }
                if j < k {
                    assert(p[j] == q[j]);
                    assert(in_turn(v, p[j], p[k]));
                }
            }
            assert(in_turn(v, p[k], p[i]));
            assert(in_turn(v, q[k], q[j]));
        }
    }
}

/// Every place is listed.
proof fn lemma_listed_somewhere<T: Ranked>(v: Seq<T>, order: Seq<int>, place: int) -> (i: int)
    requires
        ranks(v, order),
        0 <= place < v.len(),
    ensures
        0 <= i < order.len(),
        order[i] == place,
{
    assert(order.no_duplicates()) by {
        assert forall|i: int, j: int|
            0 <= i < order.len() && 0 <= j < order.len() && i != j implies order[i] != order[j] by {
            if i < j {
                assert(in_turn(v, order[i], order[j]));
            } else {
                assert(in_turn(v, order[j], order[i]));
            }
        }
    }
    let all = set_int_range(0, v.len() as int);
    order.unique_seq_to_set();
    lemma_int_range(0, v.len() as int);
    assert(order.to_set().subset_of(all));
    lemma_subset_equality(order.to_set(), all);
    assert(all.contains(place));
    assert(order.contains(place));
    choose|i: int| 0 <= i < order.len() && order[i] == place
}

/// Sorting keeps every value, as often as it is there.
pub proof fn law_sorting_keeps_values<T: Ranked>(v: Seq<T>, r: Seq<T>)
    requires
        is_sorting(v, r),
    ensures
        r.len() == v.len(),
        forall|x: T| r.contains(x) <==> v.contains(x),
{
    let order = choose|order: Seq<int>| #[trigger] ranks(v, order) && r == listed(v, order);
    assert forall|x: T| r.contains(x) <==> v.contains(x) by {
        if r.contains(x) {
            let i = choose|i: int| 0 <= i < r.len() && r[i] == x;
            assert(v[order[i]] == x);
        }
        if v.contains(x) {
            let k = choose|k: int| 0 <= k < v.len() && v[k] == x;
            let i = lemma_listed_somewhere(v, order, k);
            assert(r[i] == x);
        }
    }
}

/// After sorting, every value leads those behind it.
pub proof fn law_sorted<T: Ranked>(v: Seq<T>, r: Seq<T>, i: int, j: int)
    requires
        is_sorting(v, r),
        0 <= i < j < r.len(),
    ensures
        r[i].leads(&r[j]),
{
    let order = choose|order: Seq<int>| #[trigger] ranks(v, order) && r == listed(v, order);
    assert(in_turn(v, order[i], order[j]));
}

// ---------------------------------------------------------------------------
// The order of texts
// ---------------------------------------------------------------------------

/// `a` comes before `b` in the order of their characters' numbers, or they are
/// the same; a text comes after its beginnings.
pub open spec fn text_leads(a: Seq<char>, b: Seq<char>) -> bool
    decreases a.len(),
{
    if a.len() == 0 {
        true
    } else if b.len() == 0 {
        false
    } else if a[0] != b[0] {
        a[0] < b[0]
    } else {
        text_leads(a.drop_first(), b.drop_first())
    }
}

/// Of any two texts one leads the other.
pub proof fn lemma_text_leads_is_total(a: Seq<char>, b: Seq<char>)
    ensures
        text_leads(a, b) || text_leads(b, a),
    decreases a.len(),
{
    if a.len() > 0 && b.len() > 0 && a[0] == b[0] {
        lemma_text_leads_is_total(a.drop_first(), b.drop_first());
    }
}

/// What leads a text leads all that the text leads.
pub proof fn lemma_text_leads_is_transitive(a: Seq<char>, b: Seq<char>, c: Seq<char>)
    requires
        text_leads(a, b),
        text_leads(b, c),
    ensures
        text_leads(a, c),
    decreases a.len(),
{
    if a.len() > 0 && b.len() > 0 && c.len() > 0 && a[0] == b[0] && b[0] == c[0] {
        lemma_text_leads_is_transitive(a.drop_first(), b.drop_first(), c.drop_first());
    }
}

/// Texts that lead each other are the same.
pub proof fn law_text_order_is_strict(a: Seq<char>, b: Seq<char>)
    requires
        text_leads(a, b),
        text_leads(b, a),
    ensures
        a == b,
    decreases a.len(),
{
    if a.len() > 0 && b.len() > 0 {
        law_text_order_is_strict(a.drop_first(), b.drop_first());
        assert(a =~= seq![a[0]] + a.drop_first());
        assert(b =~= seq![b[0]] + b.drop_first());
    } else {
        assert(a =~= b);
    }
}

/// Whether `a` comes before `b` or is the same.
pub fn text_may_lead(a: &str, b: &str) -> (r: bool)
    ensures
        r == text_leads(a@, b@),
{
    let x = chars_of(a);
    let y = chars_of(b);
    let mut i: usize = 0;
    assert(x@.skip(0) =~= x@);
    assert(y@.skip(0) =~= y@);
    while i < x.len() && i < y.len()
        invariant
            x@ == a@,
            y@ == b@,
            i <= x@.len(),
            i <= y@.len(),
            text_leads(a@, b@) == text_leads(x@.skip(i as int), y@.skip(i as int)),
        decreases x@.len() - i,
    {
        assert(x@.skip(i as int)[0] == x@[i as int]);
        assert(y@.skip(i as int)[0] == y@[i as int]);
        if x[i] != y[i] {
            return x[i] < y[i];
        }
        assert(x@.skip(i as int).drop_first() =~= x@.skip(i + 1));
        assert(y@.skip(i as int).drop_first() =~= y@.skip(i + 1));
        i += 1;
    }
    i == x.len()
}

/// Values that all rank the same are left in order.
pub proof fn law_sorting_is_stable<T: Ranked>(v: Seq<T>, r: Seq<T>)
    requires
        is_sorting(v, r),
        forall|i: int, j: int|
            #![trigger v[i].leads(&v[j])]
            0 <= i < v.len() && 0 <= j < v.len() ==> v[i].leads(&v[j]),
    ensures
        r == v,
{
    let same = Seq::new(v.len(), |i: int| i);
    assert(ranks(v, same)) by {
        assert forall|i: int, j: int| 0 <= i < j < same.len() implies in_turn(
            v,
            #[trigger] same[i],
            #[trigger] same[j],
        ) by {
            assert(v[i].leads(&v[j]));
        }
    }
    assert(listed(v, same) =~= v);
    law_sorting_is_unique(v, r, v);
}

/// Texts are ordered by the first character in which they differ; a text comes
/// before any longer one that begins with it.
pub proof fn law_text_order(p: Seq<char>, a: Seq<char>, b: Seq<char>)
    requires
        a.len() > 0 && b.len() > 0 ==> a[0] != b[0],
    ensures
        text_leads(p + a, p + b) <==> a.len() == 0 || (b.len() > 0 && a[0] < b[0]),
    decreases p.len(),
{
    if p.len() == 0 {
        assert(p + a =~= a);
        assert(p + b =~= b);
    } else {
        let q = p.drop_first();
        law_text_order(q, a, b);
        assert((p + a).drop_first() =~= q + a);
        assert((p + b).drop_first() =~= q + b);
        assert((p + a)[0] == p[0] && (p + b)[0] == p[0]);
    }
}

} // verus!
