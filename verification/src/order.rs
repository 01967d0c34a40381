//! Stable sorting of a sequence by a "comes before" relation.
//!
//! The relation need not tell all elements apart: two elements of which
//! neither comes before the other keep the order they had.

use vstd::prelude::*;
use vstd::seq_lib::{to_multiset_insert, to_multiset_remove};

verus! {

/// `lt` is a strict weak order: nothing comes both before and after another
/// element, and where `a` does not come before `b` nor `b` before `c`, `a`
/// does not come before `c`.
pub open spec fn strict_weak_order<A>(lt: spec_fn(A, A) -> bool) -> bool {
    &&& forall|a: A, b: A| #![trigger lt(a, b)] lt(a, b) ==> !lt(b, a)
    &&& forall|a: A, b: A, c: A|
        #![trigger lt(a, b), lt(b, c)]
        !lt(a, b) && !lt(b, c) ==> !lt(a, c)
}

/// No element of `s` comes before an element that stands earlier in `s`.
pub open spec fn is_sorted<A>(s: Seq<A>, lt: spec_fn(A, A) -> bool) -> bool {
    forall|i: int, j: int| #![trigger s[i], s[j]] 0 <= i < j < s.len() ==> !lt(s[j], s[i])
}

/// Where `x` goes in `s`: after the leading elements that come before it.
pub open spec fn insertion_point<A>(s: Seq<A>, x: A, lt: spec_fn(A, A) -> bool) -> int
    decreases s.len(),
{
    if s.len() == 0 || !lt(s[0], x) {
        0
    } else {
        1 + insertion_point(s.drop_first(), x, lt)
    }
}

/// `s` with `x` put at its insertion point.
pub open spec fn stable_insert<A>(s: Seq<A>, x: A, lt: spec_fn(A, A) -> bool) -> Seq<A> {
    s.insert(insertion_point(s, x, lt), x)
}

/// The elements of `s` in sorted order, elements that `lt` does not tell
/// apart in the order they have in `s`.
pub open spec fn stable_sort<A>(s: Seq<A>, lt: spec_fn(A, A) -> bool) -> Seq<A>
    decreases s.len(),
{
    if s.len() == 0 {
        Seq::empty()
    } else {
        stable_insert(stable_sort(s.drop_first(), lt), s[0], lt)
    }
}

/// The insertion point is in range, everything ahead of it comes before
/// `x`, and the element at it does not.
pub proof fn lemma_insertion_point<A>(s: Seq<A>, x: A, lt: spec_fn(A, A) -> bool)
    ensures
        0 <= insertion_point(s, x, lt) <= s.len(),
        forall|k: int| 0 <= k < insertion_point(s, x, lt) ==> lt(#[trigger] s[k], x),
        insertion_point(s, x, lt) < s.len() ==> !lt(s[insertion_point(s, x, lt)], x),
    decreases s.len(),
{
    if s.len() != 0 && lt(s[0], x) {
        let t = s.drop_first();
        lemma_insertion_point(t, x, lt);
        let p = insertion_point(t, x, lt);
        assert forall|k: int| 0 <= k < p + 1 implies lt(#[trigger] s[k], x) by {
            if k > 0 {
                assert(s[k] == t[k - 1]);
            }
        }
        if p + 1 < s.len() {
            assert(s[p + 1] == t[p]);
        }
    }
}

/// Only the insertion point has the properties of the insertion point.
pub proof fn lemma_insertion_point_unique<A>(s: Seq<A>, x: A, lt: spec_fn(A, A) -> bool, p: int)
    requires
        0 <= p <= s.len(),
        forall|k: int| 0 <= k < p ==> lt(#[trigger] s[k], x),
        p < s.len() ==> !lt(s[p], x),
    ensures
        p == insertion_point(s, x, lt),
    decreases s.len(),
{
    if s.len() != 0 && lt(s[0], x) {
        let t = s.drop_first();
        assert(p > 0);
        assert forall|k: int| 0 <= k < p - 1 implies lt(#[trigger] t[k], x) by {
            assert(t[k] == s[k + 1]);
        }
        if p - 1 < t.len() {
            assert(t[p - 1] == s[p]);
        }
        lemma_insertion_point_unique(t, x, lt, p - 1);
    } else if s.len() != 0 {
        if p > 0 {
            assert(lt(s[0], x));
        }
    }
}

/// Inserting into a sorted sequence leaves it sorted.
pub proof fn lemma_stable_insert_sorted<A>(s: Seq<A>, x: A, lt: spec_fn(A, A) -> bool)
    requires
        strict_weak_order(lt),
        is_sorted(s, lt),
    ensures
        is_sorted(stable_insert(s, x, lt), lt),
        stable_insert(s, x, lt).len() == s.len() + 1,
{
    lemma_insertion_point(s, x, lt);
    let p = insertion_point(s, x, lt);
    let t = s.insert(p, x);
    assert forall|i: int, j: int| #![trigger t[i], t[j]] 0 <= i < j < t.len() implies !lt(
        t[j],
        t[i],
    ) by {
        if j == p {
            assert(lt(s[i], x));
            assert(t[i] == s[i]);
        } else if i == p {
            assert(t[j] == s[j - 1]);
            if j - 1 > p {
                assert(!lt(s[j - 1], s[p]));
                assert(!lt(s[p], x));
            }
        } else {
            let si = if i < p { i } else { i - 1 };
            let sj = if j < p { j } else { j - 1 };
            assert(t[i] == s[si]);
            assert(t[j] == s[sj]);
        }
    }
}

/// A stable sort is sorted and as long as what was sorted.
pub proof fn lemma_stable_sort_sorted<A>(s: Seq<A>, lt: spec_fn(A, A) -> bool)
    requires
        strict_weak_order(lt),
    ensures
        is_sorted(stable_sort(s, lt), lt),
        stable_sort(s, lt).len() == s.len(),
    decreases s.len(),
{
    if s.len() != 0 {
        lemma_stable_sort_sorted(s.drop_first(), lt);
        lemma_stable_insert_sorted(stable_sort(s.drop_first(), lt), s[0], lt);
    }
}

/// A stable sort holds each element as often as what was sorted.
pub proof fn lemma_stable_sort_permutes<A>(s: Seq<A>, lt: spec_fn(A, A) -> bool)
    ensures
        stable_sort(s, lt).to_multiset() == s.to_multiset(),
        stable_sort(s, lt).len() == s.len(),
    decreases s.len(),
{
    if s.len() == 0 {
        assert(s =~= Seq::<A>::empty());
    } else {
        let rest = s.drop_first();
        let sorted = stable_sort(rest, lt);
        lemma_stable_sort_permutes(rest, lt);
        lemma_insertion_point(sorted, s[0], lt);
        to_multiset_insert(sorted, insertion_point(sorted, s[0], lt), s[0]);
        to_multiset_insert(rest, 0, s[0]);
        assert(rest.insert(0, s[0]) =~= s);
    }
}

/// Sorting what is sorted changes nothing.
pub proof fn lemma_stable_sort_fixes_sorted<A>(s: Seq<A>, lt: spec_fn(A, A) -> bool)
    requires
        is_sorted(s, lt),
    ensures
        stable_sort(s, lt) == s,
    decreases s.len(),
{
    if s.len() == 0 {
        assert(s =~= Seq::<A>::empty());
    } else {
        let rest = s.drop_first();
        assert forall|i: int, j: int| #![trigger rest[i], rest[j]] 0 <= i < j < rest.len() implies !lt(
            rest[j],
            rest[i],
        ) by {
            assert(rest[i] == s[i + 1]);
            assert(rest[j] == s[j + 1]);
        }
        lemma_stable_sort_fixes_sorted(rest, lt);
        if rest.len() > 0 {
            assert(rest[0] == s[1]);
            assert(!lt(s[1], s[0]));
        }
        lemma_insertion_point_unique(rest, s[0], lt, 0);
        assert(rest.insert(0, s[0]) =~= s);
    }
}

/// Sorting twice is sorting once.
pub proof fn lemma_stable_sort_idempotent<A>(s: Seq<A>, lt: spec_fn(A, A) -> bool)
    requires
        strict_weak_order(lt),
    ensures
        stable_sort(stable_sort(s, lt), lt) == stable_sort(s, lt),
{
    lemma_stable_sort_sorted(s, lt);
    lemma_stable_sort_fixes_sorted(stable_sort(s, lt), lt);
}

/// Whether `lt` does not tell `a` and `b` apart: neither comes before
/// the other.
pub open spec fn same_rank<A>(lt: spec_fn(A, A) -> bool, a: A, b: A) -> bool {
    !lt(a, b) && !lt(b, a)
}

/// Where no element passes, nothing is left.
proof fn lemma_filter_none<A>(s: Seq<A>, pred: spec_fn(A) -> bool)
    requires
        forall|i: int| 0 <= i < s.len() ==> !pred(#[trigger] s[i]),
    ensures
        s.filter(pred) == Seq::<A>::empty(),
    decreases s.len(),
{
    reveal(Seq::filter);
    if s.len() > 0 {
        let front = s.drop_last();
        assert forall|i: int| 0 <= i < front.len() implies !pred(#[trigger] front[i]) by {
            assert(front[i] == s[i]);
        }
        lemma_filter_none(front, pred);
        assert(!pred(s[s.len() - 1]));
    } else {
        assert(s =~= Seq::<A>::empty());
    }
}

/// Sorting is stable: the elements that `lt` does not tell apart from
/// `x` stand in the sorted sequence in the order in which they stood
/// before.
pub proof fn lemma_stable_sort_is_stable<A>(s: Seq<A>, lt: spec_fn(A, A) -> bool, x: A)
    requires
        strict_weak_order(lt),
    ensures
        ({
            let same = |e: A| same_rank(lt, e, x);
            stable_sort(s, lt).filter(same) == s.filter(same)
        }),
    decreases s.len(),
{
    let same = |e: A| same_rank(lt, e, x);
    if s.len() != 0 {
        let head = s[0];
        let rest = s.drop_first();
        let sorted = stable_sort(rest, lt);
        let p = insertion_point(sorted, head, lt);
        lemma_stable_sort_is_stable(rest, lt, x);
        lemma_insertion_point(sorted, head, lt);
        let front = sorted.take(p);
        let back = sorted.skip(p);
        assert(s =~= seq![head] + rest);
        assert(sorted =~= front + back);
        assert(sorted.insert(p, head) =~= (front + seq![head]) + back);
        Seq::filter_distributes_over_add(seq![head], rest, same);
        Seq::filter_distributes_over_add(front, back, same);
        Seq::filter_distributes_over_add(front, seq![head], same);
        Seq::filter_distributes_over_add(front + seq![head], back, same);
        if same(head) {
            assert forall|i: int| 0 <= i < front.len() implies !same(#[trigger] front[i]) by {
                assert(front[i] == sorted[i]);
                assert(lt(sorted[i], head));
                if same(front[i]) {
                    assert(!lt(front[i], x) && !lt(x, head));
                }
            }
            lemma_filter_none(front, same);
            assert(Seq::<A>::empty() + seq![head].filter(same) =~= seq![head].filter(same));
            assert(Seq::<A>::empty() + back.filter(same) =~= back.filter(same));
        } else {
            lemma_filter_none(seq![head], same);
            assert(front.filter(same) + Seq::<A>::empty() =~= front.filter(same));
            assert(Seq::<A>::empty() + rest.filter(same) =~= rest.filter(same));
        }
    } else {
        assert(s =~= Seq::<A>::empty());
    }
}

/// Whether `lt` tells any two different elements of `s` apart: one of
/// them comes before the other.
pub open spec fn tells_apart<A>(s: Seq<A>, lt: spec_fn(A, A) -> bool) -> bool {
    forall|i: int, j: int|
        #![trigger s[i], s[j]]
        0 <= i < s.len() && 0 <= j < s.len() && s[i] != s[j] ==> lt(s[i], s[j]) || lt(s[j], s[i])
}

/// Two sorted sequences that hold the same elements, each as often, are
/// the same sequence, if the relation tells different elements apart.
pub proof fn lemma_sorted_is_unique<A>(s: Seq<A>, t: Seq<A>, lt: spec_fn(A, A) -> bool)
    requires
        is_sorted(s, lt),
        is_sorted(t, lt),
        s.to_multiset() == t.to_multiset(),
        tells_apart(s, lt),
    ensures
        s == t,
    decreases s.len(),
{
    s.to_multiset_ensures();
    t.to_multiset_ensures();
    if s.len() == 0 {
        assert(s =~= t);
    } else {
        assert(s.to_multiset().count(s[0]) > 0);
        assert(t.contains(s[0]));
        let m = choose|m: int| 0 <= m < t.len() && t[m] == s[0];
        assert(t.to_multiset().count(t[0]) > 0);
        assert(s.contains(t[0]));
        let k = choose|k: int| 0 <= k < s.len() && s[k] == t[0];
        if s[0] != t[0] {
            assert(!lt(s[k], s[0]));
            assert(!lt(t[m], t[0]));
            assert(lt(s[0], s[k]) || lt(s[k], s[0]));
        }
        let s1 = s.drop_first();
        let t1 = t.drop_first();
        assert(s1 =~= s.remove(0));
        assert(t1 =~= t.remove(0));
        to_multiset_remove(s, 0);
        to_multiset_remove(t, 0);
        assert forall|i: int, j: int| #![trigger s1[i], s1[j]] 0 <= i < j < s1.len() implies !lt(
            s1[j],
            s1[i],
        ) by {
            assert(s1[i] == s[i + 1] && s1[j] == s[j + 1]);
        }
        assert forall|i: int, j: int| #![trigger t1[i], t1[j]] 0 <= i < j < t1.len() implies !lt(
            t1[j],
            t1[i],
        ) by {
            assert(t1[i] == t[i + 1] && t1[j] == t[j + 1]);
        }
        assert forall|i: int, j: int|
            #![trigger s1[i], s1[j]]
            0 <= i < s1.len() && 0 <= j < s1.len() && s1[i] != s1[j] implies lt(s1[i], s1[j])
            || lt(s1[j], s1[i]) by {
            assert(s1[i] == s[i + 1] && s1[j] == s[j + 1]);
        }
        lemma_sorted_is_unique(s1, t1, lt);
        assert(s =~= seq![s[0]] + s1);
        assert(t =~= seq![t[0]] + t1);
    }
}

/// The order in which elements were put together does not show in what
/// sorting gives, if the relation tells different elements apart: two
/// sequences that hold the same elements, each as often, sort to the same
/// sequence. Where two different elements rank alike, it shows: they keep
/// the order they had.
pub proof fn lemma_insertion_order_is_irrelevant<A>(
    s: Seq<A>,
    t: Seq<A>,
    lt: spec_fn(A, A) -> bool,
)
    requires
        strict_weak_order(lt),
        s.to_multiset() == t.to_multiset(),
        tells_apart(s, lt),
    ensures
        stable_sort(s, lt) == stable_sort(t, lt),
{
    let a = stable_sort(s, lt);
    let b = stable_sort(t, lt);
    lemma_stable_sort_sorted(s, lt);
    lemma_stable_sort_sorted(t, lt);
    lemma_stable_sort_permutes(s, lt);
    lemma_stable_sort_permutes(t, lt);
    s.to_multiset_ensures();
    a.to_multiset_ensures();
    assert forall|i: int, j: int|
        #![trigger a[i], a[j]]
        0 <= i < a.len() && 0 <= j < a.len() && a[i] != a[j] implies lt(a[i], a[j]) || lt(
        a[j],
        a[i],
    ) by {
        assert(a.to_multiset().count(a[i]) > 0);
        assert(a.to_multiset().count(a[j]) > 0);
        assert(s.contains(a[i]));
        assert(s.contains(a[j]));
        let x = choose|x: int| 0 <= x < s.len() && s[x] == a[i];
        let y = choose|y: int| 0 <= y < s.len() && s[y] == a[j];
        assert(lt(s[x], s[y]) || lt(s[y], s[x]));
    }
    lemma_sorted_is_unique(a, b, lt);
}

} // verus!
