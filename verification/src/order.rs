//! Stable sorting, stated as repeated insertion behind the last item that
//! does not come later.

use vstd::prelude::*;

verus! {

/// `sorted` with `x` put in behind the last item that `leq` does not place
/// after `x`.
pub open spec fn insert_ordered<T>(sorted: Seq<T>, x: T, leq: spec_fn(T, T) -> bool) -> Seq<T>
    decreases sorted.len(),
{
    if sorted.len() == 0 || leq(sorted.last(), x) {
        sorted.push(x)
    } else {
        insert_ordered(sorted.drop_last(), x, leq).push(sorted.last())
    }
}

/// The items of `s` in the order of `leq`; items that `leq` ties keep the
/// order they had in `s`.
pub open spec fn stable_sort<T>(s: Seq<T>, leq: spec_fn(T, T) -> bool) -> Seq<T>
    decreases s.len(),
{
    if s.len() == 0 {
        s
    } else {
        insert_ordered(stable_sort(s.drop_last(), leq), s.last(), leq)
    }
}

/// Whether no item of `s` stands before one that `leq` does not place it
/// before or beside.
pub open spec fn is_ordered<T>(s: Seq<T>, leq: spec_fn(T, T) -> bool) -> bool {
    forall|i: int, j: int| 0 <= i < j < s.len() ==> #[trigger] leq(s[i], s[j])
}

/// Whether `leq` compares any two items and passes on from one to the next.
pub open spec fn is_total_preorder<T>(leq: spec_fn(T, T) -> bool) -> bool {
    &&& forall|a: T, b: T| #[trigger] leq(a, b) || leq(b, a)
    &&& forall|a: T, b: T, c: T| #[trigger] leq(a, b) && #[trigger] leq(b, c) ==> leq(a, c)
}

/// Where an insertion lands: behind position `p - 1`, if that item does not
/// come after `x` and every item from `p` on does.
pub proof fn lemma_insert_at<T>(sorted: Seq<T>, x: T, leq: spec_fn(T, T) -> bool, p: int)
    requires
        0 <= p <= sorted.len(),
        forall|j: int| p <= j < sorted.len() ==> !leq(#[trigger] sorted[j], x),
        p > 0 ==> leq(sorted[p - 1], x),
    ensures
        insert_ordered(sorted, x, leq) == sorted.insert(p, x),
    decreases sorted.len() - p,
{
    if p == sorted.len() {
        assert(sorted.insert(p, x) =~= sorted.push(x));
    } else {
        assert(!leq(sorted[sorted.len() - 1], x));
        lemma_insert_at(sorted.drop_last(), x, leq, p);
        assert(sorted.drop_last().insert(p, x).push(sorted.last()) =~= sorted.insert(p, x));
    }
}

/// An insertion lands somewhere: the result is `sorted` with `x` put in at
/// one position, behind items that do not come after it and before items
/// that do.
pub proof fn lemma_insert_position<T>(sorted: Seq<T>, x: T, leq: spec_fn(T, T) -> bool) -> (p: int)
    ensures
        0 <= p <= sorted.len(),
        insert_ordered(sorted, x, leq) == sorted.insert(p, x),
        forall|j: int| p <= j < sorted.len() ==> !leq(#[trigger] sorted[j], x),
        p > 0 ==> leq(sorted[p - 1], x),
    decreases sorted.len(),
{
    if sorted.len() == 0 || leq(sorted.last(), x) {
        assert(sorted.insert(sorted.len() as int, x) =~= sorted.push(x));
        sorted.len() as int
    } else {
        let p = lemma_insert_position(sorted.drop_last(), x, leq);
        assert(sorted.drop_last().insert(p, x).push(sorted.last()) =~= sorted.insert(p, x));
        assert forall|j: int| p <= j < sorted.len() implies !leq(#[trigger] sorted[j], x) by {
            if j < sorted.len() - 1 {
                assert(sorted.drop_last()[j] == sorted[j]);
            }
        }
        if p > 0 {
            assert(sorted.drop_last()[p - 1] == sorted[p - 1]);
        }
        p
    }
}

/// Sorting by a total preorder leaves no item before one that it comes
/// after.
pub proof fn lemma_stable_sort_is_ordered<T>(s: Seq<T>, leq: spec_fn(T, T) -> bool)
    requires
        is_total_preorder(leq),
    ensures
        is_ordered(stable_sort(s, leq), leq),
    decreases s.len(),
{
    if s.len() > 0 {
        let sorted = stable_sort(s.drop_last(), leq);
        let x = s.last();
        lemma_stable_sort_is_ordered(s.drop_last(), leq);
        let p = lemma_insert_position(sorted, x, leq);
        let r = sorted.insert(p, x);
        assert forall|i: int, j: int| 0 <= i < j < r.len() implies #[trigger] leq(r[i], r[j]) by {
            if j < p {
                assert(leq(sorted[i], sorted[j]));
            } else if j == p {
                if i < p - 1 {
                    assert(leq(sorted[i], sorted[p - 1]));
                }
                assert(leq(sorted[p - 1], x));
            } else if i < p {
                assert(leq(sorted[i], sorted[j - 1]));
            } else if i == p {
                assert(!leq(sorted[j - 1], x));
                assert(leq(sorted[j - 1], x) || leq(x, sorted[j - 1]));
            } else {
                assert(leq(sorted[i - 1], sorted[j - 1]));
            }
        }
    }
}

/// Sorting keeps every item, as often as it occurred.
pub proof fn lemma_stable_sort_permutes<T>(s: Seq<T>, leq: spec_fn(T, T) -> bool)
    ensures
        stable_sort(s, leq).to_multiset() == s.to_multiset(),
        stable_sort(s, leq).len() == s.len(),
    decreases s.len(),
{
    broadcast use vstd::seq_lib::group_to_multiset_ensures;

    if s.len() > 0 {
        let sorted = stable_sort(s.drop_last(), leq);
        let x = s.last();
        lemma_stable_sort_permutes(s.drop_last(), leq);
        let p = lemma_insert_position(sorted, x, leq);
        assert(s.drop_last().push(x) =~= s);
        assert(sorted.insert(p, x).to_multiset() =~= sorted.to_multiset().insert(x));
        assert(s.drop_last().push(x).to_multiset() =~= s.drop_last().to_multiset().insert(x));
    }
}

/// A step towards [`lemma_stable_sort_keeps_ties`]: what an insertion does
/// to the items of one class.
pub proof fn lemma_insert_keeps_ties<T>(
    sorted: Seq<T>,
    x: T,
    leq: spec_fn(T, T) -> bool,
    class: spec_fn(T) -> bool,
)
    requires
        forall|a: T, b: T| class(a) && class(b) ==> #[trigger] leq(a, b),
    ensures
        insert_ordered(sorted, x, leq).filter(class) == (if class(x) {
            sorted.filter(class).push(x)
        } else {
            sorted.filter(class)
        }),
    decreases sorted.len(),
{
    reveal(Seq::filter);
    if sorted.len() == 0 || leq(sorted.last(), x) {
        assert(sorted.push(x).drop_last() =~= sorted);
    } else {
        let front = insert_ordered(sorted.drop_last(), x, leq);
        lemma_insert_keeps_ties(sorted.drop_last(), x, leq, class);
        assert(front.push(sorted.last()).drop_last() =~= front);
        if class(x) {
            assert(!class(sorted.last()));
        }
    }
}

/// Sorting is stable: items that `leq` ties with one another stand in the
/// result in the order in which they were given.
pub proof fn lemma_stable_sort_keeps_ties<T>(
    s: Seq<T>,
    leq: spec_fn(T, T) -> bool,
    class: spec_fn(T) -> bool,
)
    requires
        forall|a: T, b: T| class(a) && class(b) ==> #[trigger] leq(a, b),
    ensures
        stable_sort(s, leq).filter(class) == s.filter(class),
    decreases s.len(),
{
    reveal(Seq::filter);
    if s.len() > 0 {
        lemma_stable_sort_keeps_ties(s.drop_last(), leq, class);
        lemma_insert_keeps_ties(stable_sort(s.drop_last(), leq), s.last(), leq, class);
    }
}

} // verus!
