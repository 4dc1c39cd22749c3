//! Ordering a sequence by insertion, and what ordering leaves unchanged.
//!
//! `sort_ordered` puts the elements of a sequence in the order given by a
//! relation `before`, one element after the other: each element goes behind
//! every element that it does not come before. Elements that the relation
//! does not tell apart keep the order they came in.

use vstd::prelude::*;

verus! {

/// The place at which `x` enters the ordered sequence `s`:
/// behind the last element that `x` does not come before.
pub open spec fn insertion_point<A>(s: Seq<A>, x: A, before: spec_fn(A, A) -> bool) -> int
    decreases s.len(),
{
    if s.len() > 0 && before(x, s.last()) {
        insertion_point(s.drop_last(), x, before)
    } else {
        s.len() as int
    }
}

/// The ordered sequence `s` with `x` put in its place.
pub open spec fn insert_ordered<A>(s: Seq<A>, x: A, before: spec_fn(A, A) -> bool) -> Seq<A> {
    s.insert(insertion_point(s, x, before), x)
}

/// The elements of `s`, ordered by `before`.
pub open spec fn sort_ordered<A>(s: Seq<A>, before: spec_fn(A, A) -> bool) -> Seq<A>
    decreases s.len(),
{
    if s.len() == 0 {
        Seq::empty()
    } else {
        insert_ordered(sort_ordered(s.drop_last(), before), s.last(), before)
    }
}

/// No element stands behind one that it comes before.
pub open spec fn is_ordered<A>(s: Seq<A>, before: spec_fn(A, A) -> bool) -> bool {
    forall|i: int, j: int| 0 <= i < j < s.len() ==> !before(#[trigger] s[j], #[trigger] s[i])
}

/// `before` never holds both ways, and "does not come before" carries over:
/// the relation ranks its elements, possibly with ties.
pub open spec fn is_ranking<A>(before: spec_fn(A, A) -> bool) -> bool {
    &&& forall|a: A, b: A| #[trigger] before(a, b) ==> !before(b, a)
    &&& forall|a: A, b: A, c: A|
        !#[trigger] before(a, b) && !#[trigger] before(b, c) ==> !before(a, c)
}

/// Every element satisfies `q`.
pub open spec fn all_satisfy<A>(s: Seq<A>, q: spec_fn(A) -> bool) -> bool {
    forall|i: int| 0 <= i < s.len() ==> q(#[trigger] s[i])
}

/// Every two elements at different places are related by `r`.
pub open spec fn pairwise<A>(s: Seq<A>, r: spec_fn(A, A) -> bool) -> bool {
    forall|i: int, j: int|
        0 <= i < s.len() && 0 <= j < s.len() && i != j ==> r(#[trigger] s[i], #[trigger] s[j])
}

/// The sum of `f` over the elements of `s`.
pub open spec fn sum_of<A>(s: Seq<A>, f: spec_fn(A) -> int) -> int
    decreases s.len(),
{
    if s.len() == 0 {
        0
    } else {
        sum_of(s.drop_last(), f) + f(s.last())
    }
}

/// The insertion point lies within the sequence; everything from it on comes
/// after `x`, and the element just before it does not.
pub proof fn lemma_insertion_point<A>(s: Seq<A>, x: A, before: spec_fn(A, A) -> bool)
    ensures
        0 <= insertion_point(s, x, before) <= s.len(),
        forall|k: int| insertion_point(s, x, before) <= k < s.len() ==> before(x, #[trigger] s[k]),
        insertion_point(s, x, before) > 0 ==> !before(x, s[insertion_point(s, x, before) - 1]),
    decreases s.len(),
{
    if s.len() > 0 && before(x, s.last()) {
        let init = s.drop_last();
        lemma_insertion_point(init, x, before);
        assert forall|k: int| insertion_point(s, x, before) <= k < s.len() implies before(
            x,
            #[trigger] s[k],
        ) by {
            if k < init.len() {
                assert(s[k] == init[k]);
            }
        }
        if insertion_point(s, x, before) > 0 {
            assert(s[insertion_point(s, x, before) - 1] == init[insertion_point(init, x, before)
                - 1]);
        }
    }
}

/// A sum grows by `f(x)` when `x` is inserted anywhere.
pub proof fn lemma_sum_of_insert<A>(s: Seq<A>, at: int, x: A, f: spec_fn(A) -> int)
    requires
        0 <= at <= s.len(),
    ensures
        sum_of(s.insert(at, x), f) == sum_of(s, f) + f(x),
    decreases s.len(),
{
    let t = s.insert(at, x);
    if at == s.len() {
        assert(t.drop_last() =~= s);
    } else {
        assert(t.drop_last() =~= s.drop_last().insert(at, x));
        assert(t.last() == s.last());
        lemma_sum_of_insert(s.drop_last(), at, x, f);
    }
}

/// The sum over a concatenation is the sum of the sums.
pub proof fn lemma_sum_of_concat<A>(a: Seq<A>, b: Seq<A>, f: spec_fn(A) -> int)
    ensures
        sum_of(a + b, f) == sum_of(a, f) + sum_of(b, f),
    decreases b.len(),
{
    if b.len() == 0 {
        assert(a + b =~= a);
    } else {
        assert((a + b).drop_last() =~= a + b.drop_last());
        lemma_sum_of_concat(a, b.drop_last(), f);
    }
}

/// Two sequences whose elements agree on `f` and `g`, place by place, have equal sums.
pub proof fn lemma_sum_of_pointwise<A, B>(
    a: Seq<A>,
    f: spec_fn(A) -> int,
    b: Seq<B>,
    g: spec_fn(B) -> int,
)
    requires
        a.len() == b.len(),
        forall|i: int| 0 <= i < a.len() ==> f(#[trigger] a[i]) == g(b[i]),
    ensures
        sum_of(a, f) == sum_of(b, g),
    decreases a.len(),
{
    if a.len() > 0 {
        lemma_sum_of_pointwise(a.drop_last(), f, b.drop_last(), g);
    }
}

/// A sum of values that are never negative is not negative.
pub proof fn lemma_sum_of_nonnegative<A>(s: Seq<A>, f: spec_fn(A) -> int)
    requires
        forall|i: int| 0 <= i < s.len() ==> f(#[trigger] s[i]) >= 0,
    ensures
        sum_of(s, f) >= 0,
    decreases s.len(),
{
    if s.len() > 0 {
        lemma_sum_of_nonnegative(s.drop_last(), f);
    }
}

/// Ordering keeps the number of elements.
pub proof fn lemma_sort_len<A>(s: Seq<A>, before: spec_fn(A, A) -> bool)
    ensures
        sort_ordered(s, before).len() == s.len(),
    decreases s.len(),
{
    if s.len() > 0 {
        lemma_sort_len(s.drop_last(), before);
        lemma_insertion_point(sort_ordered(s.drop_last(), before), s.last(), before);
    }
}

/// Ordering rearranges: every element occurs as often as before.
pub proof fn lemma_sort_permutes<A>(s: Seq<A>, before: spec_fn(A, A) -> bool)
    ensures
        sort_ordered(s, before).to_multiset() == s.to_multiset(),
    decreases s.len(),
{
    broadcast use vstd::seq_lib::group_to_multiset_ensures;

    if s.len() == 0 {
        assert(sort_ordered(s, before) =~= s);
    } else {
        let rest = sort_ordered(s.drop_last(), before);
        lemma_sort_permutes(s.drop_last(), before);
        lemma_insertion_point(rest, s.last(), before);
        assert(s =~= s.drop_last().push(s.last()));
    }
}

/// Ordering keeps every sum.
pub proof fn lemma_sort_sum<A>(s: Seq<A>, before: spec_fn(A, A) -> bool, f: spec_fn(A) -> int)
    ensures
        sum_of(sort_ordered(s, before), f) == sum_of(s, f),
    decreases s.len(),
{
    if s.len() > 0 {
        let rest = sort_ordered(s.drop_last(), before);
        lemma_sort_sum(s.drop_last(), before, f);
        lemma_insertion_point(rest, s.last(), before);
        lemma_sum_of_insert(rest, insertion_point(rest, s.last(), before), s.last(), f);
    }
}

/// What holds of every element still holds of every element after ordering.
pub proof fn lemma_sort_all<A>(s: Seq<A>, before: spec_fn(A, A) -> bool, q: spec_fn(A) -> bool)
    requires
        all_satisfy(s, q),
    ensures
        all_satisfy(sort_ordered(s, before), q),
    decreases s.len(),
{
    if s.len() > 0 {
        let rest = sort_ordered(s.drop_last(), before);
        assert forall|i: int| 0 <= i < s.drop_last().len() implies q(#[trigger] s.drop_last()[i]) by {
            assert(s.drop_last()[i] == s[i]);
        }
        lemma_sort_all(s.drop_last(), before, q);
        lemma_insertion_point(rest, s.last(), before);
        let at = insertion_point(rest, s.last(), before);
        let t = rest.insert(at, s.last());
        assert forall|i: int| 0 <= i < t.len() implies q(#[trigger] t[i]) by {
            if i < at {
                assert(t[i] == rest[i]);
            } else if i == at {
                assert(t[i] == s[s.len() - 1]);
            } else {
                assert(t[i] == rest[i - 1]);
            }
        }
    }
}

/// What holds between every two elements still holds between every two after ordering.
pub proof fn lemma_sort_pairwise<A>(
    s: Seq<A>,
    before: spec_fn(A, A) -> bool,
    r: spec_fn(A, A) -> bool,
)
    requires
        pairwise(s, r),
    ensures
        pairwise(sort_ordered(s, before), r),
    decreases s.len(),
{
    if s.len() > 0 {
        let init = s.drop_last();
        let x = s.last();
        let rest = sort_ordered(init, before);
        assert forall|i: int, j: int|
            0 <= i < init.len() && 0 <= j < init.len() && i != j implies r(
            #[trigger] init[i],
            #[trigger] init[j],
        ) by {
            assert(init[i] == s[i] && init[j] == s[j]);
        }
        lemma_sort_pairwise(init, before, r);
        let with_x = |y: A| r(y, x) && r(x, y);
        assert forall|i: int| 0 <= i < init.len() implies with_x(#[trigger] init[i]) by {
            assert(init[i] == s[i]);
            assert(x == s[s.len() - 1]);
        }
        lemma_sort_all(init, before, with_x);
        lemma_insertion_point(rest, x, before);
        let at = insertion_point(rest, x, before);
        let t = rest.insert(at, x);
        assert forall|i: int, j: int| 0 <= i < t.len() && 0 <= j < t.len() && i != j implies r(
            #[trigger] t[i],
            #[trigger] t[j],
        ) by {
            let a = if i < at { i } else { i - 1 };
            let b = if j < at { j } else { j - 1 };
            if i == at {
                assert(t[j] == rest[b]);
                assert(with_x(rest[b]));
            } else if j == at {
                assert(t[i] == rest[a]);
                assert(with_x(rest[a]));
            } else {
                assert(t[i] == rest[a] && t[j] == rest[b]);
            }
        }
    }
}

/// Ordering by a ranking leaves no element behind one that it comes before.
pub proof fn lemma_sort_is_ordered<A>(s: Seq<A>, before: spec_fn(A, A) -> bool)
    requires
        is_ranking(before),
    ensures
        is_ordered(sort_ordered(s, before), before),
    decreases s.len(),
{
    if s.len() > 0 {
        let x = s.last();
        let rest = sort_ordered(s.drop_last(), before);
        lemma_sort_is_ordered(s.drop_last(), before);
        lemma_insertion_point(rest, x, before);
        let at = insertion_point(rest, x, before);
        let t = rest.insert(at, x);
        assert forall|i: int, j: int| 0 <= i < j < t.len() implies !before(
            #[trigger] t[j],
            #[trigger] t[i],
        ) by {
            if j == at {
                // t[i] stands before the insertion point: x does not come before it
                assert(t[i] == rest[i]);
                if i < at - 1 {
                    assert(!before(rest[at - 1], rest[i]));
                }
                assert(!before(x, rest[at - 1]));
                assert(!before(x, rest[i]));
            } else if i == at {
                assert(t[j] == rest[j - 1]);
                assert(before(x, rest[j - 1]));
            } else {
                let a = if i < at { i } else { i - 1 };
                let b = if j < at { j } else { j - 1 };
                assert(t[i] == rest[a] && t[j] == rest[b]);
            }
        }
    }
}

/// Of every two different elements of `s`, one comes before the other.
pub open spec fn is_total_on<A>(s: Seq<A>, before: spec_fn(A, A) -> bool) -> bool {
    forall|i: int, j: int|
        0 <= i < s.len() && 0 <= j < s.len() && s[i] != s[j] ==> before(
            #[trigger] s[i],
            #[trigger] s[j],
        ) || before(s[j], s[i])
}

/// There is one way only to put elements in order, where of every two
/// different elements one comes before the other: two ordered sequences of
/// the same elements are the same sequence.
pub proof fn lemma_ordered_arrangement_is_unique<A>(
    s: Seq<A>,
    t: Seq<A>,
    before: spec_fn(A, A) -> bool,
)
    requires
        s.to_multiset() == t.to_multiset(),
        is_ordered(s, before),
        is_ordered(t, before),
        is_total_on(s, before),
    ensures
        s == t,
    decreases s.len(),
{
    broadcast use vstd::seq_lib::group_to_multiset_ensures;

    assert(s.len() == t.len()) by {
        assert(s.len() == s.to_multiset().len());
        assert(t.len() == t.to_multiset().len());
    }
    if s.len() == 0 {
        assert(s =~= t);
    } else {
        // the first elements are the same: each occurs in the other sequence,
        // and neither comes before the other
        assert(t.contains(t[0]));
        assert(s.to_multiset().count(t[0]) > 0);
        assert(s.contains(t[0]));
        let m = choose|m: int| 0 <= m < s.len() && s[m] == t[0];
        assert(s.contains(s[0]));
        assert(t.to_multiset().count(s[0]) > 0);
        assert(t.contains(s[0]));
        let k = choose|k: int| 0 <= k < t.len() && t[k] == s[0];
        if s[0] != t[0] {
            assert(!before(s[m], s[0]));
            assert(!before(t[k], t[0]));
            assert(before(s[0], s[m]) || before(s[m], s[0]));
        }
        let rest_s = s.remove(0);
        let rest_t = t.remove(0);
        assert(rest_s.to_multiset() == rest_t.to_multiset());
        assert forall|i: int, j: int| 0 <= i < j < rest_s.len() implies !before(
            #[trigger] rest_s[j],
            #[trigger] rest_s[i],
        ) by {
            assert(rest_s[i] == s[i + 1] && rest_s[j] == s[j + 1]);
        }
        assert forall|i: int, j: int| 0 <= i < j < rest_t.len() implies !before(
            #[trigger] rest_t[j],
            #[trigger] rest_t[i],
        ) by {
            assert(rest_t[i] == t[i + 1] && rest_t[j] == t[j + 1]);
        }
        assert forall|i: int, j: int|
            0 <= i < rest_s.len() && 0 <= j < rest_s.len() && rest_s[i] != rest_s[j] implies before(
            #[trigger] rest_s[i],
            #[trigger] rest_s[j],
        ) || before(rest_s[j], rest_s[i]) by {
            assert(rest_s[i] == s[i + 1] && rest_s[j] == s[j + 1]);
        }
        lemma_ordered_arrangement_is_unique(rest_s, rest_t, before);
        assert(s =~= seq![s[0]] + rest_s);
        assert(t =~= seq![t[0]] + rest_t);
    }
}

/// Ordering is the only way to put the elements in order, where of every
/// two different elements one comes before the other: every ordered
/// rearrangement of `s` is `sort_ordered(s, before)`.
pub proof fn lemma_sort_is_the_ordered_arrangement<A>(
    s: Seq<A>,
    arranged: Seq<A>,
    before: spec_fn(A, A) -> bool,
)
    requires
        is_ranking(before),
        is_total_on(arranged, before),
        arranged.to_multiset() == s.to_multiset(),
        is_ordered(arranged, before),
    ensures
        arranged == sort_ordered(s, before),
{
    lemma_sort_permutes(s, before);
    lemma_sort_is_ordered(s, before);
    lemma_ordered_arrangement_is_unique(arranged, sort_ordered(s, before), before);
}

} // verus!
