//! Facts about sequences whose elements each yield a run of items.
use vstd::prelude::*;
use vstd::seq_lib::lemma_flatten_concat;

verus! {

/// The index of the first element of `s` that `f` maps to a non-empty run, or the length of
/// `s` where there is none.
pub open spec fn first_yield<A, B>(s: Seq<A>, f: spec_fn(A) -> Seq<B>) -> int
    decreases s.len(),
{
    if s.len() == 0 {
        0
    } else if f(s[0]).len() > 0 {
        0
    } else {
        1 + first_yield(s.drop_first(), f)
    }
}

/// `first_yield` lies within the sequence, nothing before it yields, and the element at
/// it does.
pub proof fn lemma_first_yield<A, B>(s: Seq<A>, f: spec_fn(A) -> Seq<B>)
    ensures
        0 <= first_yield(s, f) <= s.len(),
        forall|j: int| 0 <= j < first_yield(s, f) ==> (#[trigger] f(s[j])).len() == 0,
        first_yield(s, f) < s.len() ==> f(s[first_yield(s, f)]).len() > 0,
    decreases s.len(),
{
    if s.len() > 0 && f(s[0]).len() == 0 {
        let rest = s.drop_first();
        lemma_first_yield(rest, f);
        let k = first_yield(s, f);
        assert forall|j: int| 0 <= j < k implies (#[trigger] f(s[j])).len() == 0 by {
            if j > 0 {
                assert(s[j] == rest[j - 1]);
            }
        }
    }
}

/// An index is `first_yield` as soon as nothing before it yields and it is either the
/// length of the sequence or the place of an element that yields.
pub proof fn lemma_first_yield_is<A, B>(s: Seq<A>, f: spec_fn(A) -> Seq<B>, k: int)
    requires
        0 <= k <= s.len(),
        forall|j: int| 0 <= j < k ==> (#[trigger] f(s[j])).len() == 0,
        k < s.len() ==> f(s[k]).len() > 0,
    ensures
        first_yield(s, f) == k,
    decreases s.len(),
{
    if s.len() > 0 && k > 0 {
        let rest = s.drop_first();
        assert forall|j: int| 0 <= j < k - 1 implies (#[trigger] f(rest[j])).len() == 0 by {
            assert(rest[j] == s[j + 1]);
        }
        lemma_first_yield_is(rest, f, k - 1);
    }
}

/// A search that starts at `start` and finds nothing before `at` has found the first yield
/// of what lies from `start` on, where `at` is the end of the sequence or the place of an
/// element that yields.
pub proof fn lemma_first_yield_from<A, B>(s: Seq<A>, f: spec_fn(A) -> Seq<B>, start: int, at: int)
    requires
        0 <= start <= at <= s.len(),
        forall|j: int| start <= j < at ==> (#[trigger] f(s[j])).len() == 0,
        at < s.len() ==> f(s[at]).len() > 0,
    ensures
        first_yield(s.skip(start), f) == at - start,
        at < s.len() ==> s.skip(start)[at - start] == s[at],
        at < s.len() ==> s.skip(start).skip(at - start + 1) == s.skip(at + 1),
        at == s.len() ==> first_yield(s.skip(start), f) == s.skip(start).len(),
{
    let rest = s.skip(start);
    assert forall|j: int| 0 <= j < at - start implies (#[trigger] f(rest[j])).len() == 0 by {
        assert(rest[j] == s[start + j]);
    }
    if at < s.len() {
        assert(rest[at - start] == s[at]);
        assert(rest.skip(at - start + 1) =~= s.skip(at + 1));
    }
    lemma_first_yield_is(rest, f, at - start);
}

/// The runs of a non-empty sequence are the run of its first element, then the runs of
/// the others.
pub proof fn lemma_flat_map_first<A, B>(s: Seq<A>, f: spec_fn(A) -> Seq<B>)
    requires
        s.len() > 0,
    ensures
        s.flat_map(f) == f(s[0]) + s.drop_first().flat_map(f),
{
    assert(s.map_values(f).drop_first() =~= s.drop_first().map_values(f));
}

/// The runs of two sequences joined are the runs of the first, then those of the second.
pub proof fn lemma_flat_map_concat<A, B>(a: Seq<A>, b: Seq<A>, f: spec_fn(A) -> Seq<B>)
    ensures
        (a + b).flat_map(f) == a.flat_map(f) + b.flat_map(f),
{
    assert((a + b).map_values(f) =~= a.map_values(f) + b.map_values(f));
    lemma_flatten_concat(a.map_values(f), b.map_values(f));
}

/// An element that yields nothing can be left out: the runs are the same without it.
pub proof fn lemma_flat_map_without<A, B>(
    before: Seq<A>,
    element: A,
    after: Seq<A>,
    f: spec_fn(A) -> Seq<B>,
)
    requires
        f(element).len() == 0,
    ensures
        (before + seq![element] + after).flat_map(f) == (before + after).flat_map(f),
        (before + seq![element] + after).flat_map(f) == before.flat_map(f) + after.flat_map(f),
{
    lemma_flat_map_concat(before + seq![element], after, f);
    lemma_flat_map_concat(before, seq![element], f);
    lemma_flat_map_concat(before, after, f);
    lemma_flat_map_first(seq![element], f);
}

/// The runs of a sequence begin with the run of its first element that yields, and go on
/// with the runs of what follows that element; where no element yields there are none.
pub proof fn lemma_flat_map_from_first_yield<A, B>(s: Seq<A>, f: spec_fn(A) -> Seq<B>)
    ensures
        first_yield(s, f) < s.len() ==> s.flat_map(f) == f(s[first_yield(s, f)]) + s.skip(
            first_yield(s, f) + 1,
        ).flat_map(f),
        first_yield(s, f) >= s.len() ==> s.flat_map(f) == Seq::<B>::empty(),
    decreases s.len(),
{
    lemma_first_yield(s, f);
    if s.len() > 0 {
        let rest = s.drop_first();
        lemma_flat_map_first(s, f);
        if f(s[0]).len() == 0 {
            lemma_flat_map_from_first_yield(rest, f);
            lemma_first_yield(rest, f);
            let k = first_yield(rest, f);
            if k < rest.len() {
                assert(rest.skip(k + 1) =~= s.skip(k + 2));
            }
        }
    }
}

/// Every item of the runs of a sequence is an item of the run of one of its elements.
pub proof fn lemma_flat_map_source<A, B>(s: Seq<A>, f: spec_fn(A) -> Seq<B>, n: int)
    requires
        0 <= n < s.flat_map(f).len(),
    ensures
        exists|i: int, k: int|
            0 <= i < s.len() && 0 <= k < f(s[i]).len() && #[trigger] f(s[i])[k] == s.flat_map(f)[n],
    decreases s.len(),
{
    if s.len() > 0 {
        lemma_flat_map_first(s, f);
        let rest = s.drop_first();
        if n < f(s[0]).len() {
            assert(f(s[0])[n] == s.flat_map(f)[n]);
        } else {
            let m = n - f(s[0]).len();
            lemma_flat_map_source(rest, f, m);
            let (i, k) = choose|i: int, k: int|
                0 <= i < rest.len() && 0 <= k < f(rest[i]).len() && #[trigger] f(rest[i])[k]
                    == rest.flat_map(f)[m];
            assert(f(s[i + 1])[k] == s.flat_map(f)[n]);
        }
    }
}

/// Every item of the run of an element is an item of the runs of the sequence.
pub proof fn lemma_flat_map_contains<A, B>(s: Seq<A>, f: spec_fn(A) -> Seq<B>, i: int, k: int)
    requires
        0 <= i < s.len(),
        0 <= k < f(s[i]).len(),
    ensures
        s.flat_map(f).contains(f(s[i])[k]),
    decreases s.len(),
{
    lemma_flat_map_first(s, f);
    let rest = s.drop_first();
    if i == 0 {
        assert(s.flat_map(f)[k] == f(s[0])[k]);
    } else {
        lemma_flat_map_contains(rest, f, i - 1, k);
        let m = choose|m: int| 0 <= m < rest.flat_map(f).len() && rest.flat_map(f)[m] == f(s[i])[k];
        assert(s.flat_map(f)[f(s[0]).len() + m] == f(s[i])[k]);
    }
}

} // verus!
