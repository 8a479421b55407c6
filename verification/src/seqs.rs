//! Facts about filtered sequences that the loops of this library step by.

use vstd::prelude::*;

verus! {

/// Filtering one more item either appends it or leaves the result as it is.
pub(crate) proof fn lemma_filter_step<A>(s: Seq<A>, i: int, keep: spec_fn(A) -> bool)
    requires
        0 <= i < s.len(),
    ensures
        s.take(i + 1).filter(keep) == if keep(s[i]) {
            s.take(i).filter(keep).push(s[i])
        } else {
            s.take(i).filter(keep)
        },
{
    reveal(Seq::filter);
    assert(s.take(i + 1).drop_last() =~= s.take(i));
}

/// Filtering nothing keeps nothing.
pub(crate) proof fn lemma_filter_nothing<A>(s: Seq<A>, keep: spec_fn(A) -> bool)
    ensures
        s.take(0).filter(keep) == Seq::<A>::empty(),
        Seq::<A>::empty().filter(keep) == Seq::<A>::empty(),
{
    reveal(Seq::filter);
}

/// A filtered sequence holds exactly the kept items of the sequence.
pub(crate) proof fn lemma_filter_members<A>(s: Seq<A>, keep: spec_fn(A) -> bool)
    ensures
        forall|x: A| #[trigger] s.filter(keep).contains(x) <==> s.contains(x) && keep(x),
    decreases s.len(),
{
    reveal(Seq::filter);
    if s.len() > 0 {
        let front = s.drop_last();
        lemma_filter_members(front, keep);
        assert forall|x: A| #[trigger] s.filter(keep).contains(x) <==> s.contains(x) && keep(
            x,
        ) by {
            if s.filter(keep).contains(x) {
                let k = choose|k: int| 0 <= k < s.filter(keep).len() && s.filter(keep)[k] == x;
                if !(keep(s.last()) && k == front.filter(keep).len()) {
                    assert(front.filter(keep).contains(x));
                }
            }
            if s.contains(x) && keep(x) {
                let j = choose|j: int| 0 <= j < s.len() && s[j] == x;
                assert(j < front.len() ==> front[j] == x);
            }
        }
    }
}

/// Filtering a sequence without duplicates leaves no duplicates.
pub(crate) proof fn lemma_filter_no_duplicates<A>(s: Seq<A>, keep: spec_fn(A) -> bool)
    requires
        s.no_duplicates(),
    ensures
        s.filter(keep).no_duplicates(),
    decreases s.len(),
{
    reveal(Seq::filter);
    if s.len() > 0 {
        let front = s.drop_last();
        lemma_filter_no_duplicates(front, keep);
        lemma_filter_members(front, keep);
        if keep(s.last()) {
            let out = s.filter(keep);
            assert forall|i: int, j: int| 0 <= i < j < out.len() implies out[i] != out[j] by {
                if j == out.len() - 1 {
                    assert(front.filter(keep).contains(out[i]));
                }
            }
        }
    }
}

/// A value is among the mapped items exactly if some item maps to it.
pub(crate) proof fn lemma_map_members<A, B>(s: Seq<A>, f: spec_fn(A) -> B)
    ensures
        forall|y: B| #[trigger]
            s.map_values(f).contains(y) <==> exists|i: int| 0 <= i < s.len() && f(s[i]) == y,
{
    assert forall|y: B| #[trigger]
        s.map_values(f).contains(y) <==> exists|i: int| 0 <= i < s.len() && f(s[i]) == y by {
        if exists|i: int| 0 <= i < s.len() && f(s[i]) == y {
            let i = choose|i: int| 0 <= i < s.len() && f(s[i]) == y;
            assert(s.map_values(f)[i] == y);
        }
    }
}

/// A filtered sequence holds its items in the order of the sequence: each
/// comes from a place of the sequence, and a later one from a later place.
pub(crate) proof fn lemma_filter_keeps_order<A>(s: Seq<A>, keep: spec_fn(A) -> bool)
    ensures
        exists|from: Seq<int>|
            {
                &&& from.len() == s.filter(keep).len()
                &&& forall|k: int|
                    0 <= k < from.len() ==> 0 <= #[trigger] from[k] < s.len() && s.filter(keep)[k]
                        == s[from[k]]
                &&& forall|i: int, j: int| 0 <= i < j < from.len() ==> from[i] < from[j]
            },
    decreases s.len(),
{
    reveal(Seq::filter);
    if s.len() == 0 {
        let from = Seq::<int>::empty();
        assert(from.len() == s.filter(keep).len());
    } else {
        let front = s.drop_last();
        lemma_filter_keeps_order(front, keep);
        let inner = choose|from: Seq<int>|
            {
                &&& from.len() == front.filter(keep).len()
                &&& forall|k: int|
                    0 <= k < from.len() ==> 0 <= #[trigger] from[k] < front.len() && front.filter(
                        keep,
                    )[k] == front[from[k]]
                &&& forall|i: int, j: int| 0 <= i < j < from.len() ==> from[i] < from[j]
            };
        let from = if keep(s.last()) {
            inner.push(s.len() - 1)
        } else {
            inner
        };
        assert(from.len() == s.filter(keep).len());
        assert forall|k: int| 0 <= k < from.len() implies 0 <= #[trigger] from[k] < s.len()
            && s.filter(keep)[k] == s[from[k]] by {}
        assert forall|i: int, j: int| 0 <= i < j < from.len() implies from[i] < from[j] by {}
    }
}

} // verus!
