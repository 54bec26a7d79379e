//! Which points of a point set a canvas draws its shapes at.
//!
//! A canvas goes through the indices of its point set in their order and
//! asks a filter about each. At every index that the filter lets through it
//! draws one group that holds a copy of each shape, the lowest layer first.
use vstd::prelude::*;

verus! {

/// The indices that are drawn, given the filter's verdict on each: those
/// with the verdict `true`, in the order of the point set.
pub open spec fn kept_of<I>(indices: Seq<I>, verdicts: Seq<bool>) -> Seq<I>
    decreases indices.len(),
{
    if indices.len() == 0 {
        Seq::empty()
    } else if verdicts.last() {
        kept_of(indices.drop_last(), verdicts.drop_last()).push(indices.last())
    } else {
        kept_of(indices.drop_last(), verdicts.drop_last())
    }
}

/// The indices at which the shapes are drawn: `index_filter` is asked about
/// each index once, in order, and the index is kept where it returns `true`.
pub fn select<I: Copy, F: Fn(&I) -> bool>(indices: &Vec<I>, index_filter: F) -> (kept: Vec<I>)
    requires
        forall|i: int| 0 <= i < indices@.len() ==> call_requires(index_filter, (&indices@[i],)),
    ensures
        exists|verdicts: Seq<bool>|
            {
                &&& verdicts.len() == indices@.len()
                &&& forall|i: int|
                    0 <= i < indices@.len() ==> call_ensures(
                        index_filter,
                        (&indices@[i],),
                        #[trigger] verdicts[i],
                    )
                &&& kept@ == kept_of(indices@, verdicts)
            },
{
    let mut kept: Vec<I> = Vec::new();
    let ghost mut verdicts: Seq<bool> = Seq::empty();
    let mut i: usize = 0;
    while i < indices.len()
        invariant
            i <= indices@.len(),
            verdicts.len() == i,
            forall|j: int| 0 <= j < indices@.len() ==> call_requires(index_filter, (&indices@[j],)),
            forall|j: int|
                0 <= j < i ==> call_ensures(index_filter, (&indices@[j],), #[trigger] verdicts[j]),
            kept@ == kept_of(indices@.take(i as int), verdicts),
        decreases indices@.len() - i,
    {
        let index = indices[i];
        let verdict = index_filter(&index);
        proof {
            assert(indices@.take(i + 1).drop_last() =~= indices@.take(i as int));
            assert(verdicts.push(verdict).drop_last() =~= verdicts);
            verdicts = verdicts.push(verdict);
        }
        if verdict {
            kept.push(index);
        }
        i += 1;
    }
    assert(indices@.take(i as int) =~= indices@);
    kept
}

/// Exactly the indices that the filter let through are drawn, and they are
/// drawn in the order of the point set: an index is kept if and only if the
/// verdict at one of its places was `true`, and nothing is kept twice where
/// the point set names nothing twice.
pub proof fn lemma_kept_are_the_passed<I>(indices: Seq<I>, verdicts: Seq<bool>)
    requires
        verdicts.len() == indices.len(),
    ensures
        kept_of(indices, verdicts).len() <= indices.len(),
        forall|index: I|
            kept_of(indices, verdicts).contains(index) <==> exists|i: int|
                0 <= i < indices.len() && verdicts[i] && #[trigger] indices[i] == index,
        indices.no_duplicates() ==> kept_of(indices, verdicts).no_duplicates(),
    decreases indices.len(),
{
    if indices.len() > 0 {
        let rest = indices.drop_last();
        let rest_verdicts = verdicts.drop_last();
        let kept_rest = kept_of(rest, rest_verdicts);
        let kept = kept_of(indices, verdicts);
        lemma_kept_are_the_passed(rest, rest_verdicts);
        assert forall|index: I| kept.contains(index) <==> exists|i: int|
            0 <= i < indices.len() && verdicts[i] && #[trigger] indices[i] == index by {
            if kept.contains(index) {
                let at = choose|at: int| 0 <= at < kept.len() && kept[at] == index;
                if at < kept_rest.len() {
                    assert(kept_rest.contains(index));
                    let i = choose|i: int|
                        0 <= i < rest.len() && rest_verdicts[i] && #[trigger] rest[i] == index;
                    assert(verdicts[i] && indices[i] == index);
                } else {
                    assert(verdicts[indices.len() - 1] && indices[indices.len() - 1] == index);
                }
            }
            if exists|i: int| 0 <= i < indices.len() && verdicts[i] && #[trigger] indices[i] == index {
                let i = choose|i: int|
                    0 <= i < indices.len() && verdicts[i] && #[trigger] indices[i] == index;
                if i < rest.len() {
                    assert(rest_verdicts[i] && rest[i] == index);
                    assert(kept_rest.contains(index));
                    let at = choose|at: int| 0 <= at < kept_rest.len() && kept_rest[at] == index;
                    assert(kept[at] == index);
                } else {
                    assert(kept[kept.len() - 1] == index);
                }
            }
        }
        if indices.no_duplicates() {
            assert(rest.no_duplicates());
            if verdicts.last() {
                if kept_rest.contains(indices.last()) {
                    let i = choose|i: int|
                        0 <= i < rest.len() && rest_verdicts[i] && #[trigger] rest[i]
                            == indices.last();
                    assert(indices[i] == indices[indices.len() - 1]);
                }
                assert forall|a: int, b: int|
                    0 <= a < kept.len() && 0 <= b < kept.len() && a != b implies kept[a]
                    != kept[b] by {
                    if a < kept_rest.len() {
                        assert(kept_rest.contains(kept_rest[a]));
                    }
                    if b < kept_rest.len() {
                        assert(kept_rest.contains(kept_rest[b]));
                    }
                }
            }
        }
    }
}

} // verus!
