//! Vogel's model of the spiral
//!
//! Seed `i` of the spiral lies at the radius `c * sqrt(i)` and at `i` times
//! the angle turned between seeds, so seed 0 lies at the center and each
//! seed lies farther out than those before it. The scaling factor `c` and
//! the angle are the caller's; which seeds there are is settled here.
use vstd::prelude::*;

verus! {

/// The indices of a spiral with `seeds` points in the order in which they
/// are visited: from the center outwards.
pub open spec fn indices(seeds: usize) -> Seq<usize> {
    Seq::new(seeds as nat, |i: int| i as usize)
}

/// Every index of the spiral, each exactly once.
pub fn index_iter(seeds: usize) -> (all: Vec<usize>)
    ensures
        all@ == indices(seeds),
{
    let mut all: Vec<usize> = Vec::new();
    let mut index: usize = 0;
    while index < seeds
        invariant
            index <= seeds,
            all@.len() == index,
            forall|i: int| 0 <= i < index ==> all@[i] == i,
        decreases seeds - index,
    {
        all.push(index);
        index += 1;
    }
    assert(all@ =~= indices(seeds));
    all
}

/// The index of the outermost seed, whose radius bounds the spiral, or
/// `None` for a spiral without seeds.
pub fn outermost(seeds: usize) -> (last: Option<usize>)
    ensures
        last == if seeds >= 1 {
            Some((seeds - 1) as usize)
        } else {
            None
        },
{
    if seeds == 0 {
        None
    } else {
        Some(seeds - 1)
    }
}

/// The walk visits the indices below `seeds`, each once and nothing else,
/// and none of them lies beyond the outermost seed.
pub proof fn lemma_indices_each_once(seeds: usize)
    ensures
        indices(seeds).no_duplicates(),
        forall|index: usize| indices(seeds).contains(index) <==> index < seeds,
        forall|index: usize| indices(seeds).contains(index) ==> index <= seeds - 1,
{
    assert forall|index: usize| indices(seeds).contains(index) <==> index < seeds by {
        if index < seeds {
            assert(indices(seeds)[index as int] == index);
        }
    }
}

} // verus!
