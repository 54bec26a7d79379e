//! Lemmas that several modules share: the arithmetic of a row-major walk over
//! a rectangle of cells, and what `filter_map` keeps of a sequence.
use vstd::prelude::*;

verus! {

/// Position `u * cols + v` of a row-major walk splits back into `u` and `v`.
pub(crate) proof fn lemma_row_major(u: int, v: int, rows: int, cols: int)
    requires
        0 <= u < rows,
        0 <= v < cols,
    ensures
        0 <= u * cols + v < rows * cols,
        (u * cols + v) / cols == u,
        (u * cols + v) % cols == v,
{
    vstd::arithmetic::div_mod::lemma_fundamental_div_mod_converse(u * cols + v, cols, u, v);
    assert(u * cols + v < rows * cols) by (nonlinear_arith)
        requires
            0 <= u < rows,
            0 <= v < cols,
    ;
    assert(0 <= u * cols + v) by (nonlinear_arith)
        requires
            0 <= u,
            0 <= v,
            0 < cols,
    ;
}

/// A position below `rows * cols` splits into a row below `rows` and a
/// column below `cols`.
pub(crate) proof fn lemma_position_splits(k: int, rows: int, cols: int)
    requires
        0 <= k < rows * cols,
        0 <= rows,
        0 <= cols,
    ensures
        0 < cols,
        0 <= k / cols < rows,
        0 <= k % cols < cols,
{
    assert(0 < cols) by (nonlinear_arith)
        requires
            0 <= k < rows * cols,
            0 <= rows,
            0 <= cols,
    ;
    vstd::arithmetic::div_mod::lemma_fundamental_div_mod(k, cols);
    vstd::arithmetic::div_mod::lemma_mod_bound(k, cols);
    vstd::arithmetic::div_mod::lemma_div_pos_is_pos(k, cols);
    assert(k / cols < rows) by (nonlinear_arith)
        requires
            k == cols * (k / cols) + k % cols,
            0 <= k % cols,
            k < rows * cols,
            0 < cols,
    ;
}

/// An item that `f` maps to something leaves that something in the result.
pub(crate) proof fn lemma_filter_map_keeps<A, B>(s: Seq<A>, f: spec_fn(A) -> Option<B>, i: int)
    requires
        0 <= i < s.len(),
        f(s[i]) is Some,
    ensures
        s.filter_map(f).contains(f(s[i])->0),
    decreases s.len(),
{
    let rest = s.drop_last();
    let kept = rest.filter_map(f);
    if i == s.len() - 1 {
        let all = kept + seq![f(s[i])->0];
        assert(all[kept.len() as int] == f(s[i])->0);
    } else {
        lemma_filter_map_keeps(rest, f, i);
        let at = choose|at: int| 0 <= at < kept.len() && kept[at] == f(s[i])->0;
        match f(s.last()) {
            Some(b) => {
                assert((kept + seq![b])[at] == f(s[i])->0);
            },
            None => {},
        }
    }
}

/// Where `f` maps no two items of the sequence to the same thing, nothing
/// occurs twice in the result.
pub(crate) proof fn lemma_filter_map_no_duplicates<A, B>(s: Seq<A>, f: spec_fn(A) -> Option<B>)
    requires
        forall|i: int, j: int|
            0 <= i < j < s.len() && f(s[i]) is Some ==> #[trigger] f(s[i]) != #[trigger] f(s[j]),
    ensures
        s.filter_map(f).no_duplicates(),
    decreases s.len(),
{
    if s.len() > 0 {
        let rest = s.drop_last();
        let kept = rest.filter_map(f);
        assert forall|i: int, j: int| 0 <= i < j < rest.len() && f(rest[i]) is Some implies f(
            rest[i],
        ) != f(rest[j]) by {
            assert(f(s[i]) != f(s[j]));
        }
        lemma_filter_map_no_duplicates(rest, f);
        match f(s.last()) {
            Some(b) => {
                if kept.contains(b) {
                    rest.lemma_filter_map_contains(f, b);
                    let t = choose|t: A| #[trigger] rest.contains(t) && f(t) == Some(b);
                    let i = choose|i: int| 0 <= i < rest.len() && rest[i] == t;
                    assert(f(s[i]) != f(s[s.len() - 1]));
                }
                assert forall|i: int, j: int|
                    0 <= i < kept.len() + 1 && 0 <= j < kept.len() + 1 && i != j implies (kept
                        + seq![b])[i] != (kept + seq![b])[j] by {
                    if i < kept.len() {
                        assert(kept.contains(kept[i]));
                    }
                    if j < kept.len() {
                        assert(kept.contains(kept[j]));
                    }
                }
            },
            None => {},
        }
    }
}

} // verus!
