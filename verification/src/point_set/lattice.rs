//! A 2D lattice, spanned by two vectors `a` and `b` with an angle `theta`
//! between them.
//!
//! The point with index `(u, v)` lies at
//! `u * len_a + (v mod 2) * len_b * cos(theta)` along x and at
//! `v * len_b * sin(theta)` along y: odd rows are pushed over by one `b`
//! step, a brick pattern. The lengths and the angle are the caller's; the
//! three whole-number factors are computed here.
use crate::lemmas::{lemma_position_splits, lemma_row_major};
use vstd::prelude::*;

verus! {

/// The index for each point in the lattice
#[derive(Debug, Clone, Copy, PartialEq, Eq, Structural)]
pub struct Index {
    pub u: u16,
    pub v: u16,
}

/// How often each basis length enters a position: the position is
/// `a * len_a + b_cos * len_b * cos(theta)` along x and
/// `b_sin * len_b * sin(theta)` along y.
#[derive(Debug, Clone, Copy, PartialEq, Eq, Structural)]
pub struct Multiples {
    pub a: u16,
    pub b_cos: u16,
    pub b_sin: u16,
}

/// Whether `index` names a point of the lattice with `grid_size` points
/// along `a` and `b`.
pub open spec fn in_grid(grid_size: (u16, u16), index: Index) -> bool {
    index.u < grid_size.0 && index.v < grid_size.1
}

/// The indices of a lattice in the order in which they are visited: all of
/// row `u = 0` first, `v` counting up within each.
pub open spec fn indices(grid_size: (u16, u16)) -> Seq<Index> {
    Seq::new(
        (grid_size.0 * grid_size.1) as nat,
        |k: int| Index { u: (k / grid_size.1 as int) as u16, v: (k % grid_size.1 as int) as u16 },
    )
}

/// The factors that place the point `index`.
pub open spec fn multiples_of(index: Index) -> Multiples {
    Multiples { a: index.u, b_cos: index.v % 2, b_sin: index.v }
}

/// The factors of the far corner of the bounding box. The near corner is the
/// origin. A single row has no offset row, so `b_cos` is zero there.
pub open spec fn bounding_multiples_of(grid_size: (u16, u16)) -> Multiples {
    Multiples {
        a: (grid_size.0 - 1) as u16,
        b_cos: if 2 <= grid_size.1 { 1 } else { 0 },
        b_sin: (grid_size.1 - 1) as u16,
    }
}

/// Every index of the lattice, each exactly once.
pub fn index_iter(grid_size: (u16, u16)) -> (all: Vec<Index>)
    ensures
        all@ == indices(grid_size),
{
    let mut all: Vec<Index> = Vec::new();
    let mut u: u16 = 0;
    while u < grid_size.0
        invariant
            u <= grid_size.0,
            all@.len() == u * grid_size.1,
            forall|k: int| 0 <= k < all@.len() ==> all@[k] == indices(grid_size)[k],
        decreases grid_size.0 - u,
    {
        let mut v: u16 = 0;
        while v < grid_size.1
            invariant
                u < grid_size.0,
                v <= grid_size.1,
                all@.len() == u * grid_size.1 + v,
                forall|k: int| 0 <= k < all@.len() ==> all@[k] == indices(grid_size)[k],
            decreases grid_size.1 - v,
        {
            proof {
                lemma_row_major(u as int, v as int, grid_size.0 as int, grid_size.1 as int);
            }
            all.push(Index { u, v });
            v += 1;
        }
        u += 1;
        assert(u * grid_size.1 == (u - 1) * grid_size.1 + grid_size.1) by (nonlinear_arith);
    }
    assert(u * grid_size.1 == grid_size.0 * grid_size.1);
    all
}

/// The factors that place the point `index`: `u` steps along `a`, one step
/// of `b` along x in odd rows, `v` steps of `b` along y.
pub fn multiples(index: Index) -> (m: Multiples)
    ensures
        m == multiples_of(index),
{
    Multiples { a: index.u, b_cos: index.v % 2, b_sin: index.v }
}

/// The factors of the far corner of the bounding box, or `None` for a
/// lattice without points.
pub fn bounding_multiples(grid_size: (u16, u16)) -> (far: Option<Multiples>)
    ensures
        far == if grid_size.0 >= 1 && grid_size.1 >= 1 {
            Some(bounding_multiples_of(grid_size))
        } else {
            None
        },
{
    if grid_size.0 == 0 || grid_size.1 == 0 {
        return None;
    }
    let b_cos: u16 = if 2 <= grid_size.1 { 1 } else { 0 };
    Some(Multiples { a: grid_size.0 - 1, b_cos, b_sin: grid_size.1 - 1 })
}

/// The walk visits every index of the lattice, visits it once, and visits
/// nothing else.
pub proof fn lemma_indices_each_once(grid_size: (u16, u16))
    ensures
        indices(grid_size).no_duplicates(),
        forall|index: Index| indices(grid_size).contains(index) <==> in_grid(grid_size, index),
{
    let all = indices(grid_size);
    let rows = grid_size.0 as int;
    let cols = grid_size.1 as int;
    assert forall|i: int, j: int| 0 <= i < all.len() && 0 <= j < all.len() && i != j implies all[i]
        != all[j] by {
        lemma_position_splits(i, rows, cols);
        lemma_position_splits(j, rows, cols);
        if all[i] == all[j] {
            assert(i / cols == j / cols);
            assert(i % cols == j % cols);
            vstd::arithmetic::div_mod::lemma_fundamental_div_mod(i, cols);
            vstd::arithmetic::div_mod::lemma_fundamental_div_mod(j, cols);
        }
    }
    assert forall|index: Index| all.contains(index) <==> in_grid(grid_size, index) by {
        if all.contains(index) {
            let k = choose|k: int| 0 <= k < all.len() && all[k] == index;
            lemma_position_splits(k, rows, cols);
        }
        if in_grid(grid_size, index) {
            lemma_row_major(index.u as int, index.v as int, rows, cols);
            assert(all[index.u * cols + index.v] == index);
        }
    }
}

/// The bounding box encloses the lattice: no point takes more steps along
/// any of the three lengths than the far corner does, so with lengths, sine
/// and cosine that are not negative every point lies between the origin and
/// the far corner.
pub proof fn lemma_bounding_multiples_enclose(grid_size: (u16, u16), index: Index)
    requires
        in_grid(grid_size, index),
    ensures
        multiples_of(index).a <= bounding_multiples_of(grid_size).a,
        multiples_of(index).b_cos <= bounding_multiples_of(grid_size).b_cos,
        multiples_of(index).b_sin <= bounding_multiples_of(grid_size).b_sin,
{
}

/// The bounding box is tight: the origin is a point of the lattice, some
/// point reaches the far corner's x, and some point reaches its y.
pub proof fn lemma_bounding_multiples_attained(grid_size: (u16, u16))
    requires
        grid_size.0 >= 1,
        grid_size.1 >= 1,
    ensures
        in_grid(grid_size, Index { u: 0, v: 0 }),
        multiples_of(Index { u: 0, v: 0 }) == (Multiples { a: 0, b_cos: 0, b_sin: 0 }),
        exists|index: Index|
            in_grid(grid_size, index) && (#[trigger] multiples_of(index)).a
                == bounding_multiples_of(grid_size).a && multiples_of(index).b_cos
                == bounding_multiples_of(grid_size).b_cos,
        exists|index: Index|
            in_grid(grid_size, index) && (#[trigger] multiples_of(index)).b_sin
                == bounding_multiples_of(grid_size).b_sin,
{
    let last_u = (grid_size.0 - 1) as u16;
    let last_v = (grid_size.1 - 1) as u16;
    let offset_v: u16 = if 2 <= grid_size.1 { 1 } else { 0 };
    let far_x = Index { u: last_u, v: offset_v };
    let far_y = Index { u: 0, v: last_v };
    assert(in_grid(grid_size, far_x) && multiples_of(far_x).a == bounding_multiples_of(grid_size).a
        && multiples_of(far_x).b_cos == bounding_multiples_of(grid_size).b_cos);
    assert(in_grid(grid_size, far_y) && multiples_of(far_y).b_sin == bounding_multiples_of(
        grid_size,
    ).b_sin);
}

} // verus!
