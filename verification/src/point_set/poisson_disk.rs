//! Bookkeeping of fast Poisson-disk sampling, which scatters blue noise: points
//! that keep at least a distance `r` from one another.
//!
//! The rectangle is cut into square cells with sides `r / sqrt(2)`, so that a
//! cell can hold one point at most and a point within `r` of a candidate lies
//! at most two cells away from it. Sampling starts from one seed point. While
//! some point is active, one active point is picked at random and up to `k`
//! candidates are drawn around it, at a distance between `r` and `2r`. The
//! first candidate that lies in the rectangle and keeps its distance from the
//! points in the cells around it is placed and becomes active too; when all
//! `k` are refused the picked point stops being active.
//!
//! Drawing a candidate and measuring distances is arithmetic on real numbers
//! and is the caller's part. The [`Sampler`] keeps the rest: which cell holds
//! which point, which points are active, which point is being tried and how
//! many tries it has left. Points are known here by number, in the order in
//! which they were placed, the seed being number 0.
use crate::lemmas::{
    lemma_filter_map_keeps, lemma_filter_map_no_duplicates, lemma_position_splits, lemma_row_major,
};
use rand::RngExt;
use std::collections::HashMap;
use vstd::prelude::*;

verus! {

broadcast use vstd::std_specs::hash::group_hash_axioms;

/// Index for the grid cell used during sampling
///
/// Each grid cell is a square with sides `r / sqrt(2)`, and starts at `(0, 0)`
/// on the top left. Each cell can contain at most one point.
#[derive(Debug, Clone, Copy, PartialEq, Eq, Hash, Structural)]
pub struct Index {
    pub x: u16,
    pub y: u16,
}

/// The state of a sampling run.
pub struct SamplerView {
    /// Number of candidates to try around a point before it is given up.
    pub k: u16,
    /// The cell of each placed point, by the point's number.
    pub cells: Seq<Index>,
    /// The point that each occupied cell holds.
    pub grid: Map<Index, usize>,
    /// The numbers of the points that candidates are still drawn around.
    pub actives: Seq<usize>,
    /// The position in `actives` of the point being tried, and its tries left.
    pub focus: Option<(usize, u16)>,
}

impl SamplerView {
    /// The state right after the seed point was placed in `seed`.
    pub open spec fn seeded(k: u16, seed: Index) -> SamplerView {
        SamplerView {
            k,
            cells: seq![seed],
            grid: Map::empty().insert(seed, 0usize),
            actives: seq![0usize],
            focus: None,
        }
    }

    /// What every state of a run satisfies: the grid and the list of placed
    /// points agree, only placed points are active, none is active twice,
    /// and a point being tried is active and has between 1 and `k` tries left.
    pub open spec fn valid(self) -> bool {
        &&& self.cells.len() >= 1
        &&& forall|cell: Index| #[trigger]
            self.grid.contains_key(cell) ==> self.grid[cell] < self.cells.len()
                && self.cells[self.grid[cell] as int] == cell
        &&& forall|number: int|
            0 <= number < self.cells.len() ==> self.grid.contains_key(#[trigger] self.cells[number])
        &&& forall|slot: int|
            0 <= slot < self.actives.len() ==> (#[trigger] self.actives[slot]) < self.cells.len()
        &&& self.actives.no_duplicates()
        &&& match self.focus {
            Some((slot, tries)) => slot < self.actives.len() && 1 <= tries <= self.k,
            None => true,
        }
    }

    /// Asking for the point to draw the next candidate around. While a point
    /// is being tried it is that point. Else, if no point is active, sampling
    /// is over; if `k` is zero every active point is given up untried, and
    /// sampling is over as well; otherwise the active point at position
    /// `pick mod len` is tried next, with `k` tries.
    pub open spec fn next_probe(self, pick: usize) -> (SamplerView, Option<usize>) {
        match self.focus {
            Some((slot, _)) => (self, Some(self.actives[slot as int])),
            None => {
                if self.actives.len() == 0 {
                    (self, None)
                } else if self.k == 0 {
                    (SamplerView { actives: Seq::empty(), ..self }, None)
                } else {
                    let slot = (pick as int % self.actives.len() as int) as usize;
                    (
                        SamplerView { focus: Some((slot, self.k)), ..self },
                        Some(self.actives[slot as int]),
                    )
                }
            },
        }
    }

    /// A candidate was refused. The point being tried loses one try; with its
    /// last try it stops being active and the last active point takes its
    /// position in the list. Without a point being tried nothing changes.
    pub open spec fn reject(self) -> SamplerView {
        match self.focus {
            Some((slot, tries)) => {
                if tries > 1 {
                    SamplerView { focus: Some((slot, (tries - 1) as u16)), ..self }
                } else {
                    SamplerView {
                        actives: self.actives.update(slot as int, self.actives.last()).drop_last(),
                        focus: None,
                        ..self
                    }
                }
            },
            None => self,
        }
    }

    /// A candidate in `cell` was accepted. It gets the next number, the grid
    /// holds it in `cell` from now on, it becomes active, and the point that
    /// was being tried stays active but is no longer tried. Without a point
    /// being tried nothing changes.
    pub open spec fn accept(self, cell: Index) -> SamplerView {
        match self.focus {
            Some(_) => SamplerView {
                cells: self.cells.push(cell),
                grid: self.grid.insert(cell, self.cells.len() as usize),
                actives: self.actives.push(self.cells.len() as usize),
                focus: None,
                ..self
            },
            None => self,
        }
    }

    /// How many candidates in a row can still be refused before sampling is
    /// over: `k` for every active point, less the tries that the point being
    /// tried has used up.
    pub open spec fn tries_left(self) -> int {
        match self.focus {
            Some((_, tries)) => (self.actives.len() - 1) * self.k + tries,
            None => self.actives.len() * self.k,
        }
    }

    /// The point that the grid holds in a cell, if it holds one there.
    pub open spec fn occupant(self) -> spec_fn(Index) -> Option<usize> {
        |cell: Index|
            if self.grid.contains_key(cell) {
                Some(self.grid[cell])
            } else {
                None
            }
    }

    /// The points that the grid holds in the block of cells around `cell`,
    /// in the order of the block.
    pub open spec fn neighbours(self, cell: Index) -> Seq<usize> {
        block(cell).filter_map(self.occupant())
    }

    /// The cell of point `number`, if the grid still holds that point there.
    /// A point that was placed in the cell later has taken its place.
    pub open spec fn held(self) -> spec_fn(int) -> Option<Index> {
        |number: int|
            if 0 <= number < self.cells.len() && self.grid.contains_key(self.cells[number])
                && self.grid[self.cells[number]] == number {
                Some(self.cells[number])
            } else {
                None
            }
    }

    /// The occupied cells, in the order in which the points that they hold
    /// were placed.
    pub open spec fn occupied(self) -> Seq<Index> {
        Seq::new(self.cells.len(), |number: int| number).filter_map(self.held())
    }
}

/// The first coordinate of the block around `c`: two before `c`, or 0.
pub open spec fn block_start(c: u16) -> int {
    if c >= 2 {
        c - 2
    } else {
        0
    }
}

/// The last coordinate of the block around `c`: two after `c`, or the last
/// that there is.
pub open spec fn block_end(c: u16) -> int {
    if c <= u16::MAX - 2 {
        c + 2
    } else {
        u16::MAX as int
    }
}

/// How many coordinates the block around `c` spans: five away from the edges.
pub open spec fn block_span(c: u16) -> int {
    block_end(c) - block_start(c) + 1
}

/// The cells that lie at most two cells from `cell` in x and in y, column
/// after column: the 5x5 block around it, cut off at the edges of the grid.
pub open spec fn block(cell: Index) -> Seq<Index> {
    Seq::new(
        (block_span(cell.x) * block_span(cell.y)) as nat,
        |i: int|
            Index {
                x: (block_start(cell.x) + i / block_span(cell.y)) as u16,
                y: (block_start(cell.y) + i % block_span(cell.y)) as u16,
            },
    )
}

/// Whether two cells lie at most two cells apart in x and in y.
pub open spec fn near(a: Index, b: Index) -> bool {
    &&& a.x - 2 <= b.x <= a.x + 2
    &&& a.y - 2 <= b.y <= a.y + 2
}

/// The key under which the grid files a cell: `x * 65536 + y`.
spec fn key_of(cell: Index) -> u32 {
    (cell.x as u32 * 65536 + cell.y as u32) as u32
}

/// The bookkeeping of one sampling run.
#[derive(Debug)]
pub struct Sampler {
    k: u16,
    grid: HashMap<u32, usize>,
    cells: Vec<Index>,
    actives: Vec<usize>,
    focus: Option<(usize, u16)>,
}

impl View for Sampler {
    type V = SamplerView;

    closed spec fn view(&self) -> SamplerView {
        SamplerView {
            k: self.k,
            cells: self.cells@,
            grid: Map::new(
                |cell: Index| self.grid@.contains_key(key_of(cell)),
                |cell: Index| self.grid@[key_of(cell)],
            ),
            actives: self.actives@,
            focus: self.focus,
        }
    }
}

/// Draws from `0..n` with `random_range` on rand's thread-local generator.
/// The draw is uniform over the range; the contract claims only that it lies
/// in the range. `random_range` panics on an empty range, which `n > 0` rules
/// out. The generator itself gives up if the operating system cannot seed
/// it, which no argument decides.
#[verifier::external_body]
fn random_below(n: usize) -> (pick: usize)
    requires
        n > 0,
    ensures
        pick < n,
{
    rand::rng().random_range(0..n)
}

fn key(cell: Index) -> (key: u32)
    ensures
        key == key_of(cell),
{
    cell.x as u32 * 65536 + cell.y as u32
}

proof fn lemma_key_is_injective(a: Index, b: Index)
    requires
        key_of(a) == key_of(b),
    ensures
        a == b,
{
}

impl Clone for Sampler {
    fn clone(&self) -> (copy: Self)
        ensures
            copy@ == self@,
    {
        Sampler {
            k: self.k,
            grid: self.grid.clone(),
            cells: self.cells.clone(),
            actives: self.actives.clone(),
            focus: self.focus,
        }
    }
}

impl Sampler {
    /// Whether the sampler is in a state that a run can reach.
    pub open spec fn wf(&self) -> bool {
        self@.valid()
    }

    /// Starts a run that tries `k` candidates around each point, with the
    /// seed point, number 0, placed in the cell `seed`.
    pub fn new(k: u16, seed: Index) -> (sampler: Sampler)
        ensures
            sampler.wf(),
            sampler@ == SamplerView::seeded(k, seed),
    {
        let mut grid: HashMap<u32, usize> = HashMap::new();
        grid.insert(key(seed), 0);
        let mut cells: Vec<Index> = Vec::new();
        cells.push(seed);
        let mut actives: Vec<usize> = Vec::new();
        actives.push(0);
        let sampler = Sampler { k, grid, cells, actives, focus: None };
        proof {
            assert forall|cell: Index|
                sampler@.grid.contains_key(cell) <==> SamplerView::seeded(
                    k,
                    seed,
                ).grid.contains_key(cell) by {
                if key_of(cell) == key_of(seed) {
                    lemma_key_is_injective(cell, seed);
                }
            }
            assert(sampler@.grid =~= SamplerView::seeded(k, seed).grid);
            assert(sampler@.cells =~= SamplerView::seeded(k, seed).cells);
            assert(sampler@.actives =~= SamplerView::seeded(k, seed).actives);
        }
        sampler
    }

    /// The number of the point to draw the next candidate around, or `None`
    /// when sampling is over. Where a new point has to be picked among the
    /// active ones, it is the one at position `pick mod len`.
    pub fn next_probe_with(&mut self, pick: usize) -> (around: Option<usize>)
        requires
            old(self).wf(),
        ensures
            final(self).wf(),
            (final(self)@, around) == old(self)@.next_probe(pick),
    {
        match self.focus {
            Some((slot, _)) => Some(self.actives[slot]),
            None => {
                let len = self.actives.len();
                if len == 0 {
                    None
                } else if self.k == 0 {
                    self.actives.clear();
                    assert(self@.grid == old(self)@.grid);
                    None
                } else {
                    let slot = pick % len;
                    self.focus = Some((slot, self.k));
                    assert(self@.grid == old(self)@.grid);
                    Some(self.actives[slot])
                }
            },
        }
    }

    /// The number of the point to draw the next candidate around, or `None`
    /// when sampling is over. Where a new point has to be picked among the
    /// active ones, it is picked at random.
    pub fn next_probe(&mut self) -> (around: Option<usize>)
        requires
            old(self).wf(),
        ensures
            final(self).wf(),
            exists|pick: usize| #[trigger] old(self)@.next_probe(pick) == (final(self)@, around),
    {
        let len = self.actives.len();
        let pick = if self.focus.is_none() && len > 0 && self.k > 0 {
            random_below(len)
        } else {
            0
        };
        self.next_probe_with(pick)
    }

    /// Records that the candidate was refused.
    pub fn reject(&mut self)
        requires
            old(self).wf(),
        ensures
            final(self).wf(),
            final(self)@ == old(self)@.reject(),
    {
        match self.focus {
            Some((slot, tries)) => {
                if tries > 1 {
                    self.focus = Some((slot, tries - 1));
                } else {
                    self.actives.swap_remove(slot);
                    self.focus = None;
                }
            },
            None => {},
        }
    }

    /// Records that the candidate was accepted and lies in `cell`. Returns
    /// the number it was given, or `None` if no point was being tried.
    pub fn accept(&mut self, cell: Index) -> (placed: Option<usize>)
        requires
            old(self).wf(),
        ensures
            final(self).wf(),
            final(self)@ == old(self)@.accept(cell),
            placed == if old(self)@.focus is Some {
                Some(old(self)@.cells.len() as usize)
            } else {
                None
            },
    {
        match self.focus {
            Some(_) => {
                let number = self.cells.len();
                self.cells.push(cell);
                self.grid.insert(key(cell), number);
                self.actives.push(number);
                self.focus = None;
                proof {
                    assert forall|other: Index|
                        final(self)@.grid.contains_key(other) <==> old(self)@.accept(
                            cell,
                        ).grid.contains_key(other) by {
                        if key_of(other) == key_of(cell) {
                            lemma_key_is_injective(other, cell);
                        }
                    }
                    assert(self@.grid =~= old(self)@.accept(cell).grid);
                }
                Some(number)
            },
            None => None,
        }
    }

    /// Number of points placed so far, the seed included.
    pub fn placed(&self) -> (count: usize)
        ensures
            count == self@.cells.len(),
    {
        self.cells.len()
    }

    /// The number of the point that the grid holds in `cell`, if any.
    pub fn point_at(&self, cell: Index) -> (point: Option<usize>)
        ensures
            point == self@.occupant()(cell),
    {
        match self.grid.get(&key(cell)) {
            Some(number) => Some(*number),
            None => None,
        }
    }

    /// The numbers of the points that a candidate in `cell` has to keep its
    /// distance from: those that the grid holds in the block around `cell`.
    pub fn neighbours(&self, cell: Index) -> (found: Vec<usize>)
        ensures
            found@ == self@.neighbours(cell),
    {
        let x_start: u16 = if cell.x >= 2 { cell.x - 2 } else { 0 };
        let x_end: u16 = if cell.x <= u16::MAX - 2 { cell.x + 2 } else { u16::MAX };
        let y_start: u16 = if cell.y >= 2 { cell.y - 2 } else { 0 };
        let y_end: u16 = if cell.y <= u16::MAX - 2 { cell.y + 2 } else { u16::MAX };
        let ghost occupant = self@.occupant();
        let ghost width = block_span(cell.x);
        let ghost height = block_span(cell.y);
        let mut found: Vec<usize> = Vec::new();
        let mut x: u32 = x_start as u32;
        while x <= x_end as u32
            invariant
                x_start == block_start(cell.x),
                x_end == block_end(cell.x),
                y_start == block_start(cell.y),
                y_end == block_end(cell.y),
                width == block_span(cell.x),
                height == block_span(cell.y),
                occupant == self@.occupant(),
                x_start <= x <= x_end + 1,
                found@ == block(cell).take((x - x_start) * height).filter_map(occupant),
            decreases x_end + 1 - x,
        {
            let mut y: u32 = y_start as u32;
            while y <= y_end as u32
                invariant
                    x_start == block_start(cell.x),
                    x_end == block_end(cell.x),
                    y_start == block_start(cell.y),
                    y_end == block_end(cell.y),
                    width == block_span(cell.x),
                    height == block_span(cell.y),
                    occupant == self@.occupant(),
                    x_start <= x <= x_end,
                    y_start <= y <= y_end + 1,
                    found@ == block(cell).take((x - x_start) * height + (y - y_start)).filter_map(
                        occupant,
                    ),
                decreases y_end + 1 - y,
            {
                let at = Index { x: x as u16, y: y as u16 };
                let ghost i = (x - x_start) * height + (y - y_start);
                proof {
                    lemma_row_major(x - x_start, y - y_start, width, height);
                    assert(block(cell)[i] == at);
                    block(cell).lemma_filter_map_take_succ(occupant, i);
                }
                match self.grid.get(&key(at)) {
                    Some(number) => {
                        found.push(*number);
                    },
                    None => {},
                }
                y += 1;
            }
            x += 1;
            assert((x - x_start) * height == (x - 1 - x_start) * height + height)
                by (nonlinear_arith);
        }
        assert((x - x_start) * height == width * height);
        assert(block(cell).take(width * height) =~= block(cell));
        found
    }

    /// The occupied cells, each once: the indices of the point set.
    pub fn index_iter(&self) -> (occupied: Vec<Index>)
        ensures
            occupied@ == self@.occupied(),
    {
        let ghost numbers = Seq::new(self@.cells.len(), |number: int| number);
        let ghost held = self@.held();
        let mut occupied: Vec<Index> = Vec::new();
        let mut number: usize = 0;
        while number < self.cells.len()
            invariant
                number <= self.cells.len(),
                numbers == Seq::new(self@.cells.len(), |number: int| number),
                held == self@.held(),
                occupied@ == numbers.take(number as int).filter_map(held),
            decreases self.cells.len() - number,
        {
            let cell = self.cells[number];
            proof {
                numbers.lemma_filter_map_take_succ(held, number as int);
            }
            match self.grid.get(&key(cell)) {
                Some(holder) => {
                    if *holder == number {
                        occupied.push(cell);
                    }
                },
                None => {},
            }
            number += 1;
        }
        assert(numbers.take(number as int) =~= numbers);
        occupied
    }
}

/// The block around a cell holds the cells at most two away from it in x and
/// in y, each once, and no others.
pub proof fn lemma_block_is_neighbourhood(cell: Index)
    ensures
        block(cell).no_duplicates(),
        forall|other: Index| block(cell).contains(other) <==> near(cell, other),
{
    let all = block(cell);
    let width = block_span(cell.x);
    let height = block_span(cell.y);
    assert forall|i: int, j: int| 0 <= i < all.len() && 0 <= j < all.len() && i != j implies all[i]
        != all[j] by {
        lemma_position_splits(i, width, height);
        lemma_position_splits(j, width, height);
        if all[i] == all[j] {
            assert(i / height == j / height);
            assert(i % height == j % height);
            vstd::arithmetic::div_mod::lemma_fundamental_div_mod(i, height);
            vstd::arithmetic::div_mod::lemma_fundamental_div_mod(j, height);
        }
    }
    assert forall|other: Index| all.contains(other) <==> near(cell, other) by {
        if all.contains(other) {
            let i = choose|i: int| 0 <= i < all.len() && all[i] == other;
            lemma_position_splits(i, width, height);
        }
        if near(cell, other) {
            let column = other.x - block_start(cell.x);
            let row = other.y - block_start(cell.y);
            lemma_row_major(column, row, width, height);
            assert(all[column * height + row] == other);
        }
    }
}

/// A candidate is held against every point that could be too near: the
/// neighbours of a cell are the points that the grid holds at most two cells
/// away from it, each once.
pub proof fn lemma_neighbours_are_the_near_points(state: SamplerView, cell: Index)
    requires
        state.valid(),
    ensures
        state.neighbours(cell).no_duplicates(),
        forall|number: usize|
            state.neighbours(cell).contains(number) <==> number < state.cells.len() && near(
                cell,
                state.cells[number as int],
            ) && state.grid[state.cells[number as int]] == number,
{
    let all = block(cell);
    let occupant = state.occupant();
    lemma_block_is_neighbourhood(cell);
    assert forall|i: int, j: int| 0 <= i < j < all.len() && occupant(all[i]) is Some implies occupant(
        all[i],
    ) != occupant(all[j]) by {
        if occupant(all[i]) == occupant(all[j]) {
            assert(state.grid.contains_key(all[i]));
            assert(state.grid.contains_key(all[j]));
        }
    }
    lemma_filter_map_no_duplicates(all, occupant);
    assert forall|number: usize|
        state.neighbours(cell).contains(number) <==> number < state.cells.len() && near(
            cell,
            state.cells[number as int],
        ) && state.grid[state.cells[number as int]] == number by {
        if state.neighbours(cell).contains(number) {
            all.lemma_filter_map_contains(occupant, number);
            let at = choose|at: Index| #[trigger] all.contains(at) && occupant(at) == Some(number);
            assert(state.grid.contains_key(at));
        }
        if number < state.cells.len() && near(cell, state.cells[number as int])
            && state.grid[state.cells[number as int]] == number {
            let at = state.cells[number as int];
            assert(all.contains(at));
            let i = choose|i: int| 0 <= i < all.len() && all[i] == at;
            lemma_filter_map_keeps(all, occupant, i);
        }
    }
}

/// The indices of the point set are the occupied cells of the grid, each
/// once.
pub proof fn lemma_occupied_each_once(state: SamplerView)
    requires
        state.valid(),
    ensures
        state.occupied().no_duplicates(),
        forall|cell: Index| state.occupied().contains(cell) <==> state.grid.contains_key(cell),
{
    let numbers = Seq::new(state.cells.len(), |number: int| number);
    let held = state.held();
    lemma_filter_map_no_duplicates(numbers, held);
    assert forall|cell: Index| state.occupied().contains(cell) <==> state.grid.contains_key(
        cell,
    ) by {
        if state.occupied().contains(cell) {
            numbers.lemma_filter_map_contains(held, cell);
        }
        if state.grid.contains_key(cell) {
            let number = state.grid[cell] as int;
            assert(held(numbers[number]) == Some(cell));
            lemma_filter_map_keeps(numbers, held, number);
        }
    }
}

/// Every step of a run leads from a valid state to a valid state.
pub proof fn lemma_steps_keep_valid(state: SamplerView, pick: usize, cell: Index)
    requires
        state.valid(),
        state.cells.len() < usize::MAX,
    ensures
        state.next_probe(pick).0.valid(),
        state.reject().valid(),
        state.accept(cell).valid(),
{
    let accepted = state.accept(cell);
    assert forall|other: Index| #[trigger] accepted.grid.contains_key(other) implies accepted.grid[other]
        < accepted.cells.len() && accepted.cells[accepted.grid[other] as int] == other by {
        if other != cell {
            assert(state.grid.contains_key(other));
        }
    }
}

/// Sampling is a bounded amount of work for every placed point: asking for
/// the next point to try uses up no try, every refused candidate uses up
/// one, an accepted candidate adds at most `2k`, and sampling is over exactly
/// when no try is left.
pub proof fn lemma_tries_run_out(state: SamplerView, pick: usize, cell: Index)
    requires
        state.valid(),
    ensures
        state.tries_left() >= 0,
        state.next_probe(pick).0.tries_left() == state.tries_left(),
        state.next_probe(pick).1 is None <==> state.tries_left() == 0,
        state.focus is Some ==> state.reject().tries_left() == state.tries_left() - 1,
        state.focus is Some ==> state.tries_left() < state.accept(cell).tries_left()
            <= state.tries_left() + 2 * state.k,
{
    let len = state.actives.len() as int;
    let k = state.k as int;
    assert(len * k >= 0) by (nonlinear_arith)
        requires
            len >= 0,
            k >= 0,
    ;
    assert((len - 1) * k == len * k - k && (len + 1) * k == len * k + k) by (nonlinear_arith);
    assert(0 * k == 0 && (k == 0 ==> len * k == 0)) by (nonlinear_arith);
    if state.focus is None && len > 0 && k > 0 {
        assert(len * k > 0) by (nonlinear_arith)
            requires
                len > 0,
                k > 0,
        ;
    }
}

} // verus!
