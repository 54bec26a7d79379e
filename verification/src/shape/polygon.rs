//! A polygonal shape with rounded corners
//!
//! The outline is a closed chain of curves, one for each corner. Between
//! every two neighbouring corners lies a side point, somewhere along the
//! straight line from one to the other. A curve runs from the side point
//! before its corner to the side point after it and is pulled towards the
//! corner, which rounds the corner off.
//!
//! Where the corners lie and how far along its side each side point lies is
//! the caller's to compute. Here it is settled which corners each side point
//! lies between and which corner and side points each curve takes. Corners
//! are numbered from 0 in the order in which they follow one another around
//! the shape, and so are side points.
use itertools::Itertools;
use vstd::prelude::*;

verus! {

/// One step of drawing the outline.
#[derive(Debug, Clone, Copy, PartialEq, Eq, Structural)]
pub enum Command {
    /// Start at a side point.
    MoveTo { side: usize },
    /// Draw a curve from where the last step ended to a side point, with
    /// both control points at a corner.
    CubicCurveTo { corner: usize, side: usize },
    /// Close the outline.
    Close,
}

/// The corner after `corner` in a polygon with `sides` corners, going round.
pub open spec fn next_around(sides: int, corner: int) -> int {
    (corner + 1) % sides
}

/// The corner before `corner` in a polygon with `sides` corners, going round.
pub open spec fn previous_around(sides: int, corner: int) -> int {
    (corner + sides - 1) % sides
}

/// Each corner paired with the one after it, the last with the first.
pub open spec fn circular_pairs_of(sides: int) -> Seq<(usize, usize)> {
    Seq::new(sides as nat, |i: int| (i as usize, next_around(sides, i) as usize))
}

/// For each side point, the two corners that it lies between: side point
/// `i` lies between the corner before corner `i` and corner `i`.
pub open spec fn side_corners_of(sides: int) -> Seq<(usize, usize)> {
    Seq::new(sides as nat, |i: int| (previous_around(sides, i) as usize, i as usize))
}

/// The steps that draw the outline: from side point 0 one curve for each
/// corner in turn, curve `i` with corner `i` as its control point and the
/// side point after it as its end, then the closing step. Without corners
/// only the closing step is left.
pub open spec fn outline_of(sides: int) -> Seq<Command> {
    if sides <= 0 {
        seq![Command::Close]
    } else {
        Seq::new(
            (sides + 2) as nat,
            |i: int|
                if i == 0 {
                    Command::MoveTo { side: 0 }
                } else if i <= sides {
                    Command::CubicCurveTo {
                        corner: (i - 1) as usize,
                        side: next_around(sides, i - 1) as usize,
                    }
                } else {
                    Command::Close
                },
        )
    }
}

/// Runs itertools' `circular_tuple_windows` over the numbers `0..sides`. It
/// yields as many pairs as there are numbers: each number with the one after
/// it, and the last with the first. A single number is paired with itself.
#[verifier::external_body]
fn circular_pairs(sides: usize) -> (pairs: Vec<(usize, usize)>)
    ensures
        pairs@ == circular_pairs_of(sides as int),
{
    (0..sides).circular_tuple_windows().collect()
}

/// Moves the last item to the front.
fn rotate_right_once(items: &mut Vec<(usize, usize)>)
    ensures
        old(items)@.len() == 0 ==> final(items)@ == old(items)@,
        old(items)@.len() > 0 ==> final(items)@ == seq![old(items)@.last()] + old(
            items,
        )@.drop_last(),
{
    match items.pop() {
        Some(last) => {
            items.insert(0, last);
            assert(items@ =~= seq![old(items)@.last()] + old(items)@.drop_last());
        },
        None => {},
    }
}

/// For each side point of a polygon with `sides` corners, the two corners
/// that it lies between.
///
/// Every corner is paired with the one after it, and the pairs are then
/// moved on by one place, so that side point `i` comes before corner `i`
/// and side point `i + 1` after it.
pub fn side_corners(sides: u8) -> (pairs: Vec<(usize, usize)>)
    ensures
        pairs@ == side_corners_of(sides as int),
{
    let mut pairs = circular_pairs(sides as usize);
    rotate_right_once(&mut pairs);
    proof {
        let n = sides as int;
        assert forall|i: int| 0 <= i < n implies pairs@[i] == side_corners_of(n)[i] by {
            lemma_around(n, i);
            if i > 0 {
                lemma_around(n, i - 1);
                assert(pairs@[i] == circular_pairs_of(n)[i - 1]);
            } else {
                lemma_around(n, n - 1);
                assert(pairs@[i] == circular_pairs_of(n)[n - 1]);
            }
        }
        assert(pairs@ =~= side_corners_of(n));
    }
    pairs
}

/// The steps that draw the outline of a polygon with `sides` corners.
pub fn outline(sides: u8) -> (steps: Vec<Command>)
    ensures
        steps@ == outline_of(sides as int),
{
    let mut steps: Vec<Command> = Vec::new();
    if sides > 0 {
        let count: usize = sides as usize;
        steps.push(Command::MoveTo { side: 0 });
        let mut corner: usize = 0;
        while corner < count
            invariant
                count == sides,
                corner <= count,
                steps@.len() == corner + 1,
                forall|i: int| 0 <= i < steps@.len() ==> steps@[i] == outline_of(sides as int)[i],
            decreases count - corner,
        {
            let side: usize = if corner + 1 == count { 0 } else { corner + 1 };
            proof {
                lemma_around(count as int, corner as int);
            }
            steps.push(Command::CubicCurveTo { corner, side });
            corner += 1;
        }
    }
    steps.push(Command::Close);
    assert(steps@ =~= outline_of(sides as int));
    steps
}

/// The outline is closed and rounds every corner off: it starts at side
/// point 0 and its last curve ends there; every curve starts where the one
/// before it ended; and curve `i` has corner `i` as its control point, starts
/// at the side point between the corner before and corner `i`, and ends at
/// the side point between corner `i` and the corner after.
pub proof fn lemma_outline_rounds_each_corner(sides: u8, i: int)
    requires
        0 <= i < sides,
    ensures
        outline_of(sides as int).len() == sides + 2,
        outline_of(sides as int)[0] == (Command::MoveTo { side: 0 }),
        outline_of(sides as int)[sides + 1] == Command::Close,
        outline_of(sides as int)[sides as int] matches Command::CubicCurveTo { side, .. } && side
            == 0,
        outline_of(sides as int)[i + 1] matches Command::CubicCurveTo { corner, side } && {
            &&& corner == i
            &&& 0 <= side < sides
            &&& side_corners_of(sides as int)[i].1 == i
            &&& side_corners_of(sides as int)[side as int].0 == i
            &&& i + 1 < sides ==> (outline_of(sides as int)[i + 2] matches Command::CubicCurveTo {
                corner: following,
                ..
            } && following == side)
        },
{
    let n = sides as int;
    lemma_around(n, i);
    lemma_around(n, n - 1);
    lemma_around(n, next_around(n, i));
}

/// Going round: the corner after the last is the first, the corner before
/// the first is the last, and going on and back ends where it started.
proof fn lemma_around(sides: int, corner: int)
    requires
        0 <= corner < sides,
    ensures
        next_around(sides, corner) == if corner + 1 == sides {
            0
        } else {
            corner + 1
        },
        previous_around(sides, corner) == if corner == 0 {
            sides - 1
        } else {
            corner - 1
        },
        previous_around(sides, next_around(sides, corner)) == corner,
{
    if corner + 1 == sides {
        vstd::arithmetic::div_mod::lemma_fundamental_div_mod_converse(corner + 1, sides, 1, 0);
        vstd::arithmetic::div_mod::lemma_fundamental_div_mod_converse(
            sides - 1,
            sides,
            0,
            sides - 1,
        );
    } else {
        vstd::arithmetic::div_mod::lemma_fundamental_div_mod_converse(
            corner + 1,
            sides,
            0,
            corner + 1,
        );
        vstd::arithmetic::div_mod::lemma_fundamental_div_mod_converse(
            corner + sides,
            sides,
            1,
            corner,
        );
    }
    if corner == 0 {
        vstd::arithmetic::div_mod::lemma_fundamental_div_mod_converse(
            sides - 1,
            sides,
            0,
            sides - 1,
        );
    } else {
        vstd::arithmetic::div_mod::lemma_fundamental_div_mod_converse(
            corner + sides - 1,
            sides,
            1,
            corner - 1,
        );
    }
}

} // verus!
