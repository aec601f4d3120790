//! Quadrants of the cartesian plane, used to coarse-order direction
//! vectors before the exact orientation tie-break.

use vstd::prelude::*;

verus! {

/// A quadrant of the plane, by the signs of a direction vector:
/// `NE` for `dx >= 0, dy >= 0`, then counter-clockwise `NW`, `SW`, `SE`.
/// The axes belong to the quadrant that follows them counter-clockwise.
#[derive(Clone, Copy, Debug, PartialEq, Eq, Structural)]
pub enum Quadrant {
    NE,
    NW,
    SW,
    SE,
}

/// The quadrant of a non-zero vector; a zero vector has none.
pub open spec fn spec_quadrant(dx: int, dy: int) -> Option<Quadrant> {
    if dx == 0 && dy == 0 {
        Option::None
    } else if dx >= 0 {
        if dy >= 0 {
            Option::Some(Quadrant::NE)
        } else {
            Option::Some(Quadrant::SE)
        }
    } else {
        if dy >= 0 {
            Option::Some(Quadrant::NW)
        } else {
            Option::Some(Quadrant::SW)
        }
    }
}

impl Quadrant {
    /// The angular rank of a quadrant, counter-clockwise from the
    /// positive x axis: `NE < NW < SW < SE`.
    pub open spec fn spec_rank(self) -> int {
        match self {
            Quadrant::NE => 0,
            Quadrant::NW => 1,
            Quadrant::SW => 2,
            Quadrant::SE => 3,
        }
    }

    /// The quadrant holding the direction vector `(dx, dy)`, or `None`
    /// for the zero vector.
    pub fn new(dx: i64, dy: i64) -> (r: Option<Quadrant>)
        ensures
            r == spec_quadrant(dx as int, dy as int),
    {
        if dx == 0 && dy == 0 {
            return Option::None;
        }
        if dx >= 0 {
            if dy >= 0 {
                Option::Some(Quadrant::NE)
            } else {
                Option::Some(Quadrant::SE)
            }
        } else {
            if dy >= 0 {
                Option::Some(Quadrant::NW)
            } else {
                Option::Some(Quadrant::SW)
            }
        }
    }

    /// Executable angular rank.
    pub fn rank(self) -> (r: u8)
        ensures
            r as int == self.spec_rank(),
    {
        match self {
            Quadrant::NE => 0,
            Quadrant::NW => 1,
            Quadrant::SW => 2,
            Quadrant::SE => 3,
        }
    }
}

} // verus!
