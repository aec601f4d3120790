//! The point-set positions, directions and dimensions used throughout the
//! topology graph.

use vstd::prelude::*;

verus! {

/// The position of a coordinate relative to one geometry: in its interior,
/// on its boundary, or in its exterior.
///
/// "Unknown" is represented by an absent value (`Option::None`) wherever a
/// position may still be undetermined.
#[derive(Clone, Copy, Debug, PartialEq, Eq, Structural)]
pub enum CoordPos {
    Inside,
    OnBoundary,
    Outside,
}

/// The three directions a position can be recorded for on an edge: on the
/// edge itself, or on either side of it.
#[derive(Clone, Copy, Debug, PartialEq, Eq, Structural)]
pub enum Direction {
    On,
    Left,
    Right,
}

/// The dimension of an intersection set: empty, a point (0-dimensional), a
/// line (1-dimensional) or an area (2-dimensional).
#[derive(Clone, Copy, Debug, PartialEq, Eq, Structural)]
pub enum Dimensions {
    Empty,
    ZeroDimensional,
    OneDimensional,
    TwoDimensional,
}

impl Dimensions {
    /// The rank of a dimension value, ordering `Empty < ZeroDimensional <
    /// OneDimensional < TwoDimensional`.
    pub open spec fn spec_rank(self) -> int {
        match self {
            Dimensions::Empty => 0,
            Dimensions::ZeroDimensional => 1,
            Dimensions::OneDimensional => 2,
            Dimensions::TwoDimensional => 3,
        }
    }

    /// The larger of two dimension values under the rank order.
    pub open spec fn spec_max(self, other: Dimensions) -> Dimensions {
        if self.spec_rank() >= other.spec_rank() {
            self
        } else {
            other
        }
    }

    /// Executable rank, used to compare dimension values.
    pub fn rank(self) -> (r: u8)
        ensures
            r as int == self.spec_rank(),
    {
        match self {
            Dimensions::Empty => 0,
            Dimensions::ZeroDimensional => 1,
            Dimensions::OneDimensional => 2,
            Dimensions::TwoDimensional => 3,
        }
    }

    /// The larger of two dimension values.
    pub fn max(self, other: Dimensions) -> (r: Dimensions)
        ensures
            r == self.spec_max(other),
    {
        if self.rank() >= other.rank() {
            self
        } else {
            other
        }
    }
}

} // verus!
