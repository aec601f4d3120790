//! Exact planar coordinates and line segments.
//!
//! Coordinates are pairs of integers. Keeping them within [`COORD_LIMIT`]
//! lets every kernel computation — orientation signs, segment
//! intersections, distances along a segment — be carried out exactly in
//! fixed-width arithmetic, so the robustness troubles of a floating-point
//! kernel do not arise.

use vstd::prelude::*;

verus! {

/// The largest coordinate magnitude the engine accepts.
///
/// Intersection points of two segments have rational coordinates whose
/// numerators grow with the cube of the inputs; this limit keeps all of
/// that arithmetic exact in 128-bit integers.
pub const COORD_LIMIT: i64 = 0x10_0000;

/// A 2-D point with exact integer coordinates. Equality is exact in both
/// coordinates.
#[derive(Clone, Copy, Debug, PartialEq, Eq, Structural, Hash)]
pub struct Coord {
    pub x: i64,
    pub y: i64,
}

/// A line segment between two coordinates.
#[derive(Clone, Copy, Debug, PartialEq, Eq, Structural, Hash)]
pub struct Line {
    pub start: Coord,
    pub end: Coord,
}

impl Coord {
    /// Both coordinates lie within the engine's exact-arithmetic range.
    pub open spec fn is_valid(self) -> bool {
        &&& -COORD_LIMIT <= self.x <= COORD_LIMIT
        &&& -COORD_LIMIT <= self.y <= COORD_LIMIT
    }

    pub fn new(x: i64, y: i64) -> (r: Coord)
        ensures
            r.x == x,
            r.y == y,
    {
        Coord { x, y }
    }

    pub fn zero() -> (r: Coord)
        ensures
            r.x == 0,
            r.y == 0,
    {
        Coord { x: 0, y: 0 }
    }

    /// Whether both coordinates lie within the engine's range.
    pub fn in_range(&self) -> (r: bool)
        ensures
            r == self.is_valid(),
    {
        -COORD_LIMIT <= self.x && self.x <= COORD_LIMIT && -COORD_LIMIT <= self.y && self.y
            <= COORD_LIMIT
    }
}

impl Line {
    pub open spec fn is_valid(self) -> bool {
        self.start.is_valid() && self.end.is_valid()
    }

    pub fn new(start: Coord, end: Coord) -> (r: Line)
        ensures
            r.start == start,
            r.end == end,
    {
        Line { start, end }
    }
}

} // verus!
