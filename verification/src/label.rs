//! The pairing of two per-geometry topology positions.

use vstd::prelude::*;

use crate::position::{CoordPos, Direction};
use crate::topology_position::{fill_if_empty, TopologyPosition};

verus! {

/// A `Label` records the topological relationship of a node or edge of a
/// topology graph to each of the two input geometries: one
/// [`TopologyPosition`] for geometry 0 and one for geometry 1.
#[derive(Clone, Copy, Debug)]
pub struct Label {
    pub topo_0: TopologyPosition,
    pub topo_1: TopologyPosition,
}

impl Label {
    /// The position record for geometry `geom_index`.
    pub open spec fn spec_topo(self, geom_index: int) -> TopologyPosition {
        if geom_index == 0 {
            self.topo_0
        } else {
            self.topo_1
        }
    }

    /// The position stored for a geometry and direction.
    pub open spec fn spec_position(self, geom_index: int, direction: Direction) -> Option<
        CoordPos,
    > {
        self.spec_topo(geom_index).spec_get(direction)
    }

    pub open spec fn spec_is_area(self) -> bool {
        self.topo_0.spec_is_area() || self.topo_1.spec_is_area()
    }

    /// Both halves of the label have the same dimensionality. Labels of
    /// graph components keep this shape once labeling is complete.
    pub open spec fn is_dimensionally_consistent(self) -> bool {
        self.topo_0.spec_is_area() == self.topo_1.spec_is_area()
    }

    /// An empty label for a 1-D line or 0-D point component.
    pub fn empty_line_or_point() -> (r: Label)
        ensures
            r.topo_0 == (TopologyPosition::LineOrPoint { on: Option::None }),
            r.topo_1 == (TopologyPosition::LineOrPoint { on: Option::None }),
    {
        Label {
            topo_0: TopologyPosition::empty_line_or_point(),
            topo_1: TopologyPosition::empty_line_or_point(),
        }
    }

    /// An empty label for a 2-D area component.
    pub fn empty_area() -> (r: Label)
        ensures
            r.topo_0 == (TopologyPosition::Area {
                on: Option::None,
                left: Option::None,
                right: Option::None,
            }),
            r.topo_1 == r.topo_0,
    {
        Label { topo_0: TopologyPosition::empty_area(), topo_1: TopologyPosition::empty_area() }
    }

    /// A label holding `position` for geometry `geom_index`; the other
    /// geometry's half is empty, with the same dimensionality.
    pub fn new(geom_index: usize, position: TopologyPosition) -> (r: Label)
        requires
            geom_index < 2,
        ensures
            r.spec_topo(geom_index as int) == position,
            r.spec_topo(1 - geom_index as int).spec_is_area() == position.spec_is_area(),
            r.spec_topo(1 - geom_index as int).spec_is_empty(),
    {
        let empty = match position {
            TopologyPosition::LineOrPoint { .. } => TopologyPosition::empty_line_or_point(),
            TopologyPosition::Area { .. } => TopologyPosition::empty_area(),
        };
        if geom_index == 0 {
            Label { topo_0: position, topo_1: empty }
        } else {
            Label { topo_0: empty, topo_1: position }
        }
    }

    /// Swap left and right for both geometries; applied when an edge is
    /// traversed in reverse.
    pub fn flip(&mut self)
        ensures
            forall|i: int|
                #![trigger final(self).spec_topo(i)]
                {
                    &&& final(self).spec_topo(i).spec_is_area() == old(self).spec_topo(
                        i,
                    ).spec_is_area()
                    &&& final(self).spec_position(i, Direction::On) == old(self).spec_position(
                        i,
                        Direction::On,
                    )
                    &&& final(self).spec_position(i, Direction::Left) == old(self).spec_position(
                        i,
                        Direction::Right,
                    )
                    &&& final(self).spec_position(i, Direction::Right) == old(self).spec_position(
                        i,
                        Direction::Left,
                    )
                },
    {
        self.topo_0.flip();
        self.topo_1.flip();
    }

    /// The position for a geometry and direction. Asking for a side of a
    /// line-or-point half is a caller error, so it is excluded by
    /// precondition.
    pub fn position(&self, geom_index: usize, direction: Direction) -> (r: Option<CoordPos>)
        requires
            geom_index < 2,
            self.spec_topo(geom_index as int).spec_is_area() || direction == Direction::On,
        ensures
            r == self.spec_position(geom_index as int, direction),
    {
        if geom_index == 0 {
            self.topo_0.get(direction)
        } else {
            self.topo_1.get(direction)
        }
    }

    /// The `On` position for a geometry.
    pub fn on_position(&self, geom_index: usize) -> (r: Option<CoordPos>)
        requires
            geom_index < 2,
        ensures
            r == self.spec_position(geom_index as int, Direction::On),
    {
        if geom_index == 0 {
            self.topo_0.get(Direction::On)
        } else {
            self.topo_1.get(Direction::On)
        }
    }

    /// Set the position for one geometry and direction, keeping all
    /// others.
    pub fn set_position(&mut self, geom_index: usize, direction: Direction, position: CoordPos)
        requires
            geom_index < 2,
            old(self).spec_topo(geom_index as int).spec_is_area() || direction == Direction::On,
        ensures
            final(self).spec_topo(1 - geom_index as int) == old(self).spec_topo(
                1 - geom_index as int,
            ),
            final(self).spec_topo(geom_index as int).spec_is_area() == old(self).spec_topo(
                geom_index as int,
            ).spec_is_area(),
            final(self).spec_position(geom_index as int, direction) == Option::Some(position),
            forall|d: Direction|
                d != direction ==> final(self).spec_position(geom_index as int, d) == old(
                    self,
                ).spec_position(geom_index as int, d),
    {
        if geom_index == 0 {
            self.topo_0.set_position(direction, position);
        } else {
            self.topo_1.set_position(direction, position);
        }
    }

    /// Set the `On` position for one geometry, keeping all others.
    pub fn set_on_position(&mut self, geom_index: usize, position: CoordPos)
        requires
            geom_index < 2,
        ensures
            final(self).spec_topo(1 - geom_index as int) == old(self).spec_topo(
                1 - geom_index as int,
            ),
            final(self).spec_topo(geom_index as int).spec_is_area() == old(self).spec_topo(
                geom_index as int,
            ).spec_is_area(),
            final(self).spec_position(geom_index as int, Direction::On) == Option::Some(position),
            forall|d: Direction|
                d != Direction::On ==> final(self).spec_position(geom_index as int, d) == old(
                    self,
                ).spec_position(geom_index as int, d),
    {
        if geom_index == 0 {
            self.topo_0.set_on_position(position);
        } else {
            self.topo_1.set_on_position(position);
        }
    }

    /// Set every applicable position for one geometry.
    pub fn set_all_positions(&mut self, geom_index: usize, position: CoordPos)
        requires
            geom_index < 2,
        ensures
            final(self).spec_topo(1 - geom_index as int) == old(self).spec_topo(
                1 - geom_index as int,
            ),
            final(self).spec_topo(geom_index as int).spec_is_area() == old(self).spec_topo(
                geom_index as int,
            ).spec_is_area(),
            final(self).spec_position(geom_index as int, Direction::On) == Option::Some(position),
            final(self).spec_topo(geom_index as int).spec_is_area() ==> final(self).spec_position(
                geom_index as int,
                Direction::Left,
            ) == Option::Some(position) && final(self).spec_position(
                geom_index as int,
                Direction::Right,
            ) == Option::Some(position),
    {
        if geom_index == 0 {
            self.topo_0.set_all_positions(position);
        } else {
            self.topo_1.set_all_positions(position);
        }
    }

    /// Set every still-unknown position for one geometry to `position`,
    /// keeping the known ones.
    pub fn set_all_positions_if_empty(&mut self, geom_index: usize, position: CoordPos)
        requires
            geom_index < 2,
        ensures
            final(self).spec_topo(1 - geom_index as int) == old(self).spec_topo(
                1 - geom_index as int,
            ),
            final(self).spec_topo(geom_index as int).spec_is_area() == old(self).spec_topo(
                geom_index as int,
            ).spec_is_area(),
            final(self).spec_position(geom_index as int, Direction::On) == fill_if_empty(
                old(self).spec_position(geom_index as int, Direction::On),
                position,
            ),
            final(self).spec_topo(geom_index as int).spec_is_area() ==> final(self).spec_position(
                geom_index as int,
                Direction::Left,
            ) == fill_if_empty(old(self).spec_position(geom_index as int, Direction::Left), position)
                && final(self).spec_position(geom_index as int, Direction::Right) == fill_if_empty(
                old(self).spec_position(geom_index as int, Direction::Right),
                position,
            ),
    {
        if geom_index == 0 {
            self.topo_0.set_all_positions_if_empty(position);
        } else {
            self.topo_1.set_all_positions_if_empty(position);
        }
    }

    /// How many of the two geometries have some known position.
    pub fn geometry_count(&self) -> (r: usize)
        ensures
            r == (if !self.topo_0.spec_is_empty() {
                1int
            } else {
                0int
            }) + (if !self.topo_1.spec_is_empty() {
                1int
            } else {
                0int
            }),
    {
        let mut count: usize = 0;
        if !self.topo_0.is_empty() {
            count += 1;
        }
        if !self.topo_1.is_empty() {
            count += 1;
        }
        count
    }

    /// Whether every position for a geometry is unknown.
    pub fn is_empty(&self, geom_index: usize) -> (r: bool)
        requires
            geom_index < 2,
        ensures
            r == self.spec_topo(geom_index as int).spec_is_empty(),
    {
        if geom_index == 0 {
            self.topo_0.is_empty()
        } else {
            self.topo_1.is_empty()
        }
    }

    /// Whether some applicable position for a geometry is unknown.
    pub fn is_any_empty(&self, geom_index: usize) -> (r: bool)
        requires
            geom_index < 2,
        ensures
            r == self.spec_topo(geom_index as int).spec_is_any_empty(),
    {
        if geom_index == 0 {
            self.topo_0.is_any_empty()
        } else {
            self.topo_1.is_any_empty()
        }
    }

    /// Whether either half of the label is area-typed.
    pub fn is_area(&self) -> (r: bool)
        ensures
            r == self.spec_is_area(),
    {
        self.topo_0.is_area() || self.topo_1.is_area()
    }

    /// Whether the half for `geom_index` is area-typed.
    pub fn is_geom_area(&self, geom_index: usize) -> (r: bool)
        requires
            geom_index < 2,
        ensures
            r == self.spec_topo(geom_index as int).spec_is_area(),
    {
        if geom_index == 0 {
            self.topo_0.is_area()
        } else {
            self.topo_1.is_area()
        }
    }

    /// Whether the half for `geom_index` is line-or-point-typed.
    pub fn is_line(&self, geom_index: usize) -> (r: bool)
        requires
            geom_index < 2,
        ensures
            r == self.spec_topo(geom_index as int).spec_is_line(),
    {
        if geom_index == 0 {
            self.topo_0.is_line()
        } else {
            self.topo_1.is_line()
        }
    }
}

} // verus!
