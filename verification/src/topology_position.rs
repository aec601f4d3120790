//! The per-geometry labelling of one graph component.

use vstd::prelude::*;

use crate::position::{CoordPos, Direction};

verus! {

/// A `TopologyPosition` records how a graph component relates to a single
/// geometry, with one position per applicable [`Direction`].
///
/// An *area* edge carries a position for each direction: on the edge, and
/// on its left and right sides. A *line* edge or a node (a point) carries
/// only the `On` position. A `None` entry means the position is not yet
/// known.
#[derive(Clone, Copy, Debug)]
pub enum TopologyPosition {
    Area { on: Option<CoordPos>, left: Option<CoordPos>, right: Option<CoordPos> },
    LineOrPoint { on: Option<CoordPos> },
}

/// `position` where it is known, else `fallback`.
pub open spec fn fill_if_empty(position: Option<CoordPos>, fallback: CoordPos) -> Option<CoordPos> {
    match position {
        Option::None => Option::Some(fallback),
        Option::Some(p) => Option::Some(p),
    }
}

/// Two positions of one dimensionality that agree in every direction are
/// the same value.
pub proof fn lemma_position_extensionality(t: TopologyPosition, u: TopologyPosition)
    requires
        t.spec_is_area() == u.spec_is_area(),
        t.spec_get(Direction::On) == u.spec_get(Direction::On),
        t.spec_get(Direction::Left) == u.spec_get(Direction::Left),
        t.spec_get(Direction::Right) == u.spec_get(Direction::Right),
    ensures
        t == u,
{
}

impl TopologyPosition {
    /// The position stored for a direction. A `LineOrPoint` has no side
    /// positions: its `Left` and `Right` read as unknown.
    pub open spec fn spec_get(self, direction: Direction) -> Option<CoordPos> {
        match (direction, self) {
            (Direction::On, TopologyPosition::LineOrPoint { on }) => on,
            (Direction::On, TopologyPosition::Area { on, .. }) => on,
            (Direction::Left, TopologyPosition::Area { left, .. }) => left,
            (Direction::Right, TopologyPosition::Area { right, .. }) => right,
            (_, TopologyPosition::LineOrPoint { .. }) => Option::None,
        }
    }

    pub open spec fn spec_is_area(self) -> bool {
        self is Area
    }

    pub open spec fn spec_is_line(self) -> bool {
        self is LineOrPoint
    }

    /// All applicable positions are unknown.
    pub open spec fn spec_is_empty(self) -> bool {
        &&& self.spec_get(Direction::On) is None
        &&& self.spec_get(Direction::Left) is None
        &&& self.spec_get(Direction::Right) is None
    }

    /// Some applicable position is unknown.
    pub open spec fn spec_is_any_empty(self) -> bool {
        ||| self.spec_get(Direction::On) is None
        ||| self.spec_is_area() && (self.spec_get(Direction::Left) is None || self.spec_get(
            Direction::Right,
        ) is None)
    }

    /// An area position with all three directions known.
    pub fn area(on: CoordPos, left: CoordPos, right: CoordPos) -> (r: TopologyPosition)
        ensures
            r == (TopologyPosition::Area {
                on: Option::Some(on),
                left: Option::Some(left),
                right: Option::Some(right),
            }),
    {
        TopologyPosition::Area { on: Option::Some(on), left: Option::Some(left), right: Option::Some(right) }
    }

    /// An area position with nothing known yet.
    pub fn empty_area() -> (r: TopologyPosition)
        ensures
            r == (TopologyPosition::Area { on: Option::None, left: Option::None, right: Option::None }),
    {
        TopologyPosition::Area { on: Option::None, left: Option::None, right: Option::None }
    }

    /// A line-or-point position with a known `On` value.
    pub fn line_or_point(on: CoordPos) -> (r: TopologyPosition)
        ensures
            r == (TopologyPosition::LineOrPoint { on: Option::Some(on) }),
    {
        TopologyPosition::LineOrPoint { on: Option::Some(on) }
    }

    /// A line-or-point position with nothing known yet.
    pub fn empty_line_or_point() -> (r: TopologyPosition)
        ensures
            r == (TopologyPosition::LineOrPoint { on: Option::None }),
    {
        TopologyPosition::LineOrPoint { on: Option::None }
    }

    /// The position for `direction`.
    ///
    /// Asking for a side of a `LineOrPoint` is a caller error, so it is
    /// excluded by precondition.
    pub fn get(&self, direction: Direction) -> (r: Option<CoordPos>)
        requires
            self.spec_is_area() || direction == Direction::On,
        ensures
            r == self.spec_get(direction),
    {
        match (direction, self) {
            (Direction::Left, TopologyPosition::Area { left, .. }) => *left,
            (Direction::Right, TopologyPosition::Area { right, .. }) => *right,
            (Direction::On, TopologyPosition::LineOrPoint { on }) => *on,
            (Direction::On, TopologyPosition::Area { on, .. }) => *on,
            (_, TopologyPosition::LineOrPoint { .. }) => Option::None,
        }
    }

    pub fn is_empty(&self) -> (r: bool)
        ensures
            r == self.spec_is_empty(),
    {
        match self {
            TopologyPosition::LineOrPoint { on: Option::None } => true,
            TopologyPosition::Area { on: Option::None, left: Option::None, right: Option::None } => true,
            _ => false,
        }
    }

    pub fn is_any_empty(&self) -> (r: bool)
        ensures
            r == self.spec_is_any_empty(),
    {
        match self {
            TopologyPosition::LineOrPoint { on: Option::Some(_) } => false,
            TopologyPosition::Area {
                on: Option::Some(_),
                left: Option::Some(_),
                right: Option::Some(_),
            } => false,
            _ => true,
        }
    }

    pub fn is_area(&self) -> (r: bool)
        ensures
            r == self.spec_is_area(),
    {
        matches!(self, TopologyPosition::Area { .. })
    }

    pub fn is_line(&self) -> (r: bool)
        ensures
            r == self.spec_is_line(),
    {
        matches!(self, TopologyPosition::LineOrPoint { .. })
    }

    /// Swap the left and right positions; the `On` position and the
    /// dimensionality are kept.
    pub fn flip(&mut self)
        ensures
            final(self).spec_is_area() == old(self).spec_is_area(),
            final(self).spec_get(Direction::On) == old(self).spec_get(Direction::On),
            final(self).spec_get(Direction::Left) == old(self).spec_get(Direction::Right),
            final(self).spec_get(Direction::Right) == old(self).spec_get(Direction::Left),
    {
        match self {
            TopologyPosition::LineOrPoint { .. } => {},
            TopologyPosition::Area { left, right, .. } => {
                core::mem::swap(left, right);
            },
        }
    }

    /// Set every applicable position to `position`.
    pub fn set_all_positions(&mut self, position: CoordPos)
        ensures
            final(self).spec_is_area() == old(self).spec_is_area(),
            final(self).spec_get(Direction::On) == Option::Some(position),
            final(self).spec_is_area() ==> final(self).spec_get(Direction::Left) == Option::Some(
                position,
            ) && final(self).spec_get(Direction::Right) == Option::Some(position),
    {
        match self {
            TopologyPosition::LineOrPoint { on } => {
                *on = Option::Some(position);
            },
            TopologyPosition::Area { on, left, right } => {
                *on = Option::Some(position);
                *left = Option::Some(position);
                *right = Option::Some(position);
            },
        }
    }

    /// Set every applicable position that is still unknown to `position`,
    /// keeping the known ones.
    pub fn set_all_positions_if_empty(&mut self, position: CoordPos)
        ensures
            final(self).spec_is_area() == old(self).spec_is_area(),
            final(self).spec_get(Direction::On) == fill_if_empty(
                old(self).spec_get(Direction::On),
                position,
            ),
            final(self).spec_is_area() ==> final(self).spec_get(Direction::Left) == fill_if_empty(
                old(self).spec_get(Direction::Left),
                position,
            ) && final(self).spec_get(Direction::Right) == fill_if_empty(
                old(self).spec_get(Direction::Right),
                position,
            ),
    {
        match self {
            TopologyPosition::LineOrPoint { on } => {
                if on.is_none() {
                    *on = Option::Some(position);
                }
            },
            TopologyPosition::Area { on, left, right } => {
                if on.is_none() {
                    *on = Option::Some(position);
                }
                if left.is_none() {
                    *left = Option::Some(position);
                }
                if right.is_none() {
                    *right = Option::Some(position);
                }
            },
        }
    }

    /// Set the position for one direction, keeping the others.
    ///
    /// Setting a side of a `LineOrPoint` is a caller error, so it is
    /// excluded by precondition.
    pub fn set_position(&mut self, direction: Direction, position: CoordPos)
        requires
            old(self).spec_is_area() || direction == Direction::On,
        ensures
            final(self).spec_is_area() == old(self).spec_is_area(),
            final(self).spec_get(direction) == Option::Some(position),
            forall|d: Direction| d != direction ==> final(self).spec_get(d) == old(self).spec_get(d),
    {
        match (direction, &mut *self) {
            (Direction::On, TopologyPosition::LineOrPoint { on }) => {
                *on = Option::Some(position);
            },
            (_, TopologyPosition::LineOrPoint { .. }) => {},
            (Direction::On, TopologyPosition::Area { on, .. }) => {
                *on = Option::Some(position);
            },
            (Direction::Left, TopologyPosition::Area { left, .. }) => {
                *left = Option::Some(position);
            },
            (Direction::Right, TopologyPosition::Area { right, .. }) => {
                *right = Option::Some(position);
            },
        }
    }

    /// Set the `On` position, keeping the sides.
    pub fn set_on_position(&mut self, position: CoordPos)
        ensures
            final(self).spec_is_area() == old(self).spec_is_area(),
            final(self).spec_get(Direction::On) == Option::Some(position),
            final(self).spec_get(Direction::Left) == old(self).spec_get(Direction::Left),
            final(self).spec_get(Direction::Right) == old(self).spec_get(Direction::Right),
    {
        match self {
            TopologyPosition::LineOrPoint { on } => {
                *on = Option::Some(position);
            },
            TopologyPosition::Area { on, .. } => {
                *on = Option::Some(position);
            },
        }
    }

    /// Set all three positions of an area component at once.
    ///
    /// Calling this on a `LineOrPoint` is a caller error, so it is
    /// excluded by precondition.
    pub fn set_locations(&mut self, new_on: CoordPos, new_left: CoordPos, new_right: CoordPos)
        requires
            old(self).spec_is_area(),
        ensures
            *final(self) == (TopologyPosition::Area {
                on: Option::Some(new_on),
                left: Option::Some(new_left),
                right: Option::Some(new_right),
            }),
    {
        match self {
            TopologyPosition::LineOrPoint { .. } => {},
            TopologyPosition::Area { on, left, right } => {
                *on = Option::Some(new_on);
                *left = Option::Some(new_left);
                *right = Option::Some(new_right);
            },
        }
    }
}

} // verus!
