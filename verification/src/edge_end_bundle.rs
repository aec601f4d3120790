//! Bundles of edge ends that share a node and a direction, and the
//! synthesis of one label for each bundle.

use vstd::prelude::*;

use crate::coord::Coord;
use crate::edge::spec_label_matrix_update;
use crate::edge::Edge;
use crate::edge_end::EdgeEnd;
use crate::intersection_matrix::IntersectionMatrix;
use crate::label::Label;
use crate::position::{CoordPos, Direction};
use crate::topology_position::TopologyPosition;

verus! {

/// How many members of a bundle say `OnBoundary` for a geometry.
pub open spec fn spec_boundary_count(ends: Seq<EdgeEnd>, geom_index: int) -> nat
    decreases ends.len(),
{
    if ends.len() == 0 {
        0
    } else {
        spec_boundary_count(ends.drop_last(), geom_index) + if ends.last().label.spec_position(
            geom_index,
            Direction::On,
        ) == Option::Some(CoordPos::OnBoundary) {
            1nat
        } else {
            0nat
        }
    }
}

/// Whether some member of a bundle says `Inside` for a geometry.
pub open spec fn spec_found_interior(ends: Seq<EdgeEnd>, geom_index: int) -> bool {
    exists|k: int|
        0 <= k < ends.len() && (#[trigger] ends[k]).label.spec_position(geom_index, Direction::On)
            == Option::Some(CoordPos::Inside)
}

/// Whether any member of a bundle carries an area label.
pub open spec fn spec_is_area_bundle(ends: Seq<EdgeEnd>) -> bool {
    exists|k: int| 0 <= k < ends.len() && (#[trigger] ends[k]).label.spec_is_area()
}

/// The boundary determination of the Mod-2 rule: a point touched by an
/// odd number of boundary edges is on the boundary, an even number folds
/// back into the interior.
pub open spec fn spec_determine_boundary(boundary_count: nat) -> CoordPos {
    if boundary_count % 2 == 1 {
        CoordPos::OnBoundary
    } else {
        CoordPos::Inside
    }
}

/// The synthesized `On` position of a bundle for one geometry: boundary
/// members decide by the Mod-2 rule; otherwise any interior member makes
/// it interior; otherwise it stays unknown.
pub open spec fn spec_bundle_on_position(ends: Seq<EdgeEnd>, geom_index: int) -> Option<CoordPos> {
    if spec_boundary_count(ends, geom_index) > 0 {
        Option::Some(spec_determine_boundary(spec_boundary_count(ends, geom_index)))
    } else if spec_found_interior(ends, geom_index) {
        Option::Some(CoordPos::Inside)
    } else {
        Option::None
    }
}

/// The synthesized side position of a bundle for one geometry: the
/// interior wins over the exterior, and only area members are consulted.
pub open spec fn spec_bundle_side_position(
    ends: Seq<EdgeEnd>,
    geom_index: int,
    side: Direction,
) -> Option<CoordPos> {
    if exists|k: int|
        0 <= k < ends.len() && (#[trigger] ends[k]).label.spec_is_area() && ends[k].label.spec_position(
            geom_index,
            side,
        ) == Option::Some(CoordPos::Inside) {
        Option::Some(CoordPos::Inside)
    } else if exists|k: int|
        0 <= k < ends.len() && (#[trigger] ends[k]).label.spec_is_area() && ends[k].label.spec_position(
            geom_index,
            side,
        ) == Option::Some(CoordPos::Outside) {
        Option::Some(CoordPos::Outside)
    } else {
        Option::None
    }
}

/// The synthesized topology position of a bundle for one geometry.
pub open spec fn spec_bundle_topo(
    ends: Seq<EdgeEnd>,
    geom_index: int,
    area: bool,
) -> TopologyPosition {
    if area {
        TopologyPosition::Area {
            on: spec_bundle_on_position(ends, geom_index),
            left: spec_bundle_side_position(ends, geom_index, Direction::Left),
            right: spec_bundle_side_position(ends, geom_index, Direction::Right),
        }
    } else {
        TopologyPosition::LineOrPoint { on: spec_bundle_on_position(ends, geom_index) }
    }
}

/// The label synthesized for a bundle: a pure function of the members,
/// so synthesizing twice from the same bundle gives the same label.
pub open spec fn spec_bundle_label(ends: Seq<EdgeEnd>) -> Label {
    Label {
        topo_0: spec_bundle_topo(ends, 0, spec_is_area_bundle(ends)),
        topo_1: spec_bundle_topo(ends, 1, spec_is_area_bundle(ends)),
    }
}

/// Every member label keeps both halves of one dimensionality, so a side
/// can be read wherever the label is area-typed.
pub open spec fn bundle_members_wf(ends: Seq<EdgeEnd>) -> bool {
    forall|k: int|
        0 <= k < ends.len() ==> (#[trigger] ends[k]).label.is_dimensionally_consistent()
}

/// A collection of edge ends that originate at the same node and point
/// in the same direction.
#[derive(Clone, Debug)]
pub struct EdgeEndBundle {
    pub coordinate: Coord,
    pub edge_ends: Vec<EdgeEnd>,
}

impl EdgeEndBundle {
    pub fn new(coordinate: Coord) -> (r: EdgeEndBundle)
        ensures
            r.coordinate == coordinate,
            r.edge_ends@ =~= Seq::<EdgeEnd>::empty(),
    {
        EdgeEndBundle { coordinate, edge_ends: Vec::new() }
    }

    pub fn edge_ends(&self) -> (r: &Vec<EdgeEnd>)
        ensures
            r == self.edge_ends,
    {
        &self.edge_ends
    }

    pub fn insert(&mut self, edge_end: EdgeEnd)
        ensures
            final(self).coordinate == old(self).coordinate,
            final(self).edge_ends@ == old(self).edge_ends@.push(edge_end),
    {
        self.edge_ends.push(edge_end);
    }

    /// Synthesize the bundle's label from its members' labels and carry
    /// it alongside them.
    pub fn into_labeled(self) -> (r: LabeledEdgeEndBundle)
        requires
            bundle_members_wf(self.edge_ends@),
        ensures
            r.label == spec_bundle_label(self.edge_ends@),
            r.edge_end_bundle == self,
    {
        let is_area = self.any_member_is_area();
        let mut label = if is_area {
            Label::empty_area()
        } else {
            Label::empty_line_or_point()
        };
        self.compute_label_on(&mut label, 0);
        self.compute_label_on(&mut label, 1);
        if is_area {
            self.compute_label_side(&mut label, 0, Direction::Left);
            self.compute_label_side(&mut label, 0, Direction::Right);
            self.compute_label_side(&mut label, 1, Direction::Left);
            self.compute_label_side(&mut label, 1, Direction::Right);
        }
        proof {
            let area = spec_is_area_bundle(self.edge_ends@);
            crate::topology_position::lemma_position_extensionality(
                label.topo_0,
                spec_bundle_topo(self.edge_ends@, 0, area),
            );
            crate::topology_position::lemma_position_extensionality(
                label.topo_1,
                spec_bundle_topo(self.edge_ends@, 1, area),
            );
        }
        LabeledEdgeEndBundle { label, edge_end_bundle: self }
    }

    /// Whether any member carries an area label.
    fn any_member_is_area(&self) -> (r: bool)
        ensures
            r == spec_is_area_bundle(self.edge_ends@),
    {
        let mut k: usize = 0;
        let len = self.edge_ends.len();
        while k < len
            invariant
                0 <= k <= len,
                len == self.edge_ends@.len(),
                forall|i: int|
                    0 <= i < k ==> !(#[trigger] self.edge_ends@[i]).label.spec_is_area(),
            decreases len - k,
        {
            if self.edge_ends[k].label().is_area() {
                return true;
            }
            k += 1;
        }
        false
    }

    /// Compute the bundle's `On` position for one geometry and write it
    /// into `label` when it is determined.
    fn compute_label_on(&self, label: &mut Label, geom_index: usize)
        requires
            geom_index < 2,
        ensures
            final(label).spec_topo(1 - geom_index as int) == old(label).spec_topo(
                1 - geom_index as int,
            ),
            final(label).spec_topo(geom_index as int).spec_is_area() == old(label).spec_topo(
                geom_index as int,
            ).spec_is_area(),
            final(label).spec_position(geom_index as int, Direction::On)
                == match spec_bundle_on_position(self.edge_ends@, geom_index as int) {
                Option::Some(p) => Option::Some(p),
                Option::None => old(label).spec_position(geom_index as int, Direction::On),
            },
            final(label).spec_position(geom_index as int, Direction::Left) == old(
                label,
            ).spec_position(geom_index as int, Direction::Left),
            final(label).spec_position(geom_index as int, Direction::Right) == old(
                label,
            ).spec_position(geom_index as int, Direction::Right),
    {
        let mut boundary_count: usize = 0;
        let mut found_interior = false;
        let mut k: usize = 0;
        let len = self.edge_ends.len();
        while k < len
            invariant
                0 <= k <= len,
                geom_index < 2,
                len == self.edge_ends@.len(),
                boundary_count as nat == spec_boundary_count(
                    self.edge_ends@.take(k as int),
                    geom_index as int,
                ),
                boundary_count <= k,
                found_interior == spec_found_interior(
                    self.edge_ends@.take(k as int),
                    geom_index as int,
                ),
            decreases len - k,
        {
            let ghost prefix = self.edge_ends@.take(k as int);
            match self.edge_ends[k].label().on_position(geom_index) {
                Option::Some(CoordPos::OnBoundary) => {
                    boundary_count += 1;
                },
                Option::Some(CoordPos::Inside) => {
                    found_interior = true;
                },
                _ => {},
            }
            k += 1;
            proof {
                let next = self.edge_ends@.take(k as int);
                assert(next.drop_last() =~= prefix);
                assert(next.last() == self.edge_ends@[k - 1]);
                assert(spec_found_interior(next, geom_index as int) == (spec_found_interior(
                    prefix,
                    geom_index as int,
                ) || next.last().label.spec_position(geom_index as int, Direction::On)
                    == Option::Some(CoordPos::Inside))) by {
                    if spec_found_interior(prefix, geom_index as int) {
                        let w = choose|i: int|
                            0 <= i < prefix.len() && (#[trigger] prefix[i]).label.spec_position(
                                geom_index as int,
                                Direction::On,
                            ) == Option::Some(CoordPos::Inside);
                        assert(next[w] == prefix[w]);
                    }
                    if spec_found_interior(next, geom_index as int) {
                        let w = choose|i: int|
                            0 <= i < next.len() && (#[trigger] next[i]).label.spec_position(
                                geom_index as int,
                                Direction::On,
                            ) == Option::Some(CoordPos::Inside);
                        if w < prefix.len() {
                            assert(prefix[w] == next[w]);
                        }
                    }
                }
            }
        }
        proof {
            assert(self.edge_ends@.take(len as int) =~= self.edge_ends@);
        }
        if boundary_count > 0 {
            let position = if boundary_count % 2 == 1 {
                CoordPos::OnBoundary
            } else {
                CoordPos::Inside
            };
            label.set_on_position(geom_index, position);
        } else if found_interior {
            label.set_on_position(geom_index, CoordPos::Inside);
        }
    }

    /// Compute the bundle's side position for one geometry and write it
    /// into `label` when it is determined. The interior wins as soon as
    /// any area member claims it.
    fn compute_label_side(&self, label: &mut Label, geom_index: usize, side: Direction)
        requires
            geom_index < 2,
            side != Direction::On,
            old(label).spec_topo(geom_index as int).spec_is_area(),
            bundle_members_wf(self.edge_ends@),
        ensures
            final(label).spec_topo(1 - geom_index as int) == old(label).spec_topo(
                1 - geom_index as int,
            ),
            final(label).spec_topo(geom_index as int).spec_is_area(),
            final(label).spec_position(geom_index as int, side)
                == match spec_bundle_side_position(self.edge_ends@, geom_index as int, side) {
                Option::Some(p) => Option::Some(p),
                Option::None => old(label).spec_position(geom_index as int, side),
            },
            forall|d: Direction|
                d != side ==> final(label).spec_position(geom_index as int, d) == old(
                    label,
                ).spec_position(geom_index as int, d),
    {
        let mut position: Option<CoordPos> = Option::None;
        let mut k: usize = 0;
        let len = self.edge_ends.len();
        while k < len
            invariant_except_break
                0 <= k <= len,
                geom_index < 2,
                side != Direction::On,
                len == self.edge_ends@.len(),
                bundle_members_wf(self.edge_ends@),
                !(exists|i: int|
                    0 <= i < k && (#[trigger] self.edge_ends@[i]).label.spec_is_area()
                        && self.edge_ends@[i].label.spec_position(geom_index as int, side)
                        == Option::Some(CoordPos::Inside)),
                position == (if exists|i: int|
                    0 <= i < k && (#[trigger] self.edge_ends@[i]).label.spec_is_area()
                        && self.edge_ends@[i].label.spec_position(geom_index as int, side)
                        == Option::Some(CoordPos::Outside) {
                    Option::Some(CoordPos::Outside)
                } else {
                    Option::<CoordPos>::None
                }),
            ensures
                position == spec_bundle_side_position(self.edge_ends@, geom_index as int, side),
            decreases len - k,
        {
            let edge_end = self.edge_ends[k];
            if edge_end.label().is_area() {
                match edge_end.label().position(geom_index, side) {
                    Option::Some(CoordPos::Inside) => {
                        position = Option::Some(CoordPos::Inside);
                        proof {
                            assert(self.edge_ends@[k as int].label.spec_is_area()
                                && self.edge_ends@[k as int].label.spec_position(
                                geom_index as int,
                                side,
                            ) == Option::Some(CoordPos::Inside));
                        }
                        break ;
                    },
                    Option::Some(CoordPos::Outside) => {
                        position = Option::Some(CoordPos::Outside);
                        proof {
                            assert(self.edge_ends@[k as int].label.spec_is_area()
                                && self.edge_ends@[k as int].label.spec_position(
                                geom_index as int,
                                side,
                            ) == Option::Some(CoordPos::Outside));
                        }
                    },
                    _ => {},
                }
            }
            k += 1;
        }
        if let Option::Some(p) = position {
            label.set_position(geom_index, side, p);
        }
    }
}

/// An [`EdgeEndBundle`] together with its synthesized label.
#[derive(Clone, Debug)]
pub struct LabeledEdgeEndBundle {
    pub label: Label,
    pub edge_end_bundle: EdgeEndBundle,
}

impl LabeledEdgeEndBundle {
    pub fn label(&self) -> (r: &Label)
        ensures
            r == self.label,
    {
        &self.label
    }

    /// Replace the bundle's label; used when label completion around the
    /// node fills positions that the members left open.
    pub fn set_label(&mut self, label: Label)
        ensures
            *final(self) == (LabeledEdgeEndBundle { label, ..*old(self) }),
    {
        self.label = label;
    }

    /// Apply the bundle's label to the intersection matrix, as an edge
    /// contribution.
    pub fn update_intersection_matrix(&self, intersection_matrix: &mut IntersectionMatrix)
        requires
            self.label.spec_is_area() ==> self.label.is_dimensionally_consistent(),
        ensures
            *final(intersection_matrix) == spec_label_matrix_update(
                self.label,
                *old(intersection_matrix),
            ),
    {
        Edge::update_intersection_matrix(&self.label, intersection_matrix);
    }

    pub fn coordinate(&self) -> (r: &Coord)
        ensures
            r == self.edge_end_bundle.coordinate,
    {
        &self.edge_end_bundle.coordinate
    }
}

} // verus!
