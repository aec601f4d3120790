//! Pairwise segment intersection over the edge arena: each discovered
//! intersection is recorded on the edges that carry the two segments,
//! and proper intersections are remembered for the matrix's interior
//! pass.

use vstd::prelude::*;

use crate::coord::{Coord, Line};
use crate::edge::{spec_added_intersections, Edge};
use crate::kernel::{
    line_intersection, spec_collinear_segments, spec_on_segment, spec_properly_cross,
    spec_segments_intersect, LineIntersection,
};
use crate::node::{spec_contains_coord, CoordNode};

verus! {

/// The segment starting at `segment_index` on edge `edge_id`.
pub open spec fn spec_segment(edges: Seq<Edge>, edge_id: int, segment_index: int) -> Line {
    Line {
        start: edges[edge_id].coords@[segment_index],
        end: edges[edge_id].coords@[segment_index + 1],
    }
}

/// Whether `coord` is one of the recorded boundary nodes of either
/// geometry.
pub open spec fn spec_is_boundary_coord(
    boundary_nodes: Option<(Vec<CoordNode>, Vec<CoordNode>)>,
    coord: Coord,
) -> bool {
    match boundary_nodes {
        Option::None => false,
        Option::Some(b) => spec_contains_coord(b.0@, coord) || spec_contains_coord(b.1@, coord),
    }
}

/// A trivial intersection is an apparent self-intersection that is just
/// the point shared by adjacent segments of one edge — for a closed
/// edge, its first and last segments count as adjacent too.
pub open spec fn spec_is_trivial_intersection(
    intersection: LineIntersection,
    edges: Seq<Edge>,
    edge_id_0: int,
    segment_index_0: int,
    edge_id_1: int,
    segment_index_1: int,
) -> bool {
    &&& edge_id_0 == edge_id_1
    &&& !(intersection is Collinear)
    &&& {
        ||| abs_difference(segment_index_0, segment_index_1) == 1
        ||| {
            &&& edges[edge_id_0].coords@[0] == edges[edge_id_0].coords@[edges[edge_id_0].coords@.len()
                - 1]
            &&& {
                ||| (segment_index_0 == 0 && segment_index_1 == edges[edge_id_0].coords@.len() - 1)
                ||| (segment_index_1 == 0 && segment_index_0 == edges[edge_id_0].coords@.len() - 1)
            }
        }
    }
}

pub open spec fn abs_difference(a: int, b: int) -> int {
    if a >= b {
        a - b
    } else {
        b - a
    }
}

/// Everything one segment-pair test guarantees, over the states before
/// and after and the kernel result it returned: `None` exactly for a
/// self-pair or segments sharing no point (and then nothing changed);
/// otherwise the classification of the result, the isolation flags, the
/// recorded intersections and the proper-intersection bookkeeping.
pub open spec fn spec_add_intersections_post(
    before: Seq<Edge>,
    before_si: SegmentIntersector,
    after: Seq<Edge>,
    after_si: SegmentIntersector,
    r: Option<LineIntersection>,
    e0: int,
    s0: int,
    e1: int,
    s1: int,
) -> bool {
    let l0 = spec_segment(before, e0, s0);
    let l1 = spec_segment(before, e1, s1);
    match r {
        Option::None => {
            &&& after == before
            &&& after_si == before_si
            &&& (e0 == e1 && s0 == s1) || !spec_segments_intersect(l0, l1)
        },
        Option::Some(li) => {
            &&& !(e0 == e1 && s0 == s1)
            &&& spec_segments_intersect(l0, l1)
            &&& match li {
                LineIntersection::SinglePoint { intersection, is_proper } => {
                    &&& is_proper == spec_properly_cross(l0, l1)
                    &&& !is_proper ==> spec_on_segment(intersection, l0) && spec_on_segment(
                        intersection,
                        l1,
                    )
                    &&& intersection.is_valid()
                },
                LineIntersection::Collinear { intersection } => {
                    &&& spec_collinear_segments(l0, l1)
                    &&& intersection.start != intersection.end
                    &&& spec_on_segment(intersection.start, l0) && spec_on_segment(
                        intersection.start,
                        l1,
                    )
                    &&& spec_on_segment(intersection.end, l0) && spec_on_segment(
                        intersection.end,
                        l1,
                    )
                },
            }
            &&& after[e0].is_isolated == (before[e0].is_isolated
                && before_si.edges_are_from_same_geometry)
            &&& after[e1].is_isolated == (before[e1].is_isolated
                && before_si.edges_are_from_same_geometry)
            &&& {
                let trivial = spec_is_trivial_intersection(li, before, e0, s0, e1, s1);
                let recorded = !trivial && (before_si.edges_are_from_same_geometry || !(li matches
                LineIntersection::SinglePoint { is_proper: true, .. }));
                &&& (!recorded ==> after[e0].edge_intersections == before[e0].edge_intersections
                    && after[e1].edge_intersections == before[e1].edge_intersections)
                &&& (recorded && e0 != e1 ==> spec_added_intersections(
                    Edge { is_isolated: after[e0].is_isolated, ..before[e0] },
                    li,
                    l0,
                    s0,
                    after[e0],
                ) && spec_added_intersections(
                    Edge { is_isolated: after[e1].is_isolated, ..before[e1] },
                    li,
                    l1,
                    s1,
                    after[e1],
                ))
                &&& (recorded && e0 == e1 ==> exists|mid: Edge|
                    {
                        &&& spec_added_intersections(
                            Edge { is_isolated: after[e0].is_isolated, ..before[e0] },
                            li,
                            l0,
                            s0,
                            mid,
                        )
                        &&& #[trigger] spec_added_intersections(mid, li, l1, s1, after[e0])
                    })
                &&& (match li {
                    LineIntersection::SinglePoint { intersection, is_proper: true } => !trivial
                        ==> {
                        &&& after_si.proper_intersection_point == Option::Some(intersection)
                        &&& after_si.has_proper_interior_intersection == (
                        before_si.has_proper_interior_intersection || !spec_is_boundary_coord(
                            before_si.boundary_nodes,
                            intersection,
                        ))
                    },
                    _ => true,
                })
                &&& (!(li matches LineIntersection::SinglePoint { is_proper: true, .. }) || trivial
                    ==> after_si.proper_intersection_point == before_si.proper_intersection_point
                        && after_si.has_proper_interior_intersection
                        == before_si.has_proper_interior_intersection)
            }
        },
    }
}

/// Computes the intersections of segment pairs and adds them to the
/// edges containing the segments, remembering whether a proper
/// intersection was seen in the interior of both geometries.
pub struct SegmentIntersector {
    pub edges_are_from_same_geometry: bool,
    pub proper_intersection_point: Option<Coord>,
    pub has_proper_interior_intersection: bool,
    pub boundary_nodes: Option<(Vec<CoordNode>, Vec<CoordNode>)>,
}

impl SegmentIntersector {
    /// Whether two segment indices are adjacent on their edge.
    pub fn is_adjacent_segments(i1: usize, i2: usize) -> (r: bool)
        ensures
            r == (abs_difference(i1 as int, i2 as int) == 1),
    {
        let difference = if i1 > i2 {
            i1 - i2
        } else {
            i2 - i1
        };
        difference == 1
    }

    /// A fresh intersector; `edges_are_from_same_geometry` tells whether
    /// the pairs it will see are self-pairs of one geometry, which keep
    /// their isolation flags, or pairs across the two geometries.
    pub fn new(edges_are_from_same_geometry: bool) -> (r: SegmentIntersector)
        ensures
            r.edges_are_from_same_geometry == edges_are_from_same_geometry,
            r.proper_intersection_point is None,
            !r.has_proper_interior_intersection,
            r.boundary_nodes is None,
    {
        SegmentIntersector {
            edges_are_from_same_geometry,
            proper_intersection_point: Option::None,
            has_proper_interior_intersection: false,
            boundary_nodes: Option::None,
        }
    }

    /// Record the boundary nodes of the two geometries, once, before
    /// mutual intersections are computed.
    pub fn set_boundary_nodes(
        &mut self,
        boundary_nodes_0: Vec<CoordNode>,
        boundary_nodes_1: Vec<CoordNode>,
    )
        requires
            old(self).boundary_nodes is None,
        ensures
            *final(self) == (SegmentIntersector {
                boundary_nodes: Option::Some((boundary_nodes_0, boundary_nodes_1)),
                ..*old(self)
            }),
    {
        self.boundary_nodes = Option::Some((boundary_nodes_0, boundary_nodes_1));
    }

    /// Whether a proper intersection between the geometries was found.
    pub fn has_proper_intersection(&self) -> (r: bool)
        ensures
            r == (self.proper_intersection_point is Some),
    {
        self.proper_intersection_point.is_some()
    }

    /// Whether a proper intersection was found that is not at a boundary
    /// node of either geometry.
    pub fn has_proper_interior_intersection(&self) -> (r: bool)
        ensures
            r == self.has_proper_interior_intersection,
    {
        self.has_proper_interior_intersection
    }

    /// Whether `coord` is one of the recorded boundary nodes.
    fn is_boundary_point(&self, coord: Coord) -> (r: bool)
        ensures
            r == spec_is_boundary_coord(self.boundary_nodes, coord),
    {
        match &self.boundary_nodes {
            Option::None => false,
            Option::Some(b) => {
                Self::coord_in_nodes(&b.0, coord) || Self::coord_in_nodes(&b.1, coord)
            },
        }
    }

    fn coord_in_nodes(nodes: &Vec<CoordNode>, coord: Coord) -> (r: bool)
        ensures
            r == spec_contains_coord(nodes@, coord),
    {
        let mut i: usize = 0;
        let len = nodes.len();
        while i < len
            invariant
                0 <= i <= len,
                len == nodes@.len(),
                forall|j: int| 0 <= j < i ==> (#[trigger] nodes@[j]).coordinate != coord,
            decreases len - i,
        {
            if nodes[i].coordinate == coord {
                return true;
            }
            i += 1;
        }
        false
    }

    /// Whether the found intersection is trivial for this pair of
    /// segments.
    fn is_trivial_intersection(
        &self,
        intersection: LineIntersection,
        edges: &Vec<Edge>,
        edge_id_0: usize,
        segment_index_0: usize,
        edge_id_1: usize,
        segment_index_1: usize,
    ) -> (r: bool)
        requires
            edge_id_0 < edges@.len(),
            edges@[edge_id_0 as int].coords@.len() >= 1,
        ensures
            r == spec_is_trivial_intersection(
                intersection,
                edges@,
                edge_id_0 as int,
                segment_index_0 as int,
                edge_id_1 as int,
                segment_index_1 as int,
            ),
    {
        if edge_id_0 != edge_id_1 {
            return false;
        }
        if matches!(intersection, LineIntersection::Collinear { .. }) {
            return false;
        }
        if Self::is_adjacent_segments(segment_index_0, segment_index_1) {
            return true;
        }
        let edge0 = &edges[edge_id_0];
        if edge0.is_closed() {
            let max_segment_index = edge0.coords().len() - 1;
            if (segment_index_0 == 0 && segment_index_1 == max_segment_index) || (segment_index_1
                == 0 && segment_index_0 == max_segment_index) {
                return true;
            }
        }
        false
    }

    /// Test one pair of segments and record any intersection on both
    /// edges. Returns what the kernel found, so a caller sees exactly
    /// which case applied. A self-pair of one segment finds nothing; a
    /// trivial self-intersection is found but not recorded; a proper
    /// intersection between the two geometries is remembered and, when
    /// it misses every boundary node, flagged as interior.
    pub fn add_intersections(
        &mut self,
        edges: &mut Vec<Edge>,
        edge_id_0: usize,
        segment_index_0: usize,
        edge_id_1: usize,
        segment_index_1: usize,
    ) -> (r: Option<LineIntersection>)
        requires
            edge_id_0 < old(edges)@.len(),
            edge_id_1 < old(edges)@.len(),
            old(edges)@[edge_id_0 as int].wf(),
            old(edges)@[edge_id_1 as int].wf(),
            segment_index_0 + 1 < old(edges)@[edge_id_0 as int].coords@.len(),
            segment_index_1 + 1 < old(edges)@[edge_id_1 as int].coords@.len(),
            spec_segment(old(edges)@, edge_id_0 as int, segment_index_0 as int).start
                != spec_segment(old(edges)@, edge_id_0 as int, segment_index_0 as int).end,
            spec_segment(old(edges)@, edge_id_1 as int, segment_index_1 as int).start
                != spec_segment(old(edges)@, edge_id_1 as int, segment_index_1 as int).end,
        ensures
            final(edges)@.len() == old(edges)@.len(),
            forall|k: int|
                0 <= k < old(edges)@.len() && k != edge_id_0 as int && k != edge_id_1 as int
                    ==> final(edges)@[k] == old(edges)@[k],
            final(edges)@[edge_id_0 as int].coords == old(edges)@[edge_id_0 as int].coords,
            final(edges)@[edge_id_1 as int].coords == old(edges)@[edge_id_1 as int].coords,
            final(edges)@[edge_id_0 as int].label == old(edges)@[edge_id_0 as int].label,
            final(edges)@[edge_id_1 as int].label == old(edges)@[edge_id_1 as int].label,
            final(edges)@[edge_id_0 as int].wf(),
            final(edges)@[edge_id_1 as int].wf(),
            final(self).edges_are_from_same_geometry == old(self).edges_are_from_same_geometry,
            final(self).boundary_nodes == old(self).boundary_nodes,
            spec_add_intersections_post(
                old(edges)@,
                *old(self),
                final(edges)@,
                *final(self),
                r,
                edge_id_0 as int,
                segment_index_0 as int,
                edge_id_1 as int,
                segment_index_1 as int,
            ),
    {
        if edge_id_0 == edge_id_1 && segment_index_0 == segment_index_1 {
            return Option::None;
        }
        // Reading the lengths pins the coordinate counts within the
        // machine's range before the segment indices step past them.
        let coord_count_0 = edges[edge_id_0].coords.len();
        let coord_count_1 = edges[edge_id_1].coords.len();
        proof {
            assert(segment_index_0 + 1 <= coord_count_0);
            assert(segment_index_1 + 1 <= coord_count_1);
        }
        let line_0 = Line::new(
            edges[edge_id_0].coords[segment_index_0],
            edges[edge_id_0].coords[segment_index_0 + 1],
        );
        let line_1 = Line::new(
            edges[edge_id_1].coords[segment_index_1],
            edges[edge_id_1].coords[segment_index_1 + 1],
        );

        let intersection = line_intersection(line_0, line_1);
        let li = match intersection {
            Option::None => {
                return Option::None;
            },
            Option::Some(li) => li,
        };

        if !self.edges_are_from_same_geometry {
            edges[edge_id_0].mark_as_unisolated();
            edges[edge_id_1].mark_as_unisolated();
        }

        if !self.is_trivial_intersection(
            li,
            edges,
            edge_id_0,
            segment_index_0,
            edge_id_1,
            segment_index_1,
        ) {
            if self.edges_are_from_same_geometry || !li.is_proper() {
                edges[edge_id_0].add_intersections(li, line_0, segment_index_0);
                let ghost mid_edge = edges@[edge_id_0 as int];
                edges[edge_id_1].add_intersections(li, line_1, segment_index_1);
                proof {
                    if edge_id_0 == edge_id_1 {
                        assert(spec_added_intersections(
                            mid_edge,
                            li,
                            Line {
                                start: mid_edge.coords@[segment_index_1 as int],
                                end: mid_edge.coords@[segment_index_1 as int + 1],
                            },
                            segment_index_1 as int,
                            edges@[edge_id_0 as int],
                        ));
                    }
                }
            }
            if let LineIntersection::SinglePoint { is_proper: true, intersection: coord } = li {
                self.proper_intersection_point = Option::Some(coord);
                if !self.is_boundary_point(coord) {
                    self.has_proper_interior_intersection = true;
                }
            }
        }
        Option::Some(li)
    }
}

} // verus!
