//! Edges of the topology graph: a polyline with a label and the sorted
//! set of intersections discovered on it.

use vstd::prelude::*;

use crate::coord::{Coord, Line};
use crate::intersection_matrix::IntersectionMatrix;
use crate::kernel::{edge_distance, spec_edge_distance, LineIntersection};
use crate::label::Label;
use crate::position::{Dimensions, Direction};

verus! {

/// One intersection discovered on an edge: the intersection coordinate,
/// the index of the segment it falls on, and the distance along that
/// segment. Intersections on an edge are ordered by `(segment_index,
/// distance)`.
#[derive(Clone, Copy, Debug, PartialEq, Eq, Structural, Hash)]
pub struct EdgeIntersection {
    pub coord: Coord,
    pub segment_index: usize,
    pub distance: i64,
}

impl EdgeIntersection {
    pub fn new(coord: Coord, segment_index: usize, distance: i64) -> (r: EdgeIntersection)
        ensures
            r == (EdgeIntersection { coord, segment_index, distance }),
    {
        EdgeIntersection { coord, segment_index, distance }
    }

    /// Whether two intersections share the ordering key.
    pub open spec fn key_eq(self, other: EdgeIntersection) -> bool {
        self.segment_index == other.segment_index && self.distance == other.distance
    }

    /// The strict `(segment_index, distance)` order on intersections.
    pub open spec fn key_lt(self, other: EdgeIntersection) -> bool {
        ||| self.segment_index < other.segment_index
        ||| (self.segment_index == other.segment_index && self.distance < other.distance)
    }
}

/// The intersections of an edge are kept strictly increasing in
/// `(segment_index, distance)`.
pub open spec fn intersections_sorted(s: Seq<EdgeIntersection>) -> bool {
    forall|i: int, j: int| 0 <= i < j < s.len() ==> (#[trigger] s[i]).key_lt(#[trigger] s[j])
}

/// What inserting `ei` into an edge's intersection set leaves behind:
/// nothing new when the key is already present, else the element placed
/// at some position.
pub open spec fn spec_inserted(
    before: Seq<EdgeIntersection>,
    ei: EdgeIntersection,
    after: Seq<EdgeIntersection>,
) -> bool {
    if exists|j: int| 0 <= j < before.len() && (#[trigger] before[j]).key_eq(ei) {
        after == before
    } else {
        exists|k: int| 0 <= k <= before.len() && after == before.insert(k, ei)
    }
}

/// What recording one segment intersection result on an edge leaves
/// behind: everything but the intersection set is kept, and the set has
/// the result's points inserted — one for a single intersection, both
/// overlap endpoints in turn for a collinear one.
pub open spec fn spec_added_intersections(
    before: Edge,
    intersection: LineIntersection,
    line: Line,
    segment_index: int,
    after: Edge,
) -> bool {
    &&& after.coords == before.coords
    &&& after.label == before.label
    &&& after.is_isolated == before.is_isolated
    &&& match intersection {
        LineIntersection::SinglePoint { intersection: c, .. } => spec_inserted(
            before.edge_intersections@,
            before.spec_normalized_intersection(c, line, segment_index),
            after.edge_intersections@,
        ),
        LineIntersection::Collinear { intersection: overlap } => exists|mid: Seq<EdgeIntersection>|
            {
                &&& #[trigger] spec_inserted(
                    before.edge_intersections@,
                    before.spec_normalized_intersection(overlap.start, line, segment_index),
                    mid,
                )
                &&& spec_inserted(
                    mid,
                    before.spec_normalized_intersection(overlap.end, line, segment_index),
                    after.edge_intersections@,
                )
            },
    }
}

/// Whether the edge's set holds a record at the same `(segment_index,
/// distance)` key as `ei`.
pub open spec fn spec_has_intersection_key(edge: Edge, ei: EdgeIntersection) -> bool {
    exists|t: int|
        0 <= t < edge.edge_intersections@.len() && (#[trigger] edge.edge_intersections@[t]).key_eq(
            ei,
        )
}

/// An insertion leaves the inserted key present.
pub proof fn lemma_inserted_has_key(
    before: Seq<EdgeIntersection>,
    ei: EdgeIntersection,
    after: Seq<EdgeIntersection>,
)
    requires
        spec_inserted(before, ei, after),
    ensures
        exists|u: int| 0 <= u < after.len() && (#[trigger] after[u]).key_eq(ei),
{
    if exists|j: int| 0 <= j < before.len() && (#[trigger] before[j]).key_eq(ei) {
        let j = choose|j: int| 0 <= j < before.len() && (#[trigger] before[j]).key_eq(ei);
        assert(after[j].key_eq(ei));
    } else {
        let k = choose|k: int| 0 <= k <= before.len() && after == before.insert(k, ei);
        before.insert_ensures(k, ei);
        assert(after[k].key_eq(ei));
    }
}

/// An insertion keeps every key that was present before it.
pub proof fn lemma_inserted_keeps_key(
    before: Seq<EdgeIntersection>,
    inserted: EdgeIntersection,
    after: Seq<EdgeIntersection>,
    ei: EdgeIntersection,
)
    requires
        spec_inserted(before, inserted, after),
        exists|t: int| 0 <= t < before.len() && (#[trigger] before[t]).key_eq(ei),
    ensures
        exists|u: int| 0 <= u < after.len() && (#[trigger] after[u]).key_eq(ei),
{
    let t = choose|t: int| 0 <= t < before.len() && (#[trigger] before[t]).key_eq(ei);
    if exists|j: int| 0 <= j < before.len() && (#[trigger] before[j]).key_eq(inserted) {
        assert(after[t].key_eq(ei));
    } else {
        let k = choose|k: int| 0 <= k <= before.len() && after == before.insert(k, inserted);
        before.insert_ensures(k, inserted);
        if t < k {
            assert(after[t].key_eq(ei));
        } else {
            assert(after[t + 1] == before[t]);
            assert(after[t + 1].key_eq(ei));
        }
    }
}

/// Recording a segment intersection result keeps every key that was on
/// the edge before it.
pub proof fn lemma_added_intersections_keeps_key(
    before: Edge,
    intersection: LineIntersection,
    line: Line,
    segment_index: int,
    after: Edge,
    ei: EdgeIntersection,
)
    requires
        spec_added_intersections(before, intersection, line, segment_index, after),
        spec_has_intersection_key(before, ei),
    ensures
        spec_has_intersection_key(after, ei),
{
    match intersection {
        LineIntersection::SinglePoint { intersection: c, .. } => {
            lemma_inserted_keeps_key(
                before.edge_intersections@,
                before.spec_normalized_intersection(c, line, segment_index),
                after.edge_intersections@,
                ei,
            );
        },
        LineIntersection::Collinear { intersection: overlap } => {
            let n1 = before.spec_normalized_intersection(overlap.start, line, segment_index);
            let n2 = before.spec_normalized_intersection(overlap.end, line, segment_index);
            let mid = choose|mid: Seq<EdgeIntersection>|
                #[trigger] spec_inserted(before.edge_intersections@, n1, mid) && spec_inserted(
                    mid,
                    n2,
                    after.edge_intersections@,
                );
            lemma_inserted_keeps_key(before.edge_intersections@, n1, mid, ei);
            lemma_inserted_keeps_key(mid, n2, after.edge_intersections@, ei);
        },
    }
}

/// An `Edge` is a one-dimensional polyline of a geometry: its
/// coordinates, its topological label, whether it is still isolated (no
/// intersection from the other geometry has touched it), and the sorted
/// set of intersections found on it.
#[derive(Clone, Debug)]
pub struct Edge {
    pub coords: Vec<Coord>,
    pub is_isolated: bool,
    pub edge_intersections: Vec<EdgeIntersection>,
    pub label: Label,
}

impl Edge {
    /// An edge is well formed when it has at least one coordinate, all
    /// of them in range, and its intersection set strictly sorted with
    /// in-range segment indices and non-negative distances.
    pub open spec fn wf(self) -> bool {
        &&& self.coords@.len() >= 1
        &&& forall|i: int| 0 <= i < self.coords@.len() ==> (#[trigger] self.coords@[i]).is_valid()
        &&& intersections_sorted(self.edge_intersections@)
        &&& forall|i: int|
            0 <= i < self.edge_intersections@.len() ==> {
                &&& (#[trigger] self.edge_intersections@[i]).segment_index < self.coords@.len()
                &&& self.edge_intersections@[i].distance >= 0
                &&& self.edge_intersections@[i].coord.is_valid()
            }
    }

    /// A new, still isolated edge with no intersections.
    pub fn new(coords: Vec<Coord>, label: Label) -> (r: Edge)
        requires
            coords@.len() >= 1,
            forall|i: int| 0 <= i < coords@.len() ==> (#[trigger] coords@[i]).is_valid(),
        ensures
            r.coords == coords,
            r.label == label,
            r.is_isolated,
            r.edge_intersections@ =~= Seq::<EdgeIntersection>::empty(),
            r.wf(),
    {
        Edge { coords, label, is_isolated: true, edge_intersections: Vec::new() }
    }

    pub fn label(&self) -> (r: &Label)
        ensures
            r == self.label,
    {
        &self.label
    }

    /// Replace the edge's label.
    pub fn set_label(&mut self, label: Label)
        ensures
            *final(self) == (Edge { label, ..*old(self) }),
    {
        self.label = label;
    }

    pub fn coords(&self) -> (r: &Vec<Coord>)
        ensures
            r == self.coords,
    {
        &self.coords
    }

    pub fn is_isolated(&self) -> (r: bool)
        ensures
            r == self.is_isolated,
    {
        self.is_isolated
    }

    pub fn mark_as_unisolated(&mut self)
        ensures
            *final(self) == (Edge { is_isolated: false, ..*old(self) }),
    {
        self.is_isolated = false;
    }

    pub fn edge_intersections(&self) -> (r: &Vec<EdgeIntersection>)
        ensures
            r == self.edge_intersections,
    {
        &self.edge_intersections
    }

    /// Whether the edge's first and last coordinates coincide.
    pub fn is_closed(&self) -> (r: bool)
        requires
            self.coords@.len() >= 1,
        ensures
            r == (self.coords@[0] == self.coords@[self.coords@.len() - 1]),
    {
        let last = self.coords.len() - 1;
        self.coords[0] == self.coords[last]
    }

    /// Insert one intersection, keeping the set sorted; an intersection
    /// whose key is already present is dropped, keeping the stored one.
    fn insert_intersection(&mut self, ei: EdgeIntersection)
        requires
            old(self).wf(),
            ei.segment_index < old(self).coords@.len(),
            ei.distance >= 0,
            ei.coord.is_valid(),
        ensures
            final(self).wf(),
            spec_inserted(old(self).edge_intersections@, ei, final(self).edge_intersections@),
            final(self).coords == old(self).coords,
            final(self).label == old(self).label,
            final(self).is_isolated == old(self).is_isolated,
    {
        let ghost before = self.edge_intersections@;
        let mut idx: usize = 0;
        let len = self.edge_intersections.len();
        while idx < len
            invariant_except_break
                0 <= idx <= len,
                len == self.edge_intersections@.len(),
                intersections_sorted(self.edge_intersections@),
                before == self.edge_intersections@,
                forall|i: int|
                    0 <= i < idx ==> (#[trigger] self.edge_intersections@[i]).key_lt(ei),
            ensures
                0 <= idx <= len,
                len == self.edge_intersections@.len(),
                intersections_sorted(self.edge_intersections@),
                before == self.edge_intersections@,
                forall|i: int|
                    0 <= i < idx ==> (#[trigger] self.edge_intersections@[i]).key_lt(ei),
                idx < len ==> !(self.edge_intersections@[idx as int].key_lt(ei)),
            decreases len - idx,
        {
            let cur = self.edge_intersections[idx];
            if cur.segment_index > ei.segment_index || (cur.segment_index == ei.segment_index
                && cur.distance >= ei.distance) {
                break ;
            }
            idx += 1;
        }
        if idx < len {
            let cur = self.edge_intersections[idx];
            if cur.segment_index == ei.segment_index && cur.distance == ei.distance {
                // The key is already present: keep the stored element.
                proof {
                    assert(before[idx as int].key_eq(ei));
                }
                return ;
            }
        }
        proof {
            assert(forall|i: int| 0 <= i < idx ==> (#[trigger] before[i]).key_lt(ei));
            assert forall|i: int| idx <= i < before.len() implies ei.key_lt(#[trigger] before[i])
            by {
                assert(!(before[idx as int].key_lt(ei)));
                assert(!(before[idx as int].key_eq(ei)));
                assert(ei.key_lt(before[idx as int]));
                if i > idx {
                    assert(before[idx as int].key_lt(before[i]));
                }
            }
            assert forall|j: int| 0 <= j < before.len() implies !(#[trigger] before[j]).key_eq(ei)
            by {
                if j < idx {
                    assert(before[j].key_lt(ei));
                } else {
                    assert(ei.key_lt(before[j]));
                }
            }
        }
        self.edge_intersections.insert(idx, ei);
        proof {
            assert(self.edge_intersections@ == before.insert(idx as int, ei));
            assert forall|i: int, j: int|
                0 <= i < j < self.edge_intersections@.len() implies (
            #[trigger] self.edge_intersections@[i]).key_lt(#[trigger] self.edge_intersections@[j])
            by {
                let s = self.edge_intersections@;
                if j < idx {
                } else if i < idx && j == idx {
                } else if i < idx && j > idx {
                    assert(s[j] == before[j - 1]);
                } else if i == idx {
                    assert(s[j] == before[j - 1]);
                } else {
                    assert(s[i] == before[i - 1] && s[j] == before[j - 1]);
                }
            }
        }
    }

    /// The normalized record for an intersection found at `coord` on
    /// segment `segment_index` of this edge: an intersection falling
    /// exactly on the segment's far vertex is carried by the next
    /// segment, at distance zero.
    pub open spec fn spec_normalized_intersection(
        self,
        intersection_coord: Coord,
        line: Line,
        segment_index: int,
    ) -> EdgeIntersection {
        if segment_index + 1 < self.coords@.len() && intersection_coord == self.coords@[
            segment_index + 1] {
            EdgeIntersection {
                coord: intersection_coord,
                segment_index: (segment_index + 1) as usize,
                distance: 0,
            }
        } else {
            EdgeIntersection {
                coord: intersection_coord,
                segment_index: segment_index as usize,
                distance: spec_edge_distance(intersection_coord, line) as i64,
            }
        }
    }

    /// Record an intersection found at `intersection_coord` on segment
    /// `segment_index`, whose coordinates are `line`; its distance along
    /// the segment orders it among the edge's intersections.
    pub fn add_intersection(
        &mut self,
        intersection_coord: Coord,
        line: Line,
        segment_index: usize,
    )
        requires
            old(self).wf(),
            segment_index < old(self).coords@.len(),
            intersection_coord.is_valid(),
            line.is_valid(),
        ensures
            final(self).wf(),
            spec_inserted(
                old(self).edge_intersections@,
                old(self).spec_normalized_intersection(
                    intersection_coord,
                    line,
                    segment_index as int,
                ),
                final(self).edge_intersections@,
            ),
            final(self).coords == old(self).coords,
            final(self).label == old(self).label,
            final(self).is_isolated == old(self).is_isolated,
    {
        let mut normalized_segment_index = segment_index;
        let mut distance = edge_distance(intersection_coord, line);

        let coord_count = self.coords.len();
        if segment_index < coord_count - 1 {
            let next_segment_index = segment_index + 1;
            let next_coord = self.coords[next_segment_index];
            if intersection_coord == next_coord {
                normalized_segment_index = next_segment_index;
                distance = 0;
            }
        }
        self.insert_intersection(
            EdgeIntersection {
                coord: intersection_coord,
                segment_index: normalized_segment_index,
                distance,
            },
        );
    }

    /// Record every point of a segment intersection result on this edge:
    /// one point for a single intersection, both overlap endpoints for a
    /// collinear one.
    pub fn add_intersections(
        &mut self,
        intersection: LineIntersection,
        line: Line,
        segment_index: usize,
    )
        requires
            old(self).wf(),
            segment_index < old(self).coords@.len(),
            line.is_valid(),
            match intersection {
                LineIntersection::SinglePoint { intersection: c, .. } => c.is_valid(),
                LineIntersection::Collinear { intersection: overlap } => overlap.is_valid(),
            },
        ensures
            final(self).wf(),
            spec_added_intersections(
                *old(self),
                intersection,
                line,
                segment_index as int,
                *final(self),
            ),
    {
        match intersection {
            LineIntersection::SinglePoint { intersection: coord, .. } => {
                self.add_intersection(coord, line, segment_index);
            },
            LineIntersection::Collinear { intersection: overlap } => {
                self.add_intersection(overlap.start, line, segment_index);
                self.add_intersection(overlap.end, line, segment_index);
            },
        }
    }

    /// Insert the edge's two end points as intersections, at the start
    /// of the first segment and of the last one, both at distance zero.
    pub fn add_edge_intersection_list_endpoints(&mut self)
        requires
            old(self).wf(),
        ensures
            final(self).wf(),
            final(self).coords == old(self).coords,
            final(self).label == old(self).label,
            final(self).is_isolated == old(self).is_isolated,
            exists|mid: Seq<EdgeIntersection>|
                {
                    &&& #[trigger] spec_inserted(
                        old(self).edge_intersections@,
                        EdgeIntersection { coord: old(self).coords@[0], segment_index: 0, distance: 0 },
                        mid,
                    )
                    &&& spec_inserted(
                        mid,
                        EdgeIntersection {
                            coord: old(self).coords@[old(self).coords@.len() - 1],
                            segment_index: (old(self).coords@.len() - 1) as usize,
                            distance: 0,
                        },
                        final(self).edge_intersections@,
                    )
                },
    {
        let max_segment_index = self.coords.len() - 1;
        let first_coord = self.coords[0];
        let max_coord = self.coords[max_segment_index];
        self.insert_intersection(EdgeIntersection::new(first_coord, 0, 0));
        self.insert_intersection(EdgeIntersection::new(max_coord, max_segment_index, 0));
    }

    /// Apply a finished label's contribution to the intersection matrix:
    /// the `On` pair raises its cell to a line, and for an area label
    /// each side pair raises its cell to an area.
    pub fn update_intersection_matrix(label: &Label, intersection_matrix: &mut IntersectionMatrix)
        requires
            label.spec_is_area() ==> label.is_dimensionally_consistent(),
        ensures
            *final(intersection_matrix) == spec_label_matrix_update(*label, *old(intersection_matrix)),
    {
        intersection_matrix.set_at_least_if_valid(
            label.position(0, Direction::On),
            label.position(1, Direction::On),
            Dimensions::OneDimensional,
        );

        if label.is_area() {
            intersection_matrix.set_at_least_if_valid(
                label.position(0, Direction::Left),
                label.position(1, Direction::Left),
                Dimensions::TwoDimensional,
            );
            intersection_matrix.set_at_least_if_valid(
                label.position(0, Direction::Right),
                label.position(1, Direction::Right),
                Dimensions::TwoDimensional,
            );
        }
    }
}

/// The intersection matrix after applying one label's edge contribution:
/// the `On` positions as a line, and for area labels both side pairs as
/// areas.
pub open spec fn spec_label_matrix_update(
    label: Label,
    m: IntersectionMatrix,
) -> IntersectionMatrix {
    let on_updated = m.spec_set_at_least_if_valid(
        label.spec_position(0, Direction::On),
        label.spec_position(1, Direction::On),
        Dimensions::OneDimensional,
    );
    if label.spec_is_area() {
        on_updated.spec_set_at_least_if_valid(
            label.spec_position(0, Direction::Left),
            label.spec_position(1, Direction::Left),
            Dimensions::TwoDimensional,
        ).spec_set_at_least_if_valid(
            label.spec_position(0, Direction::Right),
            label.spec_position(1, Direction::Right),
            Dimensions::TwoDimensional,
        )
    } else {
        on_updated
    }
}

/// A label's edge contribution never lowers any matrix cell.
pub proof fn lemma_label_update_geq(label: Label, m: IntersectionMatrix)
    ensures
        crate::intersection_matrix::spec_cellwise_geq(m, spec_label_matrix_update(label, m)),
{
    let on_updated = m.spec_set_at_least_if_valid(
        label.spec_position(0, Direction::On),
        label.spec_position(1, Direction::On),
        Dimensions::OneDimensional,
    );
    crate::intersection_matrix::lemma_set_at_least_if_valid_geq(
        m,
        label.spec_position(0, Direction::On),
        label.spec_position(1, Direction::On),
        Dimensions::OneDimensional,
    );
    if label.spec_is_area() {
        let left_updated = on_updated.spec_set_at_least_if_valid(
            label.spec_position(0, Direction::Left),
            label.spec_position(1, Direction::Left),
            Dimensions::TwoDimensional,
        );
        crate::intersection_matrix::lemma_set_at_least_if_valid_geq(
            on_updated,
            label.spec_position(0, Direction::Left),
            label.spec_position(1, Direction::Left),
            Dimensions::TwoDimensional,
        );
        crate::intersection_matrix::lemma_set_at_least_if_valid_geq(
            left_updated,
            label.spec_position(0, Direction::Right),
            label.spec_position(1, Direction::Right),
            Dimensions::TwoDimensional,
        );
        crate::intersection_matrix::lemma_cellwise_geq_trans(m, on_updated, left_updated);
        crate::intersection_matrix::lemma_cellwise_geq_trans(
            m,
            left_updated,
            spec_label_matrix_update(label, m),
        );
    }
}

} // verus!
