//! The edge-set intersector: tests every relevant pair of segments from
//! the edge arena and reports each hit to the shared
//! [`SegmentIntersector`].
//!
//! This is the straightforward all-pairs form; pruning by envelopes
//! would change nothing about what is recorded.

use vstd::prelude::*;

use crate::coord::Coord;
use crate::edge::{
    lemma_added_intersections_keeps_key, lemma_inserted_has_key, lemma_inserted_keeps_key,
    spec_added_intersections, spec_has_intersection_key, Edge, EdgeIntersection,
};
use crate::kernel::{
    spec_on_segment, spec_properly_cross, spec_segments_intersect, LineIntersection,
};
use crate::segment_intersector::{
    spec_add_intersections_post, spec_is_trivial_intersection, spec_segment, SegmentIntersector,
};

verus! {

/// No two consecutive coordinates of the edge coincide, so every segment
/// of the edge is a real segment.
pub open spec fn edge_nondegenerate(edge: Edge) -> bool {
    forall|i: int|
        0 <= i < edge.coords@.len() - 1 ==> (#[trigger] edge.coords@[i]) != edge.coords@[i + 1]
}

/// Whether `k` is one of the listed edge ids.
pub open spec fn spec_id_member(ids: Seq<usize>, k: int) -> bool {
    exists|j: int| 0 <= j < ids.len() && ids[j] == k
}

/// All listed ids name well-formed, nondegenerate edges of the arena.
pub open spec fn ids_wf(ids: Seq<usize>, edges: Seq<Edge>) -> bool {
    forall|j: int|
        0 <= j < ids.len() ==> (#[trigger] ids[j]) < edges.len() && edges[ids[j] as int].wf()
            && edge_nondegenerate(edges[ids[j] as int])
}

/// The parts of the arena an intersection pass never touches: every
/// edge keeps its coordinates and its label.
pub open spec fn edges_frame(before: Seq<Edge>, after: Seq<Edge>) -> bool {
    &&& after.len() == before.len()
    &&& forall|k: int|
        0 <= k < before.len() ==> (#[trigger] after[k]).coords == before[k].coords && after[k].label
            == before[k].label && (after[k].wf() == before[k].wf())
}

/// The intersector state an intersection pass never touches, and the
/// monotonicity of what it found.
pub open spec fn intersector_frame(
    before: SegmentIntersector,
    after: SegmentIntersector,
) -> bool {
    &&& after.edges_are_from_same_geometry == before.edges_are_from_same_geometry
    &&& after.boundary_nodes == before.boundary_nodes
    &&& (before.has_proper_interior_intersection ==> after.has_proper_interior_intersection)
    &&& (before.proper_intersection_point is Some ==> after.proper_intersection_point is Some)
}

/// What one tested pair of segments leaves behind. A proper crossing is
/// remembered in the intersector; any other shared point leaves a
/// record with the normalized key on both edges — witnessed by a common
/// point of the two segments.
pub open spec fn spec_pair_recorded(
    edges: Seq<Edge>,
    si: SegmentIntersector,
    e0: int,
    s0: int,
    e1: int,
    s1: int,
) -> bool {
    let l0 = spec_segment(edges, e0, s0);
    let l1 = spec_segment(edges, e1, s1);
    &&& (spec_properly_cross(l0, l1) ==> si.proper_intersection_point is Some)
    &&& (spec_segments_intersect(l0, l1) && !spec_properly_cross(l0, l1) ==> exists|c: Coord|
        {
            &&& spec_on_segment(c, l0)
            &&& spec_on_segment(c, l1)
            &&& #[trigger] spec_has_intersection_key(
                edges[e0],
                edges[e0].spec_normalized_intersection(c, l0, s0),
            )
            &&& spec_has_intersection_key(
                edges[e1],
                edges[e1].spec_normalized_intersection(c, l1, s1),
            )
        })
}

/// Every intersection key present on any edge before stays present
/// after.
pub open spec fn edges_keys_monotone(before: Seq<Edge>, after: Seq<Edge>) -> bool {
    &&& after.len() == before.len()
    &&& forall|k: int, ei: EdgeIntersection|
        0 <= k < before.len() && #[trigger] spec_has_intersection_key(before[k], ei)
            ==> spec_has_intersection_key(after[k], ei)
}

/// A recorded pair stays recorded while the edges only gain
/// intersection keys, keep their coordinates, and the intersector only
/// gains its proper point.
proof fn lemma_pair_recorded_monotone(
    before: Seq<Edge>,
    before_si: SegmentIntersector,
    after: Seq<Edge>,
    after_si: SegmentIntersector,
    e0: int,
    s0: int,
    e1: int,
    s1: int,
)
    requires
        0 <= e0 < before.len(),
        0 <= e1 < before.len(),
        spec_pair_recorded(before, before_si, e0, s0, e1, s1),
        edges_keys_monotone(before, after),
        after[e0].coords == before[e0].coords,
        after[e1].coords == before[e1].coords,
        before_si.proper_intersection_point is Some ==> after_si.proper_intersection_point
            is Some,
    ensures
        spec_pair_recorded(after, after_si, e0, s0, e1, s1),
{
    let l0 = spec_segment(before, e0, s0);
    let l1 = spec_segment(before, e1, s1);
    assert(spec_segment(after, e0, s0) == l0);
    assert(spec_segment(after, e1, s1) == l1);
    if spec_segments_intersect(l0, l1) && !spec_properly_cross(l0, l1) {
        let c = choose|c: Coord|
            {
                &&& spec_on_segment(c, l0)
                &&& spec_on_segment(c, l1)
                &&& #[trigger] spec_has_intersection_key(
                    before[e0],
                    before[e0].spec_normalized_intersection(c, l0, s0),
                )
                &&& spec_has_intersection_key(
                    before[e1],
                    before[e1].spec_normalized_intersection(c, l1, s1),
                )
            };
        assert(after[e0].spec_normalized_intersection(c, l0, s0)
            == before[e0].spec_normalized_intersection(c, l0, s0));
        assert(after[e1].spec_normalized_intersection(c, l1, s1)
            == before[e1].spec_normalized_intersection(c, l1, s1));
        assert(spec_has_intersection_key(
            after[e0],
            after[e0].spec_normalized_intersection(c, l0, s0),
        ));
        assert(spec_has_intersection_key(
            after[e1],
            after[e1].spec_normalized_intersection(c, l1, s1),
        ));
    }
}

/// A recorded pair reads the same with the two segments exchanged.
proof fn lemma_pair_recorded_symmetric(
    edges: Seq<Edge>,
    si: SegmentIntersector,
    e0: int,
    s0: int,
    e1: int,
    s1: int,
)
    requires
        spec_pair_recorded(edges, si, e0, s0, e1, s1),
    ensures
        spec_pair_recorded(edges, si, e1, s1, e0, s0),
{
    let l0 = spec_segment(edges, e0, s0);
    let l1 = spec_segment(edges, e1, s1);
    assert(spec_properly_cross(l1, l0) == spec_properly_cross(l0, l1));
    assert(spec_segments_intersect(l1, l0) == spec_segments_intersect(l0, l1));
    if spec_segments_intersect(l1, l0) && !spec_properly_cross(l1, l0) {
        let c = choose|c: Coord|
            {
                &&& spec_on_segment(c, l0)
                &&& spec_on_segment(c, l1)
                &&& #[trigger] spec_has_intersection_key(
                    edges[e0],
                    edges[e0].spec_normalized_intersection(c, l0, s0),
                )
                &&& spec_has_intersection_key(
                    edges[e1],
                    edges[e1].spec_normalized_intersection(c, l1, s1),
                )
            };
        assert(spec_on_segment(c, l1) && spec_on_segment(c, l0) && spec_has_intersection_key(
            edges[e1],
            edges[e1].spec_normalized_intersection(c, l1, s1),
        ) && spec_has_intersection_key(
            edges[e0],
            edges[e0].spec_normalized_intersection(c, l0, s0),
        ));
    }
}

/// Test every pair of segments of two listed edges and record the
/// intersections found on them: afterwards every intersecting pair of
/// their segments is recorded on both edges or, crossing properly,
/// remembered by the intersector.
fn add_edge_pair_intersections(
    edges: &mut Vec<Edge>,
    segment_intersector: &mut SegmentIntersector,
    edge_id_0: usize,
    edge_id_1: usize,
)
    requires
        edge_id_0 < old(edges)@.len(),
        edge_id_1 < old(edges)@.len(),
        old(edges)@[edge_id_0 as int].wf(),
        old(edges)@[edge_id_1 as int].wf(),
        edge_nondegenerate(old(edges)@[edge_id_0 as int]),
        edge_nondegenerate(old(edges)@[edge_id_1 as int]),
    ensures
        edges_frame(old(edges)@, final(edges)@),
        forall|k: int|
            0 <= k < old(edges)@.len() && k != edge_id_0 as int && k != edge_id_1 as int
                ==> final(edges)@[k] == old(edges)@[k],
        intersector_frame(*old(segment_intersector), *final(segment_intersector)),
        edges_keys_monotone(old(edges)@, final(edges)@),
        edge_id_0 != edge_id_1 ==> forall|s0: int, s1: int|
            0 <= s0 < old(edges)@[edge_id_0 as int].coords@.len() - 1 && 0 <= s1 < old(
                edges,
            )@[edge_id_1 as int].coords@.len() - 1 ==> #[trigger] spec_pair_recorded(
                final(edges)@,
                *final(segment_intersector),
                edge_id_0 as int,
                s0,
                edge_id_1 as int,
                s1,
            ),
{
    let mut segment_index_0: usize = 0;
    let count_0 = edges[edge_id_0].coords.len();
    while segment_index_0 < count_0 - 1
        invariant
            edge_id_0 < edges@.len(),
            edge_id_1 < edges@.len(),
            count_0 == edges@[edge_id_0 as int].coords@.len(),
            edges@[edge_id_0 as int].wf(),
            edges@[edge_id_1 as int].wf(),
            edge_nondegenerate(edges@[edge_id_0 as int]),
            edge_nondegenerate(edges@[edge_id_1 as int]),
            edges_frame(old(edges)@, edges@),
            forall|k: int|
                0 <= k < old(edges)@.len() && k != edge_id_0 as int && k != edge_id_1 as int
                    ==> edges@[k] == old(edges)@[k],
            intersector_frame(*old(segment_intersector), *segment_intersector),
            edges_keys_monotone(old(edges)@, edges@),
            edge_id_0 != edge_id_1 ==> forall|s0: int, s1: int|
                0 <= s0 < segment_index_0 && 0 <= s1 < edges@[edge_id_1 as int].coords@.len() - 1
                    ==> #[trigger] spec_pair_recorded(
                    edges@,
                    *segment_intersector,
                    edge_id_0 as int,
                    s0,
                    edge_id_1 as int,
                    s1,
                ),
        decreases count_0 - segment_index_0,
    {
        let mut segment_index_1: usize = 0;
        let count_1 = edges[edge_id_1].coords.len();
        while segment_index_1 < count_1 - 1
            invariant
                edge_id_0 < edges@.len(),
                edge_id_1 < edges@.len(),
                segment_index_0 < count_0 - 1,
                count_0 == edges@[edge_id_0 as int].coords@.len(),
                count_1 == edges@[edge_id_1 as int].coords@.len(),
                edges@[edge_id_0 as int].wf(),
                edges@[edge_id_1 as int].wf(),
                edge_nondegenerate(edges@[edge_id_0 as int]),
                edge_nondegenerate(edges@[edge_id_1 as int]),
                edges_frame(old(edges)@, edges@),
                forall|k: int|
                    0 <= k < old(edges)@.len() && k != edge_id_0 as int && k != edge_id_1 as int
                        ==> edges@[k] == old(edges)@[k],
                intersector_frame(*old(segment_intersector), *segment_intersector),
                edges_keys_monotone(old(edges)@, edges@),
                edge_id_0 != edge_id_1 ==> forall|s0: int, s1: int|
                    0 <= s0 < segment_index_0 && 0 <= s1 < count_1 - 1
                        ==> #[trigger] spec_pair_recorded(
                        edges@,
                        *segment_intersector,
                        edge_id_0 as int,
                        s0,
                        edge_id_1 as int,
                        s1,
                    ),
                edge_id_0 != edge_id_1 ==> forall|s1: int|
                    0 <= s1 < segment_index_1 ==> #[trigger] spec_pair_recorded(
                        edges@,
                        *segment_intersector,
                        edge_id_0 as int,
                        segment_index_0 as int,
                        edge_id_1 as int,
                        s1,
                    ),
            decreases count_1 - segment_index_1,
        {
            let ghost edges_before = edges@;
            let ghost si_before = *segment_intersector;
            let r = segment_intersector.add_intersections(
                edges,
                edge_id_0,
                segment_index_0,
                edge_id_1,
                segment_index_1,
            );
            proof {
                lemma_pair_step(
                    edges_before,
                    si_before,
                    edges@,
                    *segment_intersector,
                    r,
                    edge_id_0 as int,
                    segment_index_0 as int,
                    edge_id_1 as int,
                    segment_index_1 as int,
                );
                assert(edges_frame(edges_before, edges@));
                assert(intersector_frame(si_before, *segment_intersector));
                assert forall|k: int, ei: EdgeIntersection|
                    0 <= k < old(edges)@.len() && #[trigger] spec_has_intersection_key(
                        old(edges)@[k],
                        ei,
                    ) implies spec_has_intersection_key(edges@[k], ei) by {
                    assert(spec_has_intersection_key(edges_before[k], ei));
                }
                if edge_id_0 != edge_id_1 {
                    assert forall|s0: int, s1: int|
                        (0 <= s0 < segment_index_0 && 0 <= s1 < count_1 - 1) || (s0
                            == segment_index_0 && 0 <= s1 < segment_index_1) implies
                        #[trigger] spec_pair_recorded(
                            edges@,
                            *segment_intersector,
                            edge_id_0 as int,
                            s0,
                            edge_id_1 as int,
                            s1,
                        ) by {
                        lemma_pair_recorded_monotone(
                            edges_before,
                            si_before,
                            edges@,
                            *segment_intersector,
                            edge_id_0 as int,
                            s0,
                            edge_id_1 as int,
                            s1,
                        );
                    }
                }
            }
            segment_index_1 += 1;
        }
        segment_index_0 += 1;
    }
    proof {
        if edge_id_0 != edge_id_1 {
            assert forall|s0: int, s1: int|
                0 <= s0 < old(edges)@[edge_id_0 as int].coords@.len() - 1 && 0 <= s1 < old(
                    edges,
                )@[edge_id_1 as int].coords@.len() - 1 implies #[trigger] spec_pair_recorded(
                edges@,
                *segment_intersector,
                edge_id_0 as int,
                s0,
                edge_id_1 as int,
                s1,
            ) by {}
        }
    }
}

/// One intersector call never loses an intersection key.
proof fn lemma_call_keys_monotone(
    before: Seq<Edge>,
    before_si: SegmentIntersector,
    after: Seq<Edge>,
    after_si: SegmentIntersector,
    r: Option<LineIntersection>,
    e0: int,
    s0: int,
    e1: int,
    s1: int,
)
    requires
        0 <= e0 < before.len(),
        0 <= e1 < before.len(),
        after.len() == before.len(),
        forall|k: int| 0 <= k < before.len() && k != e0 && k != e1 ==> #[trigger] after[k] == before[k],
        spec_add_intersections_post(before, before_si, after, after_si, r, e0, s0, e1, s1),
    ensures
        edges_keys_monotone(before, after),
{
    assert forall|k: int, ei: EdgeIntersection|
        0 <= k < before.len() && #[trigger] spec_has_intersection_key(before[k], ei) implies
        spec_has_intersection_key(after[k], ei) by {
        let t = choose|t: int|
            0 <= t < before[k].edge_intersections@.len() && (
            #[trigger] before[k].edge_intersections@[t]).key_eq(ei);
        match r {
            Option::None => {
                assert(after[k] == before[k]);
            },
            Option::Some(li) => {
                if k != e0 && k != e1 {
                    assert(after[k] == before[k]);
                } else {
                    let trivial = spec_is_trivial_intersection(li, before, e0, s0, e1, s1);
                    let recorded = !trivial && (before_si.edges_are_from_same_geometry || !(li matches
                    LineIntersection::SinglePoint { is_proper: true, .. }));
                    if !recorded {
                        assert(after[k].edge_intersections == before[k].edge_intersections);
                        assert(after[k].edge_intersections@[t].key_eq(ei));
                    } else if e0 != e1 {
                        let base = Edge { is_isolated: after[k].is_isolated, ..before[k] };
                        assert(base.edge_intersections@[t].key_eq(ei));
                        if k == e0 {
                            lemma_added_intersections_keeps_key(
                                base,
                                li,
                                spec_segment(before, e0, s0),
                                s0,
                                after[e0],
                                ei,
                            );
                        } else {
                            lemma_added_intersections_keeps_key(
                                base,
                                li,
                                spec_segment(before, e1, s1),
                                s1,
                                after[e1],
                                ei,
                            );
                        }
                    } else {
                        let base = Edge { is_isolated: after[e0].is_isolated, ..before[e0] };
                        assert(base.edge_intersections@[t].key_eq(ei));
                        let l0 = spec_segment(before, e0, s0);
                        let l1 = spec_segment(before, e1, s1);
                        let mid = choose|mid: Edge|
                            spec_added_intersections(base, li, l0, s0, mid)
                                && #[trigger] spec_added_intersections(mid, li, l1, s1, after[e0]);
                        lemma_added_intersections_keeps_key(base, li, l0, s0, mid, ei);
                        lemma_added_intersections_keeps_key(mid, li, l1, s1, after[e0], ei);
                    }
                }
            },
        }
    }
}

/// After one intersector call on segments of two distinct edges, that
/// pair is recorded.
proof fn lemma_call_pair_recorded(
    before: Seq<Edge>,
    before_si: SegmentIntersector,
    after: Seq<Edge>,
    after_si: SegmentIntersector,
    r: Option<LineIntersection>,
    e0: int,
    s0: int,
    e1: int,
    s1: int,
)
    requires
        0 <= e0 < before.len(),
        0 <= e1 < before.len(),
        e0 != e1,
        after.len() == before.len(),
        after[e0].coords == before[e0].coords,
        after[e1].coords == before[e1].coords,
        spec_add_intersections_post(before, before_si, after, after_si, r, e0, s0, e1, s1),
    ensures
        spec_pair_recorded(after, after_si, e0, s0, e1, s1),
{
    let l0 = spec_segment(before, e0, s0);
    let l1 = spec_segment(before, e1, s1);
    assert(spec_segment(after, e0, s0) == l0);
    assert(spec_segment(after, e1, s1) == l1);
    match r {
        Option::None => {
            assert(!spec_segments_intersect(l0, l1));
        },
        Option::Some(li) => {
            let trivial = spec_is_trivial_intersection(li, before, e0, s0, e1, s1);
            assert(!trivial);
            match li {
                LineIntersection::SinglePoint { intersection: c, is_proper } => {
                    if is_proper {
                        assert(after_si.proper_intersection_point is Some);
                    } else {
                        let base0 = Edge { is_isolated: after[e0].is_isolated, ..before[e0] };
                        let base1 = Edge { is_isolated: after[e1].is_isolated, ..before[e1] };
                        let n0 = base0.spec_normalized_intersection(c, l0, s0);
                        let n1 = base1.spec_normalized_intersection(c, l1, s1);
                        lemma_inserted_has_key(
                            base0.edge_intersections@,
                            n0,
                            after[e0].edge_intersections@,
                        );
                        lemma_inserted_has_key(
                            base1.edge_intersections@,
                            n1,
                            after[e1].edge_intersections@,
                        );
                        assert(after[e0].spec_normalized_intersection(c, l0, s0) == n0);
                        assert(after[e1].spec_normalized_intersection(c, l1, s1) == n1);
                        assert(spec_on_segment(c, l0) && spec_on_segment(c, l1)
                            && spec_has_intersection_key(
                            after[e0],
                            after[e0].spec_normalized_intersection(c, l0, s0),
                        ) && spec_has_intersection_key(
                            after[e1],
                            after[e1].spec_normalized_intersection(c, l1, s1),
                        ));
                    }
                },
                LineIntersection::Collinear { intersection: overlap } => {
                    assert(!spec_properly_cross(l0, l1));
                    let c = overlap.start;
                    let base0 = Edge { is_isolated: after[e0].is_isolated, ..before[e0] };
                    let base1 = Edge { is_isolated: after[e1].is_isolated, ..before[e1] };
                    let n0a = base0.spec_normalized_intersection(c, l0, s0);
                    let n0b = base0.spec_normalized_intersection(overlap.end, l0, s0);
                    let mid0 = choose|mid: Seq<EdgeIntersection>|
                        #[trigger] crate::edge::spec_inserted(
                            base0.edge_intersections@,
                            n0a,
                            mid,
                        ) && crate::edge::spec_inserted(mid, n0b, after[e0].edge_intersections@);
                    lemma_inserted_has_key(base0.edge_intersections@, n0a, mid0);
                    lemma_inserted_keeps_key(mid0, n0b, after[e0].edge_intersections@, n0a);
                    let n1a = base1.spec_normalized_intersection(c, l1, s1);
                    let n1b = base1.spec_normalized_intersection(overlap.end, l1, s1);
                    let mid1 = choose|mid: Seq<EdgeIntersection>|
                        #[trigger] crate::edge::spec_inserted(
                            base1.edge_intersections@,
                            n1a,
                            mid,
                        ) && crate::edge::spec_inserted(mid, n1b, after[e1].edge_intersections@);
                    lemma_inserted_has_key(base1.edge_intersections@, n1a, mid1);
                    lemma_inserted_keeps_key(mid1, n1b, after[e1].edge_intersections@, n1a);
                    assert(after[e0].spec_normalized_intersection(c, l0, s0) == n0a);
                    assert(after[e1].spec_normalized_intersection(c, l1, s1) == n1a);
                    assert(spec_on_segment(c, l0) && spec_on_segment(c, l1)
                        && spec_has_intersection_key(
                        after[e0],
                        after[e0].spec_normalized_intersection(c, l0, s0),
                    ) && spec_has_intersection_key(
                        after[e1],
                        after[e1].spec_normalized_intersection(c, l1, s1),
                    ));
                },
            }
        },
    }
}

/// What one call of the segment intersector guarantees: every key
/// already recorded stays, and with distinct edges the tested pair is
/// now recorded.
proof fn lemma_pair_step(
    before: Seq<Edge>,
    before_si: SegmentIntersector,
    after: Seq<Edge>,
    after_si: SegmentIntersector,
    r: Option<LineIntersection>,
    e0: int,
    s0: int,
    e1: int,
    s1: int,
)
    requires
        0 <= e0 < before.len(),
        0 <= e1 < before.len(),
        after.len() == before.len(),
        forall|k: int| 0 <= k < before.len() && k != e0 && k != e1 ==> #[trigger] after[k] == before[k],
        after[e0].coords == before[e0].coords,
        after[e1].coords == before[e1].coords,
        spec_add_intersections_post(before, before_si, after, after_si, r, e0, s0, e1, s1),
    ensures
        edges_keys_monotone(before, after),
        e0 != e1 ==> spec_pair_recorded(after, after_si, e0, s0, e1, s1),
{
    lemma_call_keys_monotone(before, before_si, after, after_si, r, e0, s0, e1, s1);
    if e0 != e1 {
        lemma_call_pair_recorded(before, before_si, after, after_si, r, e0, s0, e1, s1);
    }
}

/// Compute all intersections among the listed edges of one geometry,
/// recording them on the edges: afterwards, for every two distinct
/// listed edges, every intersecting pair of their segments is recorded
/// on both or, crossing properly, remembered by the intersector. With
/// `check_for_self_intersecting_edges` false an edge is not tested
/// against itself.
pub fn compute_intersections_within_set(
    edges: &mut Vec<Edge>,
    edge_ids: &Vec<usize>,
    check_for_self_intersecting_edges: bool,
    segment_intersector: &mut SegmentIntersector,
)
    requires
        ids_wf(edge_ids@, old(edges)@),
    ensures
        edges_frame(old(edges)@, final(edges)@),
        forall|k: int|
            0 <= k < old(edges)@.len() && !spec_id_member(edge_ids@, k) ==> final(edges)@[k]
                == old(edges)@[k],
        intersector_frame(*old(segment_intersector), *final(segment_intersector)),
        edges_keys_monotone(old(edges)@, final(edges)@),
        forall|x: int, y: int, s0: int, s1: int|
            0 <= x < edge_ids@.len() && 0 <= y < edge_ids@.len() && edge_ids@[x] != edge_ids@[y]
                && 0 <= s0 < final(edges)@[edge_ids@[x] as int].coords@.len() - 1 && 0 <= s1
                < final(edges)@[edge_ids@[y] as int].coords@.len() - 1
                ==> #[trigger] spec_pair_recorded(
                final(edges)@,
                *final(segment_intersector),
                edge_ids@[x] as int,
                s0,
                edge_ids@[y] as int,
                s1,
            ),
{
    let mut a: usize = 0;
    let id_count = edge_ids.len();
    while a < id_count
        invariant
            0 <= a <= id_count,
            id_count == edge_ids@.len(),
            ids_wf(edge_ids@, edges@),
            edges_frame(old(edges)@, edges@),
            forall|k: int|
                0 <= k < old(edges)@.len() && !spec_id_member(edge_ids@, k) ==> edges@[k] == old(
                    edges,
                )@[k],
            intersector_frame(*old(segment_intersector), *segment_intersector),
            edges_keys_monotone(old(edges)@, edges@),
            forall|x: int, y: int, s0: int, s1: int|
                0 <= x < a && x <= y < id_count && edge_ids@[x] != edge_ids@[y] && 0 <= s0
                    < edges@[edge_ids@[x] as int].coords@.len() - 1 && 0 <= s1
                    < edges@[edge_ids@[y] as int].coords@.len() - 1
                    ==> #[trigger] spec_pair_recorded(
                    edges@,
                    *segment_intersector,
                    edge_ids@[x] as int,
                    s0,
                    edge_ids@[y] as int,
                    s1,
                ),
        decreases id_count - a,
    {
        let mut b: usize = a;
        while b < id_count
            invariant
                0 <= a <= b <= id_count,
                id_count == edge_ids@.len(),
                ids_wf(edge_ids@, edges@),
                edges_frame(old(edges)@, edges@),
                forall|k: int|
                    0 <= k < old(edges)@.len() && !spec_id_member(edge_ids@, k) ==> edges@[k]
                        == old(edges)@[k],
                intersector_frame(*old(segment_intersector), *segment_intersector),
                edges_keys_monotone(old(edges)@, edges@),
                forall|x: int, y: int, s0: int, s1: int|
                    0 <= x < a && x <= y < id_count && edge_ids@[x] != edge_ids@[y] && 0 <= s0
                        < edges@[edge_ids@[x] as int].coords@.len() - 1 && 0 <= s1
                        < edges@[edge_ids@[y] as int].coords@.len() - 1
                        ==> #[trigger] spec_pair_recorded(
                        edges@,
                        *segment_intersector,
                        edge_ids@[x] as int,
                        s0,
                        edge_ids@[y] as int,
                        s1,
                    ),
                forall|y: int, s0: int, s1: int|
                    a <= y < b && edge_ids@[a as int] != edge_ids@[y] && 0 <= s0
                        < edges@[edge_ids@[a as int] as int].coords@.len() - 1 && 0 <= s1
                        < edges@[edge_ids@[y] as int].coords@.len() - 1
                        ==> #[trigger] spec_pair_recorded(
                        edges@,
                        *segment_intersector,
                        edge_ids@[a as int] as int,
                        s0,
                        edge_ids@[y] as int,
                        s1,
                    ),
            decreases id_count - b,
        {
            if check_for_self_intersecting_edges || a != b {
                let id0 = edge_ids[a];
                let id1 = edge_ids[b];
                let ghost edges_before = edges@;
                let ghost si_before = *segment_intersector;
                add_edge_pair_intersections(edges, segment_intersector, id0, id1);
                proof {
                    assert(spec_id_member(edge_ids@, id0 as int));
                    assert(spec_id_member(edge_ids@, id1 as int));
                    assert(edges_frame(edges_before, edges@));
                    assert forall|x: int, y: int, s0: int, s1: int|
                        0 <= x < id_count && 0 <= y < id_count && edge_ids@[x] != edge_ids@[y] && 0
                            <= s0 < edges_before[edge_ids@[x] as int].coords@.len() - 1 && 0 <= s1
                            < edges_before[edge_ids@[y] as int].coords@.len() - 1
                            && spec_pair_recorded(
                            edges_before,
                            si_before,
                            edge_ids@[x] as int,
                            s0,
                            edge_ids@[y] as int,
                            s1,
                        ) implies #[trigger] spec_pair_recorded(
                        edges@,
                        *segment_intersector,
                        edge_ids@[x] as int,
                        s0,
                        edge_ids@[y] as int,
                        s1,
                    ) by {
                        lemma_pair_recorded_monotone(
                            edges_before,
                            si_before,
                            edges@,
                            *segment_intersector,
                            edge_ids@[x] as int,
                            s0,
                            edge_ids@[y] as int,
                            s1,
                        );
                    }
                }
            }
            b += 1;
        }
        a += 1;
    }
    proof {
        assert forall|x: int, y: int, s0: int, s1: int|
            0 <= x < id_count && 0 <= y < id_count && edge_ids@[x] != edge_ids@[y] && 0 <= s0
                < edges@[edge_ids@[x] as int].coords@.len() - 1 && 0 <= s1
                < edges@[edge_ids@[y] as int].coords@.len() - 1 implies #[trigger] spec_pair_recorded(
            edges@,
            *segment_intersector,
            edge_ids@[x] as int,
            s0,
            edge_ids@[y] as int,
            s1,
        ) by {
            if x > y {
                assert(spec_pair_recorded(
                    edges@,
                    *segment_intersector,
                    edge_ids@[y] as int,
                    s1,
                    edge_ids@[x] as int,
                    s0,
                ));
                lemma_pair_recorded_symmetric(
                    edges@,
                    *segment_intersector,
                    edge_ids@[y] as int,
                    s1,
                    edge_ids@[x] as int,
                    s0,
                );
            }
        }
    }
}

/// Compute all intersections between the listed edges of one geometry
/// and those of the other, recording them on the edges of both:
/// afterwards, for every listed edge of one geometry and every distinct
/// listed edge of the other, every intersecting pair of their segments
/// is recorded on both or, crossing properly, remembered by the
/// intersector.
pub fn compute_intersections_between_sets(
    edges: &mut Vec<Edge>,
    edge_ids_0: &Vec<usize>,
    edge_ids_1: &Vec<usize>,
    segment_intersector: &mut SegmentIntersector,
)
    requires
        ids_wf(edge_ids_0@, old(edges)@),
        ids_wf(edge_ids_1@, old(edges)@),
    ensures
        edges_frame(old(edges)@, final(edges)@),
        forall|k: int|
            0 <= k < old(edges)@.len() && !spec_id_member(edge_ids_0@, k) && !spec_id_member(
                edge_ids_1@,
                k,
            ) ==> final(edges)@[k] == old(edges)@[k],
        intersector_frame(*old(segment_intersector), *final(segment_intersector)),
        edges_keys_monotone(old(edges)@, final(edges)@),
        forall|x: int, y: int, s0: int, s1: int|
            0 <= x < edge_ids_0@.len() && 0 <= y < edge_ids_1@.len() && edge_ids_0@[x]
                != edge_ids_1@[y] && 0 <= s0 < final(edges)@[edge_ids_0@[x] as int].coords@.len()
                - 1 && 0 <= s1 < final(edges)@[edge_ids_1@[y] as int].coords@.len() - 1
                ==> #[trigger] spec_pair_recorded(
                final(edges)@,
                *final(segment_intersector),
                edge_ids_0@[x] as int,
                s0,
                edge_ids_1@[y] as int,
                s1,
            ),
{
    let mut a: usize = 0;
    let count_0 = edge_ids_0.len();
    while a < count_0
        invariant
            0 <= a <= count_0,
            count_0 == edge_ids_0@.len(),
            ids_wf(edge_ids_0@, edges@),
            ids_wf(edge_ids_1@, edges@),
            edges_frame(old(edges)@, edges@),
            forall|k: int|
                0 <= k < old(edges)@.len() && !spec_id_member(edge_ids_0@, k) && !spec_id_member(
                    edge_ids_1@,
                    k,
                ) ==> edges@[k] == old(edges)@[k],
            intersector_frame(*old(segment_intersector), *segment_intersector),
            edges_keys_monotone(old(edges)@, edges@),
            forall|x: int, y: int, s0: int, s1: int|
                0 <= x < a && 0 <= y < edge_ids_1@.len() && edge_ids_0@[x] != edge_ids_1@[y] && 0
                    <= s0 < edges@[edge_ids_0@[x] as int].coords@.len() - 1 && 0 <= s1
                    < edges@[edge_ids_1@[y] as int].coords@.len() - 1
                    ==> #[trigger] spec_pair_recorded(
                    edges@,
                    *segment_intersector,
                    edge_ids_0@[x] as int,
                    s0,
                    edge_ids_1@[y] as int,
                    s1,
                ),
        decreases count_0 - a,
    {
        let mut b: usize = 0;
        let count_1 = edge_ids_1.len();
        while b < count_1
            invariant
                0 <= a < count_0,
                0 <= b <= count_1,
                count_0 == edge_ids_0@.len(),
                count_1 == edge_ids_1@.len(),
                ids_wf(edge_ids_0@, edges@),
                ids_wf(edge_ids_1@, edges@),
                edges_frame(old(edges)@, edges@),
                forall|k: int|
                    0 <= k < old(edges)@.len() && !spec_id_member(edge_ids_0@, k)
                        && !spec_id_member(edge_ids_1@, k) ==> edges@[k] == old(edges)@[k],
                intersector_frame(*old(segment_intersector), *segment_intersector),
                edges_keys_monotone(old(edges)@, edges@),
                forall|x: int, y: int, s0: int, s1: int|
                    0 <= x < a && 0 <= y < count_1 && edge_ids_0@[x] != edge_ids_1@[y] && 0 <= s0
                        < edges@[edge_ids_0@[x] as int].coords@.len() - 1 && 0 <= s1
                        < edges@[edge_ids_1@[y] as int].coords@.len() - 1
                        ==> #[trigger] spec_pair_recorded(
                        edges@,
                        *segment_intersector,
                        edge_ids_0@[x] as int,
                        s0,
                        edge_ids_1@[y] as int,
                        s1,
                    ),
                forall|y: int, s0: int, s1: int|
                    0 <= y < b && edge_ids_0@[a as int] != edge_ids_1@[y] && 0 <= s0
                        < edges@[edge_ids_0@[a as int] as int].coords@.len() - 1 && 0 <= s1
                        < edges@[edge_ids_1@[y] as int].coords@.len() - 1
                        ==> #[trigger] spec_pair_recorded(
                        edges@,
                        *segment_intersector,
                        edge_ids_0@[a as int] as int,
                        s0,
                        edge_ids_1@[y] as int,
                        s1,
                    ),
            decreases count_1 - b,
        {
            let id0 = edge_ids_0[a];
            let id1 = edge_ids_1[b];
            let ghost edges_before = edges@;
            let ghost si_before = *segment_intersector;
            add_edge_pair_intersections(edges, segment_intersector, id0, id1);
            proof {
                assert(spec_id_member(edge_ids_0@, id0 as int));
                assert(spec_id_member(edge_ids_1@, id1 as int));
                assert(edges_frame(edges_before, edges@));
                assert forall|x: int, y: int, s0: int, s1: int|
                    0 <= x < count_0 && 0 <= y < count_1 && edge_ids_0@[x] != edge_ids_1@[y] && 0
                        <= s0 < edges_before[edge_ids_0@[x] as int].coords@.len() - 1 && 0 <= s1
                        < edges_before[edge_ids_1@[y] as int].coords@.len() - 1
                        && spec_pair_recorded(
                        edges_before,
                        si_before,
                        edge_ids_0@[x] as int,
                        s0,
                        edge_ids_1@[y] as int,
                        s1,
                    ) implies #[trigger] spec_pair_recorded(
                    edges@,
                    *segment_intersector,
                    edge_ids_0@[x] as int,
                    s0,
                    edge_ids_1@[y] as int,
                    s1,
                ) by {
                    lemma_pair_recorded_monotone(
                        edges_before,
                        si_before,
                        edges@,
                        *segment_intersector,
                        edge_ids_0@[x] as int,
                        s0,
                        edge_ids_1@[y] as int,
                        s1,
                    );
                }
            }
            b += 1;
        }
        a += 1;
    }
}

} // verus!
