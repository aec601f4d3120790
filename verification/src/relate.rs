//! The relate operation: build a topology graph for each input geometry,
//! node the edges at every intersection, label the graph, and assemble
//! the DE-9IM matrix.

use vstd::prelude::*;

use crate::coord::{Coord, Line};
use crate::edge::Edge;
use crate::edge_end::{sort_edge_ends, EdgeEnd};
use crate::edge_end_bundle::{bundle_members_wf, EdgeEndBundle, LabeledEdgeEndBundle};
use crate::edge_set_intersector::{
    compute_intersections_between_sets, compute_intersections_within_set, edge_nondegenerate,
    ids_wf,
};
use crate::geometry::{
    locate, spec_geometry_has_segment, valid_geometry, valid_linestring, valid_ring, Geometry,
    PolygonGeom,
};
use crate::intersection_matrix::IntersectionMatrix;
use crate::kernel::spec_properly_cross;
use crate::label::Label;
use crate::node::CoordNode;
use crate::position::{CoordPos, Dimensions, Direction};
use crate::segment_intersector::{spec_segment, SegmentIntersector};
use crate::topology_position::TopologyPosition;

verus! {

/// The errors the relate operation can surface: geometry on which the
/// topology is undefined. Every numeric decision inside the engine is
/// made in exact arithmetic, so no numeric indeterminacy can arise.
#[derive(Clone, Copy, Debug, PartialEq, Eq, Structural)]
pub enum RelateError {
    InvalidGeometry,
}

/// The Mod-2 boundary rule: a point where an odd number of line ends
/// meet is on the boundary; an even number folds into the interior.
pub fn determine_boundary(boundary_count: usize) -> (r: CoordPos)
    ensures
        r == crate::edge_end_bundle::spec_determine_boundary(boundary_count as nat),
{
    if boundary_count % 2 == 1 {
        CoordPos::OnBoundary
    } else {
        CoordPos::Inside
    }
}

/// Copy a vector of plain values.
fn copy_vec<T: Copy>(v: &Vec<T>) -> (r: Vec<T>)
    ensures
        r@ == v@,
{
    let mut r: Vec<T> = Vec::new();
    let len = v.len();
    let mut i: usize = 0;
    while i < len
        invariant
            0 <= i <= len,
            len == v@.len(),
            r@ == v@.subrange(0, i as int),
        decreases len - i,
    {
        r.push(v[i]);
        proof {
            assert(r@ =~= v@.subrange(0, i as int + 1));
        }
        i += 1;
    }
    proof {
        assert(v@.subrange(0, len as int) =~= v@);
    }
    r
}

/// The per-geometry topology graph: the ids of its edges in the shared
/// arena, its 0-dimensional components, and its boundary nodes under the
/// Mod-2 rule.
pub struct GeometryGraph {
    pub geom_index: usize,
    pub edge_ids: Vec<usize>,
    pub point_coords: Vec<Coord>,
    pub boundary_nodes: Vec<CoordNode>,
    pub is_polygonal: bool,
}

/// Everything later passes need of a built graph: its edges are well
/// formed, nondegenerate, and consistently labelled, and its node seeds
/// are in range.
pub open spec fn graph_wf(g: GeometryGraph, edges: Seq<Edge>) -> bool {
    &&& g.geom_index < 2
    &&& ids_wf(g.edge_ids@, edges)
    &&& forall|j: int|
        0 <= j < g.edge_ids@.len() ==> (#[trigger] edges[g.edge_ids@[j] as int].label).is_dimensionally_consistent()
    &&& forall|j: int| 0 <= j < g.point_coords@.len() ==> (#[trigger] g.point_coords@[j]).is_valid()
    &&& forall|j: int|
        0 <= j < g.boundary_nodes@.len() ==> (#[trigger] g.boundary_nodes@[j]).coordinate.is_valid()
}

/// The arena only ever grows, and what is already there stays.
pub open spec fn edges_extended(before: Seq<Edge>, after: Seq<Edge>) -> bool {
    &&& after.len() >= before.len()
    &&& forall|k: int| 0 <= k < before.len() ==> #[trigger] after[k] == before[k]
}

/// Append one line edge, labelled interior for its geometry.
fn add_line_edge(edges: &mut Vec<Edge>, geom_index: usize, coords: &Vec<Coord>) -> (id: usize)
    requires
        geom_index < 2,
        valid_linestring(coords@),
    ensures
        edges_extended(old(edges)@, final(edges)@),
        final(edges)@.len() == old(edges)@.len() + 1,
        id == old(edges)@.len(),
        final(edges)@[id as int].wf(),
        edge_nondegenerate(final(edges)@[id as int]),
        final(edges)@[id as int].label.is_dimensionally_consistent(),
        final(edges)@[id as int].coords@ == coords@,
        final(edges)@[id as int].label.spec_topo(geom_index as int)
            == (TopologyPosition::LineOrPoint { on: Option::Some(CoordPos::Inside) }),
    {
    let label = Label::new(geom_index, TopologyPosition::line_or_point(CoordPos::Inside));
    let edge = Edge::new(copy_vec(coords), label);
    let id = edges.len();
    edges.push(edge);
    id
}

/// Append one ring edge of a polygon, labelled on the boundary with the
/// polygon's interior on the correct side: walking an exterior ring
/// counter-clockwise keeps the interior to the left, and a hole ring the
/// other way around; a ring given with the opposite winding gets the
/// flipped label.
fn add_ring_edge(
    edges: &mut Vec<Edge>,
    geom_index: usize,
    ring: &Vec<Coord>,
    is_hole: bool,
) -> (id: usize)
    requires
        geom_index < 2,
        valid_ring(ring@),
    ensures
        edges_extended(old(edges)@, final(edges)@),
        final(edges)@.len() == old(edges)@.len() + 1,
        id == old(edges)@.len(),
        final(edges)@[id as int].wf(),
        edge_nondegenerate(final(edges)@[id as int]),
        final(edges)@[id as int].label.is_dimensionally_consistent(),
        final(edges)@[id as int].coords@ == ring@,
        ({
            let interior_on_left = crate::geometry::spec_ring_is_ccw(ring@) != is_hole;
            final(edges)@[id as int].label.spec_topo(geom_index as int)
                == (TopologyPosition::Area {
                on: Option::Some(CoordPos::OnBoundary),
                left: Option::Some(
                    if interior_on_left {
                        CoordPos::Inside
                    } else {
                        CoordPos::Outside
                    },
                ),
                right: Option::Some(
                    if interior_on_left {
                        CoordPos::Outside
                    } else {
                        CoordPos::Inside
                    },
                ),
            })
        }),
    {
    let ccw = crate::geometry::ring_is_ccw(ring);
    let interior_on_left = if is_hole {
        !ccw
    } else {
        ccw
    };
    let (left, right) = if interior_on_left {
        (CoordPos::Inside, CoordPos::Outside)
    } else {
        (CoordPos::Outside, CoordPos::Inside)
    };
    let label = Label::new(geom_index, TopologyPosition::area(CoordPos::OnBoundary, left, right));
    let edge = Edge::new(copy_vec(ring), label);
    let id = edges.len();
    edges.push(edge);
    id
}

/// An endpoint of some line string, with the parity of how many line
/// ends meet there.
struct EndpointParity {
    coord: Coord,
    odd: bool,
}

/// Toggle the parity of the two endpoints of one open line string; a
/// closed line string has no endpoints.
fn record_line_endpoints(counts: &mut Vec<EndpointParity>, coords: &Vec<Coord>)
    requires
        valid_linestring(coords@),
        forall|j: int| 0 <= j < old(counts)@.len() ==> (#[trigger] old(counts)@[j]).coord.is_valid(),
    ensures
        forall|j: int| 0 <= j < final(counts)@.len() ==> (#[trigger] final(counts)@[j]).coord.is_valid(),
{
    let last = coords.len() - 1;
    if coords[0] == coords[last] {
        return ;
    }
    toggle_endpoint(counts, coords[0]);
    toggle_endpoint(counts, coords[last]);
}

fn toggle_endpoint(counts: &mut Vec<EndpointParity>, coord: Coord)
    requires
        coord.is_valid(),
        forall|j: int| 0 <= j < old(counts)@.len() ==> (#[trigger] old(counts)@[j]).coord.is_valid(),
    ensures
        forall|j: int| 0 <= j < final(counts)@.len() ==> (#[trigger] final(counts)@[j]).coord.is_valid(),
{
    let len = counts.len();
    let mut i: usize = 0;
    while i < len
        invariant
            0 <= i <= len,
            len == counts@.len(),
            coord.is_valid(),
            forall|j: int| 0 <= j < counts@.len() ==> (#[trigger] counts@[j]).coord.is_valid(),
        decreases len - i,
    {
        if counts[i].coord == coord {
            let odd = counts[i].odd;
            counts[i] = EndpointParity { coord, odd: !odd };
            return ;
        }
        i += 1;
    }
    counts.push(EndpointParity { coord, odd: true });
}

/// Build the topology graph of one input geometry, appending its edges
/// to the shared arena: the appended edges carry exactly the
/// geometry's line strings and rings, so every segment of the geometry
/// is a segment of some graph edge.
fn build_geometry_graph(geom_index: usize, geometry: &Geometry, edges: &mut Vec<Edge>) -> (g:
    GeometryGraph)
    requires
        geom_index < 2,
        valid_geometry(*geometry),
    ensures
        edges_extended(old(edges)@, final(edges)@),
        graph_wf(g, final(edges)@),
        g.geom_index == geom_index,
        g.is_polygonal == (crate::geometry::spec_dimension(*geometry)
            == Dimensions::TwoDimensional),
        forall|j: int| 0 <= j < g.edge_ids@.len() ==> old(edges)@.len() <= #[trigger] g.edge_ids@[j],
        forall|l: Line|
            #[trigger] crate::geometry::spec_geometry_has_segment(*geometry, l) ==> exists|
                j: int,
                t: int,
            |
                0 <= j < g.edge_ids@.len() && 0 <= t < final(edges)@[g.edge_ids@[j] as int].coords@.len()
                    - 1 && l == #[trigger] spec_segment(final(edges)@, g.edge_ids@[j] as int, t),
{
    let mut edge_ids: Vec<usize> = Vec::new();
    let mut point_coords: Vec<Coord> = Vec::new();
    let mut endpoint_parities: Vec<EndpointParity> = Vec::new();
    let is_polygonal = matches!(geometry.dimension(), Dimensions::TwoDimensional);

    match geometry {
        Geometry::Point(c) => {
            point_coords.push(*c);
        },
        Geometry::MultiPoint(cs) => {
            let len = cs.len();
            let mut i: usize = 0;
            while i < len
                invariant
                    0 <= i <= len,
                    len == cs@.len(),
                    *geometry == Geometry::MultiPoint(*cs),
                    valid_geometry(*geometry),
                    forall|j: int|
                        0 <= j < point_coords@.len() ==> (#[trigger] point_coords@[j]).is_valid(),
                decreases len - i,
            {
                point_coords.push(cs[i]);
                i += 1;
            }
        },
        Geometry::LineString(cs) => {
            let id = add_line_edge(edges, geom_index, cs);
            edge_ids.push(id);
            record_line_endpoints(&mut endpoint_parities, cs);
            proof {
                assert forall|l: Line|
                    #[trigger] crate::geometry::spec_geometry_has_segment(*geometry, l) implies
                    exists|j: int, t: int|
                        0 <= j < edge_ids@.len() && 0 <= t
                            < edges@[edge_ids@[j] as int].coords@.len() - 1 && l
                            == #[trigger] spec_segment(edges@, edge_ids@[j] as int, t) by {
                    let sx = choose|sx: int|
                        0 <= sx < cs@.len() - 1 && l == crate::geometry::spec_ring_segment(cs@, sx);
                    assert(edge_ids@[0] == id);
                    assert(edges@[id as int].coords@ == cs@);
                    assert(l == spec_segment(edges@, edge_ids@[0] as int, sx));
                }
            }
        },
        Geometry::MultiLineString(ls) => {
            let len = ls.len();
            let mut i: usize = 0;
            while i < len
                invariant
                    0 <= i <= len,
                    len == ls@.len(),
                    geom_index < 2,
                    *geometry == Geometry::MultiLineString(*ls),
                    valid_geometry(*geometry),
                    edges_extended(old(edges)@, edges@),
                    ids_wf(edge_ids@, edges@),
                    forall|j: int|
                        0 <= j < edge_ids@.len() ==> (#[trigger] edges@[edge_ids@[j] as int].label).is_dimensionally_consistent(),
                    forall|j: int|
                        0 <= j < edge_ids@.len() ==> old(edges)@.len() <= #[trigger] edge_ids@[j],
                    forall|p: int|
                        0 <= p < i ==> exists|j: int|
                            0 <= j < edge_ids@.len() && edges@[(
                            #[trigger] edge_ids@[j]) as int].coords@ == (#[trigger] ls@[p])@,
                    forall|j: int|
                        0 <= j < endpoint_parities@.len() ==> (
                        #[trigger] endpoint_parities@[j]).coord.is_valid(),
                decreases len - i,
            {
                let ghost edges_before = edges@;
                let ghost ids_before = edge_ids@;
                let id = add_line_edge(edges, geom_index, &ls[i]);
                edge_ids.push(id);
                record_line_endpoints(&mut endpoint_parities, &ls[i]);
                proof {
                    assert forall|p: int| 0 <= p < i + 1 implies exists|j: int|
                        0 <= j < edge_ids@.len() && edges@[(
                        #[trigger] edge_ids@[j]) as int].coords@ == (#[trigger] ls@[p])@ by {
                        if p < i {
                            let jp = choose|j: int|
                                0 <= j < ids_before.len() && edges_before[(
                                #[trigger] ids_before[j]) as int].coords@ == ls@[p]@;
                            assert(edge_ids@[jp] == ids_before[jp]);
                            assert(edges@[(edge_ids@[jp]) as int].coords@ == ls@[p]@);
                        } else {
                            let jn = edge_ids@.len() - 1;
                            assert(edge_ids@[jn] == id);
                            assert(edges@[id as int].coords@ == ls@[p]@);
                        }
                    }
                }
                i += 1;
            }
            proof {
                assert forall|l: Line|
                    #[trigger] crate::geometry::spec_geometry_has_segment(*geometry, l) implies
                    exists|j: int, t: int|
                        0 <= j < edge_ids@.len() && 0 <= t
                            < edges@[edge_ids@[j] as int].coords@.len() - 1 && l
                            == #[trigger] spec_segment(edges@, edge_ids@[j] as int, t) by {
                    let (px, sx) = choose|px: int, sx: int|
                        0 <= px < ls@.len() && 0 <= sx < ls@[px]@.len() - 1 && l
                            == crate::geometry::spec_ring_segment(ls@[px]@, sx);
                    let jp = choose|j: int|
                        0 <= j < edge_ids@.len() && edges@[(#[trigger] edge_ids@[j]) as int].coords@
                            == ls@[px]@;
                    assert(l == spec_segment(edges@, edge_ids@[jp] as int, sx));
                }
            }
        },
        Geometry::Polygon(p) => {
            add_polygon_edges(edges, geom_index, p, &mut edge_ids);
            proof {
                assert forall|l: Line|
                    #[trigger] crate::geometry::spec_geometry_has_segment(*geometry, l) implies
                    exists|j: int, t: int|
                        0 <= j < edge_ids@.len() && 0 <= t
                            < edges@[edge_ids@[j] as int].coords@.len() - 1 && l
                            == #[trigger] spec_segment(edges@, edge_ids@[j] as int, t) by {
                    if exists|sx: int|
                        0 <= sx < p.exterior@.len() - 1 && l
                            == #[trigger] crate::geometry::spec_ring_segment(p.exterior@, sx) {
                        let sx = choose|sx: int|
                            0 <= sx < p.exterior@.len() - 1 && l
                                == #[trigger] crate::geometry::spec_ring_segment(p.exterior@, sx);
                        let je = choose|j: int|
                            0 <= j < edge_ids@.len() && edges@[(
                            #[trigger] edge_ids@[j]) as int].coords@ == p.exterior@;
                        assert(l == spec_segment(edges@, edge_ids@[je] as int, sx));
                    } else {
                        let (hx, sx) = choose|hx: int, sx: int|
                            0 <= hx < p.interiors@.len() && 0 <= sx < p.interiors@[hx]@.len() - 1
                                && l == #[trigger] crate::geometry::spec_ring_segment(
                                p.interiors@[hx]@,
                                sx,
                            );
                        let jh = choose|j: int|
                            0 <= j < edge_ids@.len() && edges@[(
                            #[trigger] edge_ids@[j]) as int].coords@ == p.interiors@[hx]@;
                        assert(l == spec_segment(edges@, edge_ids@[jh] as int, sx));
                    }
                }
            }
        },
        Geometry::MultiPolygon(ps) => {
            let len = ps.len();
            let mut i: usize = 0;
            while i < len
                invariant
                    0 <= i <= len,
                    len == ps@.len(),
                    geom_index < 2,
                    *geometry == Geometry::MultiPolygon(*ps),
                    valid_geometry(*geometry),
                    edges_extended(old(edges)@, edges@),
                    ids_wf(edge_ids@, edges@),
                    forall|j: int|
                        0 <= j < edge_ids@.len() ==> (#[trigger] edges@[edge_ids@[j] as int].label).is_dimensionally_consistent(),
                    forall|j: int|
                        0 <= j < edge_ids@.len() ==> old(edges)@.len() <= #[trigger] edge_ids@[j],
                    forall|p: int|
                        0 <= p < i ==> exists|j: int|
                            0 <= j < edge_ids@.len() && edges@[(
                            #[trigger] edge_ids@[j]) as int].coords@ == (
                            #[trigger] ps@[p]).exterior@,
                    forall|p: int, h: int|
                        0 <= p < i && 0 <= h < ps@[p].interiors@.len() ==> exists|j: int|
                            0 <= j < edge_ids@.len() && edges@[(
                            #[trigger] edge_ids@[j]) as int].coords@ == (
                            #[trigger] ps@[p].interiors@[h])@,
                decreases len - i,
            {
                let ghost edges_before = edges@;
                let ghost ids_before = edge_ids@;
                add_polygon_edges(edges, geom_index, &ps[i], &mut edge_ids);
                proof {
                    assert forall|p: int| 0 <= p < i + 1 implies exists|j: int|
                        0 <= j < edge_ids@.len() && edges@[(
                        #[trigger] edge_ids@[j]) as int].coords@ == (
                        #[trigger] ps@[p]).exterior@ by {
                        if p < i {
                            let jp = choose|j: int|
                                0 <= j < ids_before.len() && edges_before[(
                                #[trigger] ids_before[j]) as int].coords@ == ps@[p].exterior@;
                            assert(edge_ids@[jp] == ids_before[jp]);
                            assert(edges@[(edge_ids@[jp]) as int].coords@ == ps@[p].exterior@);
                        } else {
                            let jn = choose|j: int|
                                ids_before.len() <= j < edge_ids@.len() && edges@[(
                                #[trigger] edge_ids@[j]) as int].coords@ == ps@[p].exterior@;
                            assert(edges@[(edge_ids@[jn]) as int].coords@ == ps@[p].exterior@);
                        }
                    }
                    assert forall|p: int, h: int|
                        0 <= p < i + 1 && 0 <= h < ps@[p].interiors@.len() implies exists|j: int|
                        0 <= j < edge_ids@.len() && edges@[(
                        #[trigger] edge_ids@[j]) as int].coords@ == (
                        #[trigger] ps@[p].interiors@[h])@ by {
                        if p < i {
                            let jp = choose|j: int|
                                0 <= j < ids_before.len() && edges_before[(
                                #[trigger] ids_before[j]) as int].coords@ == ps@[p].interiors@[h]@;
                            assert(edge_ids@[jp] == ids_before[jp]);
                            assert(edges@[(edge_ids@[jp]) as int].coords@
                                == ps@[p].interiors@[h]@);
                        } else {
                            let jn = choose|j: int|
                                ids_before.len() <= j < edge_ids@.len() && edges@[(
                                #[trigger] edge_ids@[j]) as int].coords@ == ps@[p].interiors@[h]@;
                            assert(edges@[(edge_ids@[jn]) as int].coords@
                                == ps@[p].interiors@[h]@);
                        }
                    }
                }
                i += 1;
            }
            proof {
                assert forall|l: Line|
                    #[trigger] crate::geometry::spec_geometry_has_segment(*geometry, l) implies
                    exists|j: int, t: int|
                        0 <= j < edge_ids@.len() && 0 <= t
                            < edges@[edge_ids@[j] as int].coords@.len() - 1 && l
                            == #[trigger] spec_segment(edges@, edge_ids@[j] as int, t) by {
                    let px = choose|px: int|
                        0 <= px < ps@.len() && crate::geometry::spec_polygon_has_segment(
                            #[trigger] ps@[px],
                            l,
                        );
                    if exists|sx: int|
                        0 <= sx < ps@[px].exterior@.len() - 1 && l
                            == #[trigger] crate::geometry::spec_ring_segment(
                            ps@[px].exterior@,
                            sx,
                        ) {
                        let sx = choose|sx: int|
                            0 <= sx < ps@[px].exterior@.len() - 1 && l
                                == #[trigger] crate::geometry::spec_ring_segment(
                                ps@[px].exterior@,
                                sx,
                            );
                        let je = choose|j: int|
                            0 <= j < edge_ids@.len() && edges@[(
                            #[trigger] edge_ids@[j]) as int].coords@ == ps@[px].exterior@;
                        assert(l == spec_segment(edges@, edge_ids@[je] as int, sx));
                    } else {
                        let (hx, sx) = choose|hx: int, sx: int|
                            0 <= hx < ps@[px].interiors@.len() && 0 <= sx
                                < ps@[px].interiors@[hx]@.len() - 1 && l
                                == #[trigger] crate::geometry::spec_ring_segment(
                                ps@[px].interiors@[hx]@,
                                sx,
                            );
                        let jh = choose|j: int|
                            0 <= j < edge_ids@.len() && edges@[(
                            #[trigger] edge_ids@[j]) as int].coords@ == ps@[px].interiors@[hx]@;
                        assert(l == spec_segment(edges@, edge_ids@[jh] as int, sx));
                    }
                }
            }
        },
    }

    // Endpoints met by an odd number of line ends are boundary nodes.
    let mut boundary_nodes: Vec<CoordNode> = Vec::new();
    let parity_count = endpoint_parities.len();
    let mut k: usize = 0;
    while k < parity_count
        invariant
            0 <= k <= parity_count,
            parity_count == endpoint_parities@.len(),
            geom_index < 2,
            forall|j: int|
                0 <= j < endpoint_parities@.len() ==> (
                #[trigger] endpoint_parities@[j]).coord.is_valid(),
            forall|j: int|
                0 <= j < boundary_nodes@.len() ==> (
                #[trigger] boundary_nodes@[j]).coordinate.is_valid(),
        decreases parity_count - k,
    {
        if endpoint_parities[k].odd {
            let label = Label::new(
                geom_index,
                TopologyPosition::line_or_point(CoordPos::OnBoundary),
            );
            boundary_nodes.push(CoordNode::new(endpoint_parities[k].coord, label));
        }
        k += 1;
    }

    GeometryGraph { geom_index, edge_ids, point_coords, boundary_nodes, is_polygonal }
}

/// Append all ring edges of one polygon. Every ring of the polygon ends
/// up as the coordinates of one of the appended edges.
fn add_polygon_edges(
    edges: &mut Vec<Edge>,
    geom_index: usize,
    polygon: &PolygonGeom,
    edge_ids: &mut Vec<usize>,
)
    requires
        geom_index < 2,
        crate::geometry::valid_polygon(*polygon),
        ids_wf(old(edge_ids)@, old(edges)@),
        forall|j: int|
            0 <= j < old(edge_ids)@.len() ==> (#[trigger] old(edges)@[old(edge_ids)@[j] as int].label).is_dimensionally_consistent(),
    ensures
        edges_extended(old(edges)@, final(edges)@),
        ids_wf(final(edge_ids)@, final(edges)@),
        forall|j: int|
            0 <= j < final(edge_ids)@.len() ==> (#[trigger] final(edges)@[final(edge_ids)@[j] as int].label).is_dimensionally_consistent(),
        final(edge_ids)@.len() >= old(edge_ids)@.len(),
        forall|j: int| 0 <= j < old(edge_ids)@.len() ==> #[trigger] final(edge_ids)@[j] == old(edge_ids)@[j],
        forall|j: int|
            old(edge_ids)@.len() <= j < final(edge_ids)@.len() ==> old(edges)@.len()
                <= #[trigger] final(edge_ids)@[j],
        exists|j: int|
            old(edge_ids)@.len() <= j < final(edge_ids)@.len() && final(edges)@[(
            #[trigger] final(edge_ids)@[j]) as int].coords@ == polygon.exterior@,
        forall|h: int|
            0 <= h < polygon.interiors@.len() ==> exists|j: int|
                old(edge_ids)@.len() <= j < final(edge_ids)@.len() && final(edges)@[(
                #[trigger] final(edge_ids)@[j]) as int].coords@ == (
                #[trigger] polygon.interiors@[h])@,
{
    let id = add_ring_edge(edges, geom_index, &polygon.exterior, false);
    edge_ids.push(id);
    proof {
        assert(edge_ids@[old(edge_ids)@.len() as int] == id);
        assert(edges@[id as int].coords@ == polygon.exterior@);
    }
    let count = polygon.interiors.len();
    let mut i: usize = 0;
    while i < count
        invariant
            0 <= i <= count,
            count == polygon.interiors@.len(),
            geom_index < 2,
            crate::geometry::valid_polygon(*polygon),
            edges_extended(old(edges)@, edges@),
            ids_wf(edge_ids@, edges@),
            forall|j: int|
                0 <= j < edge_ids@.len() ==> (#[trigger] edges@[edge_ids@[j] as int].label).is_dimensionally_consistent(),
            edge_ids@.len() >= old(edge_ids)@.len(),
            forall|j: int| 0 <= j < old(edge_ids)@.len() ==> #[trigger] edge_ids@[j] == old(edge_ids)@[j],
            forall|j: int|
                old(edge_ids)@.len() <= j < edge_ids@.len() ==> old(edges)@.len()
                    <= #[trigger] edge_ids@[j],
            exists|j: int|
                old(edge_ids)@.len() <= j < edge_ids@.len() && edges@[(
                #[trigger] edge_ids@[j]) as int].coords@ == polygon.exterior@,
            forall|h: int|
                0 <= h < i ==> exists|j: int|
                    old(edge_ids)@.len() <= j < edge_ids@.len() && edges@[(
                    #[trigger] edge_ids@[j]) as int].coords@ == (#[trigger] polygon.interiors@[h])@,
        decreases count - i,
    {
        let ghost edges_before = edges@;
        let ghost ids_before = edge_ids@;
        let id = add_ring_edge(edges, geom_index, &polygon.interiors[i], true);
        edge_ids.push(id);
        proof {
            let je = choose|j: int|
                old(edge_ids)@.len() <= j < ids_before.len() && edges_before[(
                #[trigger] ids_before[j]) as int].coords@ == polygon.exterior@;
            assert(edge_ids@[je] == ids_before[je]);
            assert(edges@[(edge_ids@[je]) as int].coords@ == polygon.exterior@);
            assert forall|h: int| 0 <= h < i + 1 implies exists|j: int|
                old(edge_ids)@.len() <= j < edge_ids@.len() && edges@[(
                #[trigger] edge_ids@[j]) as int].coords@ == (#[trigger] polygon.interiors@[h])@ by {
                if h < i {
                    let jh = choose|j: int|
                        old(edge_ids)@.len() <= j < ids_before.len() && edges_before[(
                        #[trigger] ids_before[j]) as int].coords@ == polygon.interiors@[h]@;
                    assert(edge_ids@[jh] == ids_before[jh]);
                    assert(edges@[(edge_ids@[jh]) as int].coords@ == polygon.interiors@[h]@);
                } else {
                    let jn = edge_ids@.len() - 1;
                    assert(edge_ids@[jn] == id);
                    assert(edges@[(edge_ids@[jn]) as int].coords@ == polygon.interiors@[h]@);
                }
            }
        }
        i += 1;
    }
}

/// Insert the endpoint intersections of every listed edge, so each edge
/// contributes stubs at its own ends.
fn add_endpoint_intersections(edges: &mut Vec<Edge>, edge_ids: &Vec<usize>)
    requires
        ids_wf(edge_ids@, old(edges)@),
    ensures
        final(edges)@.len() == old(edges)@.len(),
        forall|k: int|
            0 <= k < old(edges)@.len() ==> (#[trigger] final(edges)@[k]).coords == old(edges)@[k].coords && final(edges)@[k].label == old(edges)@[k].label && final(edges)@[k].wf()
                == old(edges)@[k].wf(),
{
    let count = edge_ids.len();
    let mut i: usize = 0;
    while i < count
        invariant
            0 <= i <= count,
            count == edge_ids@.len(),
            ids_wf(edge_ids@, edges@),
            edges@.len() == old(edges)@.len(),
            forall|k: int|
                0 <= k < old(edges)@.len() ==> (#[trigger] edges@[k]).coords == old(edges)@[k].coords && edges@[k].label == old(edges)@[k].label && edges@[k].wf() == old(edges)@[k].wf(),
        decreases count - i,
    {
        let id = edge_ids[i];
        edges[id].add_edge_intersection_list_endpoints();
        i += 1;
    }
}

/// A node of the relate graph while the matrix is assembled: its
/// coordinate, its point label, and the edge ends that start at it.
pub struct RelateNode {
    pub coordinate: Coord,
    pub label: Label,
    pub ends: Vec<EdgeEnd>,
}

pub open spec fn node_wf(node: RelateNode) -> bool {
    &&& node.coordinate.is_valid()
    &&& forall|j: int|
        0 <= j < node.ends@.len() ==> (#[trigger] node.ends@[j]).key.wf()
            && node.ends@[j].key.coord_0 == node.coordinate
            && node.ends@[j].label.is_dimensionally_consistent()
}

pub open spec fn nodes_wf(nodes: Seq<RelateNode>) -> bool {
    forall|i: int| 0 <= i < nodes.len() ==> node_wf(#[trigger] nodes[i])
}

/// The index of the node at `coord`, creating an unlabelled node there
/// if none exists yet.
fn node_index_for(nodes: &mut Vec<RelateNode>, coord: Coord) -> (idx: usize)
    requires
        coord.is_valid(),
        nodes_wf(old(nodes)@),
    ensures
        nodes_wf(final(nodes)@),
        idx < final(nodes)@.len(),
        final(nodes)@[idx as int].coordinate == coord,
        final(nodes)@.len() >= old(nodes)@.len(),
{
    let len = nodes.len();
    let mut i: usize = 0;
    while i < len
        invariant
            0 <= i <= len,
            len == nodes@.len(),
            nodes_wf(nodes@),
        decreases len - i,
    {
        if nodes[i].coordinate == coord {
            return i;
        }
        i += 1;
    }
    nodes.push(RelateNode { coordinate: coord, label: Label::empty_line_or_point(), ends: Vec::new() });
    len
}

/// Set the node's `On` position for one geometry, if it is still
/// unknown.
fn set_node_on_if_unknown(nodes: &mut Vec<RelateNode>, idx: usize, geom_index: usize, pos: CoordPos)
    requires
        idx < old(nodes)@.len(),
        geom_index < 2,
        nodes_wf(old(nodes)@),
    ensures
        nodes_wf(final(nodes)@),
        final(nodes)@.len() == old(nodes)@.len(),
        forall|k: int|
            0 <= k < old(nodes)@.len() && k != idx as int ==> #[trigger] final(nodes)@[k] == old(nodes)@[k],
        final(nodes)@[idx as int].coordinate == old(nodes)@[idx as int].coordinate,
        final(nodes)@[idx as int].ends == old(nodes)@[idx as int].ends,
{
    let known = nodes[idx].label.on_position(geom_index).is_some();
    if !known {
        let mut label = nodes[idx].label;
        label.set_on_position(geom_index, pos);
        nodes[idx].label = label;
    }
}

/// Add one edge end to the node it starts at.
fn insert_node_end(nodes: &mut Vec<RelateNode>, idx: usize, end: EdgeEnd)
    requires
        idx < old(nodes)@.len(),
        nodes_wf(old(nodes)@),
        end.key.wf(),
        end.key.coord_0 == old(nodes)@[idx as int].coordinate,
        end.label.is_dimensionally_consistent(),
    ensures
        nodes_wf(final(nodes)@),
        final(nodes)@.len() == old(nodes)@.len(),
{
    let mut taken = RelateNode {
        coordinate: end.key.coord_0,
        label: Label::empty_line_or_point(),
        ends: Vec::new(),
    };
    core::mem::swap(&mut taken, &mut nodes[idx]);
    taken.ends.push(end);
    core::mem::swap(&mut taken, &mut nodes[idx]);
    proof {
        assert(node_wf(nodes@[idx as int]));
    }
}

/// Build all relate nodes: seed them from point components, boundary
/// nodes and recorded intersections, then attach the stubs of every
/// split edge.
fn build_nodes(edges: &Vec<Edge>, g0: &GeometryGraph, g1: &GeometryGraph) -> (nodes: Vec<
    RelateNode,
>)
    requires
        graph_wf(*g0, edges@),
        graph_wf(*g1, edges@),
    ensures
        nodes_wf(nodes@),
{
    let mut nodes: Vec<RelateNode> = Vec::new();
    seed_nodes_for_graph(&mut nodes, g0);
    seed_nodes_for_graph(&mut nodes, g1);
    seed_intersection_nodes(&mut nodes, edges, g0);
    seed_intersection_nodes(&mut nodes, edges, g1);
    attach_edge_ends(&mut nodes, edges, g0);
    attach_edge_ends(&mut nodes, edges, g1);
    nodes
}

/// Seed nodes at a geometry's point components (interior) and boundary
/// nodes (boundary).
fn seed_nodes_for_graph(nodes: &mut Vec<RelateNode>, g: &GeometryGraph)
    requires
        nodes_wf(old(nodes)@),
        g.geom_index < 2,
        forall|j: int| 0 <= j < g.point_coords@.len() ==> (#[trigger] g.point_coords@[j]).is_valid(),
        forall|j: int|
            0 <= j < g.boundary_nodes@.len() ==> (#[trigger] g.boundary_nodes@[j]).coordinate.is_valid(),
    ensures
        nodes_wf(final(nodes)@),
{
    let point_count = g.point_coords.len();
    let mut i: usize = 0;
    while i < point_count
        invariant
            0 <= i <= point_count,
            point_count == g.point_coords@.len(),
            g.geom_index < 2,
            nodes_wf(nodes@),
            forall|j: int|
                0 <= j < g.point_coords@.len() ==> (#[trigger] g.point_coords@[j]).is_valid(),
        decreases point_count - i,
    {
        let idx = node_index_for(nodes, g.point_coords[i]);
        set_node_on_if_unknown(nodes, idx, g.geom_index, CoordPos::Inside);
        i += 1;
    }
    let boundary_count = g.boundary_nodes.len();
    let mut k: usize = 0;
    while k < boundary_count
        invariant
            0 <= k <= boundary_count,
            boundary_count == g.boundary_nodes@.len(),
            g.geom_index < 2,
            nodes_wf(nodes@),
            forall|j: int|
                0 <= j < g.boundary_nodes@.len() ==> (
                #[trigger] g.boundary_nodes@[j]).coordinate.is_valid(),
        decreases boundary_count - k,
    {
        let idx = node_index_for(nodes, g.boundary_nodes[k].coordinate);
        set_node_on_if_unknown(nodes, idx, g.geom_index, CoordPos::OnBoundary);
        k += 1;
    }
}

/// Seed a node at every intersection recorded on a geometry's edges,
/// carrying the edge's own `On` position — boundary for ring edges,
/// interior for line edges — where the node is not already labelled.
fn seed_intersection_nodes(nodes: &mut Vec<RelateNode>, edges: &Vec<Edge>, g: &GeometryGraph)
    requires
        nodes_wf(old(nodes)@),
        graph_wf(*g, edges@),
    ensures
        nodes_wf(final(nodes)@),
{
    let id_count = g.edge_ids.len();
    let mut i: usize = 0;
    while i < id_count
        invariant
            0 <= i <= id_count,
            id_count == g.edge_ids@.len(),
            nodes_wf(nodes@),
            graph_wf(*g, edges@),
        decreases id_count - i,
    {
        let id = g.edge_ids[i];
        let edge = &edges[id];
        let on = edge.label().on_position(g.geom_index);
        let pos = match on {
            Option::Some(CoordPos::OnBoundary) => CoordPos::OnBoundary,
            _ => CoordPos::Inside,
        };
        let intersection_count = edge.edge_intersections().len();
        let mut k: usize = 0;
        while k < intersection_count
            invariant
                0 <= k <= intersection_count,
                id < edges@.len(),
                edges@[id as int].wf(),
                intersection_count == edges@[id as int].edge_intersections@.len(),
                g.geom_index < 2,
                nodes_wf(nodes@),
            decreases intersection_count - k,
        {
            let coord = edges[id].edge_intersections()[k].coord;
            let idx = node_index_for(nodes, coord);
            set_node_on_if_unknown(nodes, idx, g.geom_index, pos);
            k += 1;
        }
        i += 1;
    }
}

/// Attach to each node the directed stubs of the split edges that start
/// there: for every recorded intersection of every edge, one stub toward
/// the previous point of the edge (with a flipped label) and one toward
/// the next.
fn attach_edge_ends(nodes: &mut Vec<RelateNode>, edges: &Vec<Edge>, g: &GeometryGraph)
    requires
        nodes_wf(old(nodes)@),
        graph_wf(*g, edges@),
    ensures
        nodes_wf(final(nodes)@),
{
    let id_count = g.edge_ids.len();
    let mut i: usize = 0;
    while i < id_count
        invariant
            0 <= i <= id_count,
            id_count == g.edge_ids@.len(),
            nodes_wf(nodes@),
            graph_wf(*g, edges@),
        decreases id_count - i,
    {
        let id = g.edge_ids[i];
        let intersection_count = edges[id].edge_intersections().len();
        let mut k: usize = 0;
        while k < intersection_count
            invariant
                0 <= k <= intersection_count,
                id < edges@.len(),
                edges@[id as int].wf(),
                edges@[id as int].label.is_dimensionally_consistent(),
                intersection_count == edges@[id as int].edge_intersections@.len(),
                nodes_wf(nodes@),
            decreases intersection_count - k,
        {
            let edge = &edges[id];
            let ei_curr = edge.edge_intersections()[k];
            let coord_count = edge.coords().len();

            // The stub back toward the edge's previous point carries the
            // label flipped, because it walks the edge in reverse.
            let prev_target: Option<Coord> = {
                let mut i_prev = ei_curr.segment_index;
                if ei_curr.distance == 0 && i_prev == 0 {
                    Option::None
                } else {
                    if ei_curr.distance == 0 {
                        i_prev = i_prev - 1;
                    }
                    let mut p_prev = edge.coords()[i_prev];
                    if k > 0 {
                        let ei_prev = edge.edge_intersections()[k - 1];
                        if ei_prev.segment_index >= i_prev {
                            p_prev = ei_prev.coord;
                        }
                    }
                    Option::Some(p_prev)
                }
            };
            if let Option::Some(p_prev) = prev_target {
                if p_prev != ei_curr.coord {
                    let ghost unflipped = edges@[id as int].label;
                    let mut label = *edge.label();
                    label.flip();
                    proof {
                        assert(label.spec_topo(0).spec_is_area() == unflipped.spec_topo(
                            0,
                        ).spec_is_area());
                        assert(label.spec_topo(1).spec_is_area() == unflipped.spec_topo(
                            1,
                        ).spec_is_area());
                        assert(label.is_dimensionally_consistent());
                    }
                    let end = EdgeEnd::new(ei_curr.coord, p_prev, label);
                    let idx = node_index_for(nodes, ei_curr.coord);
                    insert_node_end(nodes, idx, end);
                }
            }
            // The stub toward the edge's next point keeps the label.
            let next_target: Option<Coord> = {
                let i_next = ei_curr.segment_index + 1;
                let mut p_next: Option<Coord> = Option::None;
                if i_next < coord_count {
                    p_next = Option::Some(edge.coords()[i_next]);
                }
                if k + 1 < intersection_count {
                    let ei_next = edge.edge_intersections()[k + 1];
                    if ei_next.segment_index == ei_curr.segment_index {
                        p_next = Option::Some(ei_next.coord);
                    } else if p_next.is_none() {
                        p_next = Option::Some(ei_next.coord);
                    }
                }
                p_next
            };
            if let Option::Some(p_next) = next_target {
                if p_next != ei_curr.coord {
                    let end = EdgeEnd::new(ei_curr.coord, p_next, *edge.label());
                    let idx = node_index_for(nodes, ei_curr.coord);
                    insert_node_end(nodes, idx, end);
                }
            }
            k += 1;
        }
        i += 1;
    }
}

/// Group a node's angularly sorted stubs into bundles of equal
/// direction, each with its synthesized label.
fn bundle_node_ends(node_coordinate: Coord, sorted: &Vec<EdgeEnd>) -> (bundles: Vec<
    LabeledEdgeEndBundle,
>)
    requires
        forall|j: int|
            0 <= j < sorted@.len() ==> (#[trigger] sorted@[j]).label.is_dimensionally_consistent(),
    ensures
        forall|j: int|
            0 <= j < bundles@.len() ==> (#[trigger] bundles@[j]).label.is_dimensionally_consistent(),
{
    let mut bundles: Vec<LabeledEdgeEndBundle> = Vec::new();
    let len = sorted.len();
    let mut start: usize = 0;
    while start < len
        invariant
            0 <= start <= len,
            len == sorted@.len(),
            forall|j: int|
                0 <= j < sorted@.len() ==> (
                #[trigger] sorted@[j]).label.is_dimensionally_consistent(),
            forall|j: int|
                0 <= j < bundles@.len() ==> (
                #[trigger] bundles@[j]).label.is_dimensionally_consistent(),
        decreases len - start,
    {
        let mut bundle = EdgeEndBundle::new(node_coordinate);
        let delta = sorted[start].key().delta;
        let mut stop = start;
        while stop < len
            invariant_except_break
                start <= stop <= len,
                start < len,
                len == sorted@.len(),
                forall|j: int|
                    0 <= j < sorted@.len() ==> (
                    #[trigger] sorted@[j]).label.is_dimensionally_consistent(),
                bundle_members_wf(bundle.edge_ends@),
                forall|j: int|
                    0 <= j < bundle.edge_ends@.len() ==> (#[trigger] bundle.edge_ends@[j])
                        == sorted@[start + j],
                bundle.edge_ends@.len() == stop - start,
            ensures
                start <= stop <= len,
                start < len,
                start < stop,
                bundle_members_wf(bundle.edge_ends@),
            decreases len - stop,
        {
            if sorted[stop].key().delta == delta || stop == start {
                bundle.insert(sorted[stop]);
                stop += 1;
            } else {
                break ;
            }
        }
        bundles.push(bundle.into_labeled());
        start = stop;
    }
    bundles
}

/// Complete the bundle labels around one node for one geometry, as far
/// as the node's own side information reaches: faces between consecutive
/// bundles share their topology, so a known side sweeps around the ring
/// filling unknown sides and unknown `On` positions of stubs lying in a
/// face. Bundles with no reachable information are located directly
/// against the geometry.
fn complete_node_labels(
    bundles: &mut Vec<LabeledEdgeEndBundle>,
    node_coordinate: Coord,
    geom_index: usize,
    geometry: &Geometry,
)
    requires
        geom_index < 2,
        node_coordinate.is_valid(),
        valid_geometry(*geometry),
        forall|j: int|
            0 <= j < old(bundles)@.len() ==> (#[trigger] old(bundles)@[j]).label.is_dimensionally_consistent(),
    ensures
        forall|j: int|
            0 <= j < final(bundles)@.len() ==> (#[trigger] final(bundles)@[j]).label.is_dimensionally_consistent(),
        final(bundles)@.len() == old(bundles)@.len(),
{
    let len = bundles.len();
    // Find a known side to start the sweep from.
    let mut start_pos: Option<CoordPos> = Option::None;
    let mut i: usize = 0;
    while i < len
        invariant
            0 <= i <= len,
            len == bundles@.len(),
            geom_index < 2,
            forall|j: int|
                0 <= j < bundles@.len() ==> (
                #[trigger] bundles@[j]).label.is_dimensionally_consistent(),
        decreases len - i,
    {
        let label = *bundles[i].label();
        if label.is_geom_area(geom_index) {
            if let Option::Some(p) = label.position(geom_index, Direction::Right) {
                start_pos = Option::Some(p);
                break ;
            }
        }
        i += 1;
    }
    if let Option::Some(start) = start_pos {
        let mut curr = start;
        let mut k: usize = 0;
        while k < len
            invariant
                0 <= k <= len,
                len == bundles@.len(),
                geom_index < 2,
                forall|j: int|
                    0 <= j < bundles@.len() ==> (
                    #[trigger] bundles@[j]).label.is_dimensionally_consistent(),
            decreases len - k,
        {
            let mut label = *bundles[k].label();
            if label.on_position(geom_index).is_none() {
                label.set_on_position(geom_index, curr);
            }
            if label.is_geom_area(geom_index) {
                let right = label.position(geom_index, Direction::Right);
                let left = label.position(geom_index, Direction::Left);
                match (right, left) {
                    (Option::Some(_), Option::Some(l)) => {
                        curr = l;
                    },
                    (Option::Some(_), Option::None) => {
                        label.set_position(geom_index, Direction::Left, curr);
                    },
                    (Option::None, _) => {
                        label.set_position(geom_index, Direction::Right, curr);
                        match left {
                            Option::Some(l) => {
                                curr = l;
                            },
                            Option::None => {
                                label.set_position(geom_index, Direction::Left, curr);
                            },
                        }
                    },
                }
            }
            bundles[k].set_label(label);
            k += 1;
        }
    }
    // Whatever is still unknown gets located directly: against an areal
    // geometry by point location of the node, against anything else it
    // lies in the exterior.
    let is_areal = matches!(geometry.dimension(), Dimensions::TwoDimensional);
    let mut k: usize = 0;
    while k < len
        invariant
            0 <= k <= len,
            len == bundles@.len(),
            geom_index < 2,
            node_coordinate.is_valid(),
            valid_geometry(*geometry),
            forall|j: int|
                0 <= j < bundles@.len() ==> (
                #[trigger] bundles@[j]).label.is_dimensionally_consistent(),
        decreases len - k,
    {
        let mut label = *bundles[k].label();
        if label.on_position(geom_index).is_none() {
            let pos = if is_areal {
                locate(node_coordinate, geometry)
            } else {
                CoordPos::Outside
            };
            label.set_on_position(geom_index, pos);
            bundles[k].set_label(label);
        }
        k += 1;
    }
}

/// Sort, bundle, label and apply every node's contribution to the
/// matrix: each labeled bundle contributes as an edge, and the node
/// itself contributes as a point.
fn update_im_from_nodes(
    nodes: &Vec<RelateNode>,
    geometry_a: &Geometry,
    geometry_b: &Geometry,
    im: &mut IntersectionMatrix,
)
    requires
        nodes_wf(nodes@),
        valid_geometry(*geometry_a),
        valid_geometry(*geometry_b),
    ensures
        crate::intersection_matrix::spec_cellwise_geq(*old(im), *final(im)),
{
    let node_count = nodes.len();
    let mut n: usize = 0;
    while n < node_count
        invariant
            0 <= n <= node_count,
            node_count == nodes@.len(),
            nodes_wf(nodes@),
            valid_geometry(*geometry_a),
            valid_geometry(*geometry_b),
            crate::intersection_matrix::spec_cellwise_geq(*old(im), *im),
        decreases node_count - n,
    {
        let node = &nodes[n];
        let sorted = sort_edge_ends(copy_vec(&node.ends));
        proof {
            assert forall|j: int| 0 <= j < sorted@.len() implies (
            #[trigger] sorted@[j]).label.is_dimensionally_consistent() by {
                assert(node.ends@.contains(sorted@[j]));
                let w = choose|w: int| 0 <= w < node.ends@.len() && node.ends@[w] == sorted@[j];
                assert(node_wf(nodes@[n as int]));
            }
        }
        let mut bundles = bundle_node_ends(node.coordinate, &sorted);
        complete_node_labels(&mut bundles, node.coordinate, 0, geometry_a);
        complete_node_labels(&mut bundles, node.coordinate, 1, geometry_b);

        let bundle_count = bundles.len();
        let mut b: usize = 0;
        while b < bundle_count
            invariant
                0 <= b <= bundle_count,
                bundle_count == bundles@.len(),
                forall|j: int|
                    0 <= j < bundles@.len() ==> (
                    #[trigger] bundles@[j]).label.is_dimensionally_consistent(),
                crate::intersection_matrix::spec_cellwise_geq(*old(im), *im),
            decreases bundle_count - b,
        {
            let ghost im_before = *im;
            bundles[b].update_intersection_matrix(im);
            proof {
                crate::edge::lemma_label_update_geq(bundles@[b as int].label, im_before);
                crate::intersection_matrix::lemma_cellwise_geq_trans(*old(im), im_before, *im);
            }
            b += 1;
        }

        // The node's own 0-dimensional contribution: a node the other
        // geometry never touched is located directly against it.
        let mut on_0 = node.label.on_position(0);
        let mut on_1 = node.label.on_position(1);
        if on_0.is_none() {
            on_0 = Option::Some(locate(node.coordinate, geometry_a));
        }
        if on_1.is_none() {
            on_1 = Option::Some(locate(node.coordinate, geometry_b));
        }
        let ghost im_before = *im;
        im.set_at_least_if_valid(on_0, on_1, Dimensions::ZeroDimensional);
        proof {
            crate::intersection_matrix::lemma_set_at_least_if_valid_geq(
                im_before,
                on_0,
                on_1,
                Dimensions::ZeroDimensional,
            );
            crate::intersection_matrix::lemma_cellwise_geq_trans(*old(im), im_before, *im);
        }
        n += 1;
    }
}

/// Label every still isolated edge of one geometry against the other
/// geometry — by locating one of its points when the other geometry has
/// an interior to be in, else as exterior — and apply its contribution.
fn update_im_from_isolated_edges(
    edges: &mut Vec<Edge>,
    edge_ids: &Vec<usize>,
    other_index: usize,
    other_geometry: &Geometry,
    im: &mut IntersectionMatrix,
)
    requires
        other_index < 2,
        valid_geometry(*other_geometry),
        ids_wf(edge_ids@, old(edges)@),
        forall|j: int|
            0 <= j < edge_ids@.len() ==> (#[trigger] old(edges)@[edge_ids@[j] as int].label).is_dimensionally_consistent(),
    ensures
        final(edges)@.len() == old(edges)@.len(),
        forall|k: int|
            0 <= k < old(edges)@.len() ==> (#[trigger] final(edges)@[k]).coords == old(edges)@[k].coords && final(edges)@[k].wf() == old(edges)@[k].wf() && (final(edges)@[k].label.is_dimensionally_consistent()
                <==> old(edges)@[k].label.is_dimensionally_consistent()),
        crate::intersection_matrix::spec_cellwise_geq(*old(im), *final(im)),
{
    let is_areal = matches!(other_geometry.dimension(), Dimensions::TwoDimensional);
    let count = edge_ids.len();
    let mut i: usize = 0;
    while i < count
        invariant
            0 <= i <= count,
            count == edge_ids@.len(),
            other_index < 2,
            valid_geometry(*other_geometry),
            ids_wf(edge_ids@, edges@),
            edges@.len() == old(edges)@.len(),
            forall|j: int|
                0 <= j < edge_ids@.len() ==> (#[trigger] edges@[edge_ids@[j] as int].label).is_dimensionally_consistent(),
            forall|k: int|
                0 <= k < old(edges)@.len() ==> (#[trigger] edges@[k]).coords == old(edges)@[k].coords && edges@[k].wf() == old(edges)@[k].wf() && (edges@[k].label.is_dimensionally_consistent()
                    <==> old(edges)@[k].label.is_dimensionally_consistent()),
            crate::intersection_matrix::spec_cellwise_geq(*old(im), *im),
        decreases count - i,
    {
        let id = edge_ids[i];
        if edges[id].is_isolated() {
            let first = edges[id].coords()[0];
            let pos = if is_areal {
                locate(first, other_geometry)
            } else {
                CoordPos::Outside
            };
            let mut label = *edges[id].label();
            label.set_all_positions(other_index, pos);
            edges[id].set_label(label);
            let ghost im_before = *im;
            Edge::update_intersection_matrix(&label, im);
            proof {
                assert(ids_wf(edge_ids@, edges@));
                crate::edge::lemma_label_update_geq(label, im_before);
                crate::intersection_matrix::lemma_cellwise_geq_trans(*old(im), im_before, *im);
            }
        }
        i += 1;
    }
}

/// Whether some segment of one geometry crosses some segment of the
/// other properly — through both their interiors.
pub open spec fn spec_segments_properly_crossing(a: Geometry, b: Geometry) -> bool {
    exists|la: Line, lb: Line|
        #![trigger spec_geometry_has_segment(a, la), spec_geometry_has_segment(b, lb)]
        spec_geometry_has_segment(a, la) && spec_geometry_has_segment(b, lb)
            && spec_properly_cross(la, lb)
}

/// What a proper intersection between the geometries contributes to the
/// matrix, by their dimensions: between two areas it stands for a full
/// interior overlap; between a line and an area, or two lines, for the
/// interior crossing.
pub open spec fn spec_proper_intersection_update(
    has_proper: bool,
    has_proper_interior: bool,
    dim_a: Dimensions,
    dim_b: Dimensions,
    m: IntersectionMatrix,
) -> IntersectionMatrix {
    if dim_a == Dimensions::TwoDimensional && dim_b == Dimensions::TwoDimensional {
        if has_proper {
            m.spec_set_at_least(CoordPos::Inside, CoordPos::Inside, Dimensions::TwoDimensional)
                .spec_set_at_least(CoordPos::Inside, CoordPos::OnBoundary, Dimensions::OneDimensional)
                .spec_set_at_least(CoordPos::Inside, CoordPos::Outside, Dimensions::TwoDimensional)
                .spec_set_at_least(CoordPos::OnBoundary, CoordPos::Inside, Dimensions::OneDimensional)
                .spec_set_at_least(CoordPos::OnBoundary, CoordPos::OnBoundary, Dimensions::ZeroDimensional)
                .spec_set_at_least(CoordPos::OnBoundary, CoordPos::Outside, Dimensions::OneDimensional)
                .spec_set_at_least(CoordPos::Outside, CoordPos::Inside, Dimensions::TwoDimensional)
                .spec_set_at_least(CoordPos::Outside, CoordPos::OnBoundary, Dimensions::OneDimensional)
                .spec_set_at_least(CoordPos::Outside, CoordPos::Outside, Dimensions::TwoDimensional)
        } else {
            m
        }
    } else if dim_a == Dimensions::TwoDimensional && dim_b == Dimensions::OneDimensional {
        let after_proper = if has_proper {
            m.spec_set_at_least(CoordPos::OnBoundary, CoordPos::Inside, Dimensions::ZeroDimensional)
        } else {
            m
        };
        if has_proper_interior {
            after_proper.spec_set_at_least(
                CoordPos::Inside,
                CoordPos::Inside,
                Dimensions::OneDimensional,
            ).spec_set_at_least(CoordPos::Outside, CoordPos::Inside, Dimensions::OneDimensional)
        } else {
            after_proper
        }
    } else if dim_a == Dimensions::OneDimensional && dim_b == Dimensions::TwoDimensional {
        let after_proper = if has_proper {
            m.spec_set_at_least(CoordPos::Inside, CoordPos::OnBoundary, Dimensions::ZeroDimensional)
        } else {
            m
        };
        if has_proper_interior {
            after_proper.spec_set_at_least(
                CoordPos::Inside,
                CoordPos::Inside,
                Dimensions::OneDimensional,
            ).spec_set_at_least(CoordPos::Inside, CoordPos::Outside, Dimensions::OneDimensional)
        } else {
            after_proper
        }
    } else if dim_a == Dimensions::OneDimensional && dim_b == Dimensions::OneDimensional {
        if has_proper_interior {
            m.spec_set_at_least(CoordPos::Inside, CoordPos::Inside, Dimensions::ZeroDimensional)
        } else {
            m
        }
    } else {
        m
    }
}

/// Apply the contribution of a proper intersection found between the
/// geometries.
fn update_im_for_proper_intersection(
    si: &SegmentIntersector,
    dim_a: Dimensions,
    dim_b: Dimensions,
    im: &mut IntersectionMatrix,
)
    ensures
        *final(im) == spec_proper_intersection_update(
            si.proper_intersection_point is Some,
            si.has_proper_interior_intersection,
            dim_a,
            dim_b,
            *old(im),
        ),
{
    let has_proper = si.has_proper_intersection();
    let has_proper_interior = si.has_proper_interior_intersection();
    let a_is_area = matches!(dim_a, Dimensions::TwoDimensional);
    let b_is_area = matches!(dim_b, Dimensions::TwoDimensional);
    let a_is_line = matches!(dim_a, Dimensions::OneDimensional);
    let b_is_line = matches!(dim_b, Dimensions::OneDimensional);

    if a_is_area && b_is_area {
        if has_proper {
            // Two areas crossing properly overlap on every region pair.
            im.set_at_least(CoordPos::Inside, CoordPos::Inside, Dimensions::TwoDimensional);
            im.set_at_least(CoordPos::Inside, CoordPos::OnBoundary, Dimensions::OneDimensional);
            im.set_at_least(CoordPos::Inside, CoordPos::Outside, Dimensions::TwoDimensional);
            im.set_at_least(CoordPos::OnBoundary, CoordPos::Inside, Dimensions::OneDimensional);
            im.set_at_least(CoordPos::OnBoundary, CoordPos::OnBoundary, Dimensions::ZeroDimensional);
            im.set_at_least(CoordPos::OnBoundary, CoordPos::Outside, Dimensions::OneDimensional);
            im.set_at_least(CoordPos::Outside, CoordPos::Inside, Dimensions::TwoDimensional);
            im.set_at_least(CoordPos::Outside, CoordPos::OnBoundary, Dimensions::OneDimensional);
            im.set_at_least(CoordPos::Outside, CoordPos::Outside, Dimensions::TwoDimensional);
        }
    } else if a_is_area && b_is_line {
        if has_proper {
            im.set_at_least(CoordPos::OnBoundary, CoordPos::Inside, Dimensions::ZeroDimensional);
        }
        if has_proper_interior {
            im.set_at_least(CoordPos::Inside, CoordPos::Inside, Dimensions::OneDimensional);
            im.set_at_least(CoordPos::Outside, CoordPos::Inside, Dimensions::OneDimensional);
        }
    } else if a_is_line && b_is_area {
        if has_proper {
            im.set_at_least(CoordPos::Inside, CoordPos::OnBoundary, Dimensions::ZeroDimensional);
        }
        if has_proper_interior {
            im.set_at_least(CoordPos::Inside, CoordPos::Inside, Dimensions::OneDimensional);
            im.set_at_least(CoordPos::Inside, CoordPos::Outside, Dimensions::OneDimensional);
        }
    } else if a_is_line && b_is_line {
        if has_proper_interior {
            im.set_at_least(CoordPos::Inside, CoordPos::Inside, Dimensions::ZeroDimensional);
        }
    }
}

/// The cells a found proper intersection pins down, for the dimension
/// pairings that can produce one.
proof fn lemma_proper_update_cells(has_proper_interior: bool, m: IntersectionMatrix)
    ensures
        ({
            let r = spec_proper_intersection_update(
                true,
                has_proper_interior,
                Dimensions::TwoDimensional,
                Dimensions::TwoDimensional,
                m,
            );
            &&& r.ii == Dimensions::TwoDimensional
            &&& r.ie == Dimensions::TwoDimensional
            &&& r.ei == Dimensions::TwoDimensional
            &&& r.ee == Dimensions::TwoDimensional
            &&& r.ib != Dimensions::Empty
            &&& r.bi != Dimensions::Empty
            &&& r.bb != Dimensions::Empty
            &&& r.be != Dimensions::Empty
            &&& r.eb != Dimensions::Empty
        }),
        spec_proper_intersection_update(
            true,
            has_proper_interior,
            Dimensions::TwoDimensional,
            Dimensions::OneDimensional,
            m,
        ).bi != Dimensions::Empty,
        spec_proper_intersection_update(
            true,
            has_proper_interior,
            Dimensions::OneDimensional,
            Dimensions::TwoDimensional,
            m,
        ).ib != Dimensions::Empty,
{
}

/// Relate two geometries: the DE-9IM matrix describing how their
/// interiors, boundaries and exteriors intersect. Fails exactly on
/// invalid input; on success the exterior-exterior cell is always the
/// whole plane's dimension.
#[verifier::rlimit(100)]
pub fn relate(geometry_a: &Geometry, geometry_b: &Geometry) -> (r: Result<
    IntersectionMatrix,
    RelateError,
>)
    ensures
        r is Ok <==> valid_geometry(*geometry_a) && valid_geometry(*geometry_b),
        r matches Ok(m) ==> m.spec_get(CoordPos::Outside, CoordPos::Outside)
            == Dimensions::TwoDimensional,
        r matches Ok(m) ==> (crate::geometry::spec_dimension(*geometry_a)
            == Dimensions::TwoDimensional && crate::geometry::spec_dimension(*geometry_b)
            == Dimensions::TwoDimensional && spec_segments_properly_crossing(
            *geometry_a,
            *geometry_b,
        ) ==> {
            &&& m.ii == Dimensions::TwoDimensional
            &&& m.ie == Dimensions::TwoDimensional
            &&& m.ei == Dimensions::TwoDimensional
            &&& m.ib != Dimensions::Empty
            &&& m.bi != Dimensions::Empty
            &&& m.bb != Dimensions::Empty
            &&& m.be != Dimensions::Empty
            &&& m.eb != Dimensions::Empty
            &&& m.spec_is_overlaps(Dimensions::TwoDimensional, Dimensions::TwoDimensional)
            &&& !m.spec_is_disjoint()
        }),
        r matches Ok(m) ==> (crate::geometry::spec_dimension(*geometry_a)
            == Dimensions::TwoDimensional && crate::geometry::spec_dimension(*geometry_b)
            == Dimensions::OneDimensional && spec_segments_properly_crossing(
            *geometry_a,
            *geometry_b,
        ) ==> m.bi != Dimensions::Empty),
        r matches Ok(m) ==> (crate::geometry::spec_dimension(*geometry_a)
            == Dimensions::OneDimensional && crate::geometry::spec_dimension(*geometry_b)
            == Dimensions::TwoDimensional && spec_segments_properly_crossing(
            *geometry_a,
            *geometry_b,
        ) ==> m.ib != Dimensions::Empty),
{
    if !geometry_a.is_valid_geometry() || !geometry_b.is_valid_geometry() {
        return Result::Err(RelateError::InvalidGeometry);
    }
    let mut edges: Vec<Edge> = Vec::new();
    let g0 = build_geometry_graph(0, geometry_a, &mut edges);
    let ghost edges_g0 = edges@;
    let g1 = build_geometry_graph(1, geometry_b, &mut edges);
    let ghost edges_g1 = edges@;

    // Node each geometry against itself (rings of valid polygons cannot
    // self-intersect, so they skip the self test), then the two against
    // each other, remembering proper intersections.
    let mut si_self_0 = SegmentIntersector::new(true);
    compute_intersections_within_set(&mut edges, &g0.edge_ids, !g0.is_polygonal, &mut si_self_0);
    let ghost edges_s0 = edges@;
    let mut si_self_1 = SegmentIntersector::new(true);
    compute_intersections_within_set(&mut edges, &g1.edge_ids, !g1.is_polygonal, &mut si_self_1);
    let ghost edges_s1 = edges@;

    let mut si = SegmentIntersector::new(false);
    si.set_boundary_nodes(copy_vec(&g0.boundary_nodes), copy_vec(&g1.boundary_nodes));
    compute_intersections_between_sets(&mut edges, &g0.edge_ids, &g1.edge_ids, &mut si);
    proof {
        // A proper crossing of input segments reaches the intersector:
        // the builders carry every input segment into the arena, the
        // passes keep every edge's coordinates, and the mutual pass
        // tests every cross-geometry segment pair.
        if spec_segments_properly_crossing(*geometry_a, *geometry_b) {
            let (la, lb) = choose|la: Line, lb: Line|
                #![trigger spec_geometry_has_segment(*geometry_a, la), spec_geometry_has_segment(*geometry_b, lb)]
                spec_geometry_has_segment(*geometry_a, la) && spec_geometry_has_segment(
                    *geometry_b,
                    lb,
                ) && spec_properly_cross(la, lb);
            let (j0, t0) = choose|j: int, t: int|
                0 <= j < g0.edge_ids@.len() && 0 <= t < edges_g0[g0.edge_ids@[j] as int].coords@.len()
                    - 1 && la == #[trigger] spec_segment(edges_g0, g0.edge_ids@[j] as int, t);
            let (j1, t1) = choose|j: int, t: int|
                0 <= j < g1.edge_ids@.len() && 0 <= t < edges_g1[g1.edge_ids@[j] as int].coords@.len()
                    - 1 && lb == #[trigger] spec_segment(edges_g1, g1.edge_ids@[j] as int, t);
            let id0 = g0.edge_ids@[j0] as int;
            let id1 = g1.edge_ids@[j1] as int;
            assert(id0 < edges_g0.len());
            assert(edges_g0.len() <= id1);
            assert(edges_g1[id0].coords == edges_g0[id0].coords);
            assert(edges_s0[id0].coords == edges_g1[id0].coords);
            assert(edges_s1[id0].coords == edges_s0[id0].coords);
            assert(edges@[id0].coords == edges_s1[id0].coords);
            assert(edges_s0[id1].coords == edges_g1[id1].coords);
            assert(edges_s1[id1].coords == edges_s0[id1].coords);
            assert(edges@[id1].coords == edges_s1[id1].coords);
            assert(spec_segment(edges@, id0, t0) == la);
            assert(spec_segment(edges@, id1, t1) == lb);
            assert(crate::edge_set_intersector::spec_pair_recorded(
                edges@,
                si,
                id0,
                t0,
                id1,
                t1,
            ));
            assert(si.proper_intersection_point is Some);
        }
    }

    let mut im = IntersectionMatrix::new();
    let ghost im_init = im;
    update_im_for_proper_intersection(&si, geometry_a.dimension(), geometry_b.dimension(), &mut im);
    let ghost im_proper = im;
    proof {
        lemma_proper_update_cells(si.has_proper_interior_intersection, im_init);
    }

    // Split every edge at its ends too, so each contributes stubs there.
    add_endpoint_intersections(&mut edges, &g0.edge_ids);
    add_endpoint_intersections(&mut edges, &g1.edge_ids);

    let nodes = build_nodes(&edges, &g0, &g1);
    update_im_from_nodes(&nodes, geometry_a, geometry_b, &mut im);
    let ghost im_nodes = im;

    update_im_from_isolated_edges(&mut edges, &g0.edge_ids, 1, geometry_b, &mut im);
    let ghost im_iso = im;
    update_im_from_isolated_edges(&mut edges, &g1.edge_ids, 0, geometry_a, &mut im);
    proof {
        crate::intersection_matrix::lemma_cellwise_geq_trans(im_proper, im_nodes, im_iso);
        crate::intersection_matrix::lemma_cellwise_geq_trans(im_proper, im_iso, im);
    }
    let ghost im_pre = im;

    // The exteriors of two bounded geometries always share the rest of
    // the plane.
    im.set(CoordPos::Outside, CoordPos::Outside, Dimensions::TwoDimensional);
    proof {
        // The contribution of a found proper crossing only ever grows on
        // the way to the final matrix.
        if si.proper_intersection_point is Some {
            assert(im_pre.spec_get(CoordPos::Inside, CoordPos::Inside).spec_rank()
                >= im_proper.spec_get(CoordPos::Inside, CoordPos::Inside).spec_rank());
            assert(im_pre.spec_get(CoordPos::Inside, CoordPos::Outside).spec_rank()
                >= im_proper.spec_get(CoordPos::Inside, CoordPos::Outside).spec_rank());
            assert(im_pre.spec_get(CoordPos::Outside, CoordPos::Inside).spec_rank()
                >= im_proper.spec_get(CoordPos::Outside, CoordPos::Inside).spec_rank());
            assert(im_pre.spec_get(CoordPos::Inside, CoordPos::OnBoundary).spec_rank()
                >= im_proper.spec_get(CoordPos::Inside, CoordPos::OnBoundary).spec_rank());
            assert(im_pre.spec_get(CoordPos::OnBoundary, CoordPos::Inside).spec_rank()
                >= im_proper.spec_get(CoordPos::OnBoundary, CoordPos::Inside).spec_rank());
            assert(im_pre.spec_get(CoordPos::OnBoundary, CoordPos::OnBoundary).spec_rank()
                >= im_proper.spec_get(CoordPos::OnBoundary, CoordPos::OnBoundary).spec_rank());
            assert(im_pre.spec_get(CoordPos::OnBoundary, CoordPos::Outside).spec_rank()
                >= im_proper.spec_get(CoordPos::OnBoundary, CoordPos::Outside).spec_rank());
            assert(im_pre.spec_get(CoordPos::Outside, CoordPos::OnBoundary).spec_rank()
                >= im_proper.spec_get(CoordPos::Outside, CoordPos::OnBoundary).spec_rank());
        }
    }
    Result::Ok(im)
}

} // verus!
