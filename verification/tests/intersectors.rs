use geomgraph::coord::Coord;
use geomgraph::edge::Edge;
use geomgraph::edge_set_intersector::{
    compute_intersections_between_sets, compute_intersections_within_set,
};
use geomgraph::label::Label;
use geomgraph::node::CoordNode;
use geomgraph::position::CoordPos;
use geomgraph::segment_intersector::SegmentIntersector;
use geomgraph::topology_position::TopologyPosition;

fn c(x: i64, y: i64) -> Coord {
    Coord { x, y }
}

fn line_edge(geom_index: usize, coords: Vec<Coord>) -> Edge {
    Edge::new(
        coords,
        Label::new(geom_index, TopologyPosition::line_or_point(CoordPos::Inside)),
    )
}

#[test]
fn a_proper_crossing_is_recorded_on_both_edges() {
    let mut edges = vec![
        line_edge(0, vec![c(0, 0), c(2, 0)]),
        line_edge(1, vec![c(1, -1), c(1, 1)]),
    ];
    let mut si = SegmentIntersector::new(false);
    si.set_boundary_nodes(Vec::new(), Vec::new());
    compute_intersections_between_sets(&mut edges, &vec![0], &vec![1], &mut si);

    assert!(si.has_proper_intersection());
    assert!(si.has_proper_interior_intersection());
    assert!(!edges[0].is_isolated());
    assert!(!edges[1].is_isolated());
    // A proper intersection between different geometries is not added to
    // the intersection lists; it only clears isolation and sets flags.
    assert!(edges[0].edge_intersections().is_empty());
    assert!(edges[1].edge_intersections().is_empty());
}

#[test]
fn a_proper_crossing_at_a_boundary_node_is_not_interior() {
    let boundary = CoordNode::new(c(1, 0), Label::empty_line_or_point());
    let mut edges = vec![
        line_edge(0, vec![c(0, 0), c(2, 0)]),
        line_edge(1, vec![c(1, -1), c(1, 1)]),
    ];
    let mut si = SegmentIntersector::new(false);
    si.set_boundary_nodes(vec![boundary], Vec::new());
    compute_intersections_between_sets(&mut edges, &vec![0], &vec![1], &mut si);

    assert!(si.has_proper_intersection());
    assert!(!si.has_proper_interior_intersection());
}

#[test]
fn an_endpoint_touch_is_recorded_on_both_edges() {
    let mut edges = vec![
        line_edge(0, vec![c(0, 0), c(2, 0)]),
        line_edge(1, vec![c(2, 0), c(4, 3)]),
    ];
    let mut si = SegmentIntersector::new(false);
    compute_intersections_between_sets(&mut edges, &vec![0], &vec![1], &mut si);

    assert!(!si.has_proper_intersection());
    assert_eq!(edges[0].edge_intersections().len(), 1);
    assert_eq!(edges[1].edge_intersections().len(), 1);
    assert_eq!(edges[0].edge_intersections()[0].coord, c(2, 0));
    assert!(!edges[0].is_isolated());
}

#[test]
fn adjacent_segments_of_one_edge_are_a_trivial_intersection() {
    let mut edges = vec![line_edge(0, vec![c(0, 0), c(2, 0), c(2, 2)])];
    let mut si = SegmentIntersector::new(true);
    compute_intersections_within_set(&mut edges, &vec![0], true, &mut si);

    // The shared vertex of adjacent segments is not recorded.
    assert!(edges[0].edge_intersections().is_empty());
    assert!(edges[0].is_isolated());
    assert!(!si.has_proper_intersection());
}

#[test]
fn a_self_crossing_line_is_noded_within_its_own_set() {
    // A bow-tie shaped line crossing itself at (2, 1).
    let mut edges = vec![line_edge(0, vec![c(0, 0), c(4, 2), c(4, 0), c(0, 2)])];
    let mut si = SegmentIntersector::new(true);
    compute_intersections_within_set(&mut edges, &vec![0], true, &mut si);

    assert!(edges[0].is_isolated());
    assert_eq!(edges[0].edge_intersections().len(), 2);
    let first = edges[0].edge_intersections()[0];
    let second = edges[0].edge_intersections()[1];
    assert_eq!(first.coord, c(2, 1));
    assert_eq!(second.coord, c(2, 1));
    assert_eq!(first.segment_index, 0);
    assert_eq!(second.segment_index, 2);
}

#[test]
fn disjoint_sets_record_nothing() {
    let mut edges = vec![
        line_edge(0, vec![c(0, 0), c(1, 0)]),
        line_edge(1, vec![c(5, 5), c(6, 5)]),
    ];
    let mut si = SegmentIntersector::new(false);
    compute_intersections_between_sets(&mut edges, &vec![0], &vec![1], &mut si);

    assert!(edges[0].is_isolated());
    assert!(edges[1].is_isolated());
    assert!(edges[0].edge_intersections().is_empty());
    assert!(!si.has_proper_intersection());
    assert!(!si.has_proper_interior_intersection());
}
