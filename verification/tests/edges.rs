use geomgraph::coord::{Coord, Line};
use geomgraph::edge::{Edge, EdgeIntersection};
use geomgraph::intersection_matrix::IntersectionMatrix;
use geomgraph::kernel::LineIntersection;
use geomgraph::label::Label;
use geomgraph::position::{CoordPos, Dimensions, Direction};
use geomgraph::topology_position::TopologyPosition;

fn c(x: i64, y: i64) -> Coord {
    Coord { x, y }
}

fn line_edge(coords: Vec<Coord>) -> Edge {
    Edge::new(coords, Label::new(0, TopologyPosition::line_or_point(CoordPos::Inside)))
}

#[test]
fn a_new_edge_is_isolated_and_without_intersections() {
    let edge = line_edge(vec![c(0, 0), c(4, 0)]);
    assert!(edge.is_isolated());
    assert!(edge.edge_intersections().is_empty());
    assert!(!edge.is_closed());

    let ring = line_edge(vec![c(0, 0), c(4, 0), c(4, 4), c(0, 0)]);
    assert!(ring.is_closed());
}

#[test]
fn intersections_stay_strictly_sorted_by_segment_and_distance() {
    let mut edge = line_edge(vec![c(0, 0), c(4, 0), c(8, 0)]);
    let segment_0 = Line::new(c(0, 0), c(4, 0));
    let segment_1 = Line::new(c(4, 0), c(8, 0));
    edge.add_intersection(c(6, 0), segment_1, 1);
    edge.add_intersection(c(1, 0), segment_0, 0);
    edge.add_intersection(c(3, 0), segment_0, 0);
    edge.add_intersection(c(1, 0), segment_0, 0); // duplicate key, dropped

    let recorded = edge.edge_intersections();
    assert_eq!(recorded.len(), 3);
    for pair in recorded.windows(2) {
        let earlier = (pair[0].segment_index, pair[0].distance);
        let later = (pair[1].segment_index, pair[1].distance);
        assert!(earlier < later);
    }
    assert_eq!(recorded[0].coord, c(1, 0));
    assert_eq!(recorded[1].coord, c(3, 0));
    assert_eq!(recorded[2].coord, c(6, 0));
}

#[test]
fn an_intersection_on_the_next_vertex_is_normalized() {
    let mut edge = line_edge(vec![c(0, 0), c(4, 0), c(8, 0)]);
    let segment_0 = Line::new(c(0, 0), c(4, 0));
    edge.add_intersection(c(4, 0), segment_0, 0);
    let recorded = edge.edge_intersections();
    assert_eq!(recorded.len(), 1);
    assert_eq!(recorded[0], EdgeIntersection { coord: c(4, 0), segment_index: 1, distance: 0 });
}

#[test]
fn endpoints_are_inserted_at_zero_distance() {
    let mut edge = line_edge(vec![c(0, 0), c(4, 0), c(8, 2)]);
    edge.add_edge_intersection_list_endpoints();
    let recorded = edge.edge_intersections();
    assert_eq!(recorded.len(), 2);
    assert_eq!(recorded[0], EdgeIntersection { coord: c(0, 0), segment_index: 0, distance: 0 });
    assert_eq!(recorded[1], EdgeIntersection { coord: c(8, 2), segment_index: 2, distance: 0 });
}

#[test]
fn a_collinear_result_adds_both_overlap_endpoints() {
    let mut edge = line_edge(vec![c(0, 0), c(8, 0)]);
    let segment = Line::new(c(0, 0), c(8, 0));
    let overlap = LineIntersection::Collinear { intersection: Line::new(c(2, 0), c(5, 0)) };
    edge.add_intersections(overlap, segment, 0);
    let recorded = edge.edge_intersections();
    assert_eq!(recorded.len(), 2);
    assert_eq!(recorded[0].coord, c(2, 0));
    assert_eq!(recorded[1].coord, c(5, 0));
}

#[test]
fn update_intersection_matrix_raises_on_and_side_cells() {
    let mut label = Label::empty_area();
    label.set_position(0, Direction::On, CoordPos::OnBoundary);
    label.set_position(0, Direction::Left, CoordPos::Inside);
    label.set_position(0, Direction::Right, CoordPos::Outside);
    label.set_position(1, Direction::On, CoordPos::OnBoundary);
    label.set_position(1, Direction::Left, CoordPos::Inside);
    label.set_position(1, Direction::Right, CoordPos::Outside);

    let mut m = IntersectionMatrix::new();
    Edge::update_intersection_matrix(&label, &mut m);
    assert_eq!(m.get(CoordPos::OnBoundary, CoordPos::OnBoundary), Dimensions::OneDimensional);
    assert_eq!(m.get(CoordPos::Inside, CoordPos::Inside), Dimensions::TwoDimensional);
    assert_eq!(m.get(CoordPos::Outside, CoordPos::Outside), Dimensions::TwoDimensional);
    assert_eq!(m.get(CoordPos::Inside, CoordPos::Outside), Dimensions::Empty);
}

#[test]
fn update_intersection_matrix_skips_unknown_positions() {
    let mut label = Label::empty_line_or_point();
    label.set_on_position(0, CoordPos::Inside);
    let mut m = IntersectionMatrix::new();
    Edge::update_intersection_matrix(&label, &mut m);
    assert!(m == IntersectionMatrix::new());
}
