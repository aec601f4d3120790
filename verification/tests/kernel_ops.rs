use geomgraph::coord::{Coord, Line};
use geomgraph::kernel::{edge_distance, line_intersection, on_segment, orient2d, LineIntersection, Orientation};

fn c(x: i64, y: i64) -> Coord {
    Coord { x, y }
}

fn l(x0: i64, y0: i64, x1: i64, y1: i64) -> Line {
    Line::new(c(x0, y0), c(x1, y1))
}

#[test]
fn orientation_of_a_left_turn_is_counterclockwise() {
    assert_eq!(orient2d(c(0, 0), c(2, 0), c(2, 2)), Orientation::CounterClockwise);
    assert_eq!(orient2d(c(0, 0), c(2, 0), c(2, -2)), Orientation::Clockwise);
    assert_eq!(orient2d(c(0, 0), c(2, 2), c(4, 4)), Orientation::Collinear);
}

#[test]
fn orientation_is_stable_under_rotation_of_the_inputs() {
    let (p, q, r) = (c(1, 1), c(5, 2), c(3, 4));
    assert_eq!(orient2d(p, q, r), Orientation::CounterClockwise);
    assert_eq!(orient2d(q, r, p), Orientation::CounterClockwise);
    assert_eq!(orient2d(r, p, q), Orientation::CounterClockwise);
    assert_eq!(orient2d(q, p, r), Orientation::Clockwise);
}

#[test]
fn crossing_segments_intersect_properly() {
    let result = line_intersection(l(0, 0, 2, 0), l(1, -1, 1, 1));
    assert_eq!(
        result,
        Some(LineIntersection::SinglePoint { intersection: c(1, 0), is_proper: true })
    );
}

#[test]
fn touching_at_an_endpoint_is_not_proper() {
    let result = line_intersection(l(0, 0, 2, 0), l(2, 0, 3, 5));
    assert_eq!(
        result,
        Some(LineIntersection::SinglePoint { intersection: c(2, 0), is_proper: false })
    );
    let result = line_intersection(l(0, 0, 4, 0), l(2, 0, 2, 3));
    assert_eq!(
        result,
        Some(LineIntersection::SinglePoint { intersection: c(2, 0), is_proper: false })
    );
}

#[test]
fn separated_segments_do_not_intersect() {
    assert_eq!(line_intersection(l(0, 0, 1, 0), l(0, 1, 1, 1)), None);
    assert_eq!(line_intersection(l(0, 0, 1, 1), l(3, 0, 2, 5)), None);
    // Collinear but apart.
    assert_eq!(line_intersection(l(0, 0, 1, 0), l(2, 0, 3, 0)), None);
}

#[test]
fn collinear_overlap_returns_the_shared_piece() {
    let result = line_intersection(l(0, 0, 4, 0), l(2, 0, 6, 0));
    match result {
        Some(LineIntersection::Collinear { intersection }) => {
            let mut ends = [intersection.start, intersection.end];
            ends.sort_by_key(|p| p.x);
            assert_eq!(ends, [c(2, 0), c(4, 0)]);
        }
        other => panic!("expected a collinear overlap, got {:?}", other),
    }
}

#[test]
fn collinear_touch_at_one_point_is_a_single_point() {
    let result = line_intersection(l(0, 0, 2, 0), l(2, 0, 5, 0));
    assert_eq!(
        result,
        Some(LineIntersection::SinglePoint { intersection: c(2, 0), is_proper: false })
    );
}

#[test]
fn proper_intersection_point_is_rounded_to_the_nearest_grid_point() {
    // True crossing at (3/2, 3/2): each coordinate must land on 1 or 2.
    let result = line_intersection(l(0, 0, 3, 3), l(0, 3, 3, 0));
    match result {
        Some(LineIntersection::SinglePoint { intersection, is_proper }) => {
            assert!(is_proper);
            assert!(intersection.x == 1 || intersection.x == 2);
            assert!(intersection.y == 1 || intersection.y == 2);
        }
        other => panic!("expected a proper point, got {:?}", other),
    }
}

#[test]
fn edge_distance_grows_along_the_dominant_axis() {
    let seg = l(0, 0, 10, 2);
    assert_eq!(edge_distance(c(0, 0), seg), 0);
    assert_eq!(edge_distance(c(5, 1), seg), 5);
    assert_eq!(edge_distance(c(10, 2), seg), 10);
    // A steep segment measures along y instead.
    let steep = l(0, 0, 1, 8);
    assert_eq!(edge_distance(c(1, 6), steep), 6);
}

#[test]
fn on_segment_is_exact() {
    let seg = l(0, 0, 4, 4);
    assert!(on_segment(c(2, 2), seg));
    assert!(on_segment(c(0, 0), seg));
    assert!(on_segment(c(4, 4), seg));
    assert!(!on_segment(c(5, 5), seg));
    assert!(!on_segment(c(2, 1), seg));
}
