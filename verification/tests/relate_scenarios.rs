use geomgraph::coord::Coord;
use geomgraph::geometry::{Geometry, PolygonGeom};
use geomgraph::intersection_matrix::IntersectionMatrix;
use geomgraph::position::Dimensions;
use geomgraph::relate::{relate, RelateError};

fn c(x: i64, y: i64) -> Coord {
    Coord { x, y }
}

fn point(x: i64, y: i64) -> Geometry {
    Geometry::Point(c(x, y))
}

fn linestring(coords: &[(i64, i64)]) -> Geometry {
    Geometry::LineString(coords.iter().map(|&(x, y)| c(x, y)).collect())
}

fn polygon(ring: &[(i64, i64)]) -> Geometry {
    Geometry::Polygon(PolygonGeom {
        exterior: ring.iter().map(|&(x, y)| c(x, y)).collect(),
        interiors: Vec::new(),
    })
}

fn matrix(a: &Geometry, b: &Geometry) -> IntersectionMatrix {
    relate(a, b).expect("valid geometries relate")
}

#[test]
fn equal_points_are_topologically_equal() {
    let m = matrix(&point(0, 0), &point(0, 0));
    assert!(m.matches("0FFFFFFF2"), "got {:?}", m);
    assert!(m.is_equal_topo());
    assert!(m.is_intersects());
}

#[test]
fn distinct_points_are_disjoint() {
    let m = matrix(&point(0, 0), &point(1, 1));
    assert!(m.matches("FF0FFF0F2"), "got {:?}", m);
    assert!(m.is_disjoint());
    assert!(!m.is_intersects());
}

#[test]
fn crossing_lines_cross() {
    let a = linestring(&[(0, 0), (2, 0)]);
    let b = linestring(&[(1, -1), (1, 1)]);
    let m = matrix(&a, &b);
    assert!(m.matches("0F1FF0102"), "got {:?}", m);
    assert!(m.is_crosses(Dimensions::OneDimensional, Dimensions::OneDimensional));
    assert!(m.is_intersects());
}

#[test]
fn a_square_contains_a_smaller_square() {
    let a = polygon(&[(0, 0), (4, 0), (4, 4), (0, 4), (0, 0)]);
    let b = polygon(&[(1, 1), (3, 1), (3, 3), (1, 3), (1, 1)]);
    let m = matrix(&a, &b);
    assert!(m.matches("212FF1FF2"), "got {:?}", m);
    assert!(m.is_contains());
    assert!(!m.is_within());
}

#[test]
fn overlapping_squares_overlap() {
    let a = polygon(&[(0, 0), (2, 0), (2, 2), (0, 2), (0, 0)]);
    let b = polygon(&[(1, 1), (3, 1), (3, 3), (1, 3), (1, 1)]);
    let m = matrix(&a, &b);
    assert!(m.matches("212101212"), "got {:?}", m);
    assert!(m.is_overlaps(Dimensions::TwoDimensional, Dimensions::TwoDimensional));
    assert!(m.is_intersects());
}

#[test]
fn squares_sharing_an_edge_touch() {
    let a = polygon(&[(0, 0), (1, 0), (1, 1), (0, 1), (0, 0)]);
    let b = polygon(&[(1, 0), (2, 0), (2, 1), (1, 1), (1, 0)]);
    let m = matrix(&a, &b);
    assert!(m.matches("FF2F11212"), "got {:?}", m);
    assert!(m.is_touches());
    assert!(!m.is_overlaps(Dimensions::TwoDimensional, Dimensions::TwoDimensional));
}

#[test]
fn relate_is_symmetric_on_the_scenario_pairs() {
    let pairs: Vec<(Geometry, Geometry)> = vec![
        (point(0, 0), point(1, 1)),
        (linestring(&[(0, 0), (2, 0)]), linestring(&[(1, -1), (1, 1)])),
        (
            polygon(&[(0, 0), (4, 0), (4, 4), (0, 4), (0, 0)]),
            polygon(&[(1, 1), (3, 1), (3, 3), (1, 3), (1, 1)]),
        ),
        (
            polygon(&[(0, 0), (2, 0), (2, 2), (0, 2), (0, 0)]),
            polygon(&[(1, 1), (3, 1), (3, 3), (1, 3), (1, 1)]),
        ),
        (
            polygon(&[(0, 0), (1, 0), (1, 1), (0, 1), (0, 0)]),
            polygon(&[(1, 0), (2, 0), (2, 1), (1, 1), (1, 0)]),
        ),
    ];
    for (a, b) in &pairs {
        let forward = matrix(a, b);
        let backward = matrix(b, a);
        assert!(forward.transpose() == backward, "{:?} vs {:?}", forward, backward);
    }
}

#[test]
fn everything_relates_to_itself_as_equal() {
    let shapes = vec![
        point(3, 4),
        linestring(&[(0, 0), (2, 1), (4, 0)]),
        polygon(&[(0, 0), (3, 0), (3, 3), (0, 3), (0, 0)]),
    ];
    for g in &shapes {
        let m = matrix(g, g);
        assert!(m.matches("T*F**FFF*"), "self-relate gave {:?}", m);
        assert!(m.is_equal_topo());
    }
}

#[test]
fn containment_reads_as_within_from_the_other_side() {
    let a = polygon(&[(0, 0), (4, 0), (4, 4), (0, 4), (0, 0)]);
    let b = polygon(&[(1, 1), (3, 1), (3, 3), (1, 3), (1, 1)]);
    assert!(matrix(&a, &b).is_contains());
    assert!(matrix(&b, &a).is_within());
}

#[test]
fn covers_implies_intersects_and_disjoint_negates_it() {
    let a = polygon(&[(0, 0), (4, 0), (4, 4), (0, 4), (0, 0)]);
    let b = polygon(&[(1, 1), (3, 1), (3, 3), (1, 3), (1, 1)]);
    let m = matrix(&a, &b);
    assert!(m.is_covers());
    assert!(m.is_intersects());
    assert_eq!(m.is_disjoint(), !m.is_intersects());

    let far = polygon(&[(10, 10), (12, 10), (12, 12), (10, 12), (10, 10)]);
    let d = matrix(&a, &far);
    assert!(d.is_disjoint());
    assert_eq!(d.is_disjoint(), !d.is_intersects());
}

#[test]
fn invalid_geometry_is_rejected() {
    let empty = Geometry::MultiPoint(Vec::new());
    assert_eq!(relate(&empty, &point(0, 0)), Err(RelateError::InvalidGeometry));
    let degenerate_ring = polygon(&[(0, 0), (1, 0), (0, 0)]);
    assert_eq!(
        relate(&degenerate_ring, &point(0, 0)),
        Err(RelateError::InvalidGeometry)
    );
    let zero_length_segment = linestring(&[(0, 0), (0, 0), (1, 1)]);
    assert_eq!(
        relate(&point(0, 0), &zero_length_segment),
        Err(RelateError::InvalidGeometry)
    );
    let out_of_range = point(3_000_000, 0);
    assert_eq!(
        relate(&out_of_range, &point(0, 0)),
        Err(RelateError::InvalidGeometry)
    );
}

#[test]
fn exterior_exterior_is_always_the_whole_plane() {
    let cases = vec![
        (point(0, 0), point(0, 0)),
        (point(0, 0), linestring(&[(5, 5), (6, 6)])),
        (
            polygon(&[(0, 0), (2, 0), (2, 2), (0, 2), (0, 0)]),
            linestring(&[(0, 0), (9, 9)]),
        ),
    ];
    for (a, b) in &cases {
        let m = matrix(a, b);
        assert_eq!(
            m.get(
                geomgraph::position::CoordPos::Outside,
                geomgraph::position::CoordPos::Outside
            ),
            Dimensions::TwoDimensional
        );
    }
}

#[test]
fn a_point_on_a_line_interior_is_within_it() {
    let p = point(1, 0);
    let l = linestring(&[(0, 0), (2, 0)]);
    let m = matrix(&p, &l);
    assert!(m.is_within(), "got {:?}", m);
    assert!(m.is_intersects());
}

#[test]
fn a_line_crossing_a_polygon_crosses_it() {
    let l = linestring(&[(-1, 1), (5, 1)]);
    let a = polygon(&[(0, 0), (4, 0), (4, 4), (0, 4), (0, 0)]);
    let m = matrix(&l, &a);
    assert!(m.is_crosses(Dimensions::OneDimensional, Dimensions::TwoDimensional), "got {:?}", m);
    assert!(m.is_intersects());
}

#[test]
fn collinear_overlapping_lines_overlap() {
    let a = linestring(&[(0, 0), (4, 0)]);
    let b = linestring(&[(2, 0), (6, 0)]);
    let m = matrix(&a, &b);
    assert!(m.matches("1010F0102"), "got {:?}", m);
    assert!(m.is_overlaps(Dimensions::OneDimensional, Dimensions::OneDimensional));
    assert!(!m.is_crosses(Dimensions::OneDimensional, Dimensions::OneDimensional));
}

#[test]
fn a_multipoint_half_inside_a_polygon() {
    let a = Geometry::MultiPoint(vec![c(1, 1), c(5, 5)]);
    let b = polygon(&[(0, 0), (4, 0), (4, 4), (0, 4), (0, 0)]);
    let m = matrix(&a, &b);
    assert!(m.matches("0F0FFF212"), "got {:?}", m);
    assert!(m.is_intersects());
    assert!(!m.is_within());
}

#[test]
fn a_line_ending_inside_a_polygon_is_not_contained() {
    // One end inside, one outside: the line crosses the boundary.
    let l = linestring(&[(2, 2), (6, 2)]);
    let a = polygon(&[(0, 0), (4, 0), (4, 4), (0, 4), (0, 0)]);
    let m = matrix(&a, &l);
    assert!(m.is_intersects());
    assert!(!m.is_contains());
    assert!(m.is_crosses(Dimensions::TwoDimensional, Dimensions::OneDimensional), "got {:?}", m);
}
