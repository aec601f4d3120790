use geomgraph::coord::Coord;
use geomgraph::geometry::{locate, ring_is_ccw, ring_position, Geometry, PolygonGeom};
use geomgraph::position::CoordPos;
use geomgraph::relate::{determine_boundary, relate};

fn c(x: i64, y: i64) -> Coord {
    Coord { x, y }
}

fn ring(coords: &[(i64, i64)]) -> Vec<Coord> {
    coords.iter().map(|&(x, y)| c(x, y)).collect()
}

fn square_with_hole() -> Geometry {
    Geometry::Polygon(PolygonGeom {
        exterior: ring(&[(0, 0), (6, 0), (6, 6), (0, 6), (0, 0)]),
        interiors: vec![ring(&[(2, 2), (4, 2), (4, 4), (2, 4), (2, 2)])],
    })
}

#[test]
fn winding_is_read_from_the_signed_area() {
    assert!(ring_is_ccw(&ring(&[(0, 0), (4, 0), (4, 4), (0, 4), (0, 0)])));
    assert!(!ring_is_ccw(&ring(&[(0, 0), (0, 4), (4, 4), (4, 0), (0, 0)])));
}

#[test]
fn ring_position_separates_the_three_regions() {
    let r = ring(&[(0, 0), (4, 0), (4, 4), (0, 4), (0, 0)]);
    assert_eq!(ring_position(c(2, 2), &r), CoordPos::Inside);
    assert_eq!(ring_position(c(4, 2), &r), CoordPos::OnBoundary);
    assert_eq!(ring_position(c(0, 0), &r), CoordPos::OnBoundary);
    assert_eq!(ring_position(c(5, 2), &r), CoordPos::Outside);
    assert_eq!(ring_position(c(-1, -1), &r), CoordPos::Outside);
}

#[test]
fn a_hole_carves_the_interior_out() {
    let p = square_with_hole();
    assert_eq!(locate(c(1, 1), &p), CoordPos::Inside);
    assert_eq!(locate(c(3, 3), &p), CoordPos::Outside);
    assert_eq!(locate(c(2, 3), &p), CoordPos::OnBoundary);
    assert_eq!(locate(c(0, 3), &p), CoordPos::OnBoundary);
    assert_eq!(locate(c(7, 7), &p), CoordPos::Outside);
}

#[test]
fn locating_against_lines_uses_the_mod_2_boundary() {
    let l = Geometry::LineString(ring(&[(0, 0), (4, 0)]));
    assert_eq!(locate(c(0, 0), &l), CoordPos::OnBoundary);
    assert_eq!(locate(c(2, 0), &l), CoordPos::Inside);
    assert_eq!(locate(c(5, 0), &l), CoordPos::Outside);

    // Two line strings meeting at a shared endpoint swallow it into the
    // interior: the incidence count there is even.
    let ml = Geometry::MultiLineString(vec![
        ring(&[(0, 0), (4, 0)]),
        ring(&[(4, 0), (4, 4)]),
    ]);
    assert_eq!(locate(c(4, 0), &ml), CoordPos::Inside);
    assert_eq!(locate(c(0, 0), &ml), CoordPos::OnBoundary);
    assert_eq!(locate(c(4, 4), &ml), CoordPos::OnBoundary);
}

#[test]
fn the_boundary_rule_is_odd_counts_only() {
    assert_eq!(determine_boundary(1), CoordPos::OnBoundary);
    assert_eq!(determine_boundary(2), CoordPos::Inside);
    assert_eq!(determine_boundary(3), CoordPos::OnBoundary);
    assert_eq!(determine_boundary(4), CoordPos::Inside);
}

#[test]
fn a_point_in_the_hole_is_outside_the_polygon() {
    let m = relate(&square_with_hole(), &Geometry::Point(c(3, 3))).unwrap();
    assert!(m.matches("FF2FF10F2"), "got {:?}", m);
    assert!(m.is_disjoint());
}

#[test]
fn a_point_between_shell_and_hole_is_contained() {
    let m = relate(&square_with_hole(), &Geometry::Point(c(1, 1))).unwrap();
    assert!(m.matches("0F2FF1FF2"), "got {:?}", m);
    assert!(m.is_contains());
}

#[test]
fn closed_rings_have_no_boundary_as_lines() {
    let closed = Geometry::LineString(ring(&[(0, 0), (2, 0), (2, 2), (0, 0)]));
    assert_eq!(locate(c(0, 0), &closed), CoordPos::Inside);
    assert_eq!(locate(c(1, 0), &closed), CoordPos::Inside);
    assert_eq!(locate(c(0, 2), &closed), CoordPos::Outside);
}
