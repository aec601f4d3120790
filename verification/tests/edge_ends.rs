use std::cmp::Ordering;

use geomgraph::coord::Coord;
use geomgraph::edge_end::{sort_edge_ends, EdgeEnd};
use geomgraph::label::Label;

#[test]
fn test_ord() {
    let fake_label = Label::empty_line_or_point();
    let edge_end_1 = EdgeEnd::new(Coord::zero(), Coord { x: 1, y: 1 }, fake_label.clone());
    let edge_end_2 = EdgeEnd::new(Coord::zero(), Coord { x: 1, y: 1 }, fake_label.clone());
    assert_eq!(
        edge_end_1.key().compare_direction(edge_end_2.key()),
        Ordering::Equal
    );

    // edge_end_3 is clockwise from edge_end_1
    let edge_end_3 = EdgeEnd::new(Coord::zero(), Coord { x: 1, y: -1 }, fake_label.clone());
    assert_eq!(
        edge_end_1.key().compare_direction(edge_end_3.key()),
        Ordering::Less
    );
    assert_eq!(
        edge_end_3.key().compare_direction(edge_end_1.key()),
        Ordering::Greater
    );
}

#[test]
fn compare_direction_orders_quadrants_counterclockwise() {
    let label = Label::empty_line_or_point();
    let ne = EdgeEnd::new(Coord::zero(), Coord { x: 2, y: 1 }, label.clone());
    let nw = EdgeEnd::new(Coord::zero(), Coord { x: -2, y: 1 }, label.clone());
    let sw = EdgeEnd::new(Coord::zero(), Coord { x: -2, y: -1 }, label.clone());
    let se = EdgeEnd::new(Coord::zero(), Coord { x: 2, y: -1 }, label.clone());
    assert_eq!(ne.key().compare_direction(nw.key()), Ordering::Less);
    assert_eq!(nw.key().compare_direction(sw.key()), Ordering::Less);
    assert_eq!(sw.key().compare_direction(se.key()), Ordering::Less);
    assert_eq!(se.key().compare_direction(ne.key()), Ordering::Greater);
}

#[test]
fn compare_direction_breaks_ties_within_a_quadrant() {
    let label = Label::empty_line_or_point();
    // Both in the first quadrant; the steeper ray has the greater angle.
    let shallow = EdgeEnd::new(Coord::zero(), Coord { x: 3, y: 1 }, label.clone());
    let steep = EdgeEnd::new(Coord::zero(), Coord { x: 1, y: 3 }, label.clone());
    assert_eq!(shallow.key().compare_direction(steep.key()), Ordering::Less);
    assert_eq!(steep.key().compare_direction(shallow.key()), Ordering::Greater);
    // Collinear rays of different lengths compare equal by angle.
    let long = EdgeEnd::new(Coord::zero(), Coord { x: 2, y: 2 }, label.clone());
    let short = EdgeEnd::new(Coord::zero(), Coord { x: 1, y: 1 }, label.clone());
    assert_eq!(long.key().compare_direction(short.key()), Ordering::Equal);
}

#[test]
fn sort_edge_ends_orders_a_ring_by_angle() {
    let label = Label::empty_line_or_point();
    let node = Coord::zero();
    let east = EdgeEnd::new(node, Coord { x: 5, y: 0 }, label.clone());
    let north = EdgeEnd::new(node, Coord { x: 0, y: 5 }, label.clone());
    let west = EdgeEnd::new(node, Coord { x: -5, y: 0 }, label.clone());
    let south = EdgeEnd::new(node, Coord { x: 0, y: -5 }, label.clone());
    let northeast = EdgeEnd::new(node, Coord { x: 4, y: 4 }, label.clone());

    let ring = vec![
        west.clone(),
        south.clone(),
        east.clone(),
        northeast.clone(),
        north.clone(),
    ];
    let sorted = sort_edge_ends(ring);
    assert_eq!(sorted.len(), 5);
    let expected = [&east, &northeast, &north, &west, &south];
    for (got, want) in sorted.iter().zip(expected.iter()) {
        assert_eq!(got.key().coord_1, want.key().coord_1);
    }
    // Adjacent members never decrease in angle.
    for pair in sorted.windows(2) {
        assert_ne!(
            pair[0].key().compare_direction(pair[1].key()),
            Ordering::Greater
        );
    }
}

#[test]
fn edge_end_records_direction_and_quadrant() {
    let label = Label::empty_line_or_point();
    let e = EdgeEnd::new(Coord { x: 2, y: 3 }, Coord { x: 5, y: 1 }, label);
    assert_eq!(*e.coordinate(), Coord { x: 2, y: 3 });
    assert_eq!(e.key().delta, Coord { x: 3, y: -2 });
    assert_eq!(e.key().quadrant, Some(geomgraph::quadrant::Quadrant::SE));
}
