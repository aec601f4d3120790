use geomgraph::coord::Coord;
use geomgraph::edge_end::EdgeEnd;
use geomgraph::edge_end_bundle::EdgeEndBundle;
use geomgraph::intersection_matrix::IntersectionMatrix;
use geomgraph::label::Label;
use geomgraph::position::{CoordPos, Dimensions, Direction};
use geomgraph::topology_position::TopologyPosition;

fn c(x: i64, y: i64) -> Coord {
    Coord { x, y }
}

fn line_end(on: Option<CoordPos>) -> EdgeEnd {
    let mut label = Label::empty_line_or_point();
    if let Some(p) = on {
        label.set_on_position(0, p);
    }
    EdgeEnd::new(c(0, 0), c(1, 0), label)
}

fn area_end(on: CoordPos, left: CoordPos, right: CoordPos) -> EdgeEnd {
    let label = Label::new(0, TopologyPosition::area(on, left, right));
    EdgeEnd::new(c(0, 0), c(1, 0), label)
}

#[test]
fn one_boundary_member_puts_the_bundle_on_the_boundary() {
    let mut bundle = EdgeEndBundle::new(c(0, 0));
    bundle.insert(line_end(Some(CoordPos::OnBoundary)));
    let labeled = bundle.into_labeled();
    assert_eq!(labeled.label().on_position(0), Some(CoordPos::OnBoundary));
    assert_eq!(labeled.label().on_position(1), None);
}

#[test]
fn two_boundary_members_fold_into_the_interior() {
    // The Mod-2 rule: an even count of boundary edges is interior.
    let mut bundle = EdgeEndBundle::new(c(0, 0));
    bundle.insert(line_end(Some(CoordPos::OnBoundary)));
    bundle.insert(line_end(Some(CoordPos::OnBoundary)));
    let labeled = bundle.into_labeled();
    assert_eq!(labeled.label().on_position(0), Some(CoordPos::Inside));
}

#[test]
fn boundary_members_outweigh_interior_ones() {
    let mut bundle = EdgeEndBundle::new(c(0, 0));
    bundle.insert(line_end(Some(CoordPos::Inside)));
    bundle.insert(line_end(Some(CoordPos::OnBoundary)));
    let labeled = bundle.into_labeled();
    assert_eq!(labeled.label().on_position(0), Some(CoordPos::OnBoundary));
}

#[test]
fn side_labels_prefer_the_interior() {
    let mut bundle = EdgeEndBundle::new(c(0, 0));
    bundle.insert(area_end(CoordPos::OnBoundary, CoordPos::Outside, CoordPos::Outside));
    bundle.insert(area_end(CoordPos::OnBoundary, CoordPos::Inside, CoordPos::Outside));
    let labeled = bundle.into_labeled();
    assert_eq!(labeled.label().position(0, Direction::Left), Some(CoordPos::Inside));
    assert_eq!(labeled.label().position(0, Direction::Right), Some(CoordPos::Outside));
    // Two boundary edges fold the On position into the interior.
    assert_eq!(labeled.label().on_position(0), Some(CoordPos::Inside));
}

#[test]
fn label_synthesis_twice_gives_identical_labels() {
    let mut bundle = EdgeEndBundle::new(c(0, 0));
    bundle.insert(area_end(CoordPos::OnBoundary, CoordPos::Inside, CoordPos::Outside));
    bundle.insert(line_end(Some(CoordPos::Inside)));
    let first = bundle.clone().into_labeled();
    let second = bundle.into_labeled();
    for geom in 0..2 {
        assert_eq!(
            first.label().on_position(geom),
            second.label().on_position(geom)
        );
        for side in [Direction::Left, Direction::Right] {
            assert_eq!(
                first.label().position(geom, side),
                second.label().position(geom, side)
            );
        }
    }
}

#[test]
fn a_labeled_bundle_contributes_to_the_matrix() {
    let mut bundle = EdgeEndBundle::new(c(3, 4));
    let mut label = Label::empty_line_or_point();
    label.set_on_position(0, CoordPos::Inside);
    label.set_on_position(1, CoordPos::Inside);
    bundle.insert(EdgeEnd::new(c(3, 4), c(5, 5), label));
    let labeled = bundle.into_labeled();
    assert_eq!(*labeled.coordinate(), c(3, 4));
    let mut m = IntersectionMatrix::new();
    labeled.update_intersection_matrix(&mut m);
    assert_eq!(m.get(CoordPos::Inside, CoordPos::Inside), Dimensions::OneDimensional);
}
