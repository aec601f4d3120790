use geomgraph::label::Label;
use geomgraph::position::{CoordPos, Direction};
use geomgraph::topology_position::TopologyPosition;

#[test]
fn area_positions_carry_all_three_directions() {
    let mut topo = TopologyPosition::area(CoordPos::OnBoundary, CoordPos::Inside, CoordPos::Outside);
    assert!(topo.is_area());
    assert!(!topo.is_line());
    assert_eq!(topo.get(Direction::On), Some(CoordPos::OnBoundary));
    assert_eq!(topo.get(Direction::Left), Some(CoordPos::Inside));
    assert_eq!(topo.get(Direction::Right), Some(CoordPos::Outside));
    assert!(!topo.is_empty());
    assert!(!topo.is_any_empty());

    topo.flip();
    assert_eq!(topo.get(Direction::Left), Some(CoordPos::Outside));
    assert_eq!(topo.get(Direction::Right), Some(CoordPos::Inside));
    assert_eq!(topo.get(Direction::On), Some(CoordPos::OnBoundary));
}

#[test]
fn empty_positions_fill_only_where_unknown() {
    let mut topo = TopologyPosition::empty_area();
    assert!(topo.is_empty());
    assert!(topo.is_any_empty());
    topo.set_position(Direction::Left, CoordPos::Inside);
    topo.set_all_positions_if_empty(CoordPos::Outside);
    assert_eq!(topo.get(Direction::Left), Some(CoordPos::Inside));
    assert_eq!(topo.get(Direction::On), Some(CoordPos::Outside));
    assert_eq!(topo.get(Direction::Right), Some(CoordPos::Outside));
}

#[test]
fn line_positions_have_only_the_on_direction() {
    let mut topo = TopologyPosition::empty_line_or_point();
    assert!(topo.is_line());
    assert!(topo.is_empty());
    topo.set_on_position(CoordPos::Inside);
    assert_eq!(topo.get(Direction::On), Some(CoordPos::Inside));
    assert!(!topo.is_any_empty());
}

#[test]
fn set_locations_overwrites_an_area_position() {
    let mut topo = TopologyPosition::empty_area();
    topo.set_locations(CoordPos::OnBoundary, CoordPos::Inside, CoordPos::Outside);
    assert_eq!(topo.get(Direction::On), Some(CoordPos::OnBoundary));
    assert_eq!(topo.get(Direction::Left), Some(CoordPos::Inside));
    assert_eq!(topo.get(Direction::Right), Some(CoordPos::Outside));
}

#[test]
fn label_initializes_one_geometry_and_leaves_the_other_empty() {
    let label = Label::new(0, TopologyPosition::line_or_point(CoordPos::Inside));
    assert_eq!(label.on_position(0), Some(CoordPos::Inside));
    assert_eq!(label.on_position(1), None);
    assert!(label.is_empty(1));
    assert!(!label.is_empty(0));
    assert_eq!(label.geometry_count(), 1);
    assert!(label.is_line(0));
    assert!(!label.is_area());

    let area_label = Label::new(1, TopologyPosition::area(
        CoordPos::OnBoundary,
        CoordPos::Inside,
        CoordPos::Outside,
    ));
    assert!(area_label.is_area());
    assert!(area_label.is_geom_area(0));
    assert!(area_label.is_geom_area(1));
    assert_eq!(area_label.position(1, Direction::Left), Some(CoordPos::Inside));
    assert_eq!(area_label.geometry_count(), 1);
}

#[test]
fn label_flip_swaps_sides_for_both_geometries() {
    let mut label = Label::empty_area();
    label.set_position(0, Direction::Left, CoordPos::Inside);
    label.set_position(0, Direction::Right, CoordPos::Outside);
    label.set_position(1, Direction::Left, CoordPos::Outside);
    label.flip();
    assert_eq!(label.position(0, Direction::Left), Some(CoordPos::Outside));
    assert_eq!(label.position(0, Direction::Right), Some(CoordPos::Inside));
    assert_eq!(label.position(1, Direction::Right), Some(CoordPos::Outside));
    assert_eq!(label.position(1, Direction::Left), None);
}

#[test]
fn label_set_all_positions_if_empty_keeps_known_entries() {
    let mut label = Label::empty_area();
    label.set_on_position(0, CoordPos::OnBoundary);
    label.set_all_positions_if_empty(0, CoordPos::Outside);
    assert_eq!(label.on_position(0), Some(CoordPos::OnBoundary));
    assert_eq!(label.position(0, Direction::Left), Some(CoordPos::Outside));
    assert_eq!(label.position(0, Direction::Right), Some(CoordPos::Outside));
    assert!(label.is_empty(1));
    assert!(label.is_any_empty(1));
}
