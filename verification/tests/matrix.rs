use geomgraph::intersection_matrix::IntersectionMatrix;
use geomgraph::position::{CoordPos, Dimensions};

fn matrix_from(template: &str) -> IntersectionMatrix {
    let mut m = IntersectionMatrix::new();
    let positions = [CoordPos::Inside, CoordPos::OnBoundary, CoordPos::Outside];
    for (i, byte) in template.bytes().enumerate() {
        let dim = match byte {
            b'F' => Dimensions::Empty,
            b'0' => Dimensions::ZeroDimensional,
            b'1' => Dimensions::OneDimensional,
            b'2' => Dimensions::TwoDimensional,
            other => panic!("unexpected template byte {}", other),
        };
        m.set(positions[i / 3], positions[i % 3], dim);
    }
    m
}

#[test]
fn matches_applies_the_template_wildcards() {
    let m = matrix_from("212101212");
    assert!(m.matches("212101212"));
    assert!(m.matches("T*T***T**"));
    assert!(m.matches("*********"));
    assert!(!m.matches("T*F**FFF*"));
    assert!(!m.matches("FF*FF****"));
}

#[test]
fn predicates_read_the_standard_templates() {
    let contains = matrix_from("212FF1FF2");
    assert!(contains.is_contains());
    assert!(!contains.is_within());
    assert!(contains.is_covers());
    assert!(contains.is_intersects());
    assert!(!contains.is_disjoint());
    assert!(!contains.is_touches());

    let disjoint = matrix_from("FF0FFF0F2");
    assert!(disjoint.is_disjoint());
    assert!(!disjoint.is_intersects());
    assert!(!disjoint.is_equal_topo());

    let equal = matrix_from("0FFFFFFF2");
    assert!(equal.is_equal_topo());
    assert!(equal.is_intersects());

    let touches = matrix_from("FF2F11212");
    assert!(touches.is_touches());
    assert!(touches.is_intersects());
    assert!(!touches.is_overlaps(Dimensions::TwoDimensional, Dimensions::TwoDimensional));

    let overlaps = matrix_from("212101212");
    assert!(overlaps.is_overlaps(Dimensions::TwoDimensional, Dimensions::TwoDimensional));

    let crosses = matrix_from("0F1FF0102");
    assert!(crosses.is_crosses(Dimensions::OneDimensional, Dimensions::OneDimensional));
}

#[test]
fn contains_reads_as_within_from_the_other_side() {
    // Containment duality on a concrete matrix: transpose swaps the roles.
    let contains = matrix_from("212FF1FF2");
    let transposed = contains.transpose();
    assert!(transposed.is_within());
    assert!(!transposed.is_contains());
    assert!(transposed.transpose() == contains);
}

#[test]
fn covers_implies_intersects_on_a_concrete_matrix() {
    let covers = matrix_from("F1F10FFF2");
    assert!(covers.is_covers());
    assert!(covers.is_intersects());
    assert_eq!(covers.is_disjoint(), !covers.is_intersects());
}

#[test]
fn set_at_least_only_raises_cells() {
    let mut m = IntersectionMatrix::new();
    m.set_at_least(CoordPos::Inside, CoordPos::Inside, Dimensions::OneDimensional);
    assert_eq!(m.get(CoordPos::Inside, CoordPos::Inside), Dimensions::OneDimensional);
    m.set_at_least(CoordPos::Inside, CoordPos::Inside, Dimensions::ZeroDimensional);
    assert_eq!(m.get(CoordPos::Inside, CoordPos::Inside), Dimensions::OneDimensional);
    m.set_at_least(CoordPos::Inside, CoordPos::Inside, Dimensions::TwoDimensional);
    assert_eq!(m.get(CoordPos::Inside, CoordPos::Inside), Dimensions::TwoDimensional);
}

#[test]
fn set_at_least_if_valid_ignores_unknown_positions() {
    let mut m = IntersectionMatrix::new();
    m.set_at_least_if_valid(None, Some(CoordPos::Inside), Dimensions::TwoDimensional);
    m.set_at_least_if_valid(Some(CoordPos::Inside), None, Dimensions::TwoDimensional);
    assert!(m == IntersectionMatrix::new());
    m.set_at_least_if_valid(
        Some(CoordPos::OnBoundary),
        Some(CoordPos::Outside),
        Dimensions::OneDimensional,
    );
    assert_eq!(m.get(CoordPos::OnBoundary, CoordPos::Outside), Dimensions::OneDimensional);
}

#[test]
fn every_cell_starts_empty() {
    let m = IntersectionMatrix::new();
    for pa in [CoordPos::Inside, CoordPos::OnBoundary, CoordPos::Outside] {
        for pb in [CoordPos::Inside, CoordPos::OnBoundary, CoordPos::Outside] {
            assert_eq!(m.get(pa, pb), Dimensions::Empty);
        }
    }
}
