//! The input geometries the relate engine accepts, their validity rules,
//! and exact point location against them.

use vstd::prelude::*;

use crate::coord::Coord;
use crate::coord::Line;
use crate::kernel::{on_segment, spec_cross, spec_on_segment};
use crate::position::{CoordPos, Dimensions};

verus! {

/// A polygon: one exterior ring and any number of hole rings.
#[derive(Clone, Debug)]
pub struct PolygonGeom {
    pub exterior: Vec<Coord>,
    pub interiors: Vec<Vec<Coord>>,
}

/// A planar geometry: points, line strings, polygons, and their
/// multi-part variants.
#[derive(Clone, Debug)]
pub enum Geometry {
    Point(Coord),
    MultiPoint(Vec<Coord>),
    LineString(Vec<Coord>),
    MultiLineString(Vec<Vec<Coord>>),
    Polygon(PolygonGeom),
    MultiPolygon(Vec<PolygonGeom>),
}

/// A line string is valid when it has at least two vertices, all in
/// range, and no zero-length segment.
pub open spec fn valid_linestring(coords: Seq<Coord>) -> bool {
    &&& coords.len() >= 2
    &&& forall|i: int| 0 <= i < coords.len() ==> (#[trigger] coords[i]).is_valid()
    &&& forall|i: int| 0 <= i < coords.len() - 1 ==> (#[trigger] coords[i]) != coords[i + 1]
}

/// A ring is valid when it is a closed line string of at least four
/// vertices (three distinct corners plus the repeated first one).
pub open spec fn valid_ring(coords: Seq<Coord>) -> bool {
    &&& valid_linestring(coords)
    &&& coords.len() >= 4
    &&& coords[0] == coords[coords.len() - 1]
}

pub open spec fn valid_polygon(polygon: PolygonGeom) -> bool {
    &&& valid_ring(polygon.exterior@)
    &&& forall|i: int| 0 <= i < polygon.interiors@.len() ==> valid_ring(#[trigger] polygon.interiors@[i]@)
}

/// The validity a geometry must have for its topology to be defined: no
/// empty parts, coordinates in range, no degenerate ring or zero-length
/// segment.
pub open spec fn valid_geometry(geometry: Geometry) -> bool {
    match geometry {
        Geometry::Point(c) => c.is_valid(),
        Geometry::MultiPoint(cs) => cs@.len() >= 1 && forall|i: int|
            0 <= i < cs@.len() ==> (#[trigger] cs@[i]).is_valid(),
        Geometry::LineString(cs) => valid_linestring(cs@),
        Geometry::MultiLineString(ls) => ls@.len() >= 1 && forall|i: int|
            0 <= i < ls@.len() ==> valid_linestring((#[trigger] ls@[i])@),
        Geometry::Polygon(p) => valid_polygon(p),
        Geometry::MultiPolygon(ps) => ps@.len() >= 1 && forall|i: int|
            0 <= i < ps@.len() ==> valid_polygon(#[trigger] ps@[i]),
    }
}

/// The dimension of a geometry: points are 0-, lines 1-, polygons
/// 2-dimensional.
pub open spec fn spec_dimension(geometry: Geometry) -> Dimensions {
    match geometry {
        Geometry::Point(_) => Dimensions::ZeroDimensional,
        Geometry::MultiPoint(_) => Dimensions::ZeroDimensional,
        Geometry::LineString(_) => Dimensions::OneDimensional,
        Geometry::MultiLineString(_) => Dimensions::OneDimensional,
        Geometry::Polygon(_) => Dimensions::TwoDimensional,
        Geometry::MultiPolygon(_) => Dimensions::TwoDimensional,
    }
}

fn check_linestring(coords: &Vec<Coord>) -> (r: bool)
    ensures
        r == valid_linestring(coords@),
{
    let len = coords.len();
    if len < 2 {
        return false;
    }
    let mut i: usize = 0;
    while i < len
        invariant
            0 <= i <= len,
            len == coords@.len(),
            forall|j: int| 0 <= j < i ==> (#[trigger] coords@[j]).is_valid(),
        decreases len - i,
    {
        if !coords[i].in_range() {
            return false;
        }
        i += 1;
    }
    let mut k: usize = 0;
    while k < len - 1
        invariant
            0 <= k <= len - 1,
            len == coords@.len(),
            len >= 2,
            forall|j: int| 0 <= j < k ==> (#[trigger] coords@[j]) != coords@[j + 1],
        decreases len - k,
    {
        if coords[k] == coords[k + 1] {
            return false;
        }
        k += 1;
    }
    true
}

fn check_ring(coords: &Vec<Coord>) -> (r: bool)
    ensures
        r == valid_ring(coords@),
{
    if !check_linestring(coords) {
        return false;
    }
    let len = coords.len();
    len >= 4 && coords[0] == coords[len - 1]
}

fn check_polygon(polygon: &PolygonGeom) -> (r: bool)
    ensures
        r == valid_polygon(*polygon),
{
    if !check_ring(&polygon.exterior) {
        return false;
    }
    let count = polygon.interiors.len();
    let mut i: usize = 0;
    while i < count
        invariant
            0 <= i <= count,
            count == polygon.interiors@.len(),
            forall|j: int| 0 <= j < i ==> valid_ring((#[trigger] polygon.interiors@[j])@),
        decreases count - i,
    {
        if !check_ring(&polygon.interiors[i]) {
            return false;
        }
        i += 1;
    }
    true
}

impl Geometry {
    /// Whether the geometry is valid input for the relate engine.
    pub fn is_valid_geometry(&self) -> (r: bool)
        ensures
            r == valid_geometry(*self),
    {
        match self {
            Geometry::Point(c) => c.in_range(),
            Geometry::MultiPoint(cs) => {
                let len = cs.len();
                if len < 1 {
                    return false;
                }
                let mut i: usize = 0;
                while i < len
                    invariant
                        0 <= i <= len,
                        len == cs@.len(),
                        *self == Geometry::MultiPoint(*cs),
                        forall|j: int| 0 <= j < i ==> (#[trigger] cs@[j]).is_valid(),
                    decreases len - i,
                {
                    if !cs[i].in_range() {
                        return false;
                    }
                    i += 1;
                }
                true
            },
            Geometry::LineString(cs) => check_linestring(cs),
            Geometry::MultiLineString(ls) => {
                let len = ls.len();
                if len < 1 {
                    return false;
                }
                let mut i: usize = 0;
                while i < len
                    invariant
                        0 <= i <= len,
                        len == ls@.len(),
                        *self == Geometry::MultiLineString(*ls),
                        forall|j: int| 0 <= j < i ==> valid_linestring((#[trigger] ls@[j])@),
                    decreases len - i,
                {
                    if !check_linestring(&ls[i]) {
                        return false;
                    }
                    i += 1;
                }
                true
            },
            Geometry::Polygon(p) => check_polygon(p),
            Geometry::MultiPolygon(ps) => {
                let len = ps.len();
                if len < 1 {
                    return false;
                }
                let mut i: usize = 0;
                while i < len
                    invariant
                        0 <= i <= len,
                        len == ps@.len(),
                        *self == Geometry::MultiPolygon(*ps),
                        forall|j: int| 0 <= j < i ==> valid_polygon(#[trigger] ps@[j]),
                    decreases len - i,
                {
                    if !check_polygon(&ps[i]) {
                        return false;
                    }
                    i += 1;
                }
                true
            },
        }
    }

    /// The geometry's dimension.
    pub fn dimension(&self) -> (r: Dimensions)
        ensures
            r == spec_dimension(*self),
    {
        match self {
            Geometry::Point(_) => Dimensions::ZeroDimensional,
            Geometry::MultiPoint(_) => Dimensions::ZeroDimensional,
            Geometry::LineString(_) => Dimensions::OneDimensional,
            Geometry::MultiLineString(_) => Dimensions::OneDimensional,
            Geometry::Polygon(_) => Dimensions::TwoDimensional,
            Geometry::MultiPolygon(_) => Dimensions::TwoDimensional,
        }
    }
}

/// Whether the segment `(a, b)` crosses the horizontal ray running left
/// from `p`: its endpoints straddle the ray's line, and `p` sits on the
/// side of the segment that puts the crossing strictly left of it — the
/// orientation sign gives that exactly, with the half-open straddle test
/// counting each vertex for only one of its two segments. Segments
/// through `p` itself are handled separately by the boundary test.
pub open spec fn spec_ray_crossing(a: Coord, b: Coord, p: Coord) -> bool {
    &&& ((a.y > p.y) != (b.y > p.y))
    &&& (if b.y > a.y {
        spec_cross(a, b, p) > 0
    } else {
        spec_cross(a, b, p) < 0
    })
}

/// How many of the first `n` segments of the ring cross the ray from
/// `p`.
pub open spec fn spec_crossings_upto(p: Coord, ring: Seq<Coord>, n: int) -> nat
    decreases n,
{
    if n <= 0 {
        0
    } else {
        spec_crossings_upto(p, ring, n - 1) + if spec_ray_crossing(ring[n - 1], ring[n], p) {
            1nat
        } else {
            0nat
        }
    }
}

/// The `i`-th segment of a ring or line string.
pub open spec fn spec_ring_segment(ring: Seq<Coord>, i: int) -> Line {
    Line { start: ring[i], end: ring[i + 1] }
}

/// Whether `p` lies on some segment of the ring.
pub open spec fn spec_on_ring(p: Coord, ring: Seq<Coord>) -> bool {
    exists|i: int|
        0 <= i < ring.len() - 1 && #[trigger] spec_on_segment(p, spec_ring_segment(ring, i))
}

/// The position of `p` relative to the closed region bounded by one
/// ring, by the even-odd rule: on the ring itself, inside when the ray
/// from `p` crosses it an odd number of times, else outside.
pub open spec fn spec_ring_position(p: Coord, ring: Seq<Coord>) -> CoordPos {
    if spec_on_ring(p, ring) {
        CoordPos::OnBoundary
    } else if spec_crossings_upto(p, ring, ring.len() - 1) % 2 == 1 {
        CoordPos::Inside
    } else {
        CoordPos::Outside
    }
}

/// Locate a point relative to one ring, exactly.
pub fn ring_position(p: Coord, ring: &Vec<Coord>) -> (r: CoordPos)
    requires
        p.is_valid(),
        valid_ring(ring@),
    ensures
        r == spec_ring_position(p, ring@),
{
    let len = ring.len();
    let mut i: usize = 0;
    while i < len - 1
        invariant
            0 <= i <= len - 1,
            len == ring@.len(),
            len >= 4,
            p.is_valid(),
            valid_ring(ring@),
            forall|j: int|
                0 <= j < i ==> !(#[trigger] spec_on_segment(p, spec_ring_segment(ring@, j))),
        decreases len - i,
    {
        if on_segment(p, Line::new(ring[i], ring[i + 1])) {
            proof {
                assert(spec_on_segment(p, spec_ring_segment(ring@, i as int)));
            }
            return CoordPos::OnBoundary;
        }
        i += 1;
    }
    let mut crossings: usize = 0;
    let mut k: usize = 0;
    while k < len - 1
        invariant
            0 <= k <= len - 1,
            len == ring@.len(),
            len >= 4,
            p.is_valid(),
            valid_ring(ring@),
            crossings as nat == spec_crossings_upto(p, ring@, k as int),
            crossings <= k,
        decreases len - k,
    {
        let a = ring[k];
        let b = ring[k + 1];
        let straddles = (a.y > p.y) != (b.y > p.y);
        if straddles {
            let cross = crate::kernel::cross_product(a, b, p);
            let crossing = if b.y > a.y {
                cross > 0
            } else {
                cross < 0
            };
            if crossing {
                crossings += 1;
            }
        }
        k += 1;
    }
    if crossings % 2 == 1 {
        CoordPos::Inside
    } else {
        CoordPos::Outside
    }
}

/// The position of `p` relative to a polygon: on any ring it is on the
/// boundary; inside the exterior ring and outside every hole it is
/// inside; else outside.
pub open spec fn spec_polygon_position(p: Coord, polygon: PolygonGeom) -> CoordPos {
    if spec_ring_position(p, polygon.exterior@) == CoordPos::OnBoundary {
        CoordPos::OnBoundary
    } else if spec_ring_position(p, polygon.exterior@) == CoordPos::Outside {
        CoordPos::Outside
    } else if exists|i: int|
        0 <= i < polygon.interiors@.len() && spec_ring_position(p, (#[trigger] polygon.interiors@[i])@)
            == CoordPos::OnBoundary {
        CoordPos::OnBoundary
    } else if exists|i: int|
        0 <= i < polygon.interiors@.len() && spec_ring_position(p, (#[trigger] polygon.interiors@[i])@)
            == CoordPos::Inside {
        CoordPos::Outside
    } else {
        CoordPos::Inside
    }
}

/// Locate a point relative to a polygon, exactly.
pub fn polygon_position(p: Coord, polygon: &PolygonGeom) -> (r: CoordPos)
    requires
        p.is_valid(),
        valid_polygon(*polygon),
    ensures
        r == spec_polygon_position(p, *polygon),
{
    let exterior = ring_position(p, &polygon.exterior);
    if matches!(exterior, CoordPos::OnBoundary) {
        return CoordPos::OnBoundary;
    }
    if matches!(exterior, CoordPos::Outside) {
        return CoordPos::Outside;
    }
    let count = polygon.interiors.len();
    let mut i: usize = 0;
    while i < count
        invariant
            0 <= i <= count,
            count == polygon.interiors@.len(),
            p.is_valid(),
            valid_polygon(*polygon),
            spec_ring_position(p, polygon.exterior@) == CoordPos::Inside,
            forall|j: int|
                0 <= j < i ==> spec_ring_position(p, (#[trigger] polygon.interiors@[j])@)
                    != CoordPos::OnBoundary,
        decreases count - i,
    {
        let hole = ring_position(p, &polygon.interiors[i]);
        if matches!(hole, CoordPos::OnBoundary) {
            proof {
                assert(spec_ring_position(p, (polygon.interiors@[i as int])@)
                    == CoordPos::OnBoundary);
            }
            return CoordPos::OnBoundary;
        }
        i += 1;
    }
    let mut k: usize = 0;
    while k < count
        invariant
            0 <= k <= count,
            count == polygon.interiors@.len(),
            p.is_valid(),
            valid_polygon(*polygon),
            spec_ring_position(p, polygon.exterior@) == CoordPos::Inside,
            forall|j: int|
                0 <= j < count ==> spec_ring_position(p, (#[trigger] polygon.interiors@[j])@)
                    != CoordPos::OnBoundary,
            forall|j: int|
                0 <= j < k ==> spec_ring_position(p, (#[trigger] polygon.interiors@[j])@)
                    != CoordPos::Inside,
        decreases count - k,
    {
        let hole = ring_position(p, &polygon.interiors[k]);
        if matches!(hole, CoordPos::Inside) {
            proof {
                assert(spec_ring_position(p, (polygon.interiors@[k as int])@) == CoordPos::Inside);
            }
            return CoordPos::Outside;
        }
        k += 1;
    }
    CoordPos::Inside
}

/// Whether `p` lies on the interior or boundary of some segment of the
/// line string — anywhere on it as a point set.
pub open spec fn spec_on_linestring(p: Coord, coords: Seq<Coord>) -> bool {
    exists|i: int|
        0 <= i < coords.len() - 1 && #[trigger] spec_on_segment(p, spec_ring_segment(coords, i))
}

/// Whether `p` lies on the line string, decided exactly.
pub fn on_linestring(p: Coord, coords: &Vec<Coord>) -> (r: bool)
    requires
        p.is_valid(),
        valid_linestring(coords@),
    ensures
        r == spec_on_linestring(p, coords@),
{
    let len = coords.len();
    let mut i: usize = 0;
    while i < len - 1
        invariant
            0 <= i <= len - 1,
            len == coords@.len(),
            len >= 2,
            p.is_valid(),
            valid_linestring(coords@),
            forall|j: int|
                0 <= j < i ==> !(#[trigger] spec_on_segment(p, spec_ring_segment(coords@, j))),
        decreases len - i,
    {
        if on_segment(p, Line::new(coords[i], coords[i + 1])) {
            proof {
                assert(spec_on_segment(p, spec_ring_segment(coords@, i as int)));
            }
            return true;
        }
        i += 1;
    }
    false
}

/// How many of the line strings have `p` as one of their two end
/// points; the boundary of a multi-line consists of the points with an
/// odd count (the Mod-2 rule).
pub open spec fn spec_endpoint_count(p: Coord, lines: Seq<Vec<Coord>>, n: int) -> nat
    decreases n,
{
    if n <= 0 {
        0
    } else {
        spec_endpoint_count(p, lines, n - 1) + spec_line_endpoint_count(p, lines[n - 1]@)
    }
}

/// How many of one line string's two end points equal `p`; a closed
/// line string has no boundary and counts nothing.
pub open spec fn spec_line_endpoint_count(p: Coord, coords: Seq<Coord>) -> nat {
    if coords[0] == coords[coords.len() - 1] {
        0
    } else {
        (if coords[0] == p {
            1nat
        } else {
            0nat
        }) + (if coords[coords.len() - 1] == p {
            1nat
        } else {
            0nat
        })
    }
}

/// The position of `p` relative to a whole geometry as a point set: the
/// boundary is decided first (for lines by the Mod-2 endpoint rule), then
/// the interior, else the exterior.
pub open spec fn spec_locate(p: Coord, geometry: Geometry) -> CoordPos {
    match geometry {
        Geometry::Point(c) => if p == c {
            CoordPos::Inside
        } else {
            CoordPos::Outside
        },
        Geometry::MultiPoint(cs) => if exists|i: int| 0 <= i < cs@.len() && #[trigger] cs@[i] == p {
            CoordPos::Inside
        } else {
            CoordPos::Outside
        },
        Geometry::LineString(cs) => if spec_line_endpoint_count(p, cs@) % 2 == 1 {
            CoordPos::OnBoundary
        } else if spec_on_linestring(p, cs@) {
            CoordPos::Inside
        } else {
            CoordPos::Outside
        },
        Geometry::MultiLineString(ls) => if spec_endpoint_count(p, ls@, ls@.len() as int) % 2
            == 1 {
            CoordPos::OnBoundary
        } else if exists|i: int|
            0 <= i < ls@.len() && spec_on_linestring(p, (#[trigger] ls@[i])@) {
            CoordPos::Inside
        } else {
            CoordPos::Outside
        },
        Geometry::Polygon(poly) => spec_polygon_position(p, poly),
        Geometry::MultiPolygon(ps) => if exists|i: int|
            0 <= i < ps@.len() && spec_polygon_position(p, #[trigger] ps@[i])
                == CoordPos::OnBoundary {
            CoordPos::OnBoundary
        } else if exists|i: int|
            0 <= i < ps@.len() && spec_polygon_position(p, #[trigger] ps@[i]) == CoordPos::Inside {
            CoordPos::Inside
        } else {
            CoordPos::Outside
        },
    }
}

/// Locate a point relative to a whole geometry, exactly.
pub fn locate(p: Coord, geometry: &Geometry) -> (r: CoordPos)
    requires
        p.is_valid(),
        valid_geometry(*geometry),
    ensures
        r == spec_locate(p, *geometry),
{
    match geometry {
        Geometry::Point(c) => {
            if p == *c {
                CoordPos::Inside
            } else {
                CoordPos::Outside
            }
        },
        Geometry::MultiPoint(cs) => {
            let len = cs.len();
            let mut i: usize = 0;
            while i < len
                invariant
                    0 <= i <= len,
                    len == cs@.len(),
                    *geometry == Geometry::MultiPoint(*cs),
                    forall|j: int| 0 <= j < i ==> (#[trigger] cs@[j]) != p,
                decreases len - i,
            {
                if cs[i] == p {
                    proof {
                        assert((*geometry)->MultiPoint_0 == *cs);
                        assert(exists|j: int|
                            0 <= j < ((*geometry)->MultiPoint_0)@.len() && #[trigger] ((
                            *geometry)->MultiPoint_0)@[j] == p) by {
                            assert(((*geometry)->MultiPoint_0)@[i as int] == p);
                        }
                    }
                    return CoordPos::Inside;
                }
                i += 1;
            }
            CoordPos::Outside
        },
        Geometry::LineString(cs) => {
            if line_endpoint_parity_is_odd(p, cs) {
                CoordPos::OnBoundary
            } else if on_linestring(p, cs) {
                CoordPos::Inside
            } else {
                CoordPos::Outside
            }
        },
        Geometry::MultiLineString(ls) => {
            let len = ls.len();
            let mut odd = false;
            let mut i: usize = 0;
            while i < len
                invariant
                    0 <= i <= len,
                    len == ls@.len(),
                    *geometry == Geometry::MultiLineString(*ls),
                    valid_geometry(Geometry::MultiLineString(*ls)),
                    odd == (spec_endpoint_count(p, ls@, i as int) % 2 == 1),
                decreases len - i,
            {
                let coords = &ls[i];
                let last = coords.len() - 1;
                let mut contribution: usize = 0;
                if !(coords[0] == coords[last]) {
                    if coords[0] == p {
                        contribution += 1;
                    }
                    if coords[last] == p {
                        contribution += 1;
                    }
                }
                proof {
                    assert(contribution as nat == spec_line_endpoint_count(p, ls@[i as int]@));
                }
                if contribution % 2 == 1 {
                    odd = !odd;
                }
                i += 1;
            }
            if odd {
                return CoordPos::OnBoundary;
            }
            let mut k: usize = 0;
            while k < len
                invariant
                    0 <= k <= len,
                    len == ls@.len(),
                    p.is_valid(),
                    *geometry == Geometry::MultiLineString(*ls),
                    valid_geometry(Geometry::MultiLineString(*ls)),
                    spec_endpoint_count(p, ls@, len as int) % 2 != 1,
                    forall|j: int| 0 <= j < k ==> !spec_on_linestring(p, (#[trigger] ls@[j])@),
                decreases len - k,
            {
                if on_linestring(p, &ls[k]) {
                    return CoordPos::Inside;
                }
                k += 1;
            }
            CoordPos::Outside
        },
        Geometry::Polygon(poly) => polygon_position(p, poly),
        Geometry::MultiPolygon(ps) => {
            let len = ps.len();
            let mut i: usize = 0;
            while i < len
                invariant
                    0 <= i <= len,
                    len == ps@.len(),
                    p.is_valid(),
                    *geometry == Geometry::MultiPolygon(*ps),
                    valid_geometry(Geometry::MultiPolygon(*ps)),
                    forall|j: int|
                        0 <= j < i ==> spec_polygon_position(p, #[trigger] ps@[j])
                            != CoordPos::OnBoundary,
                decreases len - i,
            {
                if matches!(polygon_position(p, &ps[i]), CoordPos::OnBoundary) {
                    proof {
                        assert(spec_polygon_position(p, ps@[i as int]) == CoordPos::OnBoundary);
                    }
                    return CoordPos::OnBoundary;
                }
                i += 1;
            }
            let mut k: usize = 0;
            while k < len
                invariant
                    0 <= k <= len,
                    len == ps@.len(),
                    p.is_valid(),
                    *geometry == Geometry::MultiPolygon(*ps),
                    valid_geometry(Geometry::MultiPolygon(*ps)),
                    forall|j: int|
                        0 <= j < len ==> spec_polygon_position(p, #[trigger] ps@[j])
                            != CoordPos::OnBoundary,
                    forall|j: int|
                        0 <= j < k ==> spec_polygon_position(p, #[trigger] ps@[j])
                            != CoordPos::Inside,
                decreases len - k,
            {
                if matches!(polygon_position(p, &ps[k]), CoordPos::Inside) {
                    proof {
                        assert(spec_polygon_position(p, ps@[k as int]) == CoordPos::Inside);
                    }
                    return CoordPos::Inside;
                }
                k += 1;
            }
            CoordPos::Outside
        },
    }
}

/// Whether `p` is an end point of the open line string an odd number of
/// times — that is, once.
fn line_endpoint_parity_is_odd(p: Coord, coords: &Vec<Coord>) -> (r: bool)
    requires
        valid_linestring(coords@),
    ensures
        r == (spec_line_endpoint_count(p, coords@) % 2 == 1),
{
    let last = coords.len() - 1;
    if coords[0] == coords[last] {
        return false;
    }
    let mut count: usize = 0;
    if coords[0] == p {
        count += 1;
    }
    if coords[last] == p {
        count += 1;
    }
    count % 2 == 1
}

/// Whether `l` is one of the polygon's boundary segments, on the
/// exterior ring or on a hole.
pub open spec fn spec_polygon_has_segment(polygon: PolygonGeom, l: Line) -> bool {
    ||| exists|s: int|
        0 <= s < polygon.exterior@.len() - 1 && l == #[trigger] spec_ring_segment(
            polygon.exterior@,
            s,
        )
    ||| exists|h: int, s: int|
        0 <= h < polygon.interiors@.len() && 0 <= s < polygon.interiors@[h]@.len() - 1 && l
            == #[trigger] spec_ring_segment(polygon.interiors@[h]@, s)
}

/// Whether `l` is one of the geometry's segments: a segment of one of
/// its line strings or rings. Point geometries have none.
pub open spec fn spec_geometry_has_segment(geometry: Geometry, l: Line) -> bool {
    match geometry {
        Geometry::Point(_) => false,
        Geometry::MultiPoint(_) => false,
        Geometry::LineString(cs) => exists|s: int|
            0 <= s < cs@.len() - 1 && l == #[trigger] spec_ring_segment(cs@, s),
        Geometry::MultiLineString(ls) => exists|p: int, s: int|
            0 <= p < ls@.len() && 0 <= s < ls@[p]@.len() - 1 && l == #[trigger] spec_ring_segment(
                ls@[p]@,
                s,
            ),
        Geometry::Polygon(poly) => spec_polygon_has_segment(poly, l),
        Geometry::MultiPolygon(ps) => exists|p: int|
            0 <= p < ps@.len() && spec_polygon_has_segment(#[trigger] ps@[p], l),
    }
}

/// Twice the signed area of a ring, by the shoelace sum: positive for a
/// counter-clockwise ring.
pub open spec fn spec_signed_area2(ring: Seq<Coord>, n: int) -> int
    decreases n,
{
    if n <= 0 {
        0
    } else {
        spec_signed_area2(ring, n - 1) + (ring[n - 1].x * ring[n].y - ring[n].x * ring[n - 1].y)
    }
}

/// Whether a ring winds counter-clockwise: its signed area is positive.
pub open spec fn spec_ring_is_ccw(ring: Seq<Coord>) -> bool {
    spec_signed_area2(ring, ring.len() - 1) > 0
}

/// Whether the ring winds counter-clockwise, decided exactly from the
/// signed area.
pub fn ring_is_ccw(ring: &Vec<Coord>) -> (r: bool)
    requires
        valid_ring(ring@),
    ensures
        r == spec_ring_is_ccw(ring@),
{
    let len = ring.len();
    let mut sum: i128 = 0;
    let mut k: usize = 0;
    while k < len - 1
        invariant
            0 <= k <= len - 1,
            len == ring@.len(),
            len >= 4,
            valid_ring(ring@),
            sum as int == spec_signed_area2(ring@, k as int),
            -0x80_0000_0000_0000 * (k as int) <= sum as int <= 0x80_0000_0000_0000 * (k as int),
        decreases len - k,
    {
        let a = ring[k];
        let b = ring[k + 1];
        proof {
            assert(-0x40_0000_0000_0000 <= (a.x as i128) * (b.y as i128) <= 0x40_0000_0000_0000
                && -0x40_0000_0000_0000 <= (b.x as i128) * (a.y as i128) <= 0x40_0000_0000_0000)
                by (nonlinear_arith)
                requires
                    -0x10_0000 <= a.x <= 0x10_0000,
                    -0x10_0000 <= a.y <= 0x10_0000,
                    -0x10_0000 <= b.x <= 0x10_0000,
                    -0x10_0000 <= b.y <= 0x10_0000,
            ;
        }
        let term = (a.x as i128) * (b.y as i128) - (b.x as i128) * (a.y as i128);
        proof {
            assert((k as int) < 0x1_0000_0000_0000_0000) by {
                assert(len <= usize::MAX);
            }
            assert(-0x80_0000_0000_0000 * (k as int + 1) <= sum as int + term as int
                <= 0x80_0000_0000_0000 * (k as int + 1)) by (nonlinear_arith)
                requires
                    -0x80_0000_0000_0000 * (k as int) <= sum as int <= 0x80_0000_0000_0000 * (
                    k as int),
                    -0x80_0000_0000_0000 <= term as int <= 0x80_0000_0000_0000,
            ;
            assert(0x80_0000_0000_0000 * (k as int + 1) <= 0x80_0000_0000_0000
                * 0x1_0000_0000_0000_0000) by (nonlinear_arith)
                requires
                    0 <= (k as int) < 0x1_0000_0000_0000_0000,
            ;
        }
        sum = sum + term;
        k += 1;
    }
    sum > 0
}

} // verus!
