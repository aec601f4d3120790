//! The exact geometric kernel: orientation of point triples, segment
//! intersection, and distance along a segment.
//!
//! Coordinates are integers within [`COORD_LIMIT`](crate::coord::COORD_LIMIT),
//! so every sign decision here is computed exactly; the only rounding in
//! the whole kernel is the final snap of a proper intersection point to
//! the integer grid, and its error is bounded by half a unit in each
//! coordinate.

use vstd::arithmetic::div_mod::lemma_fundamental_div_mod;
use vstd::prelude::*;

use crate::coord::{Coord, Line};

verus! {

/// The turn direction of the point triple `(p, q, r)`.
#[derive(Clone, Copy, Debug, PartialEq, Eq, Structural)]
pub enum Orientation {
    Clockwise,
    CounterClockwise,
    Collinear,
}

/// Twice the signed area of the triangle `(a, b, c)`: positive for a
/// counter-clockwise turn, negative for clockwise, zero for collinear
/// points.
pub open spec fn spec_cross(a: Coord, b: Coord, c: Coord) -> int {
    (b.x - a.x) * (c.y - a.y) - (b.y - a.y) * (c.x - a.x)
}

/// The orientation named by the sign of a cross product.
pub open spec fn orientation_of_sign(cross: int) -> Orientation {
    if cross > 0 {
        Orientation::CounterClockwise
    } else if cross < 0 {
        Orientation::Clockwise
    } else {
        Orientation::Collinear
    }
}

pub open spec fn iabs(a: int) -> int {
    if a < 0 {
        -a
    } else {
        a
    }
}

pub open spec fn imin(a: int, b: int) -> int {
    if a <= b {
        a
    } else {
        b
    }
}

pub open spec fn imax(a: int, b: int) -> int {
    if a >= b {
        a
    } else {
        b
    }
}

/// Whether `p` lies inside the bounding box of segment `l`.
pub open spec fn spec_in_box(p: Coord, l: Line) -> bool {
    &&& imin(l.start.x as int, l.end.x as int) <= p.x <= imax(l.start.x as int, l.end.x as int)
    &&& imin(l.start.y as int, l.end.y as int) <= p.y <= imax(l.start.y as int, l.end.y as int)
}

/// Whether `p` lies on the closed segment `l`: collinear with it and
/// inside its bounding box.
pub open spec fn spec_on_segment(p: Coord, l: Line) -> bool {
    spec_cross(l.start, l.end, p) == 0 && spec_in_box(p, l)
}

/// Whether the two segments cross properly: each one's endpoints lie
/// strictly on opposite sides of the other's supporting line, so the
/// unique common point is interior to both.
pub open spec fn spec_properly_cross(l1: Line, l2: Line) -> bool {
    &&& spec_cross(l2.start, l2.end, l1.start) * spec_cross(l2.start, l2.end, l1.end) < 0
    &&& spec_cross(l1.start, l1.end, l2.start) * spec_cross(l1.start, l1.end, l2.end) < 0
}

/// Whether the closed segments share at least one point: either a proper
/// crossing, or some endpoint of one lying on the other.
pub open spec fn spec_segments_intersect(l1: Line, l2: Line) -> bool {
    ||| spec_properly_cross(l1, l2)
    ||| spec_on_segment(l1.start, l2)
    ||| spec_on_segment(l1.end, l2)
    ||| spec_on_segment(l2.start, l1)
    ||| spec_on_segment(l2.end, l1)
}

/// Whether the four endpoints are all collinear: the segments lie on one
/// supporting line.
pub open spec fn spec_collinear_segments(l1: Line, l2: Line) -> bool {
    &&& spec_cross(l2.start, l2.end, l1.start) == 0
    &&& spec_cross(l2.start, l2.end, l1.end) == 0
    &&& spec_cross(l1.start, l1.end, l2.start) == 0
    &&& spec_cross(l1.start, l1.end, l2.end) == 0
}

/// The denominator of the rational parameters of the intersection of the
/// two supporting lines: the cross product of the direction vectors. Zero
/// exactly for parallel lines.
pub open spec fn spec_intersection_den(l1: Line, l2: Line) -> int {
    (l1.end.x - l1.start.x) * (l2.end.y - l2.start.y) - (l1.end.y - l1.start.y) * (l2.end.x
        - l2.start.x)
}

/// The numerator of the x coordinate of the supporting lines'
/// intersection point, over [`spec_intersection_den`].
pub open spec fn spec_intersection_num_x(l1: Line, l2: Line) -> int {
    l1.start.x * spec_intersection_den(l1, l2) + spec_cross(l2.start, l2.end, l1.start) * (l1.end.x
        - l1.start.x)
}

/// The numerator of the y coordinate of the supporting lines'
/// intersection point, over [`spec_intersection_den`].
pub open spec fn spec_intersection_num_y(l1: Line, l2: Line) -> int {
    l1.start.y * spec_intersection_den(l1, l2) + spec_cross(l2.start, l2.end, l1.start) * (l1.end.y
        - l1.start.y)
}

/// The result of intersecting two segments that do intersect: either a
/// single shared point — proper when it is interior to both segments —
/// or a shared collinear piece of positive length.
#[derive(Clone, Copy, Debug, PartialEq, Eq, Structural)]
pub enum LineIntersection {
    SinglePoint { intersection: Coord, is_proper: bool },
    Collinear { intersection: Line },
}

impl LineIntersection {
    /// Whether this is a proper single-point intersection.
    pub fn is_proper(&self) -> (r: bool)
        ensures
            r == (self matches LineIntersection::SinglePoint { is_proper: true, .. }),
    {
        matches!(self, LineIntersection::SinglePoint { is_proper: true, .. })
    }
}

/// The exact cross product of `(b - a)` and `(c - a)` in 128-bit
/// arithmetic.
pub fn cross_product(a: Coord, b: Coord, c: Coord) -> (r: i128)
    requires
        a.is_valid(),
        b.is_valid(),
        c.is_valid(),
    ensures
        r as int == spec_cross(a, b, c),
        -0x2000_0000_0000 <= r <= 0x2000_0000_0000,
{
    let bax = b.x as i128 - a.x as i128;
    let bay = b.y as i128 - a.y as i128;
    let cax = c.x as i128 - a.x as i128;
    let cay = c.y as i128 - a.y as i128;
    proof {
        assert(-0x1000_0000_0000 <= bax * cay <= 0x1000_0000_0000 && -0x1000_0000_0000 <= bay * cax
            <= 0x1000_0000_0000) by (nonlinear_arith)
            requires
                -0x20_0000 <= bax <= 0x20_0000,
                -0x20_0000 <= bay <= 0x20_0000,
                -0x20_0000 <= cax <= 0x20_0000,
                -0x20_0000 <= cay <= 0x20_0000,
        ;
    }
    bax * cay - bay * cax
}

/// The orientation of the point triple `(a, b, c)`, decided exactly.
pub fn orient2d(a: Coord, b: Coord, c: Coord) -> (r: Orientation)
    requires
        a.is_valid(),
        b.is_valid(),
        c.is_valid(),
    ensures
        r == orientation_of_sign(spec_cross(a, b, c)),
{
    let cross = cross_product(a, b, c);
    if cross > 0 {
        Orientation::CounterClockwise
    } else if cross < 0 {
        Orientation::Clockwise
    } else {
        Orientation::Collinear
    }
}

/// Whether `p` lies inside the bounding box of `l`.
fn in_box(p: Coord, l: Line) -> (r: bool)
    ensures
        r == spec_in_box(p, l),
{
    let min_x = if l.start.x <= l.end.x {
        l.start.x
    } else {
        l.end.x
    };
    let max_x = if l.start.x >= l.end.x {
        l.start.x
    } else {
        l.end.x
    };
    let min_y = if l.start.y <= l.end.y {
        l.start.y
    } else {
        l.end.y
    };
    let max_y = if l.start.y >= l.end.y {
        l.start.y
    } else {
        l.end.y
    };
    min_x <= p.x && p.x <= max_x && min_y <= p.y && p.y <= max_y
}

/// Whether `p` lies on the closed segment `l`, decided exactly.
pub fn on_segment(p: Coord, l: Line) -> (r: bool)
    requires
        p.is_valid(),
        l.is_valid(),
    ensures
        r == spec_on_segment(p, l),
{
    let cross = cross_product(l.start, l.end, p);
    cross == 0 && in_box(p, l)
}

/// Division rounded to the nearest integer (ties may go either way): the
/// result differs from the exact quotient by at most half.
fn round_div(num: i128, den: i128) -> (r: i128)
    requires
        den != 0,
        -0x1_0000_0000_0000_0000_0000_0000 <= num <= 0x1_0000_0000_0000_0000_0000_0000,
        -0x1_0000_0000_0000_0000_0000_0000 <= den <= 0x1_0000_0000_0000_0000_0000_0000,
    ensures
        2 * iabs(r * den - num) <= iabs(den as int),
{
    let num_neg = num < 0;
    let den_neg = den < 0;
    let a: u128 = if num_neg {
        (-num) as u128
    } else {
        num as u128
    };
    let b: u128 = if den_neg {
        (-den) as u128
    } else {
        den as u128
    };
    let q = a / b;
    let rem = a % b;
    proof {
        lemma_fundamental_div_mod(a as int, b as int);
        assert(q <= a) by (nonlinear_arith)
            requires
                a as int == b as int * (q as int) + (rem as int),
                b >= 1,
                q >= 0,
                rem >= 0,
        ;
    }
    let rounded: u128 = if 2 * rem >= b {
        q + 1
    } else {
        q
    };
    proof {
        assert(a as int <= 0x1_0000_0000_0000_0000_0000_0000);
        assert(rounded as int <= a as int + 1);
    }
    let magnitude = rounded as i128;
    let r = if num_neg != den_neg {
        -magnitude
    } else {
        magnitude
    };
    proof {
        assert(magnitude as int == rounded as int);
        assert(a as int == iabs(num as int));
        assert(b as int == iabs(den as int));
        let rb: int = (rounded as int) * (b as int);
        // The magnitude of the rounded quotient misses a/b by at most
        // half of b.
        if 2 * rem >= b {
            assert(rb - a == b - rem) by (nonlinear_arith)
                requires
                    rounded as int == q as int + 1,
                    a as int == (b as int) * (q as int) + (rem as int),
                    rb == (rounded as int) * (b as int),
            ;
            assert(2 * iabs(rb - a as int) <= b as int);
        } else {
            assert(rb - a == -(rem as int)) by (nonlinear_arith)
                requires
                    rounded as int == q as int,
                    a as int == (b as int) * (q as int) + (rem as int),
                    rb == (rounded as int) * (b as int),
            ;
            assert(2 * iabs(rb - a as int) <= b as int);
        }
        // Restoring the signs flips the difference at most, leaving its
        // magnitude unchanged.
        if num_neg != den_neg {
            if num_neg {
                assert((r as int) * (den as int) - num as int == -(rb - a)) by (nonlinear_arith)
                    requires
                        r as int == -(rounded as int),
                        den as int == b as int,
                        num as int == -(a as int),
                        rb == (rounded as int) * (b as int),
                ;
            } else {
                assert((r as int) * (den as int) - num as int == rb - a) by (nonlinear_arith)
                    requires
                        r as int == -(rounded as int),
                        den as int == -(b as int),
                        num as int == a as int,
                        rb == (rounded as int) * (b as int),
                ;
            }
        } else {
            if num_neg {
                assert((r as int) * (den as int) - num as int == -(rb - a)) by (nonlinear_arith)
                    requires
                        r as int == rounded as int,
                        den as int == -(b as int),
                        num as int == -(a as int),
                        rb == (rounded as int) * (b as int),
                ;
            } else {
                assert((r as int) * (den as int) - num as int == rb - a) by (nonlinear_arith)
                    requires
                        r as int == rounded as int,
                        den as int == b as int,
                        num as int == a as int,
                        rb == (rounded as int) * (b as int),
                ;
            }
        }
        assert(iabs((r as int) * (den as int) - num as int) == iabs(rb - a as int));
    }
    r
}

/// Intersect two closed, non-degenerate segments.
///
/// Returns `None` exactly when the segments share no point. A shared
/// collinear piece of positive length comes back as `Collinear`, with
/// both returned endpoints lying exactly on both segments. A single
/// shared point comes back as `SinglePoint`; it is `is_proper` exactly
/// when the segments cross each other's interiors, in which case the
/// returned coordinate is the exact rational crossing point rounded to
/// the nearest integer in each coordinate; otherwise the point is exact
/// and lies on both segments.
pub fn line_intersection(l1: Line, l2: Line) -> (r: Option<LineIntersection>)
    requires
        l1.is_valid(),
        l2.is_valid(),
        l1.start != l1.end,
        l2.start != l2.end,
    ensures
        r is None <==> !spec_segments_intersect(l1, l2),
        match r {
            Option::None => true,
            Option::Some(LineIntersection::SinglePoint { intersection, is_proper }) => {
                &&& is_proper == spec_properly_cross(l1, l2)
                &&& !is_proper ==> spec_on_segment(intersection, l1) && spec_on_segment(
                    intersection,
                    l2,
                )
                &&& is_proper ==> {
                    &&& spec_intersection_den(l1, l2) != 0
                    &&& 2 * iabs(
                        intersection.x * spec_intersection_den(l1, l2) - spec_intersection_num_x(
                            l1,
                            l2,
                        ),
                    ) <= iabs(spec_intersection_den(l1, l2))
                    &&& 2 * iabs(
                        intersection.y * spec_intersection_den(l1, l2) - spec_intersection_num_y(
                            l1,
                            l2,
                        ),
                    ) <= iabs(spec_intersection_den(l1, l2))
                    &&& spec_in_box(intersection, l1)
                }
            },
            Option::Some(LineIntersection::Collinear { intersection }) => {
                &&& spec_collinear_segments(l1, l2)
                &&& intersection.start != intersection.end
                &&& spec_on_segment(intersection.start, l1)
                &&& spec_on_segment(intersection.start, l2)
                &&& spec_on_segment(intersection.end, l1)
                &&& spec_on_segment(intersection.end, l2)
            },
        },
{
    let p1q = cross_product(l2.start, l2.end, l1.start);
    let p2q = cross_product(l2.start, l2.end, l1.end);
    let q1p = cross_product(l1.start, l1.end, l2.start);
    let q2p = cross_product(l1.start, l1.end, l2.end);
    proof {
        assert(((p1q as int) * (p2q as int) < 0) <==> (((p1q > 0) != (p2q > 0)) && p1q != 0 && p2q
            != 0)) by (nonlinear_arith);
        assert(((q1p as int) * (q2p as int) < 0) <==> (((q1p > 0) != (q2p > 0)) && q1p != 0 && q2p
            != 0)) by (nonlinear_arith);
    }

    if p1q == 0 && p2q == 0 && q1p == 0 && q2p == 0 {
        // The segments lie on one supporting line: every shared point is
        // pinned down by the endpoints, so scan those.
        collinear_intersection(l1, l2)
    } else if ((p1q > 0) != (p2q > 0)) && p1q != 0 && p2q != 0 && ((q1p > 0) != (q2p > 0)) && q1p
        != 0 && q2p != 0 {
        // Proper crossing: compute the rational crossing point and round
        // it to the grid.
        Option::Some(proper_intersection(l1, l2))
    } else {
        // Not collinear and no proper crossing: the only possible shared
        // point is an endpoint lying on the other segment.
        let single = if q1p == 0 && on_segment(l2.start, l1) {
            Option::Some(l2.start)
        } else if q2p == 0 && on_segment(l2.end, l1) {
            Option::Some(l2.end)
        } else if p1q == 0 && on_segment(l1.start, l2) {
            Option::Some(l1.start)
        } else if p2q == 0 && on_segment(l1.end, l2) {
            Option::Some(l1.end)
        } else {
            Option::None
        };
        match single {
            Option::Some(point) => Option::Some(
                LineIntersection::SinglePoint { intersection: point, is_proper: false },
            ),
            Option::None => Option::None,
        }
    }
}

/// Intersect two collinear segments by scanning the four endpoints for
/// shared points.
fn collinear_intersection(l1: Line, l2: Line) -> (r: Option<LineIntersection>)
    requires
        l1.is_valid(),
        l2.is_valid(),
        spec_collinear_segments(l1, l2),
    ensures
        r is None <==> !spec_segments_intersect(l1, l2),
        match r {
            Option::None => true,
            Option::Some(LineIntersection::SinglePoint { intersection, is_proper }) => {
                &&& is_proper == spec_properly_cross(l1, l2)
                &&& spec_on_segment(intersection, l1)
                &&& spec_on_segment(intersection, l2)
                &&& !is_proper
            },
            Option::Some(LineIntersection::Collinear { intersection }) => {
                &&& intersection.start != intersection.end
                &&& spec_on_segment(intersection.start, l1)
                &&& spec_on_segment(intersection.start, l2)
                &&& spec_on_segment(intersection.end, l1)
                &&& spec_on_segment(intersection.end, l2)
            },
        },
{
    proof {
        assert(!spec_properly_cross(l1, l2));
    }
    let mut first: Option<Coord> = Option::None;
    let mut second: Option<Coord> = Option::None;

    let c0 = l2.start;
    let c1 = l2.end;
    let c2 = l1.start;
    let c3 = l1.end;
    let on0 = on_segment(c0, l1);
    let on1 = on_segment(c1, l1);
    let on2 = on_segment(c2, l2);
    let on3 = on_segment(c3, l2);

    if on0 {
        first = Option::Some(c0);
    }
    if on1 {
        match first {
            Option::None => { first = Option::Some(c1); },
            Option::Some(f) => {
                if c1 != f {
                    second = Option::Some(c1);
                }
            },
        }
    }
    if on2 {
        match first {
            Option::None => { first = Option::Some(c2); },
            Option::Some(f) => {
                if c2 != f && second.is_none() {
                    second = Option::Some(c2);
                }
            },
        }
    }
    if on3 {
        match first {
            Option::None => { first = Option::Some(c3); },
            Option::Some(f) => {
                if c3 != f && second.is_none() {
                    second = Option::Some(c3);
                }
            },
        }
    }

    match (first, second) {
        (Option::None, _) => Option::None,
        (Option::Some(point), Option::None) => Option::Some(
            LineIntersection::SinglePoint { intersection: point, is_proper: false },
        ),
        (Option::Some(a), Option::Some(b)) => Option::Some(
            LineIntersection::Collinear { intersection: Line::new(a, b) },
        ),
    }
}

/// Compute the properly crossing segments' intersection point, rounded
/// to the nearest grid point in each coordinate.
fn proper_intersection(l1: Line, l2: Line) -> (r: LineIntersection)
    requires
        l1.is_valid(),
        l2.is_valid(),
        spec_properly_cross(l1, l2),
    ensures
        r matches LineIntersection::SinglePoint { intersection, is_proper } && {
            &&& is_proper
            &&& spec_intersection_den(l1, l2) != 0
            &&& 2 * iabs(
                intersection.x * spec_intersection_den(l1, l2) - spec_intersection_num_x(l1, l2),
            ) <= iabs(spec_intersection_den(l1, l2))
            &&& 2 * iabs(
                intersection.y * spec_intersection_den(l1, l2) - spec_intersection_num_y(l1, l2),
            ) <= iabs(spec_intersection_den(l1, l2))
            &&& spec_in_box(intersection, l1)
        },
{
    let p1x = l1.start.x as i128;
    let p1y = l1.start.y as i128;
    let rx = l1.end.x as i128 - p1x;
    let ry = l1.end.y as i128 - p1y;
    let sx = l2.end.x as i128 - l2.start.x as i128;
    let sy = l2.end.y as i128 - l2.start.y as i128;
    proof {
        assert(-0x1000_0000_0000 <= rx * sy <= 0x1000_0000_0000 && -0x1000_0000_0000 <= ry * sx
            <= 0x1000_0000_0000) by (nonlinear_arith)
            requires
                -0x20_0000 <= rx <= 0x20_0000,
                -0x20_0000 <= ry <= 0x20_0000,
                -0x20_0000 <= sx <= 0x20_0000,
                -0x20_0000 <= sy <= 0x20_0000,
        ;
    }
    let den_0 = rx * sy - ry * sx;
    let t_num_0 = cross_product(l2.start, l2.end, l1.start);
    let ghost den_spec = spec_intersection_den(l1, l2);
    let ghost t_spec = spec_cross(l2.start, l2.end, l1.start);
    proof {
        assert(den_0 as int == den_spec);
        assert(t_num_0 as int == t_spec);
        // The cross of l2 with l1's far end differs from the cross with
        // its near end by exactly the direction cross product, so a
        // proper straddle keeps the parameter strictly between 0 and 1.
        lemma_cross_difference(l1, l2);
        assert(t_spec * (t_spec - den_spec) < 0);
        assert(den_spec != 0 && ((0 < t_spec < den_spec) || (den_spec < t_spec < 0)))
            by (nonlinear_arith)
            requires
                t_spec * (t_spec - den_spec) < 0,
        ;
    }
    proof {
        assert(-0x2000_0000_0000_0000_0000 <= p1x * den_0 <= 0x2000_0000_0000_0000_0000
            && -0x2000_0000_0000_0000_0000 <= t_num_0 * rx <= 0x2000_0000_0000_0000_0000
            && -0x2000_0000_0000_0000_0000 <= p1y * den_0 <= 0x2000_0000_0000_0000_0000
            && -0x2000_0000_0000_0000_0000 <= t_num_0 * ry <= 0x2000_0000_0000_0000_0000)
            by (nonlinear_arith)
            requires
                -0x10_0000 <= p1x <= 0x10_0000,
                -0x10_0000 <= p1y <= 0x10_0000,
                -0x20_0000 <= rx <= 0x20_0000,
                -0x20_0000 <= ry <= 0x20_0000,
                -0x2000_0000_0000 <= den_0 <= 0x2000_0000_0000,
                -0x2000_0000_0000 <= t_num_0 <= 0x2000_0000_0000,
        ;
    }
    let nx = p1x * den_0 + t_num_0 * rx;
    let ny = p1y * den_0 + t_num_0 * ry;
    // Normalize so the denominator is positive; negating numerator and
    // denominator together keeps both quotients.
    let num_x: i128;
    let num_y: i128;
    let den: i128;
    if den_0 < 0 {
        num_x = -nx;
        num_y = -ny;
        den = -den_0;
    } else {
        num_x = nx;
        num_y = ny;
        den = den_0;
    }
    let ghost ft: int = if den_0 < 0 {
        -t_spec
    } else {
        t_spec
    };
    proof {
        // With a positive denominator the parameter lies in (0, den), so
        // each numerator lies between den times the coordinate extremes
        // of l1.
        assert(den > 0 && 0 < ft < den);
        assert(num_x == p1x * den + ft * rx && num_y == p1y * den + ft * ry) by (nonlinear_arith)
            requires
                (den_0 < 0 ==> num_x == -(p1x * den_0 + t_num_0 * rx) && num_y == -(p1y * den_0
                    + t_num_0 * ry) && den == -den_0 && ft == -t_num_0),
                (den_0 >= 0 ==> num_x == p1x * den_0 + t_num_0 * rx && num_y == p1y * den_0
                    + t_num_0 * ry && den == den_0 && ft == t_num_0),
        ;
        let mnx = imin(l1.start.x as int, l1.end.x as int);
        let mxx = imax(l1.start.x as int, l1.end.x as int);
        let mny = imin(l1.start.y as int, l1.end.y as int);
        let mxy = imax(l1.start.y as int, l1.end.y as int);
        assert(den * mnx <= num_x <= den * mxx) by (nonlinear_arith)
            requires
                0 < ft < den,
                num_x == p1x * den + ft * rx,
                rx == l1.end.x - p1x,
                mnx <= p1x,
                mnx <= p1x + rx,
                mxx >= p1x,
                mxx >= p1x + rx,
        ;
        assert(den * mny <= num_y <= den * mxy) by (nonlinear_arith)
            requires
                0 < ft < den,
                num_y == p1y * den + ft * ry,
                ry == l1.end.y - p1y,
                mny <= p1y,
                mny <= p1y + ry,
                mxy >= p1y,
                mxy >= p1y + ry,
        ;
    }
    let x = round_div(num_x, den);
    let y = round_div(num_y, den);
    proof {
        lemma_rounded_quotient_in_range(
            x as int,
            num_x as int,
            den as int,
            imin(l1.start.x as int, l1.end.x as int),
            imax(l1.start.x as int, l1.end.x as int),
        );
        lemma_rounded_quotient_in_range(
            y as int,
            num_y as int,
            den as int,
            imin(l1.start.y as int, l1.end.y as int),
            imax(l1.start.y as int, l1.end.y as int),
        );
        // The rounding bound is unchanged by the sign normalization.
        if den_0 < 0 {
            assert((x as int) * den_spec == -((x as int) * (den as int)) && (y as int) * den_spec
                == -((y as int) * (den as int))) by (nonlinear_arith)
                requires
                    den_spec == -(den as int),
            ;
            assert((x as int) * den_spec - spec_intersection_num_x(l1, l2) == -((x as int) * (
            den as int) - num_x));
            assert((y as int) * den_spec - spec_intersection_num_y(l1, l2) == -((y as int) * (
            den as int) - num_y));
        }
    }
    let intersection = Coord { x: x as i64, y: y as i64 };
    LineIntersection::SinglePoint { intersection, is_proper: true }
}

/// For any two segments, the orientation of `l1`'s far end about `l2`
/// differs from that of its near end by exactly the cross product of the
/// two direction vectors.
proof fn lemma_cross_difference(l1: Line, l2: Line)
    ensures
        spec_cross(l2.start, l2.end, l1.end) == spec_cross(l2.start, l2.end, l1.start)
            - spec_intersection_den(l1, l2),
{
    let ax = l1.start.x as int;
    let ay = l1.start.y as int;
    let bx = l1.end.x as int;
    let by = l1.end.y as int;
    let cx = l2.start.x as int;
    let cy = l2.start.y as int;
    let dx = l2.end.x as int;
    let dy = l2.end.y as int;
    assert((dx - cx) * (by - cy) - (dy - cy) * (bx - cx) == ((dx - cx) * (ay - cy) - (dy - cy) * (ax
        - cx)) - ((bx - ax) * (dy - cy) - (by - ay) * (dx - cx))) by (nonlinear_arith);
}

/// A quotient rounded to nearest lies within any pair of integer bounds
/// that encloses the exact quotient.
proof fn lemma_rounded_quotient_in_range(r: int, num: int, den: int, lo: int, hi: int)
    requires
        den > 0,
        lo <= hi,
        den * lo <= num <= den * hi,
        2 * iabs(r * den - num) <= iabs(den),
    ensures
        lo <= r <= hi,
{
    assert(2 * (r * den) >= 2 * num - den && 2 * (r * den) <= 2 * num + den);
    assert(2 * (r * den) >= 2 * (den * lo) - den) by (nonlinear_arith)
        requires
            2 * (r * den) >= 2 * num - den,
            num >= den * lo,
    ;
    assert(r >= lo) by (nonlinear_arith)
        requires
            2 * (r * den) >= 2 * (den * lo) - den,
            den > 0,
    ;
    assert(2 * (r * den) <= 2 * (den * hi) + den) by (nonlinear_arith)
        requires
            2 * (r * den) <= 2 * num + den,
            num <= den * hi,
    ;
    assert(r <= hi) by (nonlinear_arith)
        requires
            2 * (r * den) <= 2 * (den * hi) + den,
            den > 0,
    ;
}

/// The monotone "distance along a segment" used to order intersection
/// points on one edge: measured on the dominant axis of the segment, it
/// avoids any square root and grows strictly from the segment's start to
/// its end.
pub open spec fn spec_edge_distance(p: Coord, l: Line) -> int {
    if iabs(l.end.x - l.start.x) >= iabs(l.end.y - l.start.y) {
        iabs(p.x - l.start.x)
    } else {
        iabs(p.y - l.start.y)
    }
}

/// The distance of `p` along segment `l`, measured on the segment's
/// dominant axis.
pub fn edge_distance(p: Coord, l: Line) -> (r: i64)
    requires
        p.is_valid(),
        l.is_valid(),
    ensures
        r as int == spec_edge_distance(p, l),
        r >= 0,
{
    let dx_raw = l.end.x - l.start.x;
    let dy_raw = l.end.y - l.start.y;
    let dx = if dx_raw < 0 {
        -dx_raw
    } else {
        dx_raw
    };
    let dy = if dy_raw < 0 {
        -dy_raw
    } else {
        dy_raw
    };
    let along = if dx >= dy {
        p.x - l.start.x
    } else {
        p.y - l.start.y
    };
    if along < 0 {
        -along
    } else {
        along
    }
}

} // verus!
