//! Exact predicates on single segments: orientation, collinearity, and
//! point-in-segment containment.
//!
//! A segment is a consecutive vertex pair of a polyline. Every predicate is
//! decided with exact integer arithmetic; the executable functions widen to
//! wider machine integers so that no intermediate product can overflow.

use vstd::prelude::*;
use crate::geometry::Point;
use crate::numeric::{exact_div, lemma_factor_unique};

verus! {

broadcast use vstd::arithmetic::mul::lemma_mul_is_commutative;

/// The 2D cross product of the vectors `(ux, uy)` and `(vx, vy)`.
pub open spec fn cross(ux: int, uy: int, vx: int, vy: int) -> int {
    ux * vy - uy * vx
}

/// The orientation of `r` relative to the directed line from `p` through `q`:
/// zero exactly when the three points are collinear, positive when `r` lies
/// to the left, negative when it lies to the right.
pub open spec fn orient(p: Point, q: Point, r: Point) -> int {
    cross(q.x - p.x, q.y - p.y, r.x - p.x, r.y - p.y)
}

/// Three points on one straight line, by an exact zero cross product.
pub open spec fn collinear(p: Point, q: Point, r: Point) -> bool {
    orient(p, q, r) == 0
}

/// `v` lies in the closed interval spanned by `a` and `b`, whichever of the
/// two is smaller.
pub open spec fn in_bounds(a: int, b: int, v: int) -> bool {
    if a <= b {
        a <= v <= b
    } else {
        b <= v <= a
    }
}

/// The point `p` lies on the closed segment from `s` to `e`: it is collinear
/// with the segment's supporting line and within the segment's extent along
/// the dominant axis (the y axis for a vertical segment, the x axis
/// otherwise). Endpoints count as contained.
pub open spec fn seg_contains(s: Point, e: Point, p: Point) -> bool {
    collinear(s, e, p) && if s.x == e.x {
        in_bounds(s.y as int, e.y as int, p.y as int)
    } else {
        in_bounds(s.x as int, e.x as int, p.x as int)
    }
}

/// The exact cross product of two difference vectors whose components come
/// from `i32` coordinates, so every intermediate fits comfortably in `i128`.
pub fn cross_of(ux: i64, uy: i64, vx: i64, vy: i64) -> (c: i128)
    requires
        -0x1_0000_0000 <= ux <= 0x1_0000_0000,
        -0x1_0000_0000 <= uy <= 0x1_0000_0000,
        -0x1_0000_0000 <= vx <= 0x1_0000_0000,
        -0x1_0000_0000 <= vy <= 0x1_0000_0000,
    ensures
        c == cross(ux as int, uy as int, vx as int, vy as int),
        -0x4_0000_0000_0000_0000 <= c <= 0x4_0000_0000_0000_0000,
{
    proof {
        assert((ux as int) * (vy as int) <= 0x2_0000_0000_0000_0000
            && (ux as int) * (vy as int) >= -0x2_0000_0000_0000_0000) by (nonlinear_arith)
            requires
                -0x1_0000_0000 <= ux <= 0x1_0000_0000,
                -0x1_0000_0000 <= vy <= 0x1_0000_0000,
        ;
        assert((uy as int) * (vx as int) <= 0x2_0000_0000_0000_0000
            && (uy as int) * (vx as int) >= -0x2_0000_0000_0000_0000) by (nonlinear_arith)
            requires
                -0x1_0000_0000 <= uy <= 0x1_0000_0000,
                -0x1_0000_0000 <= vx <= 0x1_0000_0000,
        ;
    }
    (ux as i128) * (vy as i128) - (uy as i128) * (vx as i128)
}

/// The orientation of `r` relative to the directed line from `p` through `q`,
/// as an exact machine integer.
pub fn orient_of(p: Point, q: Point, r: Point) -> (c: i128)
    ensures
        c == orient(p, q, r),
        -0x4_0000_0000_0000_0000 <= c <= 0x4_0000_0000_0000_0000,
{
    cross_of(
        (q.x as i64) - (p.x as i64),
        (q.y as i64) - (p.y as i64),
        (r.x as i64) - (p.x as i64),
        (r.y as i64) - (p.y as i64),
    )
}

/// Decides [`seg_contains`]: collinearity by exact cross product, then the
/// inclusive bound check along the dominant axis.
pub fn seg_contains_exec(s: Point, e: Point, p: Point) -> (b: bool)
    ensures
        b == seg_contains(s, e, p),
{
    let c = orient_of(s, e, p);
    if c != 0 {
        return false;
    }
    let (a, b, v) = if s.x == e.x {
        (s.y, e.y, p.y)
    } else {
        (s.x, e.x, p.x)
    };
    let (lower_bound, upper_bound) = if a < b {
        (a, b)
    } else {
        (b, a)
    };
    lower_bound <= v && v <= upper_bound
}

/// The two segments lie on one common straight line: every endpoint of each
/// is collinear with the other segment's supporting line. Stated with all
/// four orientation tests so that the predicate is symmetric in the two
/// segments, degenerate segments included.
pub open spec fn segs_collinear(a1: Point, a2: Point, b1: Point, b2: Point) -> bool {
    collinear(a1, a2, b1) && collinear(a1, a2, b2) && collinear(b1, b2, a1) && collinear(
        b1,
        b2,
        a2,
    )
}

/// The coordinate of `p` along the dominant axis of a supporting line: the
/// y axis for a vertical line, the x axis otherwise.
pub open spec fn axis_value(p: Point, vertical: bool) -> int {
    if vertical {
        p.y as int
    } else {
        p.x as int
    }
}

/// Whichever of `p`, `q` comes first along the dominant axis.
pub open spec fn axis_min(p: Point, q: Point, vertical: bool) -> Point {
    if axis_value(p, vertical) <= axis_value(q, vertical) {
        p
    } else {
        q
    }
}

/// Whichever of `p`, `q` comes last along the dominant axis.
pub open spec fn axis_max(p: Point, q: Point, vertical: bool) -> Point {
    if axis_value(p, vertical) <= axis_value(q, vertical) {
        q
    } else {
        p
    }
}

/// The overlapping sub-segment of two collinear non-degenerate segments,
/// when it has positive extent along the dominant axis. Its endpoints are
/// always vertices of the operands: the later of the two segment starts and
/// the earlier of the two segment ends.
pub open spec fn overlap_piece(a1: Point, a2: Point, b1: Point, b2: Point) -> Option<
    (Point, Point),
> {
    if segs_collinear(a1, a2, b1, b2) && a1 != a2 && b1 != b2 {
        let vertical = a1.x == a2.x;
        let lo = axis_max(axis_min(a1, a2, vertical), axis_min(b1, b2, vertical), vertical);
        let hi = axis_min(axis_max(a1, a2, vertical), axis_max(b1, b2, vertical), vertical);
        if axis_value(lo, vertical) < axis_value(hi, vertical) {
            Some((lo, hi))
        } else {
            None
        }
    } else {
        None
    }
}

/// The segments strictly cross: the endpoints of each lie on strictly
/// opposite sides of the other segment's supporting line.
pub open spec fn proper_crossing(a1: Point, a2: Point, b1: Point, b2: Point) -> bool {
    let d1 = orient(b1, b2, a1);
    let d2 = orient(b1, b2, a2);
    let d3 = orient(a1, a2, b1);
    let d4 = orient(a1, a2, b2);
    ((d1 > 0 && d2 < 0) || (d1 < 0 && d2 > 0)) && ((d3 > 0 && d4 < 0) || (d3 < 0 && d4 > 0))
}

/// Lexicographic order on segments, used to pick a canonical operand order
/// before solving for a crossing point, so that the reported point does not
/// depend on which polyline came first.
pub open spec fn seg_le(a1: Point, a2: Point, b1: Point, b2: Point) -> bool {
    if a1.x != b1.x {
        a1.x < b1.x
    } else if a1.y != b1.y {
        a1.y < b1.y
    } else if a2.x != b2.x {
        a2.x < b2.x
    } else {
        a2.y <= b2.y
    }
}

/// `p` scaled by `d` gives exactly the vector `(xn, yn)`.
pub open spec fn is_scaled_point(p: Point, xn: int, yn: int, d: int) -> bool {
    (p.x as int) * d == xn && (p.y as int) * d == yn
}

/// The unique grid point `p` with `d * p == (xn, yn)`, if one exists.
pub open spec fn lattice_point(xn: int, yn: int, d: int) -> Option<Point> {
    if d != 0 && (exists|p: Point| is_scaled_point(p, xn, yn, d)) {
        Some(choose|p: Point| is_scaled_point(p, xn, yn, d))
    } else {
        None
    }
}

/// The denominator of the parametric solution of the two segments' line
/// equations: the cross product of their direction vectors.
pub open spec fn crossing_den(a1: Point, a2: Point, b1: Point, b2: Point) -> int {
    cross(a2.x - a1.x, a2.y - a1.y, b2.x - b1.x, b2.y - b1.y)
}

/// The numerator of the first segment's parameter at the crossing.
pub open spec fn crossing_t_num(a1: Point, a2: Point, b1: Point, b2: Point) -> int {
    cross(b1.x - a1.x, b1.y - a1.y, b2.x - b1.x, b2.y - b1.y)
}

/// Where the two supporting lines cross, as a grid point: the solution
/// `a1 + (t / den) * (a2 - a1)` of the parametric line equations, in the
/// homogeneous form `(x * den, y * den, den)`, defined exactly when both
/// coordinates are integers.
pub open spec fn crossing_point(a1: Point, a2: Point, b1: Point, b2: Point) -> Option<Point> {
    let den = crossing_den(a1, a2, b1, b2);
    let t = crossing_t_num(a1, a2, b1, b2);
    lattice_point(a1.x * den + t * (a2.x - a1.x), a1.y * den + t * (a2.y - a1.y), den)
}

/// The single shared point of a segment pair. The candidates are scanned in
/// a fixed order: an endpoint of one segment contained in the other first,
/// then a proper crossing whose coordinates are exactly representable. A
/// proper crossing at a non-grid point reports nothing: the same exactness
/// limitation as the zero-tolerance collinearity test.
pub open spec fn pair_point(a1: Point, a2: Point, b1: Point, b2: Point) -> Option<Point> {
    if seg_contains(a1, a2, b1) {
        Some(b1)
    } else if seg_contains(a1, a2, b2) {
        Some(b2)
    } else if seg_contains(b1, b2, a1) {
        Some(a1)
    } else if seg_contains(b1, b2, a2) {
        Some(a2)
    } else if proper_crossing(a1, a2, b1, b2) {
        if seg_le(a1, a2, b1, b2) {
            crossing_point(a1, a2, b1, b2)
        } else {
            crossing_point(b1, b2, a1, a2)
        }
    } else {
        None
    }
}

/// The coordinate of `p` along the dominant axis.
pub fn axis_value_exec(p: Point, vertical: bool) -> (v: i32)
    ensures
        v as int == axis_value(p, vertical),
{
    if vertical {
        p.y
    } else {
        p.x
    }
}

/// Decides [`overlap_piece`]: the four orientation tests, then the interval
/// arithmetic along the dominant axis.
pub fn overlap_piece_exec(a1: Point, a2: Point, b1: Point, b2: Point) -> (r: Option<
    (Point, Point),
>)
    ensures
        r == overlap_piece(a1, a2, b1, b2),
{
    let o1 = orient_of(a1, a2, b1);
    let o2 = orient_of(a1, a2, b2);
    let o3 = orient_of(b1, b2, a1);
    let o4 = orient_of(b1, b2, a2);
    if o1 != 0 || o2 != 0 || o3 != 0 || o4 != 0 {
        return None;
    }
    if a1 == a2 || b1 == b2 {
        return None;
    }
    let vertical = a1.x == a2.x;
    let (amin, amax) = if axis_value_exec(a1, vertical) <= axis_value_exec(a2, vertical) {
        (a1, a2)
    } else {
        (a2, a1)
    };
    let (bmin, bmax) = if axis_value_exec(b1, vertical) <= axis_value_exec(b2, vertical) {
        (b1, b2)
    } else {
        (b2, b1)
    };
    let lo = if axis_value_exec(amin, vertical) <= axis_value_exec(bmin, vertical) {
        bmin
    } else {
        amin
    };
    let hi = if axis_value_exec(amax, vertical) <= axis_value_exec(bmax, vertical) {
        amax
    } else {
        bmax
    };
    if axis_value_exec(lo, vertical) < axis_value_exec(hi, vertical) {
        Some((lo, hi))
    } else {
        None
    }
}

/// Decides [`seg_le`] by comparing the coordinate tuples.
pub fn seg_le_exec(a1: Point, a2: Point, b1: Point, b2: Point) -> (r: bool)
    ensures
        r == seg_le(a1, a2, b1, b2),
{
    if a1.x != b1.x {
        a1.x < b1.x
    } else if a1.y != b1.y {
        a1.y < b1.y
    } else if a2.x != b2.x {
        a2.x < b2.x
    } else {
        a2.y <= b2.y
    }
}

/// Decides [`crossing_point`]: forms the homogeneous solution of the two
/// line equations in wide integers, then divides out the denominator
/// exactly, if it divides both coordinates and the quotients fit the
/// coordinate type.
pub fn crossing_point_exec(a1: Point, a2: Point, b1: Point, b2: Point) -> (r: Option<Point>)
    ensures
        r == crossing_point(a1, a2, b1, b2),
{
    let den = cross_of(
        (a2.x as i64) - (a1.x as i64),
        (a2.y as i64) - (a1.y as i64),
        (b2.x as i64) - (b1.x as i64),
        (b2.y as i64) - (b1.y as i64),
    );
    let t = cross_of(
        (b1.x as i64) - (a1.x as i64),
        (b1.y as i64) - (a1.y as i64),
        (b2.x as i64) - (b1.x as i64),
        (b2.y as i64) - (b1.y as i64),
    );
    if den == 0 {
        return None;
    }
    proof {
        lemma_homogeneous_bounds(a1.x as int, den as int, t as int, a2.x as int);
        lemma_homogeneous_bounds(a1.y as int, den as int, t as int, a2.y as int);
    }
    let xn = (a1.x as i128) * den + t * ((a2.x as i128) - (a1.x as i128));
    let yn = (a1.y as i128) * den + t * ((a2.y as i128) - (a1.y as i128));
    let qx = match exact_div(xn, den) {
        Some(q) => q,
        None => {
            proof {
                assert forall|p: Point|
                    !is_scaled_point(p, xn as int, yn as int, den as int) by {
                    if is_scaled_point(p, xn as int, yn as int, den as int) {
                        assert(xn as int == (den as int) * (p.x as int));
                    }
                }
            }
            return None;
        },
    };
    let qy = match exact_div(yn, den) {
        Some(q) => q,
        None => {
            proof {
                assert forall|p: Point|
                    !is_scaled_point(p, xn as int, yn as int, den as int) by {
                    if is_scaled_point(p, xn as int, yn as int, den as int) {
                        assert(yn as int == (den as int) * (p.y as int));
                    }
                }
            }
            return None;
        },
    };
    if qx < (i32::MIN as i128) || qx > (i32::MAX as i128) || qy < (i32::MIN as i128) || qy > (
    i32::MAX as i128) {
        proof {
            assert forall|p: Point| !is_scaled_point(p, xn as int, yn as int, den as int) by {
                if is_scaled_point(p, xn as int, yn as int, den as int) {
                    assert((den as int) * (p.x as int) == (den as int) * (qx as int));
                    lemma_factor_unique(den as int, p.x as int, qx as int);
                    assert((den as int) * (p.y as int) == (den as int) * (qy as int));
                    lemma_factor_unique(den as int, p.y as int, qy as int);
                }
            }
        }
        return None;
    }
    let p = Point { x: qx as i32, y: qy as i32 };
    proof {
        assert(is_scaled_point(p, xn as int, yn as int, den as int));
        let c = choose|w: Point| is_scaled_point(w, xn as int, yn as int, den as int);
        assert(is_scaled_point(c, xn as int, yn as int, den as int));
        assert((den as int) * (c.x as int) == (den as int) * (p.x as int));
        lemma_factor_unique(den as int, c.x as int, p.x as int);
        assert((den as int) * (c.y as int) == (den as int) * (p.y as int));
        lemma_factor_unique(den as int, c.y as int, p.y as int);
    }
    Some(p)
}

/// Bounds for the homogeneous crossing coordinates: with coordinates from
/// the 32-bit range and cross products from [`cross_of`], the combination
/// `c * den + t * d` stays far inside the 128-bit range.
proof fn lemma_homogeneous_bounds(c: int, den: int, t: int, c2: int)
    requires
        -0x8000_0000 <= c <= 0x8000_0000,
        -0x8000_0000 <= c2 <= 0x8000_0000,
        -0x4_0000_0000_0000_0000 <= den <= 0x4_0000_0000_0000_0000,
        -0x4_0000_0000_0000_0000 <= t <= 0x4_0000_0000_0000_0000,
    ensures
        -0x2_0000_0000_0000_0000_0000_0000 <= c * den <= 0x2_0000_0000_0000_0000_0000_0000,
        -0x4_0000_0000_0000_0000_0000_0000 <= t * (c2 - c) <= 0x4_0000_0000_0000_0000_0000_0000,
        -0x1_0000_0000_0000_0000_0000_0000_0000 <= c * den + t * (c2 - c)
            <= 0x1_0000_0000_0000_0000_0000_0000_0000,
{
    assert(-0x2_0000_0000_0000_0000_0000_0000 <= c * den <= 0x2_0000_0000_0000_0000_0000_0000)
        by (nonlinear_arith)
        requires
            -0x8000_0000 <= c <= 0x8000_0000,
            -0x4_0000_0000_0000_0000 <= den <= 0x4_0000_0000_0000_0000,
    ;
    assert(-0x4_0000_0000_0000_0000_0000_0000 <= t * (c2 - c)
        <= 0x4_0000_0000_0000_0000_0000_0000) by (nonlinear_arith)
        requires
            -0x8000_0000 <= c <= 0x8000_0000,
            -0x8000_0000 <= c2 <= 0x8000_0000,
            -0x4_0000_0000_0000_0000 <= t <= 0x4_0000_0000_0000_0000,
    ;
}

/// Decides [`pair_point`]: the four containment tests in order, then the
/// strict orientation test and the exact crossing solution.
pub fn pair_point_exec(a1: Point, a2: Point, b1: Point, b2: Point) -> (r: Option<Point>)
    ensures
        r == pair_point(a1, a2, b1, b2),
{
    if seg_contains_exec(a1, a2, b1) {
        return Some(b1);
    }
    if seg_contains_exec(a1, a2, b2) {
        return Some(b2);
    }
    if seg_contains_exec(b1, b2, a1) {
        return Some(a1);
    }
    if seg_contains_exec(b1, b2, a2) {
        return Some(a2);
    }
    let d1 = orient_of(b1, b2, a1);
    let d2 = orient_of(b1, b2, a2);
    let d3 = orient_of(a1, a2, b1);
    let d4 = orient_of(a1, a2, b2);
    let proper = ((d1 > 0 && d2 < 0) || (d1 < 0 && d2 > 0)) && ((d3 > 0 && d4 < 0) || (d3 < 0
        && d4 > 0));
    if !proper {
        return None;
    }
    if seg_le_exec(a1, a2, b1, b2) {
        crossing_point_exec(a1, a2, b1, b2)
    } else {
        crossing_point_exec(b1, b2, a1, a2)
    }
}

} // verus!
