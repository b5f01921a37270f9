//! Proved laws of the intersection engine: vertex and mid-segment
//! membership, non-collinear exclusion, self-intersection, symmetry of the
//! polyline-polyline result, and soundness of reported intersections —
//! whatever geometry is reported lies on both operands.

use vstd::prelude::*;
use crate::geometry::{Point, GeometryModel};
use crate::segment::{
    axis_value, collinear, orient, seg_contains, segs_collinear, overlap_piece, pair_point,
    proper_crossing, seg_le, crossing_point, crossing_den, crossing_t_num, is_scaled_point,
};
use crate::intersection::{
    point_on_line_string, line_string_point_model, first_overlap_in_row, first_overlap,
    first_point_in_row, first_point, line_string_model,
};

verus! {

broadcast use vstd::arithmetic::mul::lemma_mul_is_commutative;

/// Every vertex of a polyline lies on the polyline: the result of
/// intersecting a well-formed polyline with one of its vertices is always
/// that vertex.
pub proof fn lemma_vertex_on_line_string(l: Seq<Point>, k: int)
    requires
        l.len() >= 2,
        0 <= k < l.len(),
    ensures
        point_on_line_string(l, l[k]),
        line_string_point_model(l, l[k]) == Some(GeometryModel::Point(l[k])),
{
    if k < l.len() - 1 {
        assert(seg_contains(l[k], l[k + 1], l[k]));
    } else {
        assert(seg_contains(l[k - 1], l[k - 1 + 1], l[k]));
    }
}

/// A point strictly between two consecutive vertices, collinear with them,
/// lies on the polyline: intersecting with it returns the point.
pub proof fn lemma_between_vertices_on_line_string(l: Seq<Point>, i: int, p: Point)
    requires
        l.len() >= 2,
        0 <= i < l.len() - 1,
        collinear(l[i], l[i + 1], p),
        ({
            let vertical = l[i].x == l[i + 1].x;
            axis_value(l[i], vertical) < axis_value(p, vertical) < axis_value(l[i + 1], vertical)
                || axis_value(l[i + 1], vertical) < axis_value(p, vertical) < axis_value(
                l[i],
                vertical,
            )
        }),
    ensures
        point_on_line_string(l, p),
        line_string_point_model(l, p) == Some(GeometryModel::Point(p)),
{
    assert(seg_contains(l[i], l[i + 1], p));
}

/// A point collinear with no segment of the polyline does not lie on it:
/// intersecting with it returns nothing.
pub proof fn lemma_not_collinear_off_line_string(l: Seq<Point>, p: Point)
    requires
        forall|i: int| 0 <= i < l.len() - 1 ==> !(#[trigger] collinear(l[i], l[i + 1], p)),
    ensures
        !point_on_line_string(l, p),
        line_string_point_model(l, p) == None::<GeometryModel>,
{
}

/// A polyline intersected with itself yields the whole polyline.
pub proof fn lemma_line_string_self_intersection(l: Seq<Point>)
    ensures
        line_string_model(l, l) == Some(GeometryModel::LineString(l)),
{
}

/// Some segment pair of `a` and `b`, from index `j` of `b` on, has a
/// collinear overlap with the fixed segment `(a1, a2)`.
pub open spec fn has_overlap_from(a1: Point, a2: Point, b: Seq<Point>, j: int) -> bool {
    exists|jj: int|
        j <= jj < b.len() - 1 && (#[trigger] overlap_piece(a1, a2, b[jj], b[jj + 1])) is Some
}

/// Some segment pair of `a` (from index `i` on) and `b` has a collinear
/// overlap.
pub open spec fn has_overlap(a: Seq<Point>, b: Seq<Point>, i: int) -> bool {
    exists|ii: int, jj: int|
        i <= ii < a.len() - 1 && 0 <= jj < b.len() - 1 && (#[trigger] overlap_piece(
            a[ii],
            a[ii + 1],
            b[jj],
            b[jj + 1],
        )) is Some
}

/// Some segment pair of `a` and `b`, from index `j` of `b` on, shares a
/// single point with the fixed segment `(a1, a2)`.
pub open spec fn has_point_from(a1: Point, a2: Point, b: Seq<Point>, j: int) -> bool {
    exists|jj: int|
        j <= jj < b.len() - 1 && (#[trigger] pair_point(a1, a2, b[jj], b[jj + 1])) is Some
}

/// Some segment pair of `a` (from index `i` on) and `b` shares a single
/// point.
pub open spec fn has_point(a: Seq<Point>, b: Seq<Point>, i: int) -> bool {
    exists|ii: int, jj: int|
        i <= ii < a.len() - 1 && 0 <= jj < b.len() - 1 && (#[trigger] pair_point(
            a[ii],
            a[ii + 1],
            b[jj],
            b[jj + 1],
        )) is Some
}

/// A segment contains both of its own endpoints.
proof fn lemma_seg_contains_endpoints(s: Point, e: Point)
    ensures
        seg_contains(s, e, s),
        seg_contains(s, e, e),
{
}

/// The endpoints of a collinear overlap piece lie on both segments.
proof fn lemma_overlap_piece_on_segments(a1: Point, a2: Point, b1: Point, b2: Point)
    ensures
        overlap_piece(a1, a2, b1, b2) matches Some(piece) ==> seg_contains(a1, a2, piece.0)
            && seg_contains(b1, b2, piece.0) && seg_contains(a1, a2, piece.1) && seg_contains(
            b1,
            b2,
            piece.1,
        ),
{
    if overlap_piece(a1, a2, b1, b2) is Some {
        if a1.x == a2.x {
            lemma_vertical_agrees(a1, a2, b1, b2);
        }
        if b1.x == b2.x {
            lemma_vertical_agrees(b1, b2, a1, a2);
        }
        lemma_seg_contains_endpoints(a1, a2);
        lemma_seg_contains_endpoints(b1, b2);
    }
}

/// A ring identity of 2D cross products: the cross of `u` and `v` sheared
/// by `w` cancels against the crosses of `w` with `v` and of `u` with `w`,
/// coordinate by coordinate.
proof fn lemma_cross_shear(
    ux: int,
    uy: int,
    vx: int,
    vy: int,
    wx: int,
    wy: int,
    den: int,
    t: int,
    d3: int,
)
    requires
        den == ux * vy - uy * vx,
        t == wx * vy - wy * vx,
        d3 == ux * wy - uy * wx,
    ensures
        (-wx) * den + t * ux + d3 * vx == 0,
        (-wy) * den + t * uy + d3 * vy == 0,
{
    assert(wx * den == (wx * ux) * vy - (wx * uy) * vx) by (nonlinear_arith)
        requires
            den == ux * vy - uy * vx,
    ;
    assert(t * ux == (wx * ux) * vy - (wy * ux) * vx) by (nonlinear_arith)
        requires
            t == wx * vy - wy * vx,
    ;
    assert(d3 * vx == (wy * ux) * vx - (wx * uy) * vx) by (nonlinear_arith)
        requires
            d3 == ux * wy - uy * wx,
    ;
    assert(wy * den == (wy * ux) * vy - (wy * uy) * vx) by (nonlinear_arith)
        requires
            den == ux * vy - uy * vx,
    ;
    assert(t * uy == (wx * uy) * vy - (wy * uy) * vx) by (nonlinear_arith)
        requires
            t == wx * vy - wy * vx,
    ;
    assert(d3 * vy == (wy * ux) * vy - (wx * uy) * vy) by (nonlinear_arith)
        requires
            d3 == ux * wy - uy * wx,
    ;
    assert((-wx) * den == -(wx * den) && (-wy) * den == -(wy * den)) by (nonlinear_arith);
}

/// A reported crossing point of two properly crossing segments lies on
/// both segments.
proof fn lemma_crossing_point_on_segments(a1: Point, a2: Point, b1: Point, b2: Point)
    requires
        proper_crossing(a1, a2, b1, b2),
    ensures
        crossing_point(a1, a2, b1, b2) matches Some(p) ==> seg_contains(a1, a2, p)
            && seg_contains(b1, b2, p),
{
    if crossing_point(a1, a2, b1, b2) is Some {
        let p = crossing_point(a1, a2, b1, b2)->Some_0;
        let den = crossing_den(a1, a2, b1, b2);
        let t = crossing_t_num(a1, a2, b1, b2);
        let xn = a1.x * den + t * (a2.x - a1.x);
        let yn = a1.y * den + t * (a2.y - a1.y);
        let d1 = orient(b1, b2, a1);
        let d2 = orient(b1, b2, a2);
        let d3 = orient(a1, a2, b1);
        let d4 = orient(a1, a2, b2);
        assert(den != 0);
        let w = choose|w: Point| is_scaled_point(w, xn, yn, den);
        assert(is_scaled_point(w, xn, yn, den));
        assert(p == w);
        // The crossing numerators are orientation values of the endpoints.
        assert(t == d1 && den == d1 - d2 && den == d4 - d3) by (nonlinear_arith)
            requires
                den == (a2.x - a1.x) * (b2.y - b1.y) - (a2.y - a1.y) * (b2.x - b1.x),
                t == (b1.x - a1.x) * (b2.y - b1.y) - (b1.y - a1.y) * (b2.x - b1.x),
                d1 == (b2.x - b1.x) * (a1.y - b1.y) - (b2.y - b1.y) * (a1.x - b1.x),
                d2 == (b2.x - b1.x) * (a2.y - b1.y) - (b2.y - b1.y) * (a2.x - b1.x),
                d3 == (a2.x - a1.x) * (b1.y - a1.y) - (a2.y - a1.y) * (b1.x - a1.x),
                d4 == (a2.x - a1.x) * (b2.y - a1.y) - (a2.y - a1.y) * (b2.x - a1.x),
        ;
        // A strict crossing puts both parameters strictly inside (0, 1).
        assert((0 < t < den) || (den < t < 0));
        let u = -d3;
        assert((0 < u < den) || (den < u < 0));
        // The scaled-point equations, relative to each segment start.
        assert((p.x - a1.x) * den == t * (a2.x - a1.x) && (p.y - a1.y) * den == t * (a2.y
            - a1.y)) by (nonlinear_arith)
            requires
                (p.x as int) * den == a1.x * den + t * (a2.x - a1.x),
                (p.y as int) * den == a1.y * den + t * (a2.y - a1.y),
        ;
        lemma_cross_shear(
            a2.x - a1.x,
            a2.y - a1.y,
            b2.x - b1.x,
            b2.y - b1.y,
            b1.x - a1.x,
            b1.y - a1.y,
            den,
            t,
            d3,
        );
        assert((a1.x - b1.x) * den + t * (a2.x - a1.x) + d3 * (b2.x - b1.x) == 0);
        assert((a1.y - b1.y) * den + t * (a2.y - a1.y) + d3 * (b2.y - b1.y) == 0);
        assert((p.x - b1.x) * den == u * (b2.x - b1.x) && (p.y - b1.y) * den == u * (b2.y
            - b1.y)) by (nonlinear_arith)
            requires
                (p.x - a1.x) * den == t * (a2.x - a1.x),
                (p.y - a1.y) * den == t * (a2.y - a1.y),
                (a1.x - b1.x) * den + t * (a2.x - a1.x) + d3 * (b2.x - b1.x) == 0,
                (a1.y - b1.y) * den + t * (a2.y - a1.y) + d3 * (b2.y - b1.y) == 0,
                u == -d3,
        ;
        // Collinearity with each supporting line.
        assert(orient(a1, a2, p) * den == 0) by (nonlinear_arith)
            requires
                orient(a1, a2, p) == (a2.x - a1.x) * (p.y - a1.y) - (a2.y - a1.y) * (p.x - a1.x),
                (p.x - a1.x) * den == t * (a2.x - a1.x),
                (p.y - a1.y) * den == t * (a2.y - a1.y),
        ;
        assert(orient(b1, b2, p) * den == 0) by (nonlinear_arith)
            requires
                orient(b1, b2, p) == (b2.x - b1.x) * (p.y - b1.y) - (b2.y - b1.y) * (p.x - b1.x),
                (p.x - b1.x) * den == u * (b2.x - b1.x),
                (p.y - b1.y) * den == u * (b2.y - b1.y),
        ;
        assert(orient(a1, a2, p) == 0 && orient(b1, b2, p) == 0) by (nonlinear_arith)
            requires
                orient(a1, a2, p) * den == 0,
                orient(b1, b2, p) * den == 0,
                den != 0,
        ;
        // Both coordinates stay within both segments' extents.
        assert(((a1.x <= p.x <= a2.x) || (a2.x <= p.x <= a1.x)) && ((a1.y <= p.y <= a2.y) || (
        a2.y <= p.y <= a1.y))) by (nonlinear_arith)
            requires
                (p.x - a1.x) * den == t * (a2.x - a1.x),
                (p.y - a1.y) * den == t * (a2.y - a1.y),
                (0 < t < den) || (den < t < 0),
        ;
        assert(((b1.x <= p.x <= b2.x) || (b2.x <= p.x <= b1.x)) && ((b1.y <= p.y <= b2.y) || (
        b2.y <= p.y <= b1.y))) by (nonlinear_arith)
            requires
                (p.x - b1.x) * den == u * (b2.x - b1.x),
                (p.y - b1.y) * den == u * (b2.y - b1.y),
                (0 < u < den) || (den < u < 0),
        ;
    }
}

/// Any single shared point reported for a segment pair lies on both
/// segments.
proof fn lemma_pair_point_on_segments(a1: Point, a2: Point, b1: Point, b2: Point)
    ensures
        pair_point(a1, a2, b1, b2) matches Some(p) ==> seg_contains(a1, a2, p) && seg_contains(
            b1,
            b2,
            p,
        ),
{
    lemma_seg_contains_endpoints(a1, a2);
    lemma_seg_contains_endpoints(b1, b2);
    if pair_point(a1, a2, b1, b2) is Some {
        if !seg_contains(a1, a2, b1) && !seg_contains(a1, a2, b2) && !seg_contains(b1, b2, a1)
            && !seg_contains(b1, b2, a2) {
            lemma_crossing_point_on_segments(a1, a2, b1, b2);
            lemma_crossing_point_on_segments(b1, b2, a1, a2);
        }
    }
}

/// On one common line, verticality is shared: if one non-degenerate segment
/// is vertical, so is the other.
proof fn lemma_vertical_agrees(a1: Point, a2: Point, b1: Point, b2: Point)
    requires
        segs_collinear(a1, a2, b1, b2),
        a1 != a2,
        b1 != b2,
        a1.x == a2.x,
    ensures
        b1.x == b2.x,
{
    assert(a1.y != a2.y);
    if b1.x != b2.x {
        assert(false) by (nonlinear_arith)
            requires
                (a2.x - a1.x) * (b1.y - a1.y) - (a2.y - a1.y) * (b1.x - a1.x) == 0,
                (a2.x - a1.x) * (b2.y - a1.y) - (a2.y - a1.y) * (b2.x - a1.x) == 0,
                a1.x == a2.x,
                a1.y != a2.y,
                b1.x != b2.x,
        ;
    }
}

/// Whether two segments overlap in a sub-segment does not depend on their
/// order.
proof fn lemma_overlap_piece_symmetric(a1: Point, a2: Point, b1: Point, b2: Point)
    ensures
        (overlap_piece(a1, a2, b1, b2) is Some) == (overlap_piece(b1, b2, a1, a2) is Some),
{
    if segs_collinear(a1, a2, b1, b2) && a1 != a2 && b1 != b2 {
        if a1.x == a2.x {
            lemma_vertical_agrees(a1, a2, b1, b2);
        }
        if b1.x == b2.x {
            lemma_vertical_agrees(b1, b2, a1, a2);
        }
    }
}

/// Whether two segments share a single point does not depend on their
/// order; a representable proper crossing is even the same point, because
/// it is solved from the canonically ordered pair.
proof fn lemma_pair_point_symmetric(a1: Point, a2: Point, b1: Point, b2: Point)
    ensures
        (pair_point(a1, a2, b1, b2) is Some) == (pair_point(b1, b2, a1, a2) is Some),
{
    if proper_crossing(a1, a2, b1, b2) {
        if seg_le(a1, a2, b1, b2) && seg_le(b1, b2, a1, a2) {
            assert(a1 == b1 && a2 == b2);
        }
    }
}

/// A row scan finds an overlap exactly when one exists in the rest of the
/// row.
proof fn lemma_first_overlap_in_row_iff(a1: Point, a2: Point, b: Seq<Point>, j: int)
    requires
        j >= 0,
    ensures
        (first_overlap_in_row(a1, a2, b, j) is Some) == has_overlap_from(a1, a2, b, j),
    decreases b.len() - j,
{
    if j + 1 < b.len() {
        lemma_first_overlap_in_row_iff(a1, a2, b, j + 1);
        if overlap_piece(a1, a2, b[j], b[j + 1]) is Some {
            assert(has_overlap_from(a1, a2, b, j));
        } else {
            if has_overlap_from(a1, a2, b, j) {
                let jj = choose|jj: int|
                    j <= jj < b.len() - 1 && (#[trigger] overlap_piece(
                        a1,
                        a2,
                        b[jj],
                        b[jj + 1],
                    )) is Some;
                assert(jj != j);
                assert(has_overlap_from(a1, a2, b, j + 1));
            }
            if has_overlap_from(a1, a2, b, j + 1) {
                let jj = choose|jj: int|
                    j + 1 <= jj < b.len() - 1 && (#[trigger] overlap_piece(
                        a1,
                        a2,
                        b[jj],
                        b[jj + 1],
                    )) is Some;
                assert(has_overlap_from(a1, a2, b, j));
            }
        }
    }
}

/// The full scan finds an overlap exactly when some segment pair has one.
proof fn lemma_first_overlap_iff(a: Seq<Point>, b: Seq<Point>, i: int)
    requires
        i >= 0,
    ensures
        (first_overlap(a, b, i) is Some) == has_overlap(a, b, i),
    decreases a.len() - i,
{
    if i + 1 < a.len() {
        lemma_first_overlap_iff(a, b, i + 1);
        lemma_first_overlap_in_row_iff(a[i], a[i + 1], b, 0);
        if first_overlap_in_row(a[i], a[i + 1], b, 0) is Some {
            let jj = choose|jj: int|
                0 <= jj < b.len() - 1 && (#[trigger] overlap_piece(
                    a[i],
                    a[i + 1],
                    b[jj],
                    b[jj + 1],
                )) is Some;
            assert(has_overlap(a, b, i));
        } else {
            if has_overlap(a, b, i) {
                let (ii, jj) = choose|ii: int, jj: int|
                    i <= ii < a.len() - 1 && 0 <= jj < b.len() - 1 && (#[trigger] overlap_piece(
                        a[ii],
                        a[ii + 1],
                        b[jj],
                        b[jj + 1],
                    )) is Some;
                assert(ii != i);
                assert(has_overlap(a, b, i + 1));
            }
            if has_overlap(a, b, i + 1) {
                let (ii, jj) = choose|ii: int, jj: int|
                    i + 1 <= ii < a.len() - 1 && 0 <= jj < b.len() - 1 && (#[trigger] overlap_piece(
                        a[ii],
                        a[ii + 1],
                        b[jj],
                        b[jj + 1],
                    )) is Some;
                assert(has_overlap(a, b, i));
            }
        }
    }
}

/// A row scan finds a shared point exactly when one exists in the rest of
/// the row.
proof fn lemma_first_point_in_row_iff(a1: Point, a2: Point, b: Seq<Point>, j: int)
    requires
        j >= 0,
    ensures
        (first_point_in_row(a1, a2, b, j) is Some) == has_point_from(a1, a2, b, j),
    decreases b.len() - j,
{
    if j + 1 < b.len() {
        lemma_first_point_in_row_iff(a1, a2, b, j + 1);
        if pair_point(a1, a2, b[j], b[j + 1]) is Some {
            assert(has_point_from(a1, a2, b, j));
        } else {
            if has_point_from(a1, a2, b, j) {
                let jj = choose|jj: int|
                    j <= jj < b.len() - 1 && (#[trigger] pair_point(a1, a2, b[jj], b[jj + 1])) is Some;
                assert(jj != j);
                assert(has_point_from(a1, a2, b, j + 1));
            }
            if has_point_from(a1, a2, b, j + 1) {
                let jj = choose|jj: int|
                    j + 1 <= jj < b.len() - 1 && (#[trigger] pair_point(
                        a1,
                        a2,
                        b[jj],
                        b[jj + 1],
                    )) is Some;
                assert(has_point_from(a1, a2, b, j));
            }
        }
    }
}

/// The full scan finds a shared point exactly when some segment pair has
/// one.
proof fn lemma_first_point_iff(a: Seq<Point>, b: Seq<Point>, i: int)
    requires
        i >= 0,
    ensures
        (first_point(a, b, i) is Some) == has_point(a, b, i),
    decreases a.len() - i,
{
    if i + 1 < a.len() {
        lemma_first_point_iff(a, b, i + 1);
        lemma_first_point_in_row_iff(a[i], a[i + 1], b, 0);
        if first_point_in_row(a[i], a[i + 1], b, 0) is Some {
            let jj = choose|jj: int|
                0 <= jj < b.len() - 1 && (#[trigger] pair_point(
                    a[i],
                    a[i + 1],
                    b[jj],
                    b[jj + 1],
                )) is Some;
            assert(has_point(a, b, i));
        } else {
            if has_point(a, b, i) {
                let (ii, jj) = choose|ii: int, jj: int|
                    i <= ii < a.len() - 1 && 0 <= jj < b.len() - 1 && (#[trigger] pair_point(
                        a[ii],
                        a[ii + 1],
                        b[jj],
                        b[jj + 1],
                    )) is Some;
                assert(ii != i);
                assert(has_point(a, b, i + 1));
            }
            if has_point(a, b, i + 1) {
                let (ii, jj) = choose|ii: int, jj: int|
                    i + 1 <= ii < a.len() - 1 && 0 <= jj < b.len() - 1 && (#[trigger] pair_point(
                        a[ii],
                        a[ii + 1],
                        b[jj],
                        b[jj + 1],
                    )) is Some;
                assert(has_point(a, b, i));
            }
        }
    }
}

/// A row scan only ever reports a piece produced by some pair of the row.
proof fn lemma_first_overlap_in_row_value(a1: Point, a2: Point, b: Seq<Point>, j: int)
    requires
        j >= 0,
    ensures
        first_overlap_in_row(a1, a2, b, j) matches Some(piece) ==> exists|jj: int|
            j <= jj < b.len() - 1 && #[trigger] overlap_piece(a1, a2, b[jj], b[jj + 1]) == Some(
                piece,
            ),
    decreases b.len() - j,
{
    if j + 1 < b.len() {
        lemma_first_overlap_in_row_value(a1, a2, b, j + 1);
        if first_overlap_in_row(a1, a2, b, j) is Some {
            let piece = first_overlap_in_row(a1, a2, b, j)->Some_0;
            if overlap_piece(a1, a2, b[j], b[j + 1]) is Some {
                assert(overlap_piece(a1, a2, b[j], b[j + 1]) == Some(piece));
            } else {
                let jj = choose|jj: int|
                    j + 1 <= jj < b.len() - 1 && #[trigger] overlap_piece(
                        a1,
                        a2,
                        b[jj],
                        b[jj + 1],
                    ) == Some(piece);
                assert(overlap_piece(a1, a2, b[jj], b[jj + 1]) == Some(piece));
            }
        }
    }
}

/// The full scan only ever reports a piece produced by some segment pair.
proof fn lemma_first_overlap_value(a: Seq<Point>, b: Seq<Point>, i: int)
    requires
        i >= 0,
    ensures
        first_overlap(a, b, i) matches Some(piece) ==> exists|ii: int, jj: int|
            i <= ii < a.len() - 1 && 0 <= jj < b.len() - 1 && #[trigger] overlap_piece(
                a[ii],
                a[ii + 1],
                b[jj],
                b[jj + 1],
            ) == Some(piece),
    decreases a.len() - i,
{
    if i + 1 < a.len() {
        lemma_first_overlap_value(a, b, i + 1);
        lemma_first_overlap_in_row_value(a[i], a[i + 1], b, 0);
        if first_overlap(a, b, i) is Some {
            let piece = first_overlap(a, b, i)->Some_0;
            if first_overlap_in_row(a[i], a[i + 1], b, 0) is Some {
                let jj = choose|jj: int|
                    0 <= jj < b.len() - 1 && #[trigger] overlap_piece(
                        a[i],
                        a[i + 1],
                        b[jj],
                        b[jj + 1],
                    ) == Some(piece);
                assert(overlap_piece(a[i], a[i + 1], b[jj], b[jj + 1]) == Some(piece));
            } else {
                let (ii, jj) = choose|ii: int, jj: int|
                    i + 1 <= ii < a.len() - 1 && 0 <= jj < b.len() - 1 && #[trigger] overlap_piece(
                        a[ii],
                        a[ii + 1],
                        b[jj],
                        b[jj + 1],
                    ) == Some(piece);
                assert(overlap_piece(a[ii], a[ii + 1], b[jj], b[jj + 1]) == Some(piece));
            }
        }
    }
}

/// A row scan only ever reports a point produced by some pair of the row.
proof fn lemma_first_point_in_row_value(a1: Point, a2: Point, b: Seq<Point>, j: int)
    requires
        j >= 0,
    ensures
        first_point_in_row(a1, a2, b, j) matches Some(p) ==> exists|jj: int|
            j <= jj < b.len() - 1 && #[trigger] pair_point(a1, a2, b[jj], b[jj + 1]) == Some(p),
    decreases b.len() - j,
{
    if j + 1 < b.len() {
        lemma_first_point_in_row_value(a1, a2, b, j + 1);
        if first_point_in_row(a1, a2, b, j) is Some {
            let p = first_point_in_row(a1, a2, b, j)->Some_0;
            if pair_point(a1, a2, b[j], b[j + 1]) is Some {
                assert(pair_point(a1, a2, b[j], b[j + 1]) == Some(p));
            } else {
                let jj = choose|jj: int|
                    j + 1 <= jj < b.len() - 1 && #[trigger] pair_point(a1, a2, b[jj], b[jj + 1])
                        == Some(p);
                assert(pair_point(a1, a2, b[jj], b[jj + 1]) == Some(p));
            }
        }
    }
}

/// The full scan only ever reports a point produced by some segment pair.
proof fn lemma_first_point_value(a: Seq<Point>, b: Seq<Point>, i: int)
    requires
        i >= 0,
    ensures
        first_point(a, b, i) matches Some(p) ==> exists|ii: int, jj: int|
            i <= ii < a.len() - 1 && 0 <= jj < b.len() - 1 && #[trigger] pair_point(
                a[ii],
                a[ii + 1],
                b[jj],
                b[jj + 1],
            ) == Some(p),
    decreases a.len() - i,
{
    if i + 1 < a.len() {
        lemma_first_point_value(a, b, i + 1);
        lemma_first_point_in_row_value(a[i], a[i + 1], b, 0);
        if first_point(a, b, i) is Some {
            let p = first_point(a, b, i)->Some_0;
            if first_point_in_row(a[i], a[i + 1], b, 0) is Some {
                let jj = choose|jj: int|
                    0 <= jj < b.len() - 1 && #[trigger] pair_point(
                        a[i],
                        a[i + 1],
                        b[jj],
                        b[jj + 1],
                    ) == Some(p);
                assert(pair_point(a[i], a[i + 1], b[jj], b[jj + 1]) == Some(p));
            } else {
                let (ii, jj) = choose|ii: int, jj: int|
                    i + 1 <= ii < a.len() - 1 && 0 <= jj < b.len() - 1 && #[trigger] pair_point(
                        a[ii],
                        a[ii + 1],
                        b[jj],
                        b[jj + 1],
                    ) == Some(p);
                assert(pair_point(a[ii], a[ii + 1], b[jj], b[jj + 1]) == Some(p));
            }
        }
    }
}

/// When two distinct polylines share a sub-segment, both endpoints of the
/// reported piece lie on both polylines.
pub proof fn lemma_overlap_result_on_both(a: Seq<Point>, b: Seq<Point>)
    ensures
        a != b ==> (line_string_model(a, b) matches Some(GeometryModel::LineString(s)) ==> s.len()
            == 2 && point_on_line_string(a, s[0]) && point_on_line_string(b, s[0])
            && point_on_line_string(a, s[1]) && point_on_line_string(b, s[1])),
{
    lemma_first_overlap_value(a, b, 0);
    if a != b && line_string_model(a, b) matches Some(GeometryModel::LineString(s)) {
        let s = line_string_model(a, b)->Some_0->LineString_0;
        let piece = first_overlap(a, b, 0)->Some_0;
        let (ii, jj) = choose|ii: int, jj: int|
            0 <= ii < a.len() - 1 && 0 <= jj < b.len() - 1 && #[trigger] overlap_piece(
                a[ii],
                a[ii + 1],
                b[jj],
                b[jj + 1],
            ) == Some(piece);
        lemma_overlap_piece_on_segments(a[ii], a[ii + 1], b[jj], b[jj + 1]);
        assert(seg_contains(a[ii], a[ii + 1], piece.0));
        assert(seg_contains(b[jj], b[jj + 1], piece.0));
        assert(seg_contains(a[ii], a[ii + 1], piece.1));
        assert(seg_contains(b[jj], b[jj + 1], piece.1));
        assert(s[0] == piece.0 && s[1] == piece.1);
    }
}

/// When the intersection of two polylines is a single point, that point
/// lies on both polylines.
pub proof fn lemma_point_result_on_both(a: Seq<Point>, b: Seq<Point>)
    ensures
        line_string_model(a, b) matches Some(GeometryModel::Point(p)) ==> point_on_line_string(
            a,
            p,
        ) && point_on_line_string(b, p),
{
    lemma_first_point_value(a, b, 0);
    if a != b && first_overlap(a, b, 0) is None && first_point(a, b, 0) is Some {
        let p = first_point(a, b, 0)->Some_0;
        let (ii, jj) = choose|ii: int, jj: int|
            0 <= ii < a.len() - 1 && 0 <= jj < b.len() - 1 && #[trigger] pair_point(
                a[ii],
                a[ii + 1],
                b[jj],
                b[jj + 1],
            ) == Some(p);
        lemma_pair_point_on_segments(a[ii], a[ii + 1], b[jj], b[jj + 1]);
        assert(seg_contains(a[ii], a[ii + 1], p));
        assert(seg_contains(b[jj], b[jj + 1], p));
    }
}

/// Whether some segment pair overlaps does not depend on the operand
/// order.
proof fn lemma_has_overlap_symmetric(a: Seq<Point>, b: Seq<Point>)
    ensures
        has_overlap(a, b, 0) == has_overlap(b, a, 0),
{
    if has_overlap(a, b, 0) {
        let (ii, jj) = choose|ii: int, jj: int|
            0 <= ii < a.len() - 1 && 0 <= jj < b.len() - 1 && (#[trigger] overlap_piece(
                a[ii],
                a[ii + 1],
                b[jj],
                b[jj + 1],
            )) is Some;
        lemma_overlap_piece_symmetric(a[ii], a[ii + 1], b[jj], b[jj + 1]);
        assert(overlap_piece(b[jj], b[jj + 1], a[ii], a[ii + 1]) is Some);
        assert(has_overlap(b, a, 0));
    }
    if has_overlap(b, a, 0) {
        let (jj, ii) = choose|jj: int, ii: int|
            0 <= jj < b.len() - 1 && 0 <= ii < a.len() - 1 && (#[trigger] overlap_piece(
                b[jj],
                b[jj + 1],
                a[ii],
                a[ii + 1],
            )) is Some;
        lemma_overlap_piece_symmetric(b[jj], b[jj + 1], a[ii], a[ii + 1]);
        assert(overlap_piece(a[ii], a[ii + 1], b[jj], b[jj + 1]) is Some);
        assert(has_overlap(a, b, 0));
    }
}

/// Whether some segment pair shares a point does not depend on the operand
/// order.
proof fn lemma_has_point_symmetric(a: Seq<Point>, b: Seq<Point>)
    ensures
        has_point(a, b, 0) == has_point(b, a, 0),
{
    if has_point(a, b, 0) {
        let (ii, jj) = choose|ii: int, jj: int|
            0 <= ii < a.len() - 1 && 0 <= jj < b.len() - 1 && (#[trigger] pair_point(
                a[ii],
                a[ii + 1],
                b[jj],
                b[jj + 1],
            )) is Some;
        lemma_pair_point_symmetric(a[ii], a[ii + 1], b[jj], b[jj + 1]);
        assert(pair_point(b[jj], b[jj + 1], a[ii], a[ii + 1]) is Some);
        assert(has_point(b, a, 0));
    }
    if has_point(b, a, 0) {
        let (jj, ii) = choose|jj: int, ii: int|
            0 <= jj < b.len() - 1 && 0 <= ii < a.len() - 1 && (#[trigger] pair_point(
                b[jj],
                b[jj + 1],
                a[ii],
                a[ii + 1],
            )) is Some;
        lemma_pair_point_symmetric(b[jj], b[jj + 1], a[ii], a[ii + 1]);
        assert(pair_point(a[ii], a[ii + 1], b[jj], b[jj + 1]) is Some);
        assert(has_point(a, b, 0));
    }
}

/// Intersecting two polylines reports the same overlap existence in either
/// operand order.
pub proof fn lemma_line_string_intersection_symmetric(a: Seq<Point>, b: Seq<Point>)
    ensures
        (line_string_model(a, b) is Some) == (line_string_model(b, a) is Some),
{
    lemma_first_overlap_iff(a, b, 0);
    lemma_first_overlap_iff(b, a, 0);
    lemma_first_point_iff(a, b, 0);
    lemma_first_point_iff(b, a, 0);
    lemma_has_overlap_symmetric(a, b);
    lemma_has_point_symmetric(a, b);
}

} // verus!
