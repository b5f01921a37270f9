//! The intersection engine: pairwise intersection of points and polylines.
//!
//! Each supported operand pair implements [`Intersection`]; the contract of
//! every implementation is its `intersection_model`, an exact mathematical
//! statement of the returned geometry.

use vstd::prelude::*;
use crate::geometry::{Point, LineString, Geometry, GeometryModel, opt_model};
use crate::segment::{
    seg_contains, seg_contains_exec, overlap_piece, overlap_piece_exec, pair_point,
    pair_point_exec,
};

verus! {

/// Intersection of one geometry with another: the result is nothing, or the
/// shared geometry, exactly as described by `intersection_model`.
pub trait Intersection<Rhs> {
    /// What the operands must satisfy before intersecting.
    spec fn valid_operands(&self, rhs: &Rhs) -> bool;

    /// The exact model of the intersection result.
    spec fn intersection_model(&self, rhs: &Rhs) -> Option<GeometryModel>;

    /// Computes the intersection of `self` with `rhs`.
    fn intersection(&self, rhs: &Rhs) -> (r: Option<Geometry>)
        requires
            self.valid_operands(rhs),
        ensures
            opt_model(r) == self.intersection_model(rhs),
    ;
}

/// The point `p` lies on some segment of the polyline `l`.
pub open spec fn point_on_line_string(l: Seq<Point>, p: Point) -> bool {
    exists|i: int| 0 <= i < l.len() - 1 && #[trigger] seg_contains(l[i], l[i + 1], p)
}

/// The model of intersecting a polyline with a point: the point itself when
/// it lies on some segment of the polyline, and nothing otherwise.
pub open spec fn line_string_point_model(l: Seq<Point>, p: Point) -> Option<GeometryModel> {
    if point_on_line_string(l, p) {
        Some(GeometryModel::Point(p))
    } else {
        None
    }
}

impl Intersection<Point> for Point {
    open spec fn valid_operands(&self, rhs: &Point) -> bool {
        true
    }

    /// The shared geometry of two points is the point itself when the two
    /// are structurally equal, and nothing otherwise. Equality is exact on
    /// both components; there is no tolerance.
    open spec fn intersection_model(&self, rhs: &Point) -> Option<GeometryModel> {
        if *self == *rhs {
            Some(GeometryModel::Point(*self))
        } else {
            None
        }
    }

    fn intersection(&self, rhs: &Point) -> (r: Option<Geometry>) {
        if *self == *rhs {
            Some(Geometry::Point(*self))
        } else {
            None
        }
    }
}

impl Intersection<Point> for LineString {
    open spec fn valid_operands(&self, rhs: &Point) -> bool {
        self.well_formed()
    }

    /// The shared geometry of a polyline and a point, as described by
    /// [`line_string_point_model`].
    open spec fn intersection_model(&self, rhs: &Point) -> Option<GeometryModel> {
        line_string_point_model(self@, *rhs)
    }

    fn intersection(&self, rhs: &Point) -> (r: Option<Geometry>) {
        let n = self.0.len();
        let mut i: usize = 0;
        while i + 1 < n
            invariant
                n == self@.len(),
                0 <= i <= n - 1,
                forall|k: int| 0 <= k < i ==> !(#[trigger] seg_contains(self@[k], self@[k + 1], *rhs)),
            decreases n - i,
        {
            if seg_contains_exec(self.0[i], self.0[i + 1], *rhs) {
                proof {
                    assert(seg_contains(self@[i as int], self@[i + 1], *rhs));
                }
                return Some(Geometry::Point(*rhs));
            }
            i = i + 1;
        }
        None
    }
}

/// The first collinear overlap piece between the fixed segment `(a1, a2)`
/// and the segments of `b` from index `j` on, in index order.
pub open spec fn first_overlap_in_row(a1: Point, a2: Point, b: Seq<Point>, j: int) -> Option<
    (Point, Point),
>
    decreases b.len() - j,
{
    if j < 0 || j + 1 >= b.len() {
        None
    } else {
        match overlap_piece(a1, a2, b[j], b[j + 1]) {
            Some(piece) => Some(piece),
            None => first_overlap_in_row(a1, a2, b, j + 1),
        }
    }
}

/// The first collinear overlap piece between a segment of `a` from index
/// `i` on and any segment of `b`, scanning `a` in the outer loop and `b` in
/// the inner one.
pub open spec fn first_overlap(a: Seq<Point>, b: Seq<Point>, i: int) -> Option<(Point, Point)>
    decreases a.len() - i,
{
    if i < 0 || i + 1 >= a.len() {
        None
    } else {
        match first_overlap_in_row(a[i], a[i + 1], b, 0) {
            Some(piece) => Some(piece),
            None => first_overlap(a, b, i + 1),
        }
    }
}

/// The first single shared point between the fixed segment `(a1, a2)` and
/// the segments of `b` from index `j` on, in index order.
pub open spec fn first_point_in_row(a1: Point, a2: Point, b: Seq<Point>, j: int) -> Option<Point>
    decreases b.len() - j,
{
    if j < 0 || j + 1 >= b.len() {
        None
    } else {
        match pair_point(a1, a2, b[j], b[j + 1]) {
            Some(p) => Some(p),
            None => first_point_in_row(a1, a2, b, j + 1),
        }
    }
}

/// The first single shared point between a segment of `a` from index `i` on
/// and any segment of `b`, in the same scan order as [`first_overlap`].
pub open spec fn first_point(a: Seq<Point>, b: Seq<Point>, i: int) -> Option<Point>
    decreases a.len() - i,
{
    if i < 0 || i + 1 >= a.len() {
        None
    } else {
        match first_point_in_row(a[i], a[i + 1], b, 0) {
            Some(p) => Some(p),
            None => first_point(a, b, i + 1),
        }
    }
}

/// The model of intersecting two polylines. Identical vertex sequences
/// share the whole polyline. Otherwise a polyline result is preferred over
/// a point result: the first collinear overlap piece in scan order when one
/// exists, else the first single shared point in scan order, else nothing.
pub open spec fn line_string_model(a: Seq<Point>, b: Seq<Point>) -> Option<GeometryModel> {
    if a == b {
        Some(GeometryModel::LineString(a))
    } else {
        match first_overlap(a, b, 0) {
            Some(piece) => Some(GeometryModel::LineString(seq![piece.0, piece.1])),
            None => match first_point(a, b, 0) {
                Some(p) => Some(GeometryModel::Point(p)),
                None => None,
            },
        }
    }
}

/// Compares two polylines vertex by vertex.
fn line_strings_equal(a: &LineString, b: &LineString) -> (r: bool)
    ensures
        r == (a@ == b@),
{
    let n = a.0.len();
    if n != b.0.len() {
        return false;
    }
    let mut i: usize = 0;
    while i < n
        invariant
            n == a@.len(),
            n == b@.len(),
            i <= n,
            forall|k: int| 0 <= k < i ==> a@[k] == b@[k],
        decreases n - i,
    {
        if !(a.0[i] == b.0[i]) {
            return false;
        }
        i = i + 1;
    }
    proof {
        assert(a@ =~= b@);
    }
    true
}

/// Copies a polyline's vertices into a fresh polyline.
fn copy_line_string(a: &LineString) -> (r: LineString)
    ensures
        r@ == a@,
{
    let n = a.0.len();
    let mut v: Vec<Point> = Vec::new();
    let mut i: usize = 0;
    while i < n
        invariant
            n == a@.len(),
            i <= n,
            v@ == a@.subrange(0, i as int),
        decreases n - i,
    {
        v.push(a.0[i]);
        proof {
            assert(v@ =~= a@.subrange(0, i + 1));
        }
        i = i + 1;
    }
    proof {
        assert(a@.subrange(0, n as int) =~= a@);
    }
    LineString(v)
}

/// Scans all segment pairs in index order for the first collinear overlap.
fn find_overlap(a: &LineString, b: &LineString) -> (r: Option<(Point, Point)>)
    requires
        a.well_formed(),
        b.well_formed(),
    ensures
        r == first_overlap(a@, b@, 0),
{
    let na = a.0.len();
    let nb = b.0.len();
    let mut i: usize = 0;
    while i + 1 < na
        invariant
            na == a@.len(),
            nb == b@.len(),
            2 <= na,
            2 <= nb,
            i <= na - 1,
            first_overlap(a@, b@, 0) == first_overlap(a@, b@, i as int),
        decreases na - i,
    {
        let a1 = a.0[i];
        let a2 = a.0[i + 1];
        let mut j: usize = 0;
        while j + 1 < nb
            invariant
                na == a@.len(),
                nb == b@.len(),
                2 <= nb,
                i + 1 < na,
                j <= nb - 1,
                a1 == a@[i as int],
                a2 == a@[i + 1],
                first_overlap(a@, b@, 0) == first_overlap(a@, b@, i as int),
                first_overlap_in_row(a1, a2, b@, 0) == first_overlap_in_row(a1, a2, b@, j as int),
            decreases nb - j,
        {
            let piece = overlap_piece_exec(a1, a2, b.0[j], b.0[j + 1]);
            if piece.is_some() {
                return piece;
            }
            j = j + 1;
        }
        i = i + 1;
    }
    None
}

/// Scans all segment pairs in index order for the first single shared point.
fn find_point(a: &LineString, b: &LineString) -> (r: Option<Point>)
    requires
        a.well_formed(),
        b.well_formed(),
    ensures
        r == first_point(a@, b@, 0),
{
    let na = a.0.len();
    let nb = b.0.len();
    let mut i: usize = 0;
    while i + 1 < na
        invariant
            na == a@.len(),
            nb == b@.len(),
            2 <= na,
            2 <= nb,
            i <= na - 1,
            first_point(a@, b@, 0) == first_point(a@, b@, i as int),
        decreases na - i,
    {
        let a1 = a.0[i];
        let a2 = a.0[i + 1];
        let mut j: usize = 0;
        while j + 1 < nb
            invariant
                na == a@.len(),
                nb == b@.len(),
                2 <= nb,
                i + 1 < na,
                j <= nb - 1,
                a1 == a@[i as int],
                a2 == a@[i + 1],
                first_point(a@, b@, 0) == first_point(a@, b@, i as int),
                first_point_in_row(a1, a2, b@, 0) == first_point_in_row(a1, a2, b@, j as int),
            decreases nb - j,
        {
            let p = pair_point_exec(a1, a2, b.0[j], b.0[j + 1]);
            if p.is_some() {
                return p;
            }
            j = j + 1;
        }
        i = i + 1;
    }
    None
}

impl Intersection<LineString> for LineString {
    open spec fn valid_operands(&self, rhs: &LineString) -> bool {
        self.well_formed() && rhs.well_formed()
    }

    /// The shared geometry of two polylines, as described by
    /// [`line_string_model`].
    open spec fn intersection_model(&self, rhs: &LineString) -> Option<GeometryModel> {
        line_string_model(self@, rhs@)
    }

    fn intersection(&self, rhs: &LineString) -> (r: Option<Geometry>) {
        if line_strings_equal(self, rhs) {
            return Some(Geometry::LineString(copy_line_string(self)));
        }
        match find_overlap(self, rhs) {
            Some((lo, hi)) => {
                let mut v: Vec<Point> = Vec::new();
                v.push(lo);
                v.push(hi);
                proof {
                    assert(v@ =~= seq![lo, hi]);
                }
                Some(Geometry::LineString(LineString(v)))
            },
            None => match find_point(self, rhs) {
                Some(p) => Some(Geometry::Point(p)),
                None => None,
            },
        }
    }
}

} // verus!
