//! The geometry value types: points, polylines, and the tagged result type.
//!
//! All of them are caller-owned values with exact structural equality; the
//! intersection engine never mutates an input.

use vstd::prelude::*;

verus! {

/// A planar point with exact integer coordinates.
#[derive(Clone, Copy, Debug, PartialEq, Eq, Structural)]
pub struct Point {
    pub x: i32,
    pub y: i32,
}

impl Point {
    pub fn new(x: i32, y: i32) -> (p: Point)
        ensures
            p == (Point { x, y }),
    {
        Point { x, y }
    }
}

/// An ordered sequence of vertices forming a polyline of consecutive
/// segments `vertex[i] -> vertex[i + 1]`.
///
/// A well-formed polyline has at least two vertices; constructing a shorter
/// one is the caller's mistake and the intersection methods require
/// [`LineString::well_formed`].
#[derive(Clone, Debug, PartialEq)]
pub struct LineString(pub Vec<Point>);

impl View for LineString {
    type V = Seq<Point>;

    open spec fn view(&self) -> Seq<Point> {
        self.0@
    }
}

impl LineString {
    /// A polyline must have at least two vertices to form a segment.
    pub open spec fn well_formed(&self) -> bool {
        self@.len() >= 2
    }
}

/// The shape of an intersection result: a single shared point, or a shared
/// sub-segment returned as a (two-vertex) polyline.
#[derive(Clone, Debug, PartialEq)]
pub enum Geometry {
    Point(Point),
    LineString(LineString),
}

/// The mathematical model of a [`Geometry`] value: the same tag, with the
/// polyline abstracted to its vertex sequence.
pub enum GeometryModel {
    Point(Point),
    LineString(Seq<Point>),
}

impl View for Geometry {
    type V = GeometryModel;

    open spec fn view(&self) -> GeometryModel {
        match self {
            Geometry::Point(p) => GeometryModel::Point(*p),
            Geometry::LineString(l) => GeometryModel::LineString(l@),
        }
    }
}

/// The model of an optional intersection result.
pub open spec fn opt_model(r: Option<Geometry>) -> Option<GeometryModel> {
    match r {
        Some(g) => Some(g@),
        None => None,
    }
}

} // verus!
