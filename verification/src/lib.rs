//! Exact planar intersection of points and polylines.
//!
//! The engine answers whether two geometric objects share any point and, if
//! so, returns the shared geometry: a point, or an overlapping sub-segment.
//! Coordinates are exact integers; collinearity is decided by an exact
//! cross-product test, so there is no rounding tolerance anywhere. Two
//! known consequences of exactness are deliberate and documented rather
//! than patched with an epsilon: a point only counts as on a segment when
//! it is exactly collinear with it, and a proper crossing whose coordinates
//! are not whole numbers has no representation in the coordinate grid and
//! is reported as no intersection.

pub mod geometry;
pub mod numeric;
pub mod segment;
pub mod intersection;
pub mod laws;
