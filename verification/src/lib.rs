//! A region quadtree over axis-aligned rectangles with integer coordinates.
//!
//! The tree stores rectangles that never overlap one another: an insertion
//! that would overlap a stored rectangle is rejected. The root region grows
//! outward on demand to make room for rectangles outside the current bounds,
//! and queries collect the rectangles stored in nodes whose bounding
//! rectangles are touched by a query rectangle.

pub mod geometry;
pub mod quadtree;
