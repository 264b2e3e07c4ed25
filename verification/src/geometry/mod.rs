//! Points, directions, rectangles and collections keyed by points.
pub mod coord;
pub mod axis;
pub mod coords;
pub mod rect;
pub mod bounds;
pub mod collections;
