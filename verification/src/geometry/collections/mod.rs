//! Collections keyed by points.
pub mod map;
pub mod set;
pub mod graph;
