//! The coordinate types of the game's map.
use vstd::prelude::*;

verus! {

/// One coordinate on the map.
pub type Coord = u16;

/// A point on the map.
pub type CoordPair = crate::geometry::coords::CoordPair<Coord>;

/// A rectangle on the map.
pub type Rect = crate::geometry::rect::Rect<Coord>;

} // verus!
