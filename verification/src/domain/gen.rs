//! Configuration of game generation: the bounds between which the map's
//! rectangle is drawn.
use vstd::prelude::*;
use crate::domain::geometry::{Coord, CoordPair, Rect};
use crate::geometry::axis::fits;

verus! {

/// The random number generator of generation.
pub type PickedReproducibleRng = crate::gen::random::PickedReproducibleRng;

/// A map configuration refused.
#[derive(Debug, Clone, Copy, PartialEq, Eq)]
pub enum InvalidMapConfig {
    /// The size is below the least map size.
    TooSmall { given_size: CoordPair },
    /// The rectangle reaches past the last coordinate.
    BottomRightOverflow { given_rect: Rect },
    /// The area of the size overflows.
    AreaOverflow { given_size: CoordPair },
    /// The least top left would exceed the greatest.
    TopLeftBoundOrder { min: CoordPair, max: CoordPair },
    /// The least size would exceed the greatest.
    SizeBoundOrder { min: CoordPair, max: CoordPair },
}

/// Whether some coordinate of `min` exceeds that of `max`.
pub open spec fn out_of_order(min: CoordPair, max: CoordPair) -> bool {
    min.y > max.y || min.x > max.x
}

/// Whether the corner past the bottom right of `top_left` and `size` has coordinates.
pub open spec fn corner_fits(top_left: CoordPair, size: CoordPair) -> bool {
    fits::<Coord>((top_left.y + size.y, top_left.x + size.x))
}

/// Whether some coordinate of `min` exceeds that of `max`, in executable form.
pub(crate) fn any_greater(min: CoordPair, max: CoordPair) -> (r: bool)
    ensures
        r == out_of_order(min, max),
{
    min.y > max.y || min.x > max.x
}

/// The bounds of the map's rectangle: its top left and its size are drawn
/// between a least and a greatest point.
#[derive(Debug, Clone, Copy, PartialEq, Eq)]
pub struct MapConfig {
    min_top_left: CoordPair,
    max_top_left: CoordPair,
    min_size: CoordPair,
    max_size: CoordPair,
}

impl MapConfig {
    /// The least top left.
    pub closed spec fn min_top_left_spec(self) -> CoordPair {
        self.min_top_left
    }

    /// The greatest top left.
    pub closed spec fn max_top_left_spec(self) -> CoordPair {
        self.max_top_left
    }

    /// The least size.
    pub closed spec fn min_size_spec(self) -> CoordPair {
        self.min_size
    }

    /// The greatest size.
    pub closed spec fn max_size_spec(self) -> CoordPair {
        self.max_size
    }

    /// The default bounds: top left from (0, 0) to (10000, 10000), size from
    /// (950, 950) to (1050, 1050).
    pub fn new() -> (r: MapConfig)
        ensures
            r.min_top_left_spec() == (CoordPair { y: 0u16, x: 0u16 }),
            r.max_top_left_spec() == (CoordPair { y: 10_000u16, x: 10_000u16 }),
            r.min_size_spec() == (CoordPair { y: 950u16, x: 950u16 }),
            r.max_size_spec() == (CoordPair { y: 1050u16, x: 1050u16 }),
    {
        MapConfig {
            min_top_left: CoordPair { y: 0, x: 0 },
            max_top_left: CoordPair { y: 10_000, x: 10_000 },
            min_size: CoordPair { y: 950, x: 950 },
            max_size: CoordPair { y: 1050, x: 1050 },
        }
    }

    /// The configuration with the least top left set, unless it exceeds the
    /// greatest, or the greatest size from it reaches past the last coordinate.
    pub fn with_min_top_left(self, min_top_left: CoordPair) -> (r: Result<MapConfig, InvalidMapConfig>)
        ensures
            match r {
                Ok(c) => !out_of_order(min_top_left, self.max_top_left_spec()) && corner_fits(min_top_left, self.max_size_spec())
                    && (c.min_top_left_spec() == min_top_left && c.max_top_left_spec() == self.max_top_left_spec() && c.min_size_spec() == self.min_size_spec() && c.max_size_spec() == self.max_size_spec()),
                Err(e) => if out_of_order(min_top_left, self.max_top_left_spec()) {
                    e == InvalidMapConfig::TopLeftBoundOrder { min: min_top_left, max: self.max_top_left_spec() }
                } else {
                    !corner_fits(min_top_left, self.max_size_spec()) && e == InvalidMapConfig::BottomRightOverflow {
                        given_rect: Rect { top_left: min_top_left, size: self.max_size_spec() },
                    }
                },
            },
    {
        if any_greater(min_top_left, self.max_top_left) {
            return Err(InvalidMapConfig::TopLeftBoundOrder { min: min_top_left, max: self.max_top_left });
        }
        let rect = Rect { top_left: min_top_left, size: self.max_size };
        if rect.checked_bottom_right().is_none() {
            return Err(InvalidMapConfig::BottomRightOverflow { given_rect: rect });
        }
        Ok(MapConfig { min_top_left, ..self })
    }

    /// The configuration with the greatest top left set, unless the least
    /// exceeds it, or the greatest size from it reaches past the last coordinate.
    pub fn with_max_top_left(self, max_top_left: CoordPair) -> (r: Result<MapConfig, InvalidMapConfig>)
        ensures
            match r {
                Ok(c) => !out_of_order(self.min_top_left_spec(), max_top_left) && corner_fits(max_top_left, self.max_size_spec())
                    && (c.min_top_left_spec() == self.min_top_left_spec() && c.max_top_left_spec() == max_top_left && c.min_size_spec() == self.min_size_spec() && c.max_size_spec() == self.max_size_spec()),
                Err(e) => if out_of_order(self.min_top_left_spec(), max_top_left) {
                    e == InvalidMapConfig::TopLeftBoundOrder { min: self.min_top_left_spec(), max: max_top_left }
                } else {
                    !corner_fits(max_top_left, self.max_size_spec()) && e == InvalidMapConfig::BottomRightOverflow {
                        given_rect: Rect { top_left: max_top_left, size: self.max_size_spec() },
                    }
                },
            },
    {
        if any_greater(self.min_top_left, max_top_left) {
            return Err(InvalidMapConfig::TopLeftBoundOrder { min: self.min_top_left, max: max_top_left });
        }
        let rect = Rect { top_left: max_top_left, size: self.max_size };
        if rect.checked_bottom_right().is_none() {
            return Err(InvalidMapConfig::BottomRightOverflow { given_rect: rect });
        }
        Ok(MapConfig { max_top_left, ..self })
    }

    /// The configuration with the least size set, unless it exceeds the
    /// greatest, or it reaches past the last coordinate from the greatest top left.
    pub fn with_min_size(self, min_size: CoordPair) -> (r: Result<MapConfig, InvalidMapConfig>)
        ensures
            match r {
                Ok(c) => !out_of_order(min_size, self.max_size_spec()) && corner_fits(self.max_top_left_spec(), min_size)
                    && (c.min_top_left_spec() == self.min_top_left_spec() && c.max_top_left_spec() == self.max_top_left_spec() && c.min_size_spec() == min_size && c.max_size_spec() == self.max_size_spec()),
                Err(e) => if out_of_order(min_size, self.max_size_spec()) {
                    e == InvalidMapConfig::SizeBoundOrder { min: min_size, max: self.max_size_spec() }
                } else {
                    !corner_fits(self.max_top_left_spec(), min_size) && e == InvalidMapConfig::BottomRightOverflow {
                        given_rect: Rect { top_left: self.max_top_left_spec(), size: min_size },
                    }
                },
            },
    {
        if any_greater(min_size, self.max_size) {
            return Err(InvalidMapConfig::SizeBoundOrder { min: min_size, max: self.max_size });
        }
        let rect = Rect { top_left: self.max_top_left, size: min_size };
        if rect.checked_bottom_right().is_none() {
            return Err(InvalidMapConfig::BottomRightOverflow { given_rect: rect });
        }
        Ok(MapConfig { min_size, ..self })
    }

    /// The configuration with the greatest size set, unless the least exceeds
    /// it, or it reaches past the last coordinate from the greatest top left.
    pub fn with_max_size(self, max_size: CoordPair) -> (r: Result<MapConfig, InvalidMapConfig>)
        ensures
            match r {
                Ok(c) => !out_of_order(self.min_size_spec(), max_size) && corner_fits(self.max_top_left_spec(), max_size)
                    && (c.min_top_left_spec() == self.min_top_left_spec() && c.max_top_left_spec() == self.max_top_left_spec() && c.min_size_spec() == self.min_size_spec() && c.max_size_spec() == max_size),
                Err(e) => if out_of_order(self.min_size_spec(), max_size) {
                    e == InvalidMapConfig::SizeBoundOrder { min: self.min_size_spec(), max: max_size }
                } else {
                    !corner_fits(self.max_top_left_spec(), max_size) && e == InvalidMapConfig::BottomRightOverflow {
                        given_rect: Rect { top_left: self.max_top_left_spec(), size: max_size },
                    }
                },
            },
    {
        if any_greater(self.min_size, max_size) {
            return Err(InvalidMapConfig::SizeBoundOrder { min: self.min_size, max: max_size });
        }
        let rect = Rect { top_left: self.max_top_left, size: max_size };
        if rect.checked_bottom_right().is_none() {
            return Err(InvalidMapConfig::BottomRightOverflow { given_rect: rect });
        }
        Ok(MapConfig { max_size, ..self })
    }

    /// The least top left.
    pub fn min_top_left(&self) -> (r: CoordPair)
        ensures
            r == self.min_top_left_spec(),
    {
        self.min_top_left
    }

    /// The greatest top left.
    pub fn max_top_left(&self) -> (r: CoordPair)
        ensures
            r == self.max_top_left_spec(),
    {
        self.max_top_left
    }

    /// The least size.
    pub fn min_size(&self) -> (r: CoordPair)
        ensures
            r == self.min_size_spec(),
    {
        self.min_size
    }

    /// The greatest size.
    pub fn max_size(&self) -> (r: CoordPair)
        ensures
            r == self.max_size_spec(),
    {
        self.max_size
    }
}

impl Default for MapConfig {
    fn default() -> (r: MapConfig)
        ensures
            r.min_top_left_spec() == (CoordPair { y: 0u16, x: 0u16 }),
            r.max_top_left_spec() == (CoordPair { y: 10_000u16, x: 10_000u16 }),
            r.min_size_spec() == (CoordPair { y: 950u16, x: 950u16 }),
            r.max_size_spec() == (CoordPair { y: 1050u16, x: 1050u16 }),
    {
        MapConfig::new()
    }
}

/// The configuration of game generation.
#[derive(Debug, Clone, Copy, PartialEq, Eq)]
pub struct GameConfig {
    map_config: MapConfig,
}

impl GameConfig {
    /// The map configuration.
    pub closed spec fn map_config_spec(self) -> MapConfig {
        self.map_config
    }

    /// The default configuration.
    pub fn new() -> (r: GameConfig)
        ensures
            r.map_config_spec().min_top_left_spec() == (CoordPair { y: 0u16, x: 0u16 }),
            r.map_config_spec().max_top_left_spec() == (CoordPair { y: 10_000u16, x: 10_000u16 }),
            r.map_config_spec().min_size_spec() == (CoordPair { y: 950u16, x: 950u16 }),
            r.map_config_spec().max_size_spec() == (CoordPair { y: 1050u16, x: 1050u16 }),
    {
        GameConfig { map_config: MapConfig::new() }
    }

    /// The configuration with the map configuration replaced.
    pub fn with_map(self, map_config: MapConfig) -> (r: GameConfig)
        ensures
            r.map_config_spec() == map_config,
    {
        GameConfig { map_config, ..self }
    }

    /// The map configuration.
    pub fn map_config(&self) -> (r: MapConfig)
        ensures
            r == self.map_config_spec(),
    {
        self.map_config
    }
}

impl Default for GameConfig {
    fn default() -> (r: GameConfig)
        ensures
            r.map_config_spec() == MapConfig::new_spec(),
    {
        GameConfig::new()
    }
}

impl MapConfig {
    /// The default bounds, in specifications.
    pub closed spec fn new_spec() -> MapConfig {
        MapConfig {
            min_top_left: CoordPair { y: 0, x: 0 },
            max_top_left: CoordPair { y: 10_000, x: 10_000 },
            min_size: CoordPair { y: 950, x: 950 },
            max_size: CoordPair { y: 1050, x: 1050 },
        }
    }
}

} // verus!
