//! What the land of each point is made of.
use vstd::prelude::*;

verus! {

/// The kind of region a point belongs to.
#[derive(Debug, Clone, Copy, PartialEq, Eq, Structural, PartialOrd, Ord, Hash, Default)]
pub enum Biome {
    #[default]
    Plains,
    Desert,
    Wasteland,
}

impl Biome {
    /// The number of biomes.
    pub const COUNT: usize = 3;

    /// Every biome, in declaration order.
    pub fn all() -> (r: [Biome; 3])
        ensures
            r@ == seq![Biome::Plains, Biome::Desert, Biome::Wasteland],
    {
        [Biome::Plains, Biome::Desert, Biome::Wasteland]
    }
}

/// The ground of a point.
#[derive(Debug, Clone, Copy, PartialEq, Eq, Structural, PartialOrd, Ord, Hash, Default)]
pub enum Ground {
    #[default]
    Grass,
    Sand,
    Stone,
}

impl Ground {
    /// The number of grounds.
    pub const COUNT: usize = 3;

    /// Every ground, in declaration order.
    pub fn all() -> (r: [Ground; 3])
        ensures
            r@ == seq![Ground::Grass, Ground::Sand, Ground::Stone],
    {
        [Ground::Grass, Ground::Sand, Ground::Stone]
    }
}

} // verus!
