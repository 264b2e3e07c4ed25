//! What occupies a point of the map.
use vstd::prelude::*;
use crate::domain::monster;

verus! {

/// What occupies a point of the map.
#[derive(Debug, Clone, Copy, PartialEq, Eq, Structural, PartialOrd, Ord, Hash)]
pub enum Block {
    /// Something that can be placed and removed freely.
    Placeable(PlaceableBlock),
    /// A being.
    Special(SpecialBlock),
}

impl Default for Block {
    fn default() -> (r: Self)
        ensures
            r == Block::Placeable(PlaceableBlock::Air),
    {
        Block::Placeable(PlaceableBlock::Air)
    }
}

impl From<PlaceableBlock> for Block {
    fn from(block: PlaceableBlock) -> (r: Self) {
        Block::Placeable(block)
    }
}

impl vstd::std_specs::convert::FromSpecImpl<PlaceableBlock> for Block {
    open spec fn obeys_from_spec() -> bool {
        true
    }

    open spec fn from_spec(v: PlaceableBlock) -> Block {
        Block::Placeable(v)
    }
}

impl From<SpecialBlock> for Block {
    fn from(block: SpecialBlock) -> (r: Self) {
        Block::Special(block)
    }
}

impl vstd::std_specs::convert::FromSpecImpl<SpecialBlock> for Block {
    open spec fn obeys_from_spec() -> bool {
        true
    }

    open spec fn from_spec(v: SpecialBlock) -> Block {
        Block::Special(v)
    }
}

/// A block that can be placed and removed freely.
#[derive(Debug, Clone, Copy, PartialEq, Eq, Structural, PartialOrd, Ord, Hash, Default)]
pub enum PlaceableBlock {
    /// Nothing.
    #[default]
    Air,
}

/// A being occupying a point.
#[derive(Debug, Clone, Copy, PartialEq, Eq, Structural, PartialOrd, Ord, Hash, Default)]
pub enum SpecialBlock {
    /// The player.
    #[default]
    Player,
    /// The monster with the given identifier.
    Monster(monster::Id),
}

} // verus!
