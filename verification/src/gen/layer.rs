//! Layers of the map that generation fills in, point by point: what a layer
//! holds at a point, how it is read and written, and the distributions that
//! pick a value for a point.
use vstd::prelude::*;
use crate::domain::block::Block;
use crate::domain::geometry::CoordPair;
use crate::domain::map::{outside_error, AccessError, GameMap};
use crate::domain::matter::{Biome, Ground};
use crate::gen::random::PickedReproducibleRng;

verus! {

/// A layer of the map: one value at each point of its rectangle.
pub trait Layer {
    /// The value held at a point.
    type Data;
    /// Why the layer could not be read or written.
    type Error;

    /// The value the layer holds at `point` of `map`.
    spec fn value_at(&self, map: GameMap, point: CoordPair) -> Self::Data;

    /// Whether `after` keeps from `before` all that lies outside of this layer.
    spec fn keeps(&self, before: GameMap, after: GameMap) -> bool;

    /// Whether `value` can be written at `point` of `map`.
    spec fn accepts(&self, map: GameMap, point: CoordPair, value: Self::Data) -> bool;

    /// A map keeps all that lies outside of this layer from itself.
    proof fn lemma_keeps_refl(&self, m: GameMap)
        ensures
            self.keeps(m, m),
    ;

    /// Keeping what lies outside of this layer twice keeps it once.
    proof fn lemma_keeps_trans(&self, a: GameMap, b: GameMap, c: GameMap)
        requires
            self.keeps(a, b),
            self.keeps(b, c),
        ensures
            self.keeps(a, c),
    ;

    /// Reads the value at `point`; the map is left as it was.
    fn get(&self, map: &mut GameMap, point: CoordPair) -> (r: Result<Self::Data, Self::Error>)
        requires
            old(map).wf(),
        ensures
            *final(map) == *old(map),
            r matches Ok(v) ==> old(map).rect_spec().contains(point) && v == self.value_at(*old(map), point),
    ;

    /// Writes `value` at `point`; every other point keeps its value.
    fn set(&self, map: &mut GameMap, point: CoordPair, value: Self::Data) -> (r: Result<(), Self::Error>)
        requires
            old(map).wf(),
        ensures
            final(map).wf(),
            final(map).rect_spec() == old(map).rect_spec(),
            self.keeps(*old(map), *final(map)),
            r is Ok <==> self.accepts(*old(map), point, value),
            r is Ok ==> old(map).rect_spec().contains(point) && self.value_at(*final(map), point) == value,
            forall|q: CoordPair|
                #[trigger] old(map).rect_spec().contains(q) && (q != point || r is Err) ==> self.value_at(*final(map), q)
                    == self.value_at(*old(map), q),
    ;
}

/// A distribution of the values of a layer, drawn point by point.
pub trait LayerDistribution {
    /// The value drawn.
    type Data;
    /// Why no value could be drawn.
    type Error;

    /// Whether `value` may be drawn for `point` of `map`.
    spec fn admits(&self, map: GameMap, point: CoordPair, value: Self::Data) -> bool;

    /// Whether drawing a value for `point` of `map` cannot fail.
    spec fn draws_at(&self, map: GameMap, point: CoordPair) -> bool;

    /// Draws a value for `point`; the map is left as it was.
    fn sample(&self, map: &mut GameMap, point: CoordPair, rng: &mut PickedReproducibleRng) -> (r: Result<
        Self::Data,
        Self::Error,
    >)
        requires
            old(map).wf(),
        ensures
            *final(map) == *old(map),
            self.draws_at(*old(map), point) ==> r is Ok,
            r matches Ok(v) ==> self.admits(*old(map), point, v),
    ;
}

/// Why the ground layer could not be read or written.
pub type GroundLayerError = AccessError;

/// Why the biome layer could not be read or written.
pub type BiomeLayerError = AccessError;

/// Why no ground could be drawn.
pub type GroundDistrError = AccessError;

/// The layer of grounds.
#[derive(Debug, Clone)]
pub struct GroundLayer;

impl Layer for GroundLayer {
    type Data = Ground;
    type Error = GroundLayerError;

    open spec fn value_at(&self, map: GameMap, point: CoordPair) -> Ground {
        map.ground_at(point)
    }

    open spec fn keeps(&self, before: GameMap, after: GameMap) -> bool {
        &&& after.rect_spec() == before.rect_spec()
        &&& forall|q: CoordPair|
            #[trigger] before.rect_spec().contains(q) ==> after.biome_at(q) == before.biome_at(q) && after.block_at(q)
                == before.block_at(q)
    }

    open spec fn accepts(&self, map: GameMap, point: CoordPair, value: Ground) -> bool {
        map.rect_spec().contains(point)
    }

    proof fn lemma_keeps_refl(&self, m: GameMap) {
    }

    proof fn lemma_keeps_trans(&self, a: GameMap, b: GameMap, c: GameMap) {
        assert forall|q: CoordPair| #[trigger] a.rect_spec().contains(q) implies b.rect_spec().contains(q) by {
        }
    }

    fn get(&self, map: &mut GameMap, point: CoordPair) -> (r: Result<Ground, AccessError>)
        ensures
            r == if old(map).rect_spec().contains(point) {
                Ok::<Ground, AccessError>(old(map).ground_at(point))
            } else {
                Err(outside_error(old(map).rect_spec(), point))
            },
    {
        map.get_ground(point)
    }

    fn set(&self, map: &mut GameMap, point: CoordPair, value: Ground) -> (r: Result<(), AccessError>)
        ensures
            r is Err ==> r == Err::<(), AccessError>(outside_error(old(map).rect_spec(), point)) && *final(map)
                == *old(map),
    {
        map.set_ground(point, value)
    }
}

/// The layer of biomes.
#[derive(Debug, Clone)]
pub struct BiomeLayer;

impl Layer for BiomeLayer {
    type Data = Biome;
    type Error = BiomeLayerError;

    open spec fn value_at(&self, map: GameMap, point: CoordPair) -> Biome {
        map.biome_at(point)
    }

    open spec fn keeps(&self, before: GameMap, after: GameMap) -> bool {
        &&& after.rect_spec() == before.rect_spec()
        &&& forall|q: CoordPair|
            #[trigger] before.rect_spec().contains(q) ==> after.ground_at(q) == before.ground_at(q) && after.block_at(q)
                == before.block_at(q)
    }

    open spec fn accepts(&self, map: GameMap, point: CoordPair, value: Biome) -> bool {
        map.rect_spec().contains(point)
    }

    proof fn lemma_keeps_refl(&self, m: GameMap) {
    }

    proof fn lemma_keeps_trans(&self, a: GameMap, b: GameMap, c: GameMap) {
        assert forall|q: CoordPair| #[trigger] a.rect_spec().contains(q) implies b.rect_spec().contains(q) by {
        }
    }

    fn get(&self, map: &mut GameMap, point: CoordPair) -> (r: Result<Biome, AccessError>)
        ensures
            r == if old(map).rect_spec().contains(point) {
                Ok::<Biome, AccessError>(old(map).biome_at(point))
            } else {
                Err(outside_error(old(map).rect_spec(), point))
            },
    {
        map.get_biome(point)
    }

    fn set(&self, map: &mut GameMap, point: CoordPair, value: Biome) -> (r: Result<(), AccessError>)
        ensures
            r is Err ==> r == Err::<(), AccessError>(outside_error(old(map).rect_spec(), point)) && *final(map)
                == *old(map),
    {
        map.set_biome(point, value)
    }
}

/// Why the block layer could not be read or written.
#[derive(Debug, Clone, Copy, PartialEq, Eq)]
pub enum BlockLayerError {
    /// The point could not be accessed.
    Access(AccessError),
    /// The block cannot be placed by generation at this point.
    Forbidden(CoordPair),
}

/// The layer of blocks.
#[derive(Debug, Clone)]
pub struct BlockLayer;

impl Layer for BlockLayer {
    type Data = Block;
    type Error = BlockLayerError;

    open spec fn value_at(&self, map: GameMap, point: CoordPair) -> Block {
        map.block_at(point)
    }

    open spec fn keeps(&self, before: GameMap, after: GameMap) -> bool {
        &&& after.rect_spec() == before.rect_spec()
        &&& forall|q: CoordPair|
            #[trigger] before.rect_spec().contains(q) ==> after.biome_at(q) == before.biome_at(q) && after.ground_at(q)
                == before.ground_at(q)
    }

    open spec fn accepts(&self, map: GameMap, point: CoordPair, value: Block) -> bool {
        value is Placeable && map.rect_spec().contains(point)
    }

    proof fn lemma_keeps_refl(&self, m: GameMap) {
    }

    proof fn lemma_keeps_trans(&self, a: GameMap, b: GameMap, c: GameMap) {
        assert forall|q: CoordPair| #[trigger] a.rect_spec().contains(q) implies b.rect_spec().contains(q) by {
        }
    }

    fn get(&self, map: &mut GameMap, point: CoordPair) -> (r: Result<Block, BlockLayerError>)
        ensures
            r == if old(map).rect_spec().contains(point) {
                Ok::<Block, BlockLayerError>(old(map).block_at(point))
            } else {
                Err(BlockLayerError::Access(outside_error(old(map).rect_spec(), point)))
            },
    {
        match map.get_block(point) {
            Ok(block) => Ok(block),
            Err(e) => Err(BlockLayerError::Access(e)),
        }
    }

    fn set(&self, map: &mut GameMap, point: CoordPair, value: Block) -> (r: Result<(), BlockLayerError>)
        ensures
            r is Err ==> *final(map) == *old(map),
            r is Err ==> r == if value is Placeable {
                Err::<(), BlockLayerError>(BlockLayerError::Access(outside_error(old(map).rect_spec(), point)))
            } else {
                Err(BlockLayerError::Forbidden(point))
            },
    {
        let block = match value {
            Block::Placeable(block) => block,
            _ => return Err(BlockLayerError::Forbidden(point)),
        };
        match map.set_placeable_block(point, block) {
            Ok(()) => Ok(()),
            Err(e) => Err(BlockLayerError::Access(e)),
        }
    }
}

/// The distribution of grounds: each biome has its ground.
#[derive(Debug, Clone)]
pub struct GroundLayerDistr;

impl Default for GroundLayerDistr {
    fn default() -> (r: Self) {
        GroundLayerDistr
    }
}

/// The ground that goes with a biome.
pub open spec fn ground_of(biome: Biome) -> Ground {
    match biome {
        Biome::Plains => Ground::Grass,
        Biome::Desert => Ground::Sand,
        Biome::Wasteland => Ground::Stone,
    }
}

impl GroundLayerDistr {
    /// The ground that goes with the biome at `point`.
    pub fn ground_for(&self, map: &GameMap, point: CoordPair) -> (r: Result<Ground, AccessError>)
        requires
            map.wf(),
        ensures
            r == if map.rect_spec().contains(point) {
                Ok::<Ground, AccessError>(ground_of(map.biome_at(point)))
            } else {
                Err(crate::domain::map::outside_error(map.rect_spec(), point))
            },
    {
        let ground = match map.get_biome(point) {
            Ok(Biome::Plains) => Ground::Grass,
            Ok(Biome::Desert) => Ground::Sand,
            Ok(Biome::Wasteland) => Ground::Stone,
            Err(e) => return Err(e),
        };
        Ok(ground)
    }
}

impl LayerDistribution for GroundLayerDistr {
    type Data = Ground;
    type Error = GroundDistrError;

    open spec fn admits(&self, map: GameMap, point: CoordPair, value: Ground) -> bool {
        map.rect_spec().contains(point) && value == ground_of(map.biome_at(point))
    }

    open spec fn draws_at(&self, map: GameMap, point: CoordPair) -> bool {
        map.rect_spec().contains(point)
    }

    fn sample(&self, map: &mut GameMap, point: CoordPair, rng: &mut PickedReproducibleRng) -> (r: Result<
        Ground,
        AccessError,
    >)
        ensures
            r == if old(map).rect_spec().contains(point) {
                Ok::<Ground, AccessError>(ground_of(old(map).biome_at(point)))
            } else {
                Err(outside_error(old(map).rect_spec(), point))
            },
    {
        self.ground_for(map, point)
    }
}

/// The distribution of blocks. Drawing from it is not yet written.
#[derive(Debug, Clone)]
pub struct BlockLayerDistribution {}

} // verus!
