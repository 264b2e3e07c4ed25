//! The game's map: for every point of a rectangle, its biome, its ground and
//! the block that occupies it.
use vstd::prelude::*;
use crate::geometry::coords::CoordPair as Pair;
use crate::geometry::rect::{HorzAreaError, InvalidPoint as RectPoint, Rect as GenericRect};
use crate::domain::block::{Block, PlaceableBlock};
use crate::domain::geometry::{Coord, CoordPair, Rect};
use crate::domain::matter::{Biome, Ground};

verus! {

/// Why a map could not be made.
#[derive(Debug, Clone, Copy, PartialEq, Eq)]
pub enum InitError {
    /// The size is below the minimum on some axis.
    TooSmall { given_size: CoordPair },
    /// The bottom right corner does not fit in the coordinates.
    BottomRightOverflow { given_rect: Rect },
}

/// A point outside of the map.
#[derive(Debug, Clone, Copy, PartialEq, Eq)]
pub struct InvalidPoint {
    /// Why the point has no place in the map's layers.
    pub source: HorzAreaError<usize>,
}

/// Why a point of the map could not be read or written.
#[derive(Debug, Clone, Copy, PartialEq, Eq)]
pub enum AccessError {
    /// The point is outside of the map.
    InvalidPoint(InvalidPoint),
    /// The stored bits do not decode to a biome.
    GetBiome(CoordPair, u8),
    /// The stored bits do not decode to a ground.
    GetGround(CoordPair, u8),
    /// The stored bits do not decode to a block.
    GetBlock(CoordPair, u8),
}

/// The least size a map may have on each axis.
pub const MIN_SIZE: Coord = 100;

/// A rectangle with every coordinate widened to `usize`.
pub open spec fn widen_rect(rect: Rect) -> GenericRect<usize> {
    GenericRect { top_left: widen(rect.top_left), size: widen(rect.size) }
}

/// A point with every coordinate widened to `usize`.
pub open spec fn widen(p: CoordPair) -> Pair<usize> {
    Pair { y: p.y as usize, x: p.x as usize }
}

/// The place of `p` in the layers of a map covering `rect`: row by row.
pub open spec fn flat_index(rect: Rect, p: CoordPair) -> int {
    rect.size.x * (p.y - rect.top_left.y) + (p.x - rect.top_left.x)
}

/// The error that accessing a point outside of a map over `rect` gives.
pub open spec fn outside_error(rect: Rect, p: CoordPair) -> AccessError {
    AccessError::InvalidPoint(
        InvalidPoint { source: HorzAreaError::InvalidRectPoint(RectPoint { point: widen(p), rect: widen_rect(rect) }) },
    )
}

/// Two points of a rectangle with the same place in the layers are the same point.
pub proof fn lemma_flat_index_injective(rect: Rect, p: CoordPair, q: CoordPair)
    requires
        rect.contains(p),
        rect.contains(q),
        flat_index(rect, p) == flat_index(rect, q),
    ensures
        p == q,
{
    let sx = rect.size.x as int;
    let a = p.y - rect.top_left.y;
    let b = p.x - rect.top_left.x;
    let c = q.y - rect.top_left.y;
    let d = q.x - rect.top_left.x;
    assert(a == c && b == d) by (nonlinear_arith)
        requires
            sx * a + b == sx * c + d,
            0 <= b < sx,
            0 <= d < sx,
            0 <= a,
            0 <= c,
    {
        if a < c {
            assert(sx * a + b < sx * (a + 1));
            assert(sx * (a + 1) <= sx * c);
        } else if a > c {
            assert(sx * c + d < sx * (c + 1));
            assert(sx * (c + 1) <= sx * a);
        }
    }
}

/// The place of a point of a rectangle lies within the rectangle's area.
pub proof fn lemma_flat_index_bounds(rect: Rect, p: CoordPair)
    requires
        rect.contains(p),
    ensures
        0 <= flat_index(rect, p) < rect.size.x * rect.size.y,
{
    let sx = rect.size.x as int;
    let sy = rect.size.y as int;
    let a = p.y - rect.top_left.y;
    let b = p.x - rect.top_left.x;
    assert(0 <= sx * a + b < sx * sy) by (nonlinear_arith)
        requires
            0 <= a < sy,
            0 <= b < sx,
    {
        assert(sx * a + b < sx * (a + 1));
        assert(sx * (a + 1) <= sx * sy);
    }
}

/// The map of the game.
#[derive(Debug, Clone)]
pub struct GameMap {
    rect: Rect,
    biome_layer: Vec<Biome>,
    ground_layer: Vec<Ground>,
    block_layer: Vec<Block>,
}

impl GameMap {
    /// The rectangle the map covers.
    pub closed spec fn rect_spec(self) -> Rect {
        self.rect
    }

    /// The well-formedness of the map: a layer entry for each point of its rectangle.
    pub closed spec fn wf(self) -> bool {
        &&& self.rect.size.y >= MIN_SIZE
        &&& self.rect.size.x >= MIN_SIZE
        &&& self.rect.top_left.y + self.rect.size.y <= Coord::MAX
        &&& self.rect.top_left.x + self.rect.size.x <= Coord::MAX
        &&& self.biome_layer@.len() == self.rect.size.x * self.rect.size.y
        &&& self.ground_layer@.len() == self.rect.size.x * self.rect.size.y
        &&& self.block_layer@.len() == self.rect.size.x * self.rect.size.y
    }

    /// The biome at `p`.
    pub closed spec fn biome_at(self, p: CoordPair) -> Biome {
        self.biome_layer@[flat_index(self.rect, p)]
    }

    /// The ground at `p`.
    pub closed spec fn ground_at(self, p: CoordPair) -> Ground {
        self.ground_layer@[flat_index(self.rect, p)]
    }

    /// The block at `p`.
    pub closed spec fn block_at(self, p: CoordPair) -> Block {
        self.block_layer@[flat_index(self.rect, p)]
    }

    /// A well-formed map has its bottom right corner within the coordinates.
    pub proof fn lemma_wf_fits(self)
        requires
            self.wf(),
        ensures
            self.rect_spec().top_left.y + self.rect_spec().size.y <= Coord::MAX,
            self.rect_spec().top_left.x + self.rect_spec().size.x <= Coord::MAX,
            self.rect_spec().size.y >= MIN_SIZE,
            self.rect_spec().size.x >= MIN_SIZE,
    {
    }

    /// A map over `rect` with the default biome, ground and block everywhere.
    pub fn new(rect: Rect) -> (r: Result<GameMap, InitError>)
        ensures
            match r {
                Ok(m) => {
                    &&& rect.size.y >= MIN_SIZE && rect.size.x >= MIN_SIZE
                    &&& rect.top_left.y + rect.size.y <= Coord::MAX
                    &&& rect.top_left.x + rect.size.x <= Coord::MAX
                    &&& m.wf()
                    &&& m.rect_spec() == rect
                    &&& forall|p: CoordPair| rect.contains(p) ==> #[trigger] m.biome_at(p) == Biome::Plains
                        && m.ground_at(p) == Ground::Grass && m.block_at(p) == Block::Placeable(
                        PlaceableBlock::Air,
                    )
                },
                Err(InitError::TooSmall { given_size }) => given_size == rect.size && (rect.size.y < MIN_SIZE
                    || rect.size.x < MIN_SIZE),
                Err(InitError::BottomRightOverflow { given_rect }) => given_rect == rect && rect.size.y >= MIN_SIZE
                    && rect.size.x >= MIN_SIZE && (rect.top_left.y + rect.size.y > Coord::MAX || rect.top_left.x
                    + rect.size.x > Coord::MAX),
            },
    {
        if rect.size.y < MIN_SIZE || rect.size.x < MIN_SIZE {
            return Err(InitError::TooSmall { given_size: rect.size });
        }
        if rect.checked_bottom_right().is_none() {
            return Err(InitError::BottomRightOverflow { given_rect: rect });
        }
        let sx = rect.size.x as usize;
        let sy = rect.size.y as usize;
        assert(sx * sy <= 0xFFFF * 0xFFFF) by (nonlinear_arith)
            requires
                sx <= 0xFFFF,
                sy <= 0xFFFF,
        ;
        let total_area = sx * sy;
        let biome_layer = vec![Biome::Plains; total_area];
        let ground_layer = vec![Ground::Grass; total_area];
        let block_layer = vec![Block::Placeable(PlaceableBlock::Air); total_area];
        let m = GameMap { rect, biome_layer, ground_layer, block_layer };
        proof {
            assert forall|p: CoordPair| rect.contains(p) implies #[trigger] m.biome_at(p) == Biome::Plains
                && m.ground_at(p) == Ground::Grass && m.block_at(p) == Block::Placeable(PlaceableBlock::Air) by {
                lemma_flat_index_bounds(rect, p);
            }
        }
        Ok(m)
    }

    /// The rectangle the map covers.
    pub fn rect(&self) -> (r: Rect)
        ensures
            r == self.rect_spec(),
    {
        self.rect
    }

    /// The place of `point` in the layers, or the error for a point outside.
    fn to_flat_index(&self, point: CoordPair) -> (r: Result<usize, AccessError>)
        requires
            self.wf(),
        ensures
            match r {
                Ok(i) => self.rect_spec().contains(point) && i == flat_index(self.rect_spec(), point) && i
                    < self.biome_layer@.len(),
                Err(e) => !self.rect_spec().contains(point) && e == outside_error(self.rect_spec(), point),
            },
    {
        let wide = GenericRect {
            top_left: Pair { y: self.rect.top_left.y as usize, x: self.rect.top_left.x as usize },
            size: Pair { y: self.rect.size.y as usize, x: self.rect.size.x as usize },
        };
        let p = Pair { y: point.y as usize, x: point.x as usize };
        match wide.checked_horz_area_down_to(p) {
            Ok(i) => {
                proof {
                    lemma_flat_index_bounds(self.rect, point);
                }
                Ok(i)
            },
            Err(HorzAreaError::InvalidRectPoint(e)) => Err(
                AccessError::InvalidPoint(InvalidPoint { source: HorzAreaError::InvalidRectPoint(e) }),
            ),
            Err(HorzAreaError::Overflow { size }) => {
                proof {
                    lemma_flat_index_bounds(self.rect, point);
                    assert(self.rect.size.x * self.rect.size.y <= 0xFFFF * 0xFFFF) by (nonlinear_arith)
                        requires
                            self.rect.size.x <= 0xFFFF,
                            self.rect.size.y <= 0xFFFF,
                    ;
                }
                Err(AccessError::InvalidPoint(InvalidPoint { source: HorzAreaError::Overflow { size } }))
            },
        }
    }

    /// The biome at `point`.
    pub fn get_biome(&self, point: CoordPair) -> (r: Result<Biome, AccessError>)
        requires
            self.wf(),
        ensures
            r == if self.rect_spec().contains(point) {
                Ok::<Biome, AccessError>(self.biome_at(point))
            } else {
                Err(outside_error(self.rect_spec(), point))
            },
    {
        let index = match self.to_flat_index(point) {
            Ok(i) => i,
            Err(e) => return Err(e),
        };
        Ok(self.biome_layer[index])
    }

    /// Sets the biome at `point`.
    pub fn set_biome(&mut self, point: CoordPair, biome: Biome) -> (r: Result<(), AccessError>)
        requires
            old(self).wf(),
        ensures
            final(self).wf(),
            final(self).rect_spec() == old(self).rect_spec(),
            r == if old(self).rect_spec().contains(point) {
                Ok::<(), AccessError>(())
            } else {
                Err(outside_error(old(self).rect_spec(), point))
            },
            r is Err ==> *final(self) == *old(self),
            forall|q: CoordPair| #[trigger] old(self).rect_spec().contains(q) ==> final(self).biome_at(q) == if q == point
                && r is Ok {
                biome
            } else {
                old(self).biome_at(q)
            } && final(self).ground_at(q) == old(self).ground_at(q) && final(self).block_at(q) == old(self).block_at(q),
    {
        let index = match self.to_flat_index(point) {
            Ok(i) => i,
            Err(e) => return Err(e),
        };
        self.biome_layer.set(index, biome);
        proof {
            assert forall|q: CoordPair| #[trigger] old(self).rect_spec().contains(q) implies 0 <= flat_index(self.rect, q) < self.biome_layer@.len() && (q != point ==> flat_index(self.rect, q) != index) by {
                lemma_flat_index_bounds(self.rect, q);
                if q != point && flat_index(self.rect, q) == index {
                    lemma_flat_index_injective(self.rect, q, point);
                }
            }
        }
        Ok(())
    }

    /// The ground at `point`.
    pub fn get_ground(&self, point: CoordPair) -> (r: Result<Ground, AccessError>)
        requires
            self.wf(),
        ensures
            r == if self.rect_spec().contains(point) {
                Ok::<Ground, AccessError>(self.ground_at(point))
            } else {
                Err(outside_error(self.rect_spec(), point))
            },
    {
        let index = match self.to_flat_index(point) {
            Ok(i) => i,
            Err(e) => return Err(e),
        };
        Ok(self.ground_layer[index])
    }

    /// Sets the ground at `point`.
    pub fn set_ground(&mut self, point: CoordPair, ground: Ground) -> (r: Result<(), AccessError>)
        requires
            old(self).wf(),
        ensures
            final(self).wf(),
            final(self).rect_spec() == old(self).rect_spec(),
            r == if old(self).rect_spec().contains(point) {
                Ok::<(), AccessError>(())
            } else {
                Err(outside_error(old(self).rect_spec(), point))
            },
            r is Err ==> *final(self) == *old(self),
            forall|q: CoordPair| #[trigger] old(self).rect_spec().contains(q) ==> final(self).ground_at(q) == if q == point
                && r is Ok {
                ground
            } else {
                old(self).ground_at(q)
            } && final(self).biome_at(q) == old(self).biome_at(q) && final(self).block_at(q) == old(self).block_at(q),
    {
        let index = match self.to_flat_index(point) {
            Ok(i) => i,
            Err(e) => return Err(e),
        };
        self.ground_layer.set(index, ground);
        proof {
            assert forall|q: CoordPair| #[trigger] old(self).rect_spec().contains(q) implies 0 <= flat_index(self.rect, q) < self.biome_layer@.len() && (q != point ==> flat_index(self.rect, q) != index) by {
                lemma_flat_index_bounds(self.rect, q);
                if q != point && flat_index(self.rect, q) == index {
                    lemma_flat_index_injective(self.rect, q, point);
                }
            }
        }
        Ok(())
    }

    /// The block at `point`.
    pub fn get_block(&self, point: CoordPair) -> (r: Result<Block, AccessError>)
        requires
            self.wf(),
        ensures
            r == if self.rect_spec().contains(point) {
                Ok::<Block, AccessError>(self.block_at(point))
            } else {
                Err(outside_error(self.rect_spec(), point))
            },
    {
        let index = match self.to_flat_index(point) {
            Ok(i) => i,
            Err(e) => return Err(e),
        };
        Ok(self.block_layer[index])
    }

    /// Sets the block at `point`.
    pub(crate) fn set_block(&mut self, point: CoordPair, block: Block) -> (r: Result<(), AccessError>)
        requires
            old(self).wf(),
        ensures
            final(self).wf(),
            final(self).rect_spec() == old(self).rect_spec(),
            r == if old(self).rect_spec().contains(point) {
                Ok::<(), AccessError>(())
            } else {
                Err(outside_error(old(self).rect_spec(), point))
            },
            r is Err ==> *final(self) == *old(self),
            forall|q: CoordPair| #[trigger] old(self).rect_spec().contains(q) ==> final(self).block_at(q) == if q == point
                && r is Ok {
                block
            } else {
                old(self).block_at(q)
            } && final(self).biome_at(q) == old(self).biome_at(q) && final(self).ground_at(q) == old(self).ground_at(q),
    {
        let index = match self.to_flat_index(point) {
            Ok(i) => i,
            Err(e) => return Err(e),
        };
        self.block_layer.set(index, block);
        proof {
            assert forall|q: CoordPair| #[trigger] old(self).rect_spec().contains(q) implies 0 <= flat_index(self.rect, q) < self.biome_layer@.len() && (q != point ==> flat_index(self.rect, q) != index) by {
                lemma_flat_index_bounds(self.rect, q);
                if q != point && flat_index(self.rect, q) == index {
                    lemma_flat_index_injective(self.rect, q, point);
                }
            }
        }
        Ok(())
    }

    /// Places `block` at `point`.
    pub fn set_placeable_block(&mut self, point: CoordPair, block: PlaceableBlock) -> (r: Result<(), AccessError>)
        requires
            old(self).wf(),
        ensures
            final(self).wf(),
            final(self).rect_spec() == old(self).rect_spec(),
            r == if old(self).rect_spec().contains(point) {
                Ok::<(), AccessError>(())
            } else {
                Err(outside_error(old(self).rect_spec(), point))
            },
            r is Err ==> *final(self) == *old(self),
            forall|q: CoordPair| #[trigger] old(self).rect_spec().contains(q) ==> final(self).block_at(q) == if q == point
                && r is Ok {
                Block::Placeable(block)
            } else {
                old(self).block_at(q)
            } && final(self).biome_at(q) == old(self).biome_at(q) && final(self).ground_at(q) == old(self).ground_at(q),
    {
        self.set_block(point, Block::Placeable(block))
    }
}

} // verus!
