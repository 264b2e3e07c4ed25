//! A plain game: a map holding only a ground per point, and a player whose
//! head moves inside of it.
use vstd::prelude::*;
use crate::domain::geometry::{Coord, CoordPair, Rect};
use crate::domain::map::{flat_index, lemma_flat_index_bounds, lemma_flat_index_injective, widen, widen_rect};
use crate::geometry::axis::{Direction, fits, moved_pair, pair_value};
use crate::geometry::coords::CoordPair as Pair;
use crate::geometry::coord::ceil_div;
use crate::geometry::rect::{HorzAreaError, InvalidPoint as RectPoint, Rect as GenericRect};

verus! {

pub use crate::domain::matter::Ground;

/// A point outside of the map.
#[derive(Debug, Clone, Copy, PartialEq, Eq)]
pub struct InvalidMapPoint {
    /// Why the point has no place in the map's layer.
    pub source: HorzAreaError<usize>,
}

/// Why a map could not be made of a rectangle.
#[derive(Debug, Clone, Copy, PartialEq, Eq)]
pub enum InvalidMapRect {
    /// The size is below the least map size on some axis.
    TooSmall { given_size: CoordPair },
    /// The rectangle reaches past the last coordinate.
    BottomRightOverflow { given_rect: Rect },
    /// The area of the size overflows.
    AreaOverflow { given_size: CoordPair },
}

/// The least size of a map on each axis.
pub const MIN_MAP_SIZE: Coord = 64;

/// The error that accessing a point outside of a map over `rect` gives.
pub open spec fn outside(rect: Rect, p: CoordPair) -> InvalidMapPoint {
    InvalidMapPoint { source: HorzAreaError::InvalidRectPoint(RectPoint { point: widen(p), rect: widen_rect(rect) }) }
}

/// A map holding a ground for each point of its rectangle.
#[derive(Debug, Clone)]
pub struct GroundMap {
    rect: Rect,
    ground_layer: Vec<Ground>,
}

impl GroundMap {
    /// The rectangle the map covers.
    pub closed spec fn rect_spec(self) -> Rect {
        self.rect
    }

    /// The ground at `p`.
    pub closed spec fn ground_at(self, p: CoordPair) -> Ground {
        self.ground_layer@[flat_index(self.rect, p)]
    }

    /// The well-formedness of the map: a ground for each point, and a
    /// rectangle that stays within the coordinates.
    pub closed spec fn wf(self) -> bool {
        &&& self.rect.size.y >= MIN_MAP_SIZE
        &&& self.rect.size.x >= MIN_MAP_SIZE
        &&& self.rect.top_left.y + self.rect.size.y <= Coord::MAX
        &&& self.rect.top_left.x + self.rect.size.x <= Coord::MAX
        &&& self.ground_layer@.len() == self.rect.size.x * self.rect.size.y
    }

    /// A well-formed map has a large rectangle within the coordinates.
    pub proof fn lemma_wf(self)
        requires
            self.wf(),
        ensures
            self.rect_spec().size.y >= MIN_MAP_SIZE,
            self.rect_spec().size.x >= MIN_MAP_SIZE,
            self.rect_spec().top_left.y + self.rect_spec().size.y <= Coord::MAX,
            self.rect_spec().top_left.x + self.rect_spec().size.x <= Coord::MAX,
    {
    }

    /// A map over `rect`, grass everywhere, unless the rectangle is too small
    /// or reaches past the last coordinate.
    pub fn new(rect: Rect) -> (r: Result<GroundMap, InvalidMapRect>)
        ensures
            match r {
                Ok(m) => {
                    &&& rect.size.y >= MIN_MAP_SIZE && rect.size.x >= MIN_MAP_SIZE
                    &&& rect.top_left.y + rect.size.y <= Coord::MAX
                    &&& rect.top_left.x + rect.size.x <= Coord::MAX
                    &&& m.wf()
                    &&& m.rect_spec() == rect
                    &&& forall|p: CoordPair| rect.contains(p) ==> #[trigger] m.ground_at(p) == Ground::Grass
                },
                Err(e) => if rect.size.y < MIN_MAP_SIZE || rect.size.x < MIN_MAP_SIZE {
                    e == InvalidMapRect::TooSmall { given_size: rect.size }
                } else {
                    (rect.top_left.y + rect.size.y > Coord::MAX || rect.top_left.x + rect.size.x > Coord::MAX)
                        && e == InvalidMapRect::BottomRightOverflow { given_rect: rect }
                },
            },
    {
        if rect.size.y < MIN_MAP_SIZE || rect.size.x < MIN_MAP_SIZE {
            return Err(InvalidMapRect::TooSmall { given_size: rect.size });
        }
        if rect.checked_bottom_right().is_none() {
            return Err(InvalidMapRect::BottomRightOverflow { given_rect: rect });
        }
        let sx = rect.size.x as usize;
        let sy = rect.size.y as usize;
        assert(sx * sy <= 0xFFFF * 0xFFFF) by (nonlinear_arith)
            requires
                sx <= 0xFFFF,
                sy <= 0xFFFF,
        ;
        let m = GroundMap { rect, ground_layer: vec![Ground::Grass; sx * sy] };
        proof {
            assert forall|p: CoordPair| rect.contains(p) implies #[trigger] m.ground_at(p) == Ground::Grass by {
                lemma_flat_index_bounds(rect, p);
            }
        }
        Ok(m)
    }

    /// The rectangle the map covers.
    pub fn rect(&self) -> (r: Rect)
        ensures
            r == self.rect_spec(),
    {
        self.rect
    }

    /// The place of `point` in the layer, or the error for a point outside.
    fn to_flat_index(&self, point: CoordPair) -> (r: Result<usize, InvalidMapPoint>)
        requires
            self.wf(),
        ensures
            match r {
                Ok(i) => self.rect_spec().contains(point) && i == flat_index(self.rect_spec(), point) && i
                    < self.ground_layer@.len(),
                Err(e) => !self.rect_spec().contains(point) && e == outside(self.rect_spec(), point),
            },
    {
        let wide = GenericRect {
            top_left: Pair { y: self.rect.top_left.y as usize, x: self.rect.top_left.x as usize },
            size: Pair { y: self.rect.size.y as usize, x: self.rect.size.x as usize },
        };
        let p = Pair { y: point.y as usize, x: point.x as usize };
        match wide.checked_horz_area_down_to(p) {
            Ok(i) => {
                proof {
                    lemma_flat_index_bounds(self.rect, point);
                }
                Ok(i)
            },
            Err(HorzAreaError::InvalidRectPoint(e)) => Err(InvalidMapPoint { source: HorzAreaError::InvalidRectPoint(e) }),
            Err(HorzAreaError::Overflow { size }) => {
                proof {
                    lemma_flat_index_bounds(self.rect, point);
                    assert(self.rect.size.x * self.rect.size.y <= 0xFFFF * 0xFFFF) by (nonlinear_arith)
                        requires
                            self.rect.size.x <= 0xFFFF,
                            self.rect.size.y <= 0xFFFF,
                    ;
                }
                Err(InvalidMapPoint { source: HorzAreaError::Overflow { size } })
            },
        }
    }

    /// The ground at `point`.
    pub fn get_ground(&self, point: CoordPair) -> (r: Result<Ground, InvalidMapPoint>)
        requires
            self.wf(),
        ensures
            r == if self.rect_spec().contains(point) {
                Ok::<Ground, InvalidMapPoint>(self.ground_at(point))
            } else {
                Err(outside(self.rect_spec(), point))
            },
    {
        let index = match self.to_flat_index(point) {
            Ok(i) => i,
            Err(e) => return Err(e),
        };
        Ok(self.ground_layer[index])
    }

    /// Sets the ground at `point`.
    pub fn set_ground(&mut self, point: CoordPair, value: Ground) -> (r: Result<(), InvalidMapPoint>)
        requires
            old(self).wf(),
        ensures
            final(self).wf(),
            final(self).rect_spec() == old(self).rect_spec(),
            r == if old(self).rect_spec().contains(point) {
                Ok::<(), InvalidMapPoint>(())
            } else {
                Err(outside(old(self).rect_spec(), point))
            },
            forall|q: CoordPair| #[trigger] old(self).rect_spec().contains(q) ==> final(self).ground_at(q) == if q == point
                && r is Ok {
                value
            } else {
                old(self).ground_at(q)
            },
    {
        let index = match self.to_flat_index(point) {
            Ok(i) => i,
            Err(e) => return Err(e),
        };
        self.ground_layer.set(index, value);
        proof {
            assert forall|q: CoordPair| #[trigger] old(self).rect_spec().contains(q) implies 0 <= flat_index(self.rect, q)
                < self.ground_layer@.len() && (q != point ==> flat_index(self.rect, q) != index) by {
                lemma_flat_index_bounds(self.rect, q);
                if q != point && flat_index(self.rect, q) == index {
                    lemma_flat_index_injective(self.rect, q, point);
                }
            }
        }
        Ok(())
    }
}

/// The point of a pair of values.
pub open spec fn point_at(v: (int, int)) -> CoordPair {
    CoordPair { y: v.0 as Coord, x: v.1 as Coord }
}

/// The player: where its head is and where it faces.
#[derive(Debug, Clone, Copy, PartialEq, Eq)]
pub struct Player {
    head: CoordPair,
    facing: Direction,
}

impl Player {
    /// The head.
    pub closed spec fn head_spec(self) -> CoordPair {
        self.head
    }

    /// The direction faced.
    pub closed spec fn facing_spec(self) -> Direction {
        self.facing
    }

    /// The head.
    pub fn head(&self) -> (r: CoordPair)
        ensures
            r == self.head_spec(),
    {
        self.head
    }

    /// The direction faced.
    pub fn facing(&self) -> (r: Direction)
        ensures
            r == self.facing_spec(),
    {
        self.facing
    }

    /// The point in front of the head.
    pub fn pointer(&self) -> (r: CoordPair)
        requires
            fits::<Coord>(moved_pair(self.facing_spec(), 1, self.head_spec())),
        ensures
            pair_value(r) == moved_pair(self.facing_spec(), 1, self.head_spec()),
    {
        self.head.move_unit(self.facing)
    }
}

/// The plain game: a ground map and the player.
#[derive(Debug, Clone)]
pub struct Game {
    map: GroundMap,
    player: Player,
}

/// Whether a move of `p` one unit in `d` stays within the coordinates.
pub open spec fn step_fits(p: CoordPair, d: Direction) -> bool {
    fits::<Coord>(moved_pair(d, 1, p))
}

impl Game {
    /// The map.
    pub closed spec fn map_spec(self) -> GroundMap {
        self.map
    }

    /// The player.
    pub closed spec fn player_spec(self) -> Player {
        self.player
    }

    /// Whether a move of the head in `direction` stays within the
    /// coordinates, and so does a further step in the direction faced when the
    /// moved head is inside of the map.
    pub open spec fn head_move_fits(self, direction: Direction) -> bool {
        let head = self.player_spec().head_spec();
        let rect = self.map_spec().rect_spec();
        &&& rect.contains(head) ==> step_fits(head, direction)
        &&& rect.contains(head) && rect.contains(point_at(moved_pair(direction, 1, head))) ==> step_fits(
            point_at(moved_pair(direction, 1, head)),
            self.player_spec().facing_spec(),
        )
    }

    /// A game on `map` with the player's head at the middle of the map,
    /// rounding up, facing up.
    pub fn new(map: GroundMap) -> (r: Game)
        requires
            map.wf(),
        ensures
            r.map_spec() == map,
            r.player_spec().facing_spec() == Direction::Up,
            r.player_spec().head_spec().y == map.rect_spec().top_left.y + ceil_div(map.rect_spec().size.y as int, 2),
            r.player_spec().head_spec().x == map.rect_spec().top_left.x + ceil_div(map.rect_spec().size.x as int, 2),
    {
        proof {
            map.lemma_wf();
        }
        let rect = map.rect();
        let half = rect.size.div_ceil_by(&2);
        let head = CoordPair { y: rect.top_left.y + half.y, x: rect.top_left.x + half.x };
        Game { map, player: Player { head, facing: Direction::Up } }
    }

    /// Moves the head in `direction` when the player faces it, and otherwise
    /// turns the player; see [`Game::move_player_head`] and [`Game::make_player_face`].
    pub fn move_player_pointer(&mut self, direction: Direction)
        requires
            old(self).map_spec().wf(),
            old(self).player_spec().facing_spec() == direction ==> old(self).head_move_fits(direction),
            old(self).player_spec().facing_spec() != direction && old(self).map_spec().rect_spec().contains(
                old(self).player_spec().head_spec(),
            ) ==> step_fits(old(self).player_spec().head_spec(), direction),
        ensures
            final(self).map_spec() == old(self).map_spec(),
            old(self).player_spec().facing_spec() == direction ==> final(self).player_spec() == old(self).head_moved(
                direction,
            ),
            old(self).player_spec().facing_spec() != direction ==> final(self).player_spec() == old(self).player_spec(),
    {
        if self.player.facing == direction {
            self.move_player_head(direction);
        } else {
            self.make_player_face(direction);
        }
    }

    /// The player after a move of the head in `direction`: the head moves when
    /// it is inside of the map and its new point too.
    pub open spec fn head_moved(self, direction: Direction) -> Player {
        let head = self.player_spec().head_spec();
        let rect = self.map_spec().rect_spec();
        let new_head = point_at(moved_pair(direction, 1, head));
        if rect.contains(head) && rect.contains(new_head) {
            Player::with_head(self.player_spec(), new_head)
        } else {
            self.player_spec()
        }
    }

    /// Moves the head one unit in `direction` when it is inside of the map and
    /// its new point too; the direction faced stays.
    pub fn move_player_head(&mut self, direction: Direction)
        requires
            old(self).head_move_fits(direction),
        ensures
            final(self).map_spec() == old(self).map_spec(),
            final(self).player_spec() == old(self).head_moved(direction),
    {
        let rect = self.map.rect();
        let new_head = match rect.checked_move_point_unit(self.player.head(), direction) {
            Ok(p) => p,
            Err(_) => return,
        };
        match rect.checked_move_point_unit(new_head, self.player.facing()) {
            Ok(_) => {},
            Err(_) => return,
        }
        self.player.head = new_head;
    }

    /// Checks that the head is inside of the map; the player does not turn.
    pub fn make_player_face(&mut self, direction: Direction)
        requires
            old(self).map_spec().rect_spec().contains(old(self).player_spec().head_spec()) ==> step_fits(
                old(self).player_spec().head_spec(),
                direction,
            ),
        ensures
            *final(self) == *old(self),
    {
        let rect = self.map.rect();
        match rect.checked_move_point_unit(self.player.head(), direction) {
            Ok(_) => {},
            Err(_) => return,
        }
    }

    /// The player.
    pub fn player(&self) -> (r: &Player)
        ensures
            *r == self.player_spec(),
    {
        &self.player
    }
}

impl Player {
    /// The player with its head at `head`, in specifications.
    pub closed spec fn with_head(self, head: CoordPair) -> Player {
        Player { head, ..self }
    }
}

} // verus!
