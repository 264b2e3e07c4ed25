//! The game: its map, its player, its monsters and its scheduled events, and
//! the rules by which they move.
use vstd::prelude::*;
use crate::geometry::axis::{Axis, Direction, dir_axis, fits, moved_pair, pair_value};
use crate::domain::block::{Block, PlaceableBlock, SpecialBlock};
use crate::domain::event::{ApplyError, Event};
use crate::domain::geometry::{Coord, CoordPair, Rect};
use crate::domain::map::{AccessError, GameMap, outside_error};
use crate::domain::monster::{self, IdShortageError, InvalidId, Monster, MonsterPosition};
use crate::domain::player::{Player, PlayerPosition, pointer_of};
use crate::domain::stat::StatValue;

verus! {

/// Why a game could not be made.
#[derive(Debug, Clone, Copy, PartialEq, Eq)]
pub enum InitError {
    /// The player's head or pointer is outside of the map.
    PlayerOutsideMap { map_rect: Rect, player_position: PlayerPosition, source: AccessError },
}

/// Why the player could not move.
#[derive(Debug, Clone, Copy, PartialEq, Eq)]
pub enum MovePlayerError {
    /// A point of the map could not be accessed.
    Access(AccessError),
}

/// Why a monster could not spawn.
#[derive(Debug, Clone, Copy, PartialEq, Eq)]
pub enum SpawnMonsterError {
    /// A point of the map could not be accessed.
    MapAccess(AccessError),
    /// No identifier is left.
    IdShortage(IdShortageError),
}

/// Why a monster could not vanish.
#[derive(Debug, Clone, Copy, PartialEq, Eq)]
pub enum VanishMonsterError {
    /// There is no such monster.
    InvalidId(InvalidId),
    /// A point of the map could not be accessed.
    MapAccess(AccessError),
}

/// Why a monster could not move.
#[derive(Debug, Clone, Copy, PartialEq, Eq)]
pub enum MoveMonsterError {
    /// There is no such monster.
    InvalidId(InvalidId),
    /// A point of the map could not be accessed.
    MapAccess(AccessError),
}

/// Why a monster could not attack.
#[derive(Debug, Clone, Copy, PartialEq, Eq)]
pub enum MonsterAttackError {
    /// There is no such monster.
    InvalidId(InvalidId),
    /// A point of the map could not be accessed.
    MapAccess(AccessError),
}

/// Why a monster could not follow the player.
#[derive(Debug, Clone, Copy, PartialEq, Eq)]
pub enum MonsterFollowError {
    /// There is no such monster.
    InvalidId(InvalidId),
    /// The monster could not move.
    MoveMonster(MoveMonsterError),
}

/// Why a monster could not growl.
#[derive(Debug, Clone, Copy, PartialEq, Eq)]
pub enum MonsterGrowlError {
    /// There is no such monster.
    InvalidId(InvalidId),
}

/// Whether `block` stops the being `this` from entering its point: anything but
/// air, or another being.
pub open spec fn blocks_movement_spec(block: Block, this: SpecialBlock) -> bool {
    match block {
        Block::Placeable(b) => b != PlaceableBlock::Air,
        Block::Special(b) => b != this,
    }
}

/// Whether `block` stops the being `this` from entering its point.
fn blocks_movement(block: Block, this: SpecialBlock) -> (r: bool)
    ensures
        r == blocks_movement_spec(block, this),
{
    match block {
        Block::Placeable(b) => b != PlaceableBlock::Air,
        Block::Special(b) => b != this,
    }
}

/// The blocks that let a being through are exactly air and the being itself:
/// any other placed block, and any other being, stops it.
pub proof fn law_blocks_movement(block: Block, this: SpecialBlock)
    ensures
        !blocks_movement_spec(block, this) <==> (block == Block::Placeable(PlaceableBlock::Air) || block
            == Block::Special(this)),
        forall|other: SpecialBlock| other != this ==> #[trigger] blocks_movement_spec(Block::Special(other), this),
{
}

/// `p` moved one unit in direction `d`, wrapping around at the ends of the coordinates.
pub open spec fn wrapped_step(p: CoordPair, d: Direction) -> CoordPair {
    match d {
        Direction::Up => CoordPair { y: if p.y == 0 { Coord::MAX } else { (p.y - 1) as Coord }, x: p.x },
        Direction::Down => CoordPair { y: if p.y == Coord::MAX { 0 } else { (p.y + 1) as Coord }, x: p.x },
        Direction::Left => CoordPair { y: p.y, x: if p.x == 0 { Coord::MAX } else { (p.x - 1) as Coord } },
        Direction::Right => CoordPair { y: p.y, x: if p.x == Coord::MAX { 0 } else { (p.x + 1) as Coord } },
    }
}

/// `p` moved one unit in direction `d`, wrapping around at the ends of the coordinates.
fn wrapping_step(p: CoordPair, d: Direction) -> (r: CoordPair)
    ensures
        r == wrapped_step(p, d),
{
    match d {
        Direction::Up => CoordPair { y: if p.y == 0 { Coord::MAX } else { p.y - 1 }, x: p.x },
        Direction::Down => CoordPair { y: if p.y == Coord::MAX { 0 } else { p.y + 1 }, x: p.x },
        Direction::Left => CoordPair { y: p.y, x: if p.x == 0 { Coord::MAX } else { p.x - 1 } },
        Direction::Right => CoordPair { y: p.y, x: if p.x == Coord::MAX { 0 } else { p.x + 1 } },
    }
}

/// The point of a pair of values.
pub open spec fn point_of(v: (int, int)) -> CoordPair {
    CoordPair { y: v.0 as Coord, x: v.1 as Coord }
}

/// The point in front of the player's head.
pub open spec fn player_pointer(pos: PlayerPosition) -> CoordPair {
    point_of(pointer_of(pos.head_spec(), pos.facing_spec()))
}

/// Whether `rect` stays within the coordinates: its bottom right corner fits.
pub open spec fn rect_fits(rect: Rect) -> bool {
    rect.top_left.y + rect.size.y <= Coord::MAX && rect.top_left.x + rect.size.x <= Coord::MAX
}

/// A step between two points of a rectangle that fits does not wrap: it is
/// the move of one unit.
pub proof fn lemma_step_inside(rect: Rect, p: CoordPair, d: Direction)
    requires
        rect_fits(rect),
        rect.contains(p),
        rect.contains(wrapped_step(p, d)),
    ensures
        fits::<Coord>(pointer_of(p, d)),
        wrapped_step(p, d) == point_of(pointer_of(p, d)),
{
}

/// The direction, along the axis of greater distance, in which `to` lies from
/// `from`; the `x` axis wins ties; none when the points are equal.
pub open spec fn follow_direction_spec(from: CoordPair, to: CoordPair) -> Option<Direction> {
    let dy = if to.y >= from.y { to.y - from.y } else { from.y - to.y };
    let dx = if to.x >= from.x { to.x - from.x } else { from.x - to.x };
    if dx == 0 && dy == 0 {
        None
    } else if dx >= dy {
        Some(if to.x > from.x { Direction::Right } else { Direction::Left })
    } else {
        Some(if to.y > from.y { Direction::Down } else { Direction::Up })
    }
}

/// The direction, along the axis of greater distance, in which `to` lies from `from`.
fn follow_direction(from: CoordPair, to: CoordPair) -> (r: Option<Direction>)
    ensures
        r == follow_direction_spec(from, to),
{
    let dy = if to.y >= from.y { to.y - from.y } else { from.y - to.y };
    let dx = if to.x >= from.x { to.x - from.x } else { from.x - to.x };
    if dx == 0 && dy == 0 {
        None
    } else if dx >= dy {
        Some(if to.x > from.x { Direction::Right } else { Direction::Left })
    } else {
        Some(if to.y > from.y { Direction::Down } else { Direction::Up })
    }
}

/// The distance, moving along the axes, between `a` and the pair `b`.
pub open spec fn grid_distance(a: CoordPair, b: (int, int)) -> int {
    let dy = if b.0 >= a.y { b.0 - a.y } else { a.y - b.0 };
    let dx = if b.1 >= a.x { b.1 - a.x } else { a.x - b.1 };
    dy + dx
}

/// Following leads to the target: there is a direction to follow exactly when
/// the points differ, and one step from `from` in it stays within the
/// coordinates and brings `to` one unit nearer, along the axis on which `to` is
/// farther (the `x` axis on a tie).
pub proof fn law_follow_direction(from: CoordPair, to: CoordPair)
    ensures
        follow_direction_spec(from, to) is None <==> from == to,
        follow_direction_spec(from, to) matches Some(d) ==> {
            let moved = moved_pair(d, 1, from);
            let dy = if to.y >= from.y { to.y - from.y } else { from.y - to.y };
            let dx = if to.x >= from.x { to.x - from.x } else { from.x - to.x };
            &&& fits::<Coord>(moved)
            &&& grid_distance(to, moved) == grid_distance(to, (from.y as int, from.x as int)) - 1
            &&& grid_distance(to, moved) < grid_distance(to, (from.y as int, from.x as int))
            &&& (dir_axis(d) == Axis::X <==> dx >= dy)
        },
{
}

/// The game.
#[derive(Debug, Clone)]
pub struct Game {
    map: GameMap,
    player: Player,
    monster_registry: monster::Registry,
    event_schedule: Vec<(u64, Event)>,
    event_epoch: u64,
}

impl Game {
    /// The map.
    pub closed spec fn map_spec(self) -> GameMap {
        self.map
    }

    /// The player.
    pub closed spec fn player_spec(self) -> Player {
        self.player
    }

    /// The monsters.
    pub closed spec fn registry_spec(self) -> monster::Registry {
        self.monster_registry
    }

    /// The scheduled events, each with the epoch it is due at, in the order scheduled.
    pub closed spec fn schedule_spec(self) -> Seq<(u64, Event)> {
        self.event_schedule@
    }

    /// The current event epoch.
    pub closed spec fn epoch_spec(self) -> u64 {
        self.event_epoch
    }

    /// The game's invariant: its map and registry are well formed, and the
    /// player's head and pointer are on the map.
    pub closed spec fn wf(self) -> bool {
        &&& self.map.wf()
        &&& self.monster_registry.wf()
        &&& fits::<Coord>(pointer_of(self.player.position_spec().head_spec(), self.player.position_spec().facing_spec()))
        &&& self.map.rect_spec().contains(self.player.position_spec().head_spec())
        &&& self.map.rect_spec().contains(player_pointer(self.player.position_spec()))
    }

    /// The player's head.
    pub open spec fn head_spec(self) -> CoordPair {
        self.player_spec().position_spec().head_spec()
    }

    /// The player's facing direction.
    pub open spec fn facing_spec(self) -> Direction {
        self.player_spec().position_spec().facing_spec()
    }

    /// The player's pointer.
    pub open spec fn pointer_spec(self) -> CoordPair {
        player_pointer(self.player_spec().position_spec())
    }

    /// The map's rectangle.
    pub open spec fn rect_spec(self) -> Rect {
        self.map_spec().rect_spec()
    }

    /// The facts that the invariant gives about the map and the player.
    pub proof fn lemma_wf(self)
        requires
            self.wf(),
        ensures
            self.map_spec().wf(),
            self.registry_spec().wf(),
            rect_fits(self.rect_spec()),
            self.rect_spec().contains(self.head_spec()),
            self.rect_spec().contains(self.pointer_spec()),
    {
        self.map.lemma_wf_fits();
    }
}

/// Whether `new` is `old` with the blocks at `a` and `b` changed as a move of
/// a two-point being does it: first both old points become air, then the new
/// points `c` and `d` become `being`.
pub open spec fn moved_blocks(old: GameMap, new: GameMap, a: CoordPair, b: CoordPair, c: CoordPair, d: CoordPair, being: SpecialBlock) -> bool {
    &&& new.wf()
    &&& new.rect_spec() == old.rect_spec()
    &&& forall|q: CoordPair| #[trigger] old.rect_spec().contains(q) ==> new.block_at(q) == if q == c || q == d {
        Block::Special(being)
    } else if q == a || q == b {
        Block::Placeable(PlaceableBlock::Air)
    } else {
        old.block_at(q)
    } && new.biome_at(q) == old.biome_at(q) && new.ground_at(q) == old.ground_at(q)
}

/// Whether `new` is `old` with only the block at `p` replaced by `block`.
pub open spec fn set_one_block(old: GameMap, new: GameMap, p: CoordPair, block: Block) -> bool {
    &&& new.wf()
    &&& new.rect_spec() == old.rect_spec()
    &&& forall|q: CoordPair| #[trigger] old.rect_spec().contains(q) ==> new.block_at(q) == if q == p {
        block
    } else {
        old.block_at(q)
    } && new.biome_at(q) == old.biome_at(q) && new.ground_at(q) == old.ground_at(q)
}

} // verus!

verus! {

/// Whether `new` keeps everything of `old` but the map and the player.
pub open spec fn same_beings_and_schedule(old: Game, new: Game) -> bool {
    &&& new.registry_spec() == old.registry_spec()
    &&& new.schedule_spec() == old.schedule_spec()
    &&& new.epoch_spec() == old.epoch_spec()
}

/// What moving the player's head one unit in `d` does, the pointer following.
pub open spec fn moved_head(old: Game, new: Game, d: Direction, r: Result<(), MovePlayerError>) -> bool {
    let rect = old.rect_spec();
    let nh = wrapped_step(old.head_spec(), d);
    let np = wrapped_step(nh, old.facing_spec());
    if !rect.contains(nh) || blocks_movement_spec(old.map_spec().block_at(nh), SpecialBlock::Player) {
        r == Ok::<(), MovePlayerError>(()) && new == old
    } else if !rect.contains(np) {
        r == Err::<(), MovePlayerError>(MovePlayerError::Access(outside_error(rect, np))) && new == old
    } else if blocks_movement_spec(old.map_spec().block_at(np), SpecialBlock::Player) {
        r == Ok::<(), MovePlayerError>(()) && new == old
    } else {
        &&& r == Ok::<(), MovePlayerError>(())
        &&& new.wf()
        &&& same_beings_and_schedule(old, new)
        &&& new.head_spec() == nh
        &&& new.facing_spec() == old.facing_spec()
        &&& new.player_spec().hp_spec() == old.player_spec().hp_spec()
        &&& moved_blocks(old.map_spec(), new.map_spec(), old.head_spec(), old.pointer_spec(), nh, np, SpecialBlock::Player)
    }
}

/// What turning the player to face `d` does.
pub open spec fn faced(old: Game, new: Game, d: Direction, r: Result<(), MovePlayerError>) -> bool {
    let rect = old.rect_spec();
    let np = wrapped_step(old.head_spec(), d);
    if !rect.contains(np) {
        r == Err::<(), MovePlayerError>(MovePlayerError::Access(outside_error(rect, np))) && new == old
    } else if blocks_movement_spec(old.map_spec().block_at(np), SpecialBlock::Player) {
        r == Ok::<(), MovePlayerError>(()) && new == old
    } else {
        &&& r == Ok::<(), MovePlayerError>(())
        &&& new.wf()
        &&& same_beings_and_schedule(old, new)
        &&& new.head_spec() == old.head_spec()
        &&& new.facing_spec() == d
        &&& new.player_spec().hp_spec() == old.player_spec().hp_spec()
        &&& moved_blocks(old.map_spec(), new.map_spec(), old.pointer_spec(), old.pointer_spec(), np, np, SpecialBlock::Player)
    }
}

impl Game {
    /// A game on `map` with `player`, whose head and pointer are marked on the map.
    pub fn new(map: GameMap, player: Player) -> (r: Result<Game, InitError>)
        requires
            map.wf(),
        ensures
            match r {
                Ok(g) => {
                    &&& g.wf()
                    &&& g.player_spec() == player
                    &&& g.registry_spec().view() == Map::<monster::Id, Monster>::empty()
                    &&& g.registry_spec().next_id().raw() == 0
                    &&& g.schedule_spec() == Seq::<(u64, Event)>::empty()
                    &&& g.epoch_spec() == 0
                    &&& moved_blocks(map, g.map_spec(), g.head_spec(), g.head_spec(), g.head_spec(), g.pointer_spec(), SpecialBlock::Player)
                },
                Err(InitError::PlayerOutsideMap { map_rect, player_position, source }) => {
                    &&& map_rect == map.rect_spec()
                    &&& player_position == player.position_spec()
                    &&& if !map.rect_spec().contains(player.position_spec().head_spec()) {
                        source == outside_error(map.rect_spec(), player.position_spec().head_spec())
                    } else {
                        !map.rect_spec().contains(player_pointer(player.position_spec()))
                            && source == outside_error(map.rect_spec(), player_pointer(player.position_spec()))
                    }
                },
            },
    {
        let mut map = map;
        let head = player.position().head();
        let pointer = player.position().pointer();
        if let Err(source) = map.set_block(head, Block::Special(SpecialBlock::Player)) {
            return Err(InitError::PlayerOutsideMap { map_rect: map.rect(), player_position: *player.position(), source });
        }
        if let Err(source) = map.set_block(pointer, Block::Special(SpecialBlock::Player)) {
            return Err(InitError::PlayerOutsideMap { map_rect: map.rect(), player_position: *player.position(), source });
        }
        let g = Game {
            map,
            player,
            monster_registry: monster::Registry::new(),
            event_schedule: Vec::new(),
            event_epoch: 0,
        };
        Ok(g)
    }

    /// Schedules `event` for `event_ticks` epochs from now.
    pub fn schedule_event(&mut self, event: Event, event_ticks: u32)
        requires
            old(self).epoch_spec() + event_ticks <= u64::MAX,
        ensures
            final(self).schedule_spec() == old(self).schedule_spec().push(((old(self).epoch_spec() + event_ticks) as u64, event)),
            final(self).map_spec() == old(self).map_spec(),
            final(self).player_spec() == old(self).player_spec(),
            final(self).registry_spec() == old(self).registry_spec(),
            final(self).epoch_spec() == old(self).epoch_spec(),
            old(self).wf() ==> final(self).wf(),
    {
        let event_ticks = event_ticks as u64 + self.event_epoch;
        self.event_schedule.push((event_ticks, event));
    }

    /// The map.
    pub fn map(&self) -> (r: &GameMap)
        ensures
            *r == self.map_spec(),
    {
        &self.map
    }

    /// Places `block` at `point` of the map.
    pub fn place_block(&mut self, point: CoordPair, block: PlaceableBlock) -> (r: Result<(), AccessError>)
        requires
            old(self).wf(),
        ensures
            final(self).wf(),
            final(self).player_spec() == old(self).player_spec(),
            same_beings_and_schedule(*old(self), *final(self)),
            r == if old(self).rect_spec().contains(point) {
                Ok::<(), AccessError>(())
            } else {
                Err(outside_error(old(self).rect_spec(), point))
            },
            set_one_block(old(self).map_spec(), final(self).map_spec(), point, if r is Ok {
                Block::Placeable(block)
            } else {
                old(self).map_spec().block_at(point)
            }),
    {
        self.map.set_placeable_block(point, block)
    }

    /// The player.
    pub fn player(&self) -> (r: &Player)
        ensures
            *r == self.player_spec(),
    {
        &self.player
    }

    /// The monsters.
    pub fn monster_registry(&self) -> (r: &monster::Registry)
        ensures
            *r == self.registry_spec(),
    {
        &self.monster_registry
    }

    /// Takes `amount` hit points from the player, down to zero.
    pub fn damage_player(&mut self, amount: StatValue)
        requires
            old(self).wf(),
        ensures
            final(self).wf(),
            final(self).map_spec() == old(self).map_spec(),
            same_beings_and_schedule(*old(self), *final(self)),
            final(self).player_spec().position_spec() == old(self).player_spec().position_spec(),
            final(self).player_spec().hp_spec().max_spec() == old(self).player_spec().hp_spec().max_spec(),
            final(self).player_spec().hp_spec().value_spec() == if old(self).player_spec().hp_spec().value_spec()
                < amount {
                0
            } else {
                old(self).player_spec().hp_spec().value_spec() - amount
            },
    {
        self.player.damage(amount);
    }

    /// Gives `amount` hit points back to the player, up to the maximum.
    pub fn heal_player(&mut self, amount: StatValue)
        requires
            old(self).wf(),
        ensures
            final(self).wf(),
            final(self).map_spec() == old(self).map_spec(),
            same_beings_and_schedule(*old(self), *final(self)),
            final(self).player_spec().position_spec() == old(self).player_spec().position_spec(),
            final(self).player_spec().hp_spec().max_spec() == old(self).player_spec().hp_spec().max_spec(),
            final(self).player_spec().hp_spec().value_spec() == if old(self).player_spec().hp_spec().value_spec()
                + amount > old(self).player_spec().hp_spec().max_spec() {
                old(self).player_spec().hp_spec().max_spec() as int
            } else {
                old(self).player_spec().hp_spec().value_spec() + amount
            },
    {
        self.player.heal(amount);
    }

    /// Moves the player's head one unit in `direction`, its pointer following,
    /// unless something is in the way.
    pub fn move_player_head(&mut self, direction: Direction) -> (r: Result<(), MovePlayerError>)
        requires
            old(self).wf(),
        ensures
            final(self).wf(),
            moved_head(*old(self), *final(self), direction, r),
    {
        proof {
            self.lemma_wf();
        }
        let head = self.player.position().head();
        let facing = self.player.position().facing();
        let pointer = self.player.position().pointer();
        let rect = self.map.rect();
        let new_head = wrapping_step(head, direction);
        if !rect.contains_point(new_head) {
            return Ok(());
        }
        let new_pointer = wrapping_step(new_head, facing);
        let head_block = match self.map.get_block(new_head) {
            Ok(b) => b,
            Err(e) => return Err(MovePlayerError::Access(e)),
        };
        if blocks_movement(head_block, SpecialBlock::Player) {
            return Ok(());
        }
        let pointer_block = match self.map.get_block(new_pointer) {
            Ok(b) => b,
            Err(e) => return Err(MovePlayerError::Access(e)),
        };
        if blocks_movement(pointer_block, SpecialBlock::Player) {
            return Ok(());
        }
        proof {
            lemma_step_inside(rect, new_head, facing);
        }
        let ghost m0 = self.map;
        let _ = self.map.set_block(head, Block::Placeable(PlaceableBlock::Air));
        let _ = self.map.set_block(pointer, Block::Placeable(PlaceableBlock::Air));
        let mut position = *self.player.position();
        position.set_head(new_head);
        self.player.set_position(position);
        let _ = self.map.set_block(new_head, Block::Special(SpecialBlock::Player));
        let _ = self.map.set_block(new_pointer, Block::Special(SpecialBlock::Player));
        Ok(())
    }

    /// Turns the player to face `direction`, unless something is in the way of
    /// its new pointer.
    pub fn make_player_face(&mut self, direction: Direction) -> (r: Result<(), MovePlayerError>)
        requires
            old(self).wf(),
        ensures
            final(self).wf(),
            faced(*old(self), *final(self), direction, r),
    {
        proof {
            self.lemma_wf();
        }
        let head = self.player.position().head();
        let pointer = self.player.position().pointer();
        let rect = self.map.rect();
        let new_pointer = wrapping_step(head, direction);
        let block = match self.map.get_block(new_pointer) {
            Ok(b) => b,
            Err(e) => return Err(MovePlayerError::Access(e)),
        };
        if blocks_movement(block, SpecialBlock::Player) {
            return Ok(());
        }
        proof {
            lemma_step_inside(rect, head, direction);
        }
        let _ = self.map.set_block(pointer, Block::Placeable(PlaceableBlock::Air));
        let mut position = *self.player.position();
        position.face(direction);
        self.player.set_position(position);
        let _ = self.map.set_block(new_pointer, Block::Special(SpecialBlock::Player));
        Ok(())
    }

    /// Steps the player's head in `direction` if it faces it, else turns it to face it.
    pub fn move_player_pointer(&mut self, direction: Direction) -> (r: Result<(), MovePlayerError>)
        requires
            old(self).wf(),
        ensures
            final(self).wf(),
            if old(self).facing_spec() == direction {
                moved_head(*old(self), *final(self), direction, r)
            } else {
                faced(*old(self), *final(self), direction, r)
            },
    {
        if self.player.position().facing() == direction {
            self.move_player_head(direction)
        } else {
            self.make_player_face(direction)
        }
    }
}


/// Whether `new` keeps the map, the player and the schedule of `old`.
pub open spec fn same_map_player_schedule(old: Game, new: Game) -> bool {
    &&& new.map_spec() == old.map_spec()
    &&& new.player_spec() == old.player_spec()
    &&& new.schedule_spec() == old.schedule_spec()
    &&& new.epoch_spec() == old.epoch_spec()
}

/// What trying to spawn a monster at `pos` does: it appears, under the next
/// identifier, when its point is on the map and holds air.
pub open spec fn spawned(old: Game, new: Game, pos: MonsterPosition, r: Result<(), SpawnMonsterError>) -> bool {
    let rect = old.rect_spec();
    let id = old.registry_spec().next_id();
    if !rect.contains(pos.body) {
        r == Err::<(), SpawnMonsterError>(SpawnMonsterError::MapAccess(outside_error(rect, pos.body))) && new == old
    } else if old.map_spec().block_at(pos.body) != Block::Placeable(PlaceableBlock::Air) {
        r == Ok::<(), SpawnMonsterError>(()) && new == old
    } else if id.raw() == u64::MAX {
        r == Err::<(), SpawnMonsterError>(SpawnMonsterError::IdShortage(IdShortageError)) && new == old
    } else {
        &&& r == Ok::<(), SpawnMonsterError>(())
        &&& new.wf()
        &&& new.player_spec() == old.player_spec()
        &&& new.schedule_spec() == old.schedule_spec()
        &&& new.epoch_spec() == old.epoch_spec()
        &&& new.registry_spec().view() == old.registry_spec().view().insert(id, Monster { position: pos })
        &&& new.registry_spec().next_id().raw() == id.raw() + 1
        &&& set_one_block(old.map_spec(), new.map_spec(), pos.body, Block::Special(SpecialBlock::Monster(id)))
    }
}

/// What making a monster vanish does: it leaves the registry and its point
/// becomes air.
pub open spec fn vanished(old: Game, new: Game, id: monster::Id, r: Result<(), VanishMonsterError>) -> bool {
    let rect = old.rect_spec();
    if !old.registry_spec().view().contains_key(id) {
        r == Err::<(), VanishMonsterError>(VanishMonsterError::InvalidId(InvalidId(id))) && new == old
    } else {
        let body = old.registry_spec().view()[id].position.body;
        &&& new.wf()
        &&& new.player_spec() == old.player_spec()
        &&& new.schedule_spec() == old.schedule_spec()
        &&& new.epoch_spec() == old.epoch_spec()
        &&& new.registry_spec().view() == old.registry_spec().view().remove(id)
        &&& new.registry_spec().next_id() == old.registry_spec().next_id()
        &&& if rect.contains(body) {
            r == Ok::<(), VanishMonsterError>(()) && set_one_block(
                old.map_spec(),
                new.map_spec(),
                body,
                Block::Placeable(PlaceableBlock::Air),
            )
        } else {
            r == Err::<(), VanishMonsterError>(VanishMonsterError::MapAccess(outside_error(rect, body)))
                && new.map_spec() == old.map_spec()
        }
    }
}

/// Whether `new` has the monster `id` of `old` at `position`, and keeps
/// everything else.
pub open spec fn repositioned(old: Game, new: Game, id: monster::Id, position: MonsterPosition) -> bool {
    &&& new.wf()
    &&& new.player_spec() == old.player_spec()
    &&& new.schedule_spec() == old.schedule_spec()
    &&& new.epoch_spec() == old.epoch_spec()
    &&& new.registry_spec().view() == old.registry_spec().view().insert(id, Monster { position })
    &&& new.registry_spec().next_id() == old.registry_spec().next_id()
}

/// What stepping the monster `id` one unit in `d` does.
pub open spec fn monster_stepped(old: Game, new: Game, id: monster::Id, d: Direction, r: Result<(), MoveMonsterError>) -> bool {
    let rect = old.rect_spec();
    if !old.registry_spec().view().contains_key(id) {
        r == Err::<(), MoveMonsterError>(MoveMonsterError::InvalidId(InvalidId(id))) && new == old
    } else {
        let pos = old.registry_spec().view()[id].position;
        let nb = wrapped_step(pos.body, d);
        if !rect.contains(pos.body) {
            r == Ok::<(), MoveMonsterError>(()) && new == old
        } else if !rect.contains(nb) {
            r == Err::<(), MoveMonsterError>(MoveMonsterError::MapAccess(outside_error(rect, nb))) && new == old
        } else if blocks_movement_spec(old.map_spec().block_at(nb), SpecialBlock::Monster(id)) {
            r == Ok::<(), MoveMonsterError>(()) && new == old
        } else {
            &&& r == Ok::<(), MoveMonsterError>(())
            &&& repositioned(old, new, id, MonsterPosition { body: nb, facing: pos.facing })
            &&& moved_blocks(old.map_spec(), new.map_spec(), pos.body, pos.body, nb, nb, SpecialBlock::Monster(id))
        }
    }
}

/// What turning the monster `id` to face `d` does.
pub open spec fn monster_faced(old: Game, new: Game, id: monster::Id, d: Direction, r: Result<(), MoveMonsterError>) -> bool {
    if !old.registry_spec().view().contains_key(id) {
        r == Err::<(), MoveMonsterError>(MoveMonsterError::InvalidId(InvalidId(id))) && new == old
    } else {
        let pos = old.registry_spec().view()[id].position;
        &&& r == Ok::<(), MoveMonsterError>(())
        &&& repositioned(old, new, id, MonsterPosition { body: pos.body, facing: d })
        &&& new.map_spec() == old.map_spec()
    }
}

/// What moving the monster `id` in `d` does: it steps if it faces `d`, else it turns.
pub open spec fn monster_moved(old: Game, new: Game, id: monster::Id, d: Direction, r: Result<(), MoveMonsterError>) -> bool {
    if !old.registry_spec().view().contains_key(id) {
        r == Err::<(), MoveMonsterError>(MoveMonsterError::InvalidId(InvalidId(id))) && new == old
    } else if old.registry_spec().view()[id].position.facing == d {
        monster_stepped(old, new, id, d, r)
    } else {
        monster_faced(old, new, id, d, r)
    }
}

/// What the monster `id` attacking does: the player loses one hit point when
/// it is in front of the monster.
pub open spec fn attacked(old: Game, new: Game, id: monster::Id, r: Result<(), MonsterAttackError>) -> bool {
    if !old.registry_spec().view().contains_key(id) {
        r == Err::<(), MonsterAttackError>(MonsterAttackError::InvalidId(InvalidId(id))) && new == old
    } else {
        let pos = old.registry_spec().view()[id].position;
        let target = point_of(pointer_of(pos.body, pos.facing));
        &&& r == Ok::<(), MonsterAttackError>(())
        &&& if fits::<Coord>(pointer_of(pos.body, pos.facing)) && old.rect_spec().contains(target)
            && old.map_spec().block_at(target) == Block::Special(SpecialBlock::Player) {
            &&& new.wf()
            &&& new.map_spec() == old.map_spec()
            &&& same_beings_and_schedule(old, new)
            &&& new.player_spec().position_spec() == old.player_spec().position_spec()
            &&& new.player_spec().hp_spec().max_spec() == old.player_spec().hp_spec().max_spec()
            &&& new.player_spec().hp_spec().value_spec() == if old.player_spec().hp_spec().value_spec() < 1 {
                0
            } else {
                old.player_spec().hp_spec().value_spec() - 1
            }
        } else {
            new == old
        }
    }
}

impl Game {
    /// Spawns a monster at `pos` if its point holds air.
    pub fn try_spawn_moster(&mut self, pos: MonsterPosition) -> (r: Result<(), SpawnMonsterError>)
        requires
            old(self).wf(),
        ensures
            final(self).wf(),
            spawned(*old(self), *final(self), pos, r),
    {
        proof {
            self.lemma_wf();
        }
        let block_value = match self.map.get_block(pos.body()) {
            Ok(b) => b,
            Err(e) => return Err(SpawnMonsterError::MapAccess(e)),
        };
        if block_value == Block::Placeable(PlaceableBlock::Air) {
            let next = self.monster_registry.next_raw();
            if next == u64::MAX {
                return Err(SpawnMonsterError::IdShortage(IdShortageError));
            }
            let monster_id = self.monster_registry.create(Monster::new(pos));
            let _ = self.map.set_block(pos.body(), Block::Special(SpecialBlock::Monster(monster_id)));
        }
        Ok(())
    }

    /// Removes the monster `id`, its point becoming air.
    pub fn vanish_monster(&mut self, id: monster::Id) -> (r: Result<(), VanishMonsterError>)
        requires
            old(self).wf(),
        ensures
            final(self).wf(),
            vanished(*old(self), *final(self), id, r),
    {
        proof {
            self.lemma_wf();
        }
        let monster = match self.monster_registry.remove(id) {
            Some(m) => m,
            None => return Err(VanishMonsterError::InvalidId(InvalidId(id))),
        };
        match self.map.set_block(monster.position().body(), Block::Placeable(PlaceableBlock::Air)) {
            Ok(()) => Ok(()),
            Err(e) => Err(VanishMonsterError::MapAccess(e)),
        }
    }

    /// Steps the monster `id` one unit in `direction`, unless something is in the way.
    pub fn move_monster_head(&mut self, id: monster::Id, direction: Direction) -> (r: Result<(), MoveMonsterError>)
        requires
            old(self).wf(),
        ensures
            final(self).wf(),
            monster_stepped(*old(self), *final(self), id, direction, r),
    {
        proof {
            self.lemma_wf();
        }
        let pos = match self.monster_registry.get_by_id(id) {
            Ok(m) => m.position(),
            Err(e) => return Err(MoveMonsterError::InvalidId(e)),
        };
        let rect = self.map.rect();
        if !rect.contains_point(pos.body()) {
            return Ok(());
        }
        let new_body = wrapping_step(pos.body(), direction);
        let block = match self.map.get_block(new_body) {
            Ok(b) => b,
            Err(e) => return Err(MoveMonsterError::MapAccess(e)),
        };
        if blocks_movement(block, SpecialBlock::Monster(id)) {
            return Ok(());
        }
        let _ = self.map.set_block(pos.body(), Block::Placeable(PlaceableBlock::Air));
        let mut moved = pos;
        moved.set_body(new_body);
        let _ = self.monster_registry.replace_by_id(id, Monster::new(moved));
        let _ = self.map.set_block(new_body, Block::Special(SpecialBlock::Monster(id)));
        Ok(())
    }

    /// Turns the monster `id` to face `direction`.
    pub fn make_monster_face(&mut self, id: monster::Id, direction: Direction) -> (r: Result<(), MoveMonsterError>)
        requires
            old(self).wf(),
        ensures
            final(self).wf(),
            monster_faced(*old(self), *final(self), id, direction, r),
    {
        let pos = match self.monster_registry.get_by_id(id) {
            Ok(m) => m.position(),
            Err(e) => return Err(MoveMonsterError::InvalidId(e)),
        };
        let mut turned = pos;
        turned.face(direction);
        let _ = self.monster_registry.replace_by_id(id, Monster::new(turned));
        Ok(())
    }

    /// Steps the monster `id` in `direction` if it faces it, else turns it to face it.
    pub fn try_move_monster(&mut self, id: monster::Id, direction: Direction) -> (r: Result<(), MoveMonsterError>)
        requires
            old(self).wf(),
        ensures
            final(self).wf(),
            monster_moved(*old(self), *final(self), id, direction, r),
    {
        let pos = match self.monster_registry.get_by_id(id) {
            Ok(m) => m.position(),
            Err(e) => return Err(MoveMonsterError::InvalidId(e)),
        };
        if pos.facing() == direction {
            self.move_monster_head(id, direction)
        } else {
            self.make_monster_face(id, direction)
        }
    }

    /// Makes the monster `id` attack the point in front of it.
    pub fn monster_attack(&mut self, id: monster::Id) -> (r: Result<(), MonsterAttackError>)
        requires
            old(self).wf(),
        ensures
            final(self).wf(),
            attacked(*old(self), *final(self), id, r),
    {
        let pos = match self.monster_registry.get_by_id(id) {
            Ok(m) => m.position(),
            Err(e) => return Err(MonsterAttackError::InvalidId(e)),
        };
        let next_block = match pos.body().checked_move_unit(pos.facing()) {
            Some(p) => p,
            None => return Ok(()),
        };
        let block = match self.map.get_block(next_block) {
            Ok(b) => b,
            Err(_) => return Ok(()),
        };
        if block == Block::Special(SpecialBlock::Player) {
            self.player.damage(1);
        }
        Ok(())
    }

    /// Makes the monster `id` growl.
    pub fn monster_growl(&mut self, id: monster::Id) -> (r: Result<(), MonsterGrowlError>)
        requires
            old(self).wf(),
        ensures
            *final(self) == *old(self),
            r == if old(self).registry_spec().view().contains_key(id) {
                Ok::<(), MonsterGrowlError>(())
            } else {
                Err(MonsterGrowlError::InvalidId(InvalidId(id)))
            },
    {
        match self.monster_registry.get_by_id(id) {
            Ok(_) => Ok(()),
            Err(e) => Err(MonsterGrowlError::InvalidId(e)),
        }
    }
}


/// What making the monster `id` follow the player does: it moves towards the
/// player along the axis of greater distance and, while `limit` is not zero,
/// schedules itself again `period` epochs later with one less to go.
pub open spec fn followed(
    old: Game,
    new: Game,
    id: monster::Id,
    period: Coord,
    limit: u32,
    r: Result<(), MonsterFollowError>,
) -> bool {
    if !old.registry_spec().view().contains_key(id) {
        r == Err::<(), MonsterFollowError>(MonsterFollowError::InvalidId(InvalidId(id))) && new == old
    } else {
        match follow_direction_spec(old.registry_spec().view()[id].position.body, old.head_spec()) {
            None => r == Ok::<(), MonsterFollowError>(()) && new == old,
            Some(d) => exists|mid: Game, r1: Result<(), MoveMonsterError>|
                #[trigger] monster_moved(old, mid, id, d, r1) && match r1 {
                    Err(e) => r == Err::<(), MonsterFollowError>(MonsterFollowError::MoveMonster(e)) && new == mid,
                    Ok(()) => {
                        &&& r == Ok::<(), MonsterFollowError>(())
                        &&& new.map_spec() == mid.map_spec()
                        &&& new.player_spec() == mid.player_spec()
                        &&& new.registry_spec() == mid.registry_spec()
                        &&& new.epoch_spec() == mid.epoch_spec()
                        &&& new.schedule_spec() == if limit >= 1 {
                            mid.schedule_spec().push(
                                (
                                    (mid.epoch_spec() + period) as u64,
                                    Event::FollowPlayer { id, period, limit: (limit - 1) as u32 },
                                ),
                            )
                        } else {
                            mid.schedule_spec()
                        }
                    },
                },
        }
    }
}

/// What applying `event` to `old` does.
pub open spec fn applied(old: Game, new: Game, event: Event, r: Result<(), ApplyError>) -> bool {
    match event {
        Event::TrySpawnMonster(pos) => exists|r1: Result<(), SpawnMonsterError>| #[trigger] spawned(old, new, pos, r1)
            && r == match r1 {
            Ok(()) => Ok::<(), ApplyError>(()),
            Err(e) => Err(ApplyError::TrySpawnMonster(e)),
        },
        Event::VanishMonster(id) => exists|r1: Result<(), VanishMonsterError>| #[trigger] vanished(old, new, id, r1)
            && r == match r1 {
            Ok(()) => Ok::<(), ApplyError>(()),
            Err(e) => Err(ApplyError::VanishMonster(e)),
        },
        Event::TryMoveMonster(id, d) => exists|r1: Result<(), MoveMonsterError>| #[trigger] monster_moved(
            old,
            new,
            id,
            d,
            r1,
        ) && r == match r1 {
            Ok(()) => Ok::<(), ApplyError>(()),
            Err(e) => Err(ApplyError::TryMoveMonster(e)),
        },
        Event::MonsterAttack(id) => exists|r1: Result<(), MonsterAttackError>| #[trigger] attacked(old, new, id, r1)
            && r == match r1 {
            Ok(()) => Ok::<(), ApplyError>(()),
            Err(e) => Err(ApplyError::MonsterAttack(e)),
        },
        Event::MonsterGrowl(id) => new == old && r == if old.registry_spec().view().contains_key(id) {
            Ok::<(), ApplyError>(())
        } else {
            Err(ApplyError::MonsterGrowl(MonsterGrowlError::InvalidId(InvalidId(id))))
        },
        Event::FollowPlayer { id, period, limit } => exists|r1: Result<(), MonsterFollowError>| #[trigger] followed(
            old,
            new,
            id,
            period,
            limit,
            r1,
        ) && r == match r1 {
            Ok(()) => Ok::<(), ApplyError>(()),
            Err(e) => Err(ApplyError::MonsterFollow(e)),
        },
    }
}

/// Whether applying `events` to `g` in order, stopping at the first that fails,
/// gives `new` and `r`.
pub open spec fn applied_in_order(g: Game, new: Game, events: Seq<Event>, r: Result<(), ApplyError>) -> bool
    decreases events.len(),
{
    if events.len() == 0 {
        new == g && r == Ok::<(), ApplyError>(())
    } else {
        exists|mid: Game, r1: Result<(), ApplyError>| #[trigger] applied(g, mid, events[0], r1) && match r1 {
            Err(e) => r == Err::<(), ApplyError>(e) && new == mid,
            Ok(()) => applied_in_order(mid, new, events.drop_first(), r),
        }
    }
}

/// Whether a scheduled event is due at `epoch`.
pub open spec fn due_at(epoch: u64) -> spec_fn((u64, Event)) -> bool {
    |e: (u64, Event)| e.0 == epoch
}

/// Whether a scheduled event is not due at `epoch`.
pub open spec fn not_due_at(epoch: u64) -> spec_fn((u64, Event)) -> bool {
    |e: (u64, Event)| e.0 != epoch
}

/// The events of `schedule` due at `epoch`, in the order scheduled.
pub open spec fn due_events(schedule: Seq<(u64, Event)>, epoch: u64) -> Seq<Event> {
    schedule.filter(due_at(epoch)).map_values(|e: (u64, Event)| e.1)
}

impl Game {
    /// Makes the monster `id` take one step towards the player, scheduling the
    /// next step `period` epochs later while `limit` is not zero.
    pub fn monster_follow_player(&mut self, id: monster::Id, period: Coord, limit: u32) -> (r: Result<
        (),
        MonsterFollowError,
    >)
        requires
            old(self).wf(),
            old(self).epoch_spec() + period <= u64::MAX,
        ensures
            final(self).wf(),
            followed(*old(self), *final(self), id, period, limit, r),
    {
        let pos = match self.monster_registry.get_by_id(id) {
            Ok(m) => m.position(),
            Err(e) => return Err(MonsterFollowError::InvalidId(e)),
        };
        let head = self.player.position().head();
        let direction = match follow_direction(pos.body(), head) {
            Some(d) => d,
            None => return Ok(()),
        };
        let ghost before = *self;
        let moved = self.try_move_monster(id, direction);
        let ghost mid = *self;
        proof {
            assert(monster_moved(before, mid, id, direction, moved));
        }
        match moved {
            Err(e) => return Err(MonsterFollowError::MoveMonster(e)),
            Ok(()) => {},
        }
        if limit >= 1 {
            self.schedule_event(Event::FollowPlayer { id, period, limit: limit - 1 }, period as u32);
        }
        Ok(())
    }

    /// Moves to the next event epoch and applies, in the order scheduled, the
    /// events due at the epoch it leaves, stopping at the first that fails.
    pub fn execute_events(&mut self) -> (r: Result<(), ApplyError>)
        requires
            old(self).wf(),
            old(self).epoch_spec() + 0x2_0000 <= u64::MAX,
        ensures
            final(self).wf(),
            exists|g0: Game|
                {
                    &&& g0.map_spec() == old(self).map_spec()
                    &&& g0.player_spec() == old(self).player_spec()
                    &&& g0.registry_spec() == old(self).registry_spec()
                    &&& g0.epoch_spec() == old(self).epoch_spec() + 1
                    &&& g0.schedule_spec() == old(self).schedule_spec().filter(not_due_at(old(self).epoch_spec()))
                    &&& #[trigger] applied_in_order(
                        g0,
                        *final(self),
                        due_events(old(self).schedule_spec(), old(self).epoch_spec()),
                        r,
                    )
                },
    {
        let old_epoch = self.event_epoch;
        self.event_epoch = self.event_epoch + 1;
        let mut pending: Vec<(u64, Event)> = Vec::new();
        std::mem::swap(&mut pending, &mut self.event_schedule);
        let ghost all = pending@;
        let mut due: Vec<Event> = Vec::new();
        let mut i: usize = 0;
        while i < pending.len()
            invariant
                all == pending@,
                i <= pending@.len(),
                due@ == pending@.subrange(0, i as int).filter(due_at(old_epoch)).map_values(|e: (u64, Event)| e.1),
                self.event_schedule@ == pending@.subrange(0, i as int).filter(not_due_at(old_epoch)),
                self.map == old(self).map,
                self.player == old(self).player,
                self.monster_registry == old(self).monster_registry,
                self.event_epoch == old_epoch + 1,
            decreases pending@.len() - i,
        {
            let (t, e) = pending[i];
            let ghost before_due = due@;
            let ghost before_rest = self.event_schedule@;
            proof {
                reveal_with_fuel(Seq::filter, 1);
                assert(pending@.subrange(0, i + 1).drop_last() =~= pending@.subrange(0, i as int));
                assert(pending@.subrange(0, i + 1).last() == (t, e));
            }
            if t == old_epoch {
                due.push(e);
                proof {
                    assert(due@ =~= pending@.subrange(0, i + 1).filter(due_at(old_epoch)).map_values(|e: (u64, Event)| e.1));
                }
            } else {
                self.event_schedule.push((t, e));
                proof {
                    assert(due@ =~= pending@.subrange(0, i + 1).filter(due_at(old_epoch)).map_values(|e: (u64, Event)| e.1));
                }
            }
            i += 1;
        }
        proof {
            assert(pending@.subrange(0, pending@.len() as int) =~= pending@);
        }
        let ghost g0 = *self;
        let ghost events = due@;
        proof {
            assert(events.subrange(0, events.len() as int) =~= events);
        }
        let mut k: usize = 0;
        while k < due.len()
            invariant
                self.wf(),
                events == due@,
                events == due_events(old(self).schedule_spec(), old_epoch),
                old_epoch == old(self).epoch_spec(),
                g0.map_spec() == old(self).map_spec(),
                g0.player_spec() == old(self).player_spec(),
                g0.registry_spec() == old(self).registry_spec(),
                g0.epoch_spec() == old(self).epoch_spec() + 1,
                g0.schedule_spec() == old(self).schedule_spec().filter(not_due_at(old(self).epoch_spec())),
                k <= due@.len(),
                self.epoch_spec() == old_epoch + 1,
                old_epoch + 0x2_0000 <= u64::MAX,
                forall|new: Game, r: Result<(), ApplyError>| #[trigger] applied_in_order(*self, new, events.subrange(k as int, events.len() as int), r)
                    ==> applied_in_order(g0, new, events, r),
            decreases due@.len() - k,
        {
            let ghost cur = *self;
            let result = due[k].apply(self);
            let ghost mid = *self;
            proof {
                let rest = events.subrange(k as int, events.len() as int);
                assert(rest[0] == events[k as int]);
                assert(rest.drop_first() =~= events.subrange(k + 1, events.len() as int));
                assert(applied(cur, mid, rest[0], result));
            }
            match result {
                Err(e) => {
                    proof {
                        let rest = events.subrange(k as int, events.len() as int);
                        assert(applied_in_order(cur, mid, rest, Err::<(), ApplyError>(e)));
                        assert(applied_in_order(g0, *self, events, Err::<(), ApplyError>(e)));
                    }
                    return Err(e);
                },
                Ok(()) => {
                    proof {
                        let rest = events.subrange(k as int, events.len() as int);
                        assert forall|new: Game, r: Result<(), ApplyError>| #[trigger] applied_in_order(mid, new, events.subrange(k + 1, events.len() as int), r)
                            implies applied_in_order(g0, new, events, r) by {
                            assert(applied_in_order(cur, new, rest, r));
                        }
                    }
                },
            }
            k += 1;
        }
        proof {
            assert(events.subrange(k as int, events.len() as int) =~= Seq::<Event>::empty());
            assert(applied_in_order(*self, *self, Seq::<Event>::empty(), Ok::<(), ApplyError>(())));
            assert(applied_in_order(g0, *self, events, Ok::<(), ApplyError>(())));
        }
        Ok(())
    }
}


/// Moving the player never enters a point that a monster holds: when the
/// head's next point or the pointer's next point holds a monster, the game is
/// left as it was.
pub proof fn law_move_spares_monsters(old: Game, new: Game, d: Direction, r: Result<(), MovePlayerError>, id: monster::Id)
    requires
        moved_head(old, new, d, r),
        old.map_spec().block_at(wrapped_step(old.head_spec(), d)) == Block::Special(SpecialBlock::Monster(id))
            || old.map_spec().block_at(wrapped_step(wrapped_step(old.head_spec(), d), old.facing_spec()))
            == Block::Special(SpecialBlock::Monster(id)),
    ensures
        new == old,
{
}

} // verus!
