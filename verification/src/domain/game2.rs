//! The game kept in an entity component system: the player is an entity whose
//! head moves, each tick, along its pointer by its speed, for as many moves as
//! are left.
use vstd::prelude::*;
use crate::domain::geometry::{Coord, CoordPair};
use crate::ecs::component::{self, AnyValue, Component};
use crate::ecs::entity;
use crate::ecs::error::{Error, ErrorCause, Result};
use crate::ecs::system::{self, Context, SystemRunner, TypedEntries, TypedRunnerAdapter, TypedSystemRunner, adapted_runs};
use crate::ecs::value::{Entry, TryValue, Value};
use crate::ecs::world::{World, all_held, applied, carries_all, has_value, read_vals, system_plan, tick_plan, written};
use crate::geometry::axis::{Direction, fits, moved_pair, pair_value};

verus! {

/// The name of the player entity.
pub const PLAYER: &'static str = "player";

/// The name of the map entity.
pub const MAP: &'static str = "map";

/// The name of the movement system.
pub const MOVEMENT: &'static str = "movement";

/// The name of the system that counts moves.
pub const MOVE_COUNT: &'static str = "move.count";

/// Why a world could not be made a game.
#[derive(Debug)]
pub enum FromWorldError {
    /// The world refused an operation.
    Ecs(Error),
}

/// Why a game could not be created.
#[derive(Debug)]
pub enum NewGameError {
    /// The world could not be made a game.
    FromWorld(FromWorldError),
    /// The world refused an operation.
    Ecs(Error),
}

/// Why the player could not be moved.
#[derive(Debug)]
pub enum MovePlayerError {
    /// The world refused an operation.
    Ecs(Error),
}

/// Why the player's position could not be read.
#[derive(Debug)]
pub enum GetPlayerPosError {
    /// The world refused an operation.
    Ecs(Error),
}

/// Why a tick failed.
#[derive(Debug)]
pub enum TickError {
    /// The world refused an operation.
    Ecs(Error),
}

/// The point where a head is.
#[derive(Debug, Clone, Copy)]
pub struct HeadPos;

impl Component for HeadPos {
    type Value = CoordPair;

    const NAME: &'static str = "head.pos";
}

/// The direction a head points to.
#[derive(Debug, Clone, Copy)]
pub struct Pointer;

impl Component for Pointer {
    type Value = Direction;

    const NAME: &'static str = "pointer";
}

/// How far a head moves in one tick.
#[derive(Debug, Clone, Copy)]
pub struct Speed;

impl Component for Speed {
    type Value = Coord;

    const NAME: &'static str = "speed";
}

/// How many moves a head has left.
#[derive(Debug, Clone, Copy)]
pub struct MovesLeft;

impl Component for MovesLeft {
    type Value = Coord;

    const NAME: &'static str = "moves.left";
}

/// The entities of the game.
#[derive(Debug, Clone)]
pub struct Entities {
    pub player: entity::Id,
}

impl Entities {
    /// The entities of the game in `world`, created when missing.
    fn from_world(world: &mut World) -> (r: Entities)
        requires
            old(world).wf(),
            old(world).next_entity() < u64::MAX,
        ensures
            final(world).wf(),
            final(world).same_components(*old(world)),
            final(world).same_systems(*old(world)),
            !old(world).entity_names().contains_key(PLAYER@) ==> {
                &&& final(world).entity_components() == old(world).entity_components().insert(r.player.raw(), Set::empty())
                &&& !old(world).entity_components().contains_key(r.player.raw())
            },
    {
        let player = world.get_or_create_entity(PLAYER);
        Entities { player }
    }
}

/// The components of the game.
#[derive(Debug, Clone)]
pub struct Components {
    pub position: component::Id<HeadPos>,
    pub pointer: component::Id<Pointer>,
    pub speed: component::Id<Speed>,
    pub moves_left: component::Id<MovesLeft>,
}

impl Components {
    /// The numbers of the four components.
    pub open spec fn raws(self) -> Seq<u64> {
        seq![
            self.position.raw_spec().raw(),
            self.pointer.raw_spec().raw(),
            self.speed.raw_spec().raw(),
            self.moves_left.raw_spec().raw(),
        ]
    }

    /// The components of the game in `world`, created when missing.
    fn from_world(world: &mut World) -> (r: Components)
        requires
            old(world).wf(),
            old(world).next_component() + 4 <= u64::MAX,
        ensures
            final(world).wf(),
            final(world).same_entities(*old(world)),
            final(world).same_systems(*old(world)),
            forall|c: u64| #[trigger] old(world).values().contains_key(c) ==> final(world).values().contains_key(c)
                && final(world).values()[c] == old(world).values()[c],
            old(world).component_ids() == Map::<Seq<char>, component::RawId>::empty() ==> {
                &&& forall|i: int| 0 <= i < 4 ==> #[trigger] r.raws()[i] == old(world).next_component() + i
                &&& forall|i: int| 0 <= i < 4 ==> final(world).values().contains_key(#[trigger] r.raws()[i])
                &&& forall|i: int| 0 <= i < 4 ==> final(world).values()[#[trigger] r.raws()[i]] == Map::<u64, u64>::empty()
            },
    {
        proof {
            reveal_strlit("head.pos");
            reveal_strlit("pointer");
            reveal_strlit("speed");
            reveal_strlit("moves.left");
        }
        let ghost w0 = *world;
        let position = world.get_or_create_component(HeadPos);
        let ghost w1 = *world;
        let pointer = world.get_or_create_component(Pointer);
        let ghost w2 = *world;
        let speed = world.get_or_create_component(Speed);
        let ghost w3 = *world;
        let moves_left = world.get_or_create_component(MovesLeft);
        let r = Components { position, pointer, speed, moves_left };
        proof {
            assert(HeadPos::NAME@ == "head.pos"@);
            assert(Pointer::NAME@ == "pointer"@);
            assert(Speed::NAME@ == "speed"@);
            assert(MovesLeft::NAME@ == "moves.left"@);
            assert(HeadPos::NAME@.len() == 8 && Pointer::NAME@.len() == 7);
            assert(Speed::NAME@.len() == 5 && MovesLeft::NAME@.len() == 10);
            assert(r.raws()[0] == position.raw_spec().raw());
            assert(r.raws()[1] == pointer.raw_spec().raw());
            assert(r.raws()[2] == speed.raw_spec().raw());
            assert(r.raws()[3] == moves_left.raw_spec().raw());
            if w0.component_ids() == Map::<Seq<char>, component::RawId>::empty() {
                assert(!w1.component_ids().contains_key(Pointer::NAME@));
                assert(!w2.component_ids().contains_key(Speed::NAME@));
                assert(!w3.component_ids().contains_key(MovesLeft::NAME@));
            }
        }
        r
    }
}

/// The movement system: the head moves along its pointer by its speed, unless
/// that leaves the coordinates.
#[derive(Debug, Clone, Copy)]
pub struct MovementRunner;

/// The head after a move from `position` in `direction` by `speed`, or
/// `position` itself when the move leaves the coordinates.
pub open spec fn moved_head(position: CoordPair, direction: Direction, speed: Coord) -> CoordPair {
    let target = moved_pair(direction, speed as int, position);
    if fits::<Coord>(target) {
        CoordPair { y: target.0 as Coord, x: target.1 as Coord }
    } else {
        position
    }
}

/// What the movement system does to the primitives of the head, pointer
/// and speed: with a valid pointer it succeeds and moves the head, unless the
/// move leaves the coordinates; with an invalid one it fails and changes
/// nothing.
pub open spec fn movement_runs(before: Seq<AnyValue>, after: Seq<AnyValue>, ok: bool) -> bool {
    before.len() == 3 ==> {
        let position = CoordPair::from_spec(before[0]);
        let speed = Coord::from_spec(before[2]);
        match Direction::try_from_spec(before[1]) {
            Some(direction) => ok && after == seq![
                if fits::<Coord>(moved_pair(direction, speed as int, position)) {
                    moved_head(position, direction, speed).to_spec()
                } else {
                    before[0]
                },
                before[1],
                before[2],
            ],
            None => !ok && after == before,
        }
    }
}

/// What the move-count system does to the primitives of the speed and
/// moves left: it succeeds; with moves left it spends one, and the speed
/// drops to zero with the last.
pub open spec fn move_count_runs(before: Seq<AnyValue>, after: Seq<AnyValue>, ok: bool) -> bool {
    before.len() == 2 ==> {
        let moves = Coord::from_spec(before[1]);
        &&& ok
        &&& after.len() == 2
        &&& if moves == 0 {
            after == before
        } else {
            &&& after[1] == (moves - 1) as Coord as u64
            &&& after[0] == if moves == 1 {
                0
            } else {
                before[0]
            }
        }
    }
}

impl TypedSystemRunner<(component::Id<HeadPos>, component::Id<Pointer>, component::Id<Speed>)> for MovementRunner {
    open spec fn typed_runs(&self, entity: entity::Id, before: Seq<AnyValue>, after: Seq<AnyValue>, ok: bool) -> bool {
        movement_runs(before, after, ok)
    }

    fn run<'e>(
        &mut self,
        ctx: &Context,
        entries: (Entry<'e, HeadPos>, Entry<'e, Pointer>, Entry<'e, Speed>),
    ) -> (r: Result<()>)
        ensures
            ({
                let position = CoordPair::from_spec(old(entries.0.raw).primitive_spec());
                let speed = Coord::from_spec(old(entries.2.raw).primitive_spec());
                match Direction::try_from_spec(old(entries.1.raw).primitive_spec()) {
                    Some(direction) => r is Ok && final(entries.0.raw).primitive_spec() == if fits::<Coord>(
                        moved_pair(direction, speed as int, position),
                    ) {
                        moved_head(position, direction, speed).to_spec()
                    } else {
                        old(entries.0.raw).primitive_spec()
                    },
                    None => r is Err && final(entries.0.raw).primitive_spec() == old(entries.0.raw).primitive_spec(),
                }
            }),
            *final(entries.1.raw) == *old(entries.1.raw),
            *final(entries.2.raw) == *old(entries.2.raw),
    {
        let ghost refs = entries.refs();
        let r = move_head(entries);
        proof {
            assert(Seq::new(refs.len(), |i: int| (*refs[i]).primitive_spec()) =~= seq![
                (*refs[0]).primitive_spec(),
                (*refs[1]).primitive_spec(),
                (*refs[2]).primitive_spec(),
            ]);
            assert(Seq::new(refs.len(), |i: int| (*final(refs[i])).primitive_spec()) =~= seq![
                (*final(refs[0])).primitive_spec(),
                (*final(refs[1])).primitive_spec(),
                (*final(refs[2])).primitive_spec(),
            ]);
        }
        r
    }
}

/// Moves the head along its pointer by its speed, unless the move leaves
/// the coordinates; fails on an invalid pointer.
fn move_head<'e>(
    entries: (Entry<'e, HeadPos>, Entry<'e, Pointer>, Entry<'e, Speed>),
) -> (r: Result<()>)
    ensures
        ({
            let position = CoordPair::from_spec(old(entries.0.raw).primitive_spec());
            let speed = Coord::from_spec(old(entries.2.raw).primitive_spec());
            match Direction::try_from_spec(old(entries.1.raw).primitive_spec()) {
                Some(direction) => r is Ok && final(entries.0.raw).primitive_spec() == if fits::<Coord>(
                    moved_pair(direction, speed as int, position),
                ) {
                    moved_head(position, direction, speed).to_spec()
                } else {
                    old(entries.0.raw).primitive_spec()
                },
                None => r is Err && final(entries.0.raw).primitive_spec() == old(entries.0.raw).primitive_spec(),
            }
        }),
        *final(entries.1.raw) == *old(entries.1.raw),
        *final(entries.2.raw) == *old(entries.2.raw),
{
    let (mut position, pointer, speed) = entries;
    let direction = match pointer.try_get() {
        Ok(d) => d,
        Err(e) => return Err(e),
    };
    let current = position.get();
    let magnitude = speed.get();
    match direction.checked_move_by(&magnitude, &current) {
        Some(new_position) => {
            proof {
                assert(pair_value(new_position) == moved_pair(direction, magnitude as int, current));
            }
            position.set(new_position);
            Ok(())
        },
        None => Ok(()),
    }
}

/// The system that counts moves: a head with moves left spends one, and stops
/// when none is left.
#[derive(Debug, Clone, Copy)]
pub struct MoveCountRunner;

impl TypedSystemRunner<(component::Id<Speed>, component::Id<MovesLeft>)> for MoveCountRunner {
    open spec fn typed_runs(&self, entity: entity::Id, before: Seq<AnyValue>, after: Seq<AnyValue>, ok: bool) -> bool {
        move_count_runs(before, after, ok)
    }

    fn run<'e>(&mut self, ctx: &Context, entries: (Entry<'e, Speed>, Entry<'e, MovesLeft>)) -> (r: Result<()>)
        ensures
            r is Ok,
            ({
                let moves = Coord::from_spec(old(entries.1.raw).primitive_spec());
                if moves == 0 {
                    &&& *final(entries.0.raw) == *old(entries.0.raw)
                    &&& *final(entries.1.raw) == *old(entries.1.raw)
                } else {
                    &&& final(entries.1.raw).primitive_spec() == (moves - 1) as Coord as u64
                    &&& final(entries.0.raw).primitive_spec() == if moves == 1 {
                        0
                    } else {
                        old(entries.0.raw).primitive_spec()
                    }
                }
            }),
    {
        let ghost refs = entries.refs();
        let r = count_move(entries);
        proof {
            assert(Seq::new(refs.len(), |i: int| (*refs[i]).primitive_spec()) =~= seq![
                (*refs[0]).primitive_spec(),
                (*refs[1]).primitive_spec(),
            ]);
            assert(Seq::new(refs.len(), |i: int| (*final(refs[i])).primitive_spec()) =~= seq![
                (*final(refs[0])).primitive_spec(),
                (*final(refs[1])).primitive_spec(),
            ]);
        }
        r
    }
}

/// Spends a move when any is left, and stops the head with the last.
fn count_move<'e>(entries: (Entry<'e, Speed>, Entry<'e, MovesLeft>)) -> (r: Result<()>)
    ensures
        r is Ok,
        ({
            let moves = Coord::from_spec(old(entries.1.raw).primitive_spec());
            if moves == 0 {
                &&& *final(entries.0.raw) == *old(entries.0.raw)
                &&& *final(entries.1.raw) == *old(entries.1.raw)
            } else {
                &&& final(entries.1.raw).primitive_spec() == (moves - 1) as Coord as u64
                &&& final(entries.0.raw).primitive_spec() == if moves == 1 {
                    0
                } else {
                    old(entries.0.raw).primitive_spec()
                }
            }
        }),
{
    let (mut speed, mut moves_left) = entries;
    let moves = moves_left.get();
    if moves == 0 {
        return Ok(());
    }
    let new_moves = moves - 1;
    if new_moves == 0 {
        speed.set(0);
    }
    moves_left.set(new_moves);
    Ok(())
}

/// The systems of the game.
#[derive(Debug, Clone)]
pub struct Systems {
    movement: system::Id,
    move_count: system::Id,
}

/// The movement system's record: its name and components.
pub open spec fn movement_record(components: Components) -> (Seq<char>, Seq<component::RawId>) {
    (MOVEMENT@, seq![components.position.raw_spec(), components.pointer.raw_spec(), components.speed.raw_spec()])
}

/// The move-count system's record: its name and components.
pub open spec fn move_count_record(components: Components) -> (Seq<char>, Seq<component::RawId>) {
    (MOVE_COUNT@, seq![components.speed.raw_spec(), components.moves_left.raw_spec()])
}

impl Systems {
    /// The movement system.
    pub closed spec fn movement_spec(self) -> system::Id {
        self.movement
    }

    /// The move-count system.
    pub closed spec fn move_count_spec(self) -> system::Id {
        self.move_count
    }

    /// Creates the systems of the game in `world`: the movement system over
    /// the head, pointer and speed, then the move-count system over the speed
    /// and moves left, each numbered next; stops at the first whose name is
    /// taken, keeping what was created before.
    fn from_world(world: &mut World, components: &Components) -> (r: core::result::Result<Systems, FromWorldError>)
        requires
            old(world).wf(),
            old(world).next_system() + 2 <= u64::MAX,
        ensures
            final(world).wf(),
            final(world).same_entities(*old(world)),
            final(world).same_components(*old(world)),
            forall|k: u64, e: entity::Id, b: Seq<AnyValue>, a: Seq<AnyValue>, ok: bool|
                k != old(world).next_system() && k != old(world).next_system() + 1
                    ==> #[trigger] final(world).system_runs(k, e, b, a, ok) == old(world).system_runs(k, e, b, a, ok),
            match r {
                Ok(s) => {
                    &&& !old(world).system_ids().contains_key(MOVEMENT@)
                    &&& !old(world).system_ids().contains_key(MOVE_COUNT@)
                    &&& s.movement_spec().raw() == old(world).next_system()
                    &&& s.move_count_spec().raw() == old(world).next_system() + 1
                    &&& final(world).next_system() == old(world).next_system() + 2
                    &&& final(world).systems() == old(world).systems().insert(
                        old(world).next_system(),
                        movement_record(*components),
                    ).insert((old(world).next_system() + 1) as u64, move_count_record(*components))
                    &&& final(world).system_ids() == old(world).system_ids().insert(MOVEMENT@, s.movement_spec()).insert(
                        MOVE_COUNT@,
                        s.move_count_spec(),
                    )
                    &&& forall|e: entity::Id, b: Seq<AnyValue>, a: Seq<AnyValue>, ok: bool|
                        #[trigger] final(world).system_runs(s.movement_spec().raw(), e, b, a, ok) == adapted_runs::<
                            MovementRunner,
                            (component::Id<HeadPos>, component::Id<Pointer>, component::Id<Speed>),
                        >(MovementRunner, 3, e, b, a, ok)
                    &&& forall|e: entity::Id, b: Seq<AnyValue>, a: Seq<AnyValue>, ok: bool|
                        #[trigger] final(world).system_runs(s.move_count_spec().raw(), e, b, a, ok) == adapted_runs::<
                            MoveCountRunner,
                            (component::Id<Speed>, component::Id<MovesLeft>),
                        >(MoveCountRunner, 2, e, b, a, ok)
                },
                Err(FromWorldError::Ecs(e)) => {
                    &&& e.cause_spec() == ErrorCause::DuplicateSystemName
                    &&& old(world).system_ids().contains_key(MOVEMENT@) ==> final(world).systems() == old(
                        world,
                    ).systems()
                    &&& !old(world).system_ids().contains_key(MOVEMENT@) ==> final(world).systems() == old(
                        world,
                    ).systems().insert(old(world).next_system(), movement_record(*components))
                },
            },
            !old(world).system_ids().contains_key(MOVEMENT@) && !old(world).system_ids().contains_key(MOVE_COUNT@) ==> r is Ok,
    {
        let mut movement_runner: Box<dyn SystemRunner> = Box::new(
            TypedRunnerAdapter::<MovementRunner, (component::Id<HeadPos>, component::Id<Pointer>, component::Id<Speed>)>::new(
                MovementRunner,
            ),
        );
        let movement = match world.create_system_boxed(
            MOVEMENT,
            vec![components.position.raw(), components.pointer.raw(), components.speed.raw()],
            &mut movement_runner,
        ) {
            Ok(id) => id,
            Err(e) => return Err(FromWorldError::Ecs(e)),
        };
        let ghost mid = *world;
        proof {
            reveal_strlit("movement");
            reveal_strlit("move.count");
            assert(MOVEMENT@.len() == 8 && MOVE_COUNT@.len() == 10);
            assert(MOVEMENT@ != MOVE_COUNT@);
        }
        let mut move_count_runner: Box<dyn SystemRunner> = Box::new(
            TypedRunnerAdapter::<MoveCountRunner, (component::Id<Speed>, component::Id<MovesLeft>)>::new(MoveCountRunner),
        );
        let move_count = match world.create_system_boxed(
            MOVE_COUNT,
            vec![components.speed.raw(), components.moves_left.raw()],
            &mut move_count_runner,
        ) {
            Ok(id) => id,
            Err(e) => return Err(FromWorldError::Ecs(e)),
        };
        proof {
            if old(world).system_ids().contains_key(MOVE_COUNT@) {
                assert(mid.system_ids().contains_key(MOVE_COUNT@));
            }
        }
        Ok(Systems { movement, move_count })
    }
}

/// What a game is created from.
#[derive(Debug, Clone)]
pub struct Game2Input {
    pub player_head_pos: CoordPair,
}

/// The game: a world with the player entity, the components of its head and
/// the systems that move it.
pub struct Game2 {
    world: World,
    entities: Entities,
    components: Components,
    systems: Systems,
}

impl Game2 {
    /// The world.
    pub closed spec fn world_spec(self) -> World {
        self.world
    }

    /// The player entity.
    pub closed spec fn player_spec(self) -> entity::Id {
        self.entities.player
    }

    /// The components.
    pub closed spec fn components_spec(self) -> Components {
        self.components
    }

    /// The systems.
    pub closed spec fn systems_spec(self) -> Systems {
        self.systems
    }

    /// Whether the game runs its own systems alone over its player alone: the
    /// world holds the movement system and, after it, the move-count system,
    /// each over its components and running as the game's runner; the player,
    /// with the four components, is its only entity, and points in a
    /// direction.
    pub open spec fn plain(self) -> bool {
        let w = self.world_spec();
        let c = self.components_spec();
        let m = self.systems_spec().movement_spec().raw();
        let n = self.systems_spec().move_count_spec().raw();
        let p = self.player_spec().raw();
        &&& m < n
        &&& w.systems() == Map::<u64, (Seq<char>, Seq<component::RawId>)>::empty().insert(m, movement_record(c)).insert(
            n,
            move_count_record(c),
        )
        &&& w.entity_components().dom() == set![p]
        &&& carries_all(w.entity_components()[p], movement_record(c).1)
        &&& carries_all(w.entity_components()[p], move_count_record(c).1)
        &&& forall|e: entity::Id, b: Seq<AnyValue>, a: Seq<AnyValue>, ok: bool|
            #[trigger] w.system_runs(m, e, b, a, ok) == adapted_runs::<
                MovementRunner,
                (component::Id<HeadPos>, component::Id<Pointer>, component::Id<Speed>),
            >(MovementRunner, 3, e, b, a, ok)
        &&& forall|e: entity::Id, b: Seq<AnyValue>, a: Seq<AnyValue>, ok: bool|
            #[trigger] w.system_runs(n, e, b, a, ok) == adapted_runs::<
                MoveCountRunner,
                (component::Id<Speed>, component::Id<MovesLeft>),
            >(MoveCountRunner, 2, e, b, a, ok)
        &&& Direction::try_from_spec(self.player_value(c.pointer.raw_spec().raw())) is Some
    }

    /// The direction the player points in.
    pub open spec fn pointer_spec(self) -> Direction {
        Direction::try_from_spec(self.player_value(self.components_spec().pointer.raw_spec().raw()))->0
    }

    /// The primitive of the player's speed.
    pub open spec fn speed_value(self) -> u64 {
        self.player_value(self.components_spec().speed.raw_spec().raw())
    }

    /// The primitive of the player's moves left.
    pub open spec fn moves_value(self) -> u64 {
        self.player_value(self.components_spec().moves_left.raw_spec().raw())
    }

    /// The runs of a tick of a plain game: the movement system, then the
    /// move-count system, each on the player.
    proof fn lemma_plain_plan(self)
        requires
            self.wf(),
            self.plain(),
        ensures
            self.world_spec().plan() == seq![
                (self.systems_spec().movement_spec().raw(), self.player_spec(), movement_record(self.components_spec()).1),
                (self.systems_spec().move_count_spec().raw(), self.player_spec(), move_count_record(self.components_spec()).1),
            ],
    {
        let w = self.world_spec();
        let c = self.components_spec();
        let m = self.systems_spec().movement_spec().raw();
        let n = self.systems_spec().move_count_spec().raw();
        let p = self.player_spec().raw();
        w.lemma_system_order();
        w.lemma_entity_sets();
        let o = w.system_order();
        let es = w.entity_sets();
        assert(w.systems().contains_key(m) && w.systems().contains_key(n));
        let im = choose|i: int| 0 <= i < o.len() && #[trigger] o[i].0 == m;
        let jn = choose|i: int| 0 <= i < o.len() && #[trigger] o[i].0 == n;
        assert(o[im].0 == m && o[jn].0 == n);
        assert(forall|i: int| 0 <= i < o.len() ==> #[trigger] o[i].0 == m || o[i].0 == n) by {
            assert forall|i: int| 0 <= i < o.len() implies #[trigger] o[i].0 == m || o[i].0 == n by {
                assert(w.systems().contains_key(o[i].0));
            }
        }
        if o.len() > 2 {
            assert(o[0].0 < o[1].0 && o[1].0 < o[2].0);
            assert(false);
        }
        if im != 0 {
            assert(o[0].0 < o[im].0);
            assert(false);
        }
        assert(jn != im);
        assert(o.len() == 2);
        assert(jn == 1);
        assert(o[0].1 == w.systems()[m].1);
        assert(o[1].1 == w.systems()[n].1);
        assert(o =~= seq![(m, movement_record(c).1), (n, move_count_record(c).1)]);
        assert(w.entity_components().contains_key(p));
        let ie = choose|i: int| 0 <= i < es.len() && #[trigger] es[i].0.raw() == p;
        assert(forall|i: int| 0 <= i < es.len() ==> #[trigger] es[i].0.raw() == p) by {
            assert forall|i: int| 0 <= i < es.len() implies #[trigger] es[i].0.raw() == p by {
                assert(w.entity_components().contains_key(es[i].0.raw()));
                assert(w.entity_components().dom().contains(es[i].0.raw()));
            }
        }
        if es.len() > 1 {
            assert(es[0].0.raw() != es[1].0.raw());
            assert(false);
        }
        assert(es.len() == 1 && ie == 0);
        entity::Id::lemma_raw_injective(es[0].0, self.player_spec());
        let set = w.entity_components()[p];
        assert(es =~= seq![(self.player_spec(), set)]);
        reveal_with_fuel(tick_plan, 3);
        reveal_with_fuel(system_plan, 2);
        assert(es.drop_last() =~= Seq::<(entity::Id, Set<component::RawId>)>::empty());
        assert(o.drop_last() =~= seq![(m, movement_record(c).1)]);
        assert(o.drop_last().drop_last() =~= Seq::<(u64, Seq<component::RawId>)>::empty());
        assert(system_plan(m, movement_record(c).1, es) =~= seq![(m, self.player_spec(), movement_record(c).1)]);
        assert(system_plan(n, move_count_record(c).1, es) =~= seq![(n, self.player_spec(), move_count_record(c).1)]);
        assert(tick_plan(o.drop_last(), es) =~= seq![(m, self.player_spec(), movement_record(c).1)]);
    }

    /// What a tick does to a plain game, from the contract of the world's tick:
    /// it cannot fail, and the player moves and spends a move.
    proof fn lemma_tick_plain(self, g0: Game2, ok: bool)
        requires
            g0.wf(),
            g0.plain(),
            self.wf(),
            self.player_spec() == g0.player_spec(),
            self.components_spec() == g0.components_spec(),
            self.systems_spec() == g0.systems_spec(),
            self.world_spec().systems() == g0.world_spec().systems(),
            self.world_spec().entity_components() == g0.world_spec().entity_components(),
            forall|k: u64, e: entity::Id, b: Seq<AnyValue>, a: Seq<AnyValue>, ok: bool|
                #[trigger] self.world_spec().system_runs(k, e, b, a, ok) == g0.world_spec().system_runs(k, e, b, a, ok),
            g0.world_spec().plan() == seq![
                (g0.systems_spec().movement_spec().raw(), g0.player_spec(), movement_record(g0.components_spec()).1),
                (g0.systems_spec().move_count_spec().raw(), g0.player_spec(), move_count_record(g0.components_spec()).1),
            ],
            ok ==> exists|outs: Seq<Seq<AnyValue>>|
                outs.len() == g0.world_spec().plan().len() && self.world_spec().values() == #[trigger] applied(
                    g0.world_spec().values(),
                    g0.world_spec().plan(),
                    outs,
                ) && forall|i: int|
                    0 <= i < g0.world_spec().plan().len() ==> #[trigger] g0.world_spec().step_ok(
                        g0.world_spec().plan(),
                        outs,
                        i,
                    ),
            !ok ==> exists|outs: Seq<Seq<AnyValue>>, i: int, cause: ErrorCause|
                0 <= i < g0.world_spec().plan().len() && outs.len() == i && #[trigger] g0.world_spec().step_fails(
                    g0.world_spec().plan(),
                    applied(g0.world_spec().values(), g0.world_spec().plan().take(i), outs),
                    i,
                    cause,
                ),
        ensures
            ok,
            ({
                let moves = Coord::from_spec(g0.moves_value());
                &&& self.plain()
                &&& self.head_spec() == moved_head(g0.head_spec(), g0.pointer_spec(), Coord::from_spec(g0.speed_value()))
                &&& self.pointer_spec() == g0.pointer_spec()
                &&& if moves == 0 {
                    &&& self.speed_value() == g0.speed_value()
                    &&& self.moves_value() == g0.moves_value()
                } else {
                    &&& self.moves_value() == (moves - 1) as Coord as u64
                    &&& self.speed_value() == if moves == 1 {
                        0
                    } else {
                        g0.speed_value()
                    }
                }
            }),
    {
        let w0 = g0.world_spec();
        let v = w0.values();
        let c = g0.components_spec();
        let pe = g0.player_spec();
        let p = pe.raw();
        let pl = w0.plan();
        let m = g0.systems_spec().movement_spec().raw();
        let n = g0.systems_spec().move_count_spec().raw();
        let cs0 = movement_record(c).1;
        let cs1 = move_count_record(c).1;
        let pos = c.position.raw_spec().raw();
        let ptr = c.pointer.raw_spec().raw();
        let spd = c.speed.raw_spec().raw();
        let mv = c.moves_left.raw_spec().raw();
        g0.lemma_wf();
        assert(cs0[0].raw() == pos && cs0[1].raw() == ptr && cs0[2].raw() == spd);
        assert(cs1[0].raw() == spd && cs1[1].raw() == mv);
        assert(pl.take(0) =~= Seq::<(u64, entity::Id, Seq<component::RawId>)>::empty());
        let b0 = read_vals(v, cs0, p);
        assert(b0.len() == 3 && b0.take(3) =~= b0);
        assert(b0[1] == v[ptr][p]);
        let dir = Direction::try_from_spec(v[ptr][p]);
        assert(dir is Some);
        if !ok {
            let (outs, i, cause) = choose|outs: Seq<Seq<AnyValue>>, i: int, cause: ErrorCause|
                0 <= i < pl.len() && outs.len() == i && #[trigger] w0.step_fails(pl, applied(v, pl.take(i), outs), i, cause);
            let cur = applied(v, pl.take(i), outs);
            if !all_held(v, pl[i].2, p) {
                let j = choose|j: int| 0 <= j < pl[i].2.len() && !has_value(v, #[trigger] pl[i].2[j].raw(), p);
                assert(false);
            }
            let before = read_vals(cur, pl[i].2, p);
            let a = choose|a: Seq<AnyValue>| #[trigger] w0.system_runs(pl[i].0, pl[i].1, before, a, false);
            if i == 0 {
                assert(cur == v);
                assert(before == b0);
                assert(adapted_runs::<
                    MovementRunner,
                    (component::Id<HeadPos>, component::Id<Pointer>, component::Id<Speed>),
                >(MovementRunner, 3, pe, b0, a, false));
                assert(false);
            } else {
                assert(before.len() == 2 && before.take(2) =~= before);
                assert(adapted_runs::<MoveCountRunner, (component::Id<Speed>, component::Id<MovesLeft>)>(
                    MoveCountRunner,
                    2,
                    pe,
                    before,
                    a,
                    false,
                ));
                assert(false);
            }
        }
        let outs = choose|outs: Seq<Seq<AnyValue>>|
            outs.len() == pl.len() && self.world_spec().values() == #[trigger] applied(v, pl, outs) && forall|i: int|
                0 <= i < pl.len() ==> #[trigger] w0.step_ok(pl, outs, i);
        assert(w0.step_ok(pl, outs, 0));
        assert(w0.step_ok(pl, outs, 1));
        let o0 = outs[0];
        let o1 = outs[1];
        assert(applied(v, pl.take(0), outs.take(0)) == v);
        assert(adapted_runs::<
            MovementRunner,
            (component::Id<HeadPos>, component::Id<Pointer>, component::Id<Speed>),
        >(MovementRunner, 3, pe, b0, o0, true));
        assert(o0.len() == 3 && o0.take(3) =~= o0);
        assert(movement_runs(b0, o0, true));
        assert(o0[1] == v[ptr][p] && o0[2] == v[spd][p]);
        let x1 = v.insert(pos, v[pos].insert(p, o0[0]));
        let x2 = x1.insert(ptr, x1[ptr].insert(p, o0[1]));
        let x3 = x2.insert(spd, x2[spd].insert(p, o0[2]));
        assert(cs0.drop_last().drop_last().drop_last() =~= Seq::<component::RawId>::empty());
        assert(written(v, cs0.drop_last().drop_last().drop_last(), p, o0) == v);
        assert(written(v, cs0.drop_last().drop_last(), p, o0) == x1);
        assert(written(v, cs0.drop_last(), p, o0) == x2);
        assert(written(v, cs0, p, o0) == x3);
        assert(pl.take(1).drop_last() =~= Seq::<(u64, entity::Id, Seq<component::RawId>)>::empty());
        assert(outs.take(1).drop_last().len() == 0);
        assert(pl.take(1).last() == pl[0] && pl[0].2 == cs0 && pl[0].1.raw() == p);
        assert(outs.take(1).last() == o0);
        assert(applied(v, pl.take(1).drop_last(), outs.take(1).drop_last()) == v);
        assert(applied(v, pl.take(1), outs.take(1)) == x3);
        let b1 = read_vals(x3, cs1, p);
        assert(b1.len() == 2 && b1.take(2) =~= b1);
        assert(b1[0] == v[spd][p] && b1[1] == v[mv][p]);
        assert(adapted_runs::<MoveCountRunner, (component::Id<Speed>, component::Id<MovesLeft>)>(
            MoveCountRunner,
            2,
            pe,
            b1,
            o1,
            true,
        ));
        assert(o1.len() == 2 && o1.take(2) =~= o1);
        assert(move_count_runs(b1, o1, true));
        let y1 = x3.insert(spd, x3[spd].insert(p, o1[0]));
        let y2 = y1.insert(mv, y1[mv].insert(p, o1[1]));
        assert(cs1.drop_last().drop_last() =~= Seq::<component::RawId>::empty());
        assert(written(x3, cs1.drop_last().drop_last(), p, o1) == x3);
        assert(written(x3, cs1.drop_last(), p, o1) == y1);
        assert(written(x3, cs1, p, o1) == y2);
        assert(pl.drop_last() =~= pl.take(1));
        assert(outs.drop_last() =~= outs.take(1));
        assert(applied(v, pl, outs) == y2);
        let f = self.world_spec().values();
        assert(f[pos][p] == o0[0]);
        assert(f[ptr][p] == v[ptr][p]);
        assert(f[spd][p] == o1[0]);
        assert(f[mv][p] == o1[1]);
        let head = CoordPair::from_spec(v[pos][p]);
        let speed = Coord::from_spec(v[spd][p]);
        let d = dir->0;
        if fits::<Coord>(moved_pair(d, speed as int, head)) {
            lemma_coord_pair_round_trip(moved_head(head, d, speed));
        }
    }

    /// The primitive value of the component numbered `c` for the player.
    pub open spec fn player_value(self, c: u64) -> u64 {
        self.world_spec().values()[c][self.player_spec().raw()]
    }

    /// The player's head.
    pub open spec fn head_spec(self) -> CoordPair {
        CoordPair::from_spec(self.player_value(self.components_spec().position.raw_spec().raw()))
    }

    /// The well-formedness of the game: the world is well formed and holds a
    /// value of each of the four components, which are distinct, for the player.
    pub open spec fn wf(self) -> bool {
        &&& self.world_spec().wf()
        &&& forall|i: int| 0 <= i < 4 ==> {
            let c = #[trigger] self.components_spec().raws()[i];
            &&& self.world_spec().values().contains_key(c)
            &&& self.world_spec().values()[c].contains_key(self.player_spec().raw())
        }
        &&& forall|i: int, j: int| 0 <= i < j < 4 ==> self.components_spec().raws()[i] != self.components_spec().raws()[j]
    }

    /// The facts of well-formedness, component by component.
    proof fn lemma_wf(self)
        requires
            self.wf(),
        ensures
            ({
                let v = self.world_spec().values();
                let p = self.player_spec().raw();
                let c = self.components_spec();
                &&& v.contains_key(c.position.raw_spec().raw()) && v[c.position.raw_spec().raw()].contains_key(p)
                &&& v.contains_key(c.pointer.raw_spec().raw()) && v[c.pointer.raw_spec().raw()].contains_key(p)
                &&& v.contains_key(c.speed.raw_spec().raw()) && v[c.speed.raw_spec().raw()].contains_key(p)
                &&& v.contains_key(c.moves_left.raw_spec().raw()) && v[c.moves_left.raw_spec().raw()].contains_key(p)
                &&& c.position.raw_spec().raw() != c.pointer.raw_spec().raw()
                &&& c.position.raw_spec().raw() != c.speed.raw_spec().raw()
                &&& c.position.raw_spec().raw() != c.moves_left.raw_spec().raw()
                &&& c.pointer.raw_spec().raw() != c.speed.raw_spec().raw()
                &&& c.pointer.raw_spec().raw() != c.moves_left.raw_spec().raw()
                &&& c.speed.raw_spec().raw() != c.moves_left.raw_spec().raw()
            }),
    {
        let c = self.components_spec().raws();
        assert(c[0] == self.components_spec().position.raw_spec().raw());
        assert(c[1] == self.components_spec().pointer.raw_spec().raw());
        assert(c[2] == self.components_spec().speed.raw_spec().raw());
        assert(c[3] == self.components_spec().moves_left.raw_spec().raw());
        assert(c[0] != c[1] && c[0] != c[2] && c[0] != c[3] && c[1] != c[2] && c[1] != c[3] && c[2] != c[3]);
    }

    /// Well-formedness from its facts, component by component.
    proof fn lemma_wf_intro(self)
        requires
            self.world_spec().wf(),
            ({
                let v = self.world_spec().values();
                let p = self.player_spec().raw();
                let c = self.components_spec();
                &&& v.contains_key(c.position.raw_spec().raw()) && v[c.position.raw_spec().raw()].contains_key(p)
                &&& v.contains_key(c.pointer.raw_spec().raw()) && v[c.pointer.raw_spec().raw()].contains_key(p)
                &&& v.contains_key(c.speed.raw_spec().raw()) && v[c.speed.raw_spec().raw()].contains_key(p)
                &&& v.contains_key(c.moves_left.raw_spec().raw()) && v[c.moves_left.raw_spec().raw()].contains_key(p)
                &&& c.position.raw_spec().raw() != c.pointer.raw_spec().raw()
                &&& c.position.raw_spec().raw() != c.speed.raw_spec().raw()
                &&& c.position.raw_spec().raw() != c.moves_left.raw_spec().raw()
                &&& c.pointer.raw_spec().raw() != c.speed.raw_spec().raw()
                &&& c.pointer.raw_spec().raw() != c.moves_left.raw_spec().raw()
                &&& c.speed.raw_spec().raw() != c.moves_left.raw_spec().raw()
            }),
        ensures
            self.wf(),
    {
        let c = self.components_spec().raws();
        assert(c[0] == self.components_spec().position.raw_spec().raw());
        assert(c[1] == self.components_spec().pointer.raw_spec().raw());
        assert(c[2] == self.components_spec().speed.raw_spec().raw());
        assert(c[3] == self.components_spec().moves_left.raw_spec().raw());
    }

    /// A game with the player's head at `input`'s point, pointing up, standing still.
    pub fn new(input: Game2Input) -> (r: core::result::Result<Game2, NewGameError>)
        ensures
            r is Ok,
            r->Ok_0.wf(),
            r->Ok_0.plain(),
            r->Ok_0.head_spec() == input.player_head_pos,
    {
        let world = World::new();
        let mut this = match Game2::from_world(world) {
            Ok(this) => this,
            Err(e) => return Err(NewGameError::FromWorld(e)),
        };
        proof {
            this.lemma_wf();
        }
        let ghost before = this;
        match this.world.set_value(this.entities.player, this.components.position, input.player_head_pos) {
            Ok(()) => {},
            Err(e) => return Err(NewGameError::Ecs(e)),
        }
        proof {
            lemma_coord_pair_round_trip(input.player_head_pos);
            this.lemma_wf_intro();
        }
        Ok(this)
    }

    /// The game in `world`: the player entity, the four components and the two
    /// systems, created when missing, and the player's values set to head at
    /// (1000, 1000), pointing up, standing still.
    pub fn from_world(world: World) -> (r: core::result::Result<Game2, FromWorldError>)
        requires
            world.wf(),
            world.next_entity() < u64::MAX,
            world.next_component() + 4 <= u64::MAX,
            world.next_system() + 2 <= u64::MAX,
        ensures
            match r {
                Ok(g) => g.wf() && g.head_spec() == (CoordPair { y: 1000, x: 1000 }),
                Err(_) => true,
            },
            world.fresh() ==> r is Ok && r->Ok_0.plain(),
    {
        let mut world = world;
        let ghost w0 = world;
        let entities = Entities::from_world(&mut world);
        let ghost w1 = world;
        let components = Components::from_world(&mut world);
        let ghost w2 = world;
        let systems = match Systems::from_world(&mut world, &components) {
            Ok(systems) => systems,
            Err(e) => return Err(e),
        };
        let ghost w3 = world;
        let ghost p = entities.player.raw();
        let ghost c = components.raws();
        proof {
            if w0.fresh() {
                assert(c[0] != c[1] && c[0] != c[2] && c[0] != c[3] && c[1] != c[2] && c[1] != c[3] && c[2] != c[3]);
                assert(w3.component_addable(entities.player, components.pointer.raw_spec()));
            }
        }
        match world.create_value(entities.player, components.pointer, Direction::Up) {
            Ok(()) => {},
            Err(e) => return Err(FromWorldError::Ecs(e)),
        }
        let ghost w4 = world;
        proof {
            if w0.fresh() {
                assert(components.speed.raw_spec() != components.pointer.raw_spec());
                assert(w4.values()[c[2]] == w3.values()[c[2]]);
                assert(w4.component_addable(entities.player, components.speed.raw_spec()));
            }
        }
        match world.create_value(entities.player, components.speed, 0) {
            Ok(()) => {},
            Err(e) => return Err(FromWorldError::Ecs(e)),
        }
        let ghost w5 = world;
        proof {
            if w0.fresh() {
                assert(components.moves_left.raw_spec() != components.pointer.raw_spec());
                assert(components.moves_left.raw_spec() != components.speed.raw_spec());
                assert(w5.values()[c[3]] == w3.values()[c[3]]);
                assert(w5.component_addable(entities.player, components.moves_left.raw_spec()));
            }
        }
        match world.create_value(entities.player, components.moves_left, 0) {
            Ok(()) => {},
            Err(e) => return Err(FromWorldError::Ecs(e)),
        }
        let ghost w6 = world;
        proof {
            if w0.fresh() {
                assert(components.position.raw_spec() != components.pointer.raw_spec());
                assert(components.position.raw_spec() != components.speed.raw_spec());
                assert(components.position.raw_spec() != components.moves_left.raw_spec());
                assert(w6.values()[c[0]] == w3.values()[c[0]]);
                assert(w6.component_addable(entities.player, components.position.raw_spec()));
            }
        }
        match world.create_value(entities.player, components.position, CoordPair { y: 1000, x: 1000 }) {
            Ok(()) => {},
            Err(e) => return Err(FromWorldError::Ecs(e)),
        }
        let this = Game2 { world, entities, components, systems };
        proof {
            lemma_coord_pair_round_trip(CoordPair { y: 1000, x: 1000 });
            assert(w4.values().contains_key(c[1]) && w4.values()[c[1]].contains_key(p));
            assert(!w4.values()[c[2]].contains_key(p));
            assert(w5.values().contains_key(c[1]) && w5.values()[c[1]].contains_key(p));
            assert(w5.values().contains_key(c[2]) && w5.values()[c[2]].contains_key(p));
            assert(!w5.values()[c[3]].contains_key(p));
            assert(w6.values()[c[1]].contains_key(p) && w6.values()[c[2]].contains_key(p) && w6.values()[c[3]].contains_key(p));
            assert(!w6.values()[c[0]].contains_key(p));
            this.lemma_wf_intro();
            if w0.fresh() {
                let w7 = this.world;
                let cs = components;
                let set7 = w7.entity_components()[p];
                assert(w1.entity_components() == Map::<u64, Set<component::RawId>>::empty().insert(p, Set::empty()));
                assert(w7.entity_components().dom() =~= set![p]);
                assert(set7.contains(cs.position.raw_spec()));
                assert(set7.contains(cs.pointer.raw_spec()));
                assert(set7.contains(cs.speed.raw_spec()));
                assert(set7.contains(cs.moves_left.raw_spec()));
                assert(carries_all(set7, movement_record(cs).1));
                assert(carries_all(set7, move_count_record(cs).1));
                assert(w2.systems() == Map::<u64, (Seq<char>, Seq<component::RawId>)>::empty());
                assert(w7.values()[c[1]][p] == 0);
                assert(Direction::try_from_spec(this.player_value(cs.pointer.raw_spec().raw())) == Some(Direction::Up));
            }
        }
        Ok(this)
    }

    /// Points the player to `direction` with speed one and one move left.
    pub fn move_player(&mut self, direction: Direction) -> (r: core::result::Result<(), MovePlayerError>)
        requires
            old(self).wf(),
        ensures
            r is Ok,
            final(self).wf(),
            final(self).head_spec() == old(self).head_spec(),
            Direction::try_from_spec(final(self).player_value(final(self).components_spec().pointer.raw_spec().raw()))
                == Some(direction),
            final(self).player_value(final(self).components_spec().speed.raw_spec().raw()) == 1,
            final(self).player_value(final(self).components_spec().moves_left.raw_spec().raw()) == 1,
            old(self).plain() ==> final(self).plain(),
    {
        proof {
            self.lemma_wf();
        }
        match self.world.set_value(self.entities.player, self.components.pointer, direction) {
            Ok(()) => {},
            Err(e) => return Err(MovePlayerError::Ecs(e)),
        }
        match self.world.set_value(self.entities.player, self.components.speed, 1) {
            Ok(()) => {},
            Err(e) => return Err(MovePlayerError::Ecs(e)),
        }
        match self.world.set_value(self.entities.player, self.components.moves_left, 1) {
            Ok(()) => {},
            Err(e) => return Err(MovePlayerError::Ecs(e)),
        }
        proof {
            self.lemma_wf_intro();
        }
        Ok(())
    }

    /// The player's head.
    pub fn player_pos(&self) -> (r: core::result::Result<CoordPair, GetPlayerPosError>)
        requires
            self.wf(),
        ensures
            r is Ok,
            r->Ok_0 == self.head_spec(),
    {
        proof {
            self.lemma_wf();
        }
        match self.world.get_value(self.entities.player, self.components.position) {
            Ok(pos) => Ok(pos),
            Err(e) => Err(GetPlayerPosError::Ecs(e)),
        }
    }

    /// Runs the systems of the world once, each over the entities that hold its
    /// components in turn: the game keeps its player, components and systems;
    /// with nothing to run it succeeds and changes nothing; on success the
    /// values are those that each runner, by its contract, wrote back in turn;
    /// on failure those written before the step that failed, with its cause.
    /// A plain game, as [`Game2::new`] makes, always succeeds: the head moves
    /// along the pointer by the speed unless that leaves the coordinates, and
    /// with moves left one is spent, the speed dropping to zero with the last.
    pub fn tick(&mut self) -> (r: core::result::Result<(), TickError>)
        requires
            old(self).wf(),
        ensures
            final(self).wf(),
            final(self).player_spec() == old(self).player_spec(),
            final(self).components_spec() == old(self).components_spec(),
            final(self).world_spec().systems() == old(self).world_spec().systems(),
            final(self).world_spec().system_ids() == old(self).world_spec().system_ids(),
            final(self).world_spec().entity_components() == old(self).world_spec().entity_components(),
            forall|k: u64, e: entity::Id, b: Seq<AnyValue>, a: Seq<AnyValue>, ok: bool|
                #[trigger] final(self).world_spec().system_runs(k, e, b, a, ok) == old(self).world_spec().system_runs(
                    k,
                    e,
                    b,
                    a,
                    ok,
                ),
            old(self).world_spec().plan().len() == 0 ==> r is Ok && final(self).world_spec() == old(self).world_spec(),
            r is Ok ==> exists|outs: Seq<Seq<AnyValue>>|
                outs.len() == old(self).world_spec().plan().len() && final(self).world_spec().values() == #[trigger] applied(
                    old(self).world_spec().values(),
                    old(self).world_spec().plan(),
                    outs,
                ) && forall|i: int|
                    0 <= i < old(self).world_spec().plan().len() ==> #[trigger] old(self).world_spec().step_ok(
                        old(self).world_spec().plan(),
                        outs,
                        i,
                    ),
            r matches Err(TickError::Ecs(err)) ==> exists|outs: Seq<Seq<AnyValue>>, i: int|
                0 <= i < old(self).world_spec().plan().len() && outs.len() == i && (forall|j: int|
                    0 <= j < i ==> #[trigger] old(self).world_spec().step_ok(old(self).world_spec().plan(), outs, j))
                    && final(self).world_spec().values() == #[trigger] applied(
                    old(self).world_spec().values(),
                    old(self).world_spec().plan().take(i),
                    outs,
                ) && old(self).world_spec().step_fails(
                    old(self).world_spec().plan(),
                    final(self).world_spec().values(),
                    i,
                    err.cause_spec(),
                ),
            old(self).plain() ==> {
                let moves = Coord::from_spec(old(self).moves_value());
                &&& r is Ok
                &&& final(self).plain()
                &&& final(self).head_spec() == moved_head(
                    old(self).head_spec(),
                    old(self).pointer_spec(),
                    Coord::from_spec(old(self).speed_value()),
                )
                &&& final(self).pointer_spec() == old(self).pointer_spec()
                &&& if moves == 0 {
                    &&& final(self).speed_value() == old(self).speed_value()
                    &&& final(self).moves_value() == old(self).moves_value()
                } else {
                    &&& final(self).moves_value() == (moves - 1) as Coord as u64
                    &&& final(self).speed_value() == if moves == 1 {
                        0
                    } else {
                        old(self).speed_value()
                    }
                }
            },
    {
        proof {
            self.lemma_wf();
        }
        let ghost g0 = *self;
        proof {
            if g0.plain() {
                g0.lemma_plain_plan();
            }
        }
        let r = self.world.tick();
        proof {
            self.lemma_wf_intro();
            if g0.plain() {
                if r is Err {
                    let e = r->Err_0;
                    let (outs, i) = choose|outs: Seq<Seq<AnyValue>>, i: int|
                        0 <= i < g0.world_spec().plan().len() && outs.len() == i && (forall|j: int|
                            0 <= j < i ==> #[trigger] g0.world_spec().step_ok(g0.world_spec().plan(), outs, j))
                            && self.world_spec().values() == #[trigger] applied(
                            g0.world_spec().values(),
                            g0.world_spec().plan().take(i),
                            outs,
                        ) && g0.world_spec().step_fails(
                            g0.world_spec().plan(),
                            self.world_spec().values(),
                            i,
                            e.cause_spec(),
                        );
                    assert(g0.world_spec().step_fails(
                        g0.world_spec().plan(),
                        applied(g0.world_spec().values(), g0.world_spec().plan().take(i), outs),
                        i,
                        e.cause_spec(),
                    ));
                }
                self.lemma_tick_plain(g0, r is Ok);
            }
        }
        match r {
            Ok(()) => Ok(()),
            Err(e) => Err(TickError::Ecs(e)),
        }
    }
}

/// A point read back from its primitive is the point itself.
pub proof fn lemma_coord_pair_round_trip(p: CoordPair)
    ensures
        CoordPair::from_spec(p.to_spec()) == p,
{
    let y = p.y;
    let x = p.x;
    assert((((y as u64) | ((x as u64) << 16u64)) & 0xffff) as u16 == y) by (bit_vector);
    assert(((((y as u64) | ((x as u64) << 16u64)) >> 16u64) & 0xffff) as u16 == x) by (bit_vector);
}

} // verus!
