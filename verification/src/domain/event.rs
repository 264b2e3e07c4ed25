//! Events: things that happen to the game at a scheduled tick.
use vstd::prelude::*;
use crate::geometry::axis::Direction;
use crate::domain::geometry::{Coord, CoordPair};
use crate::domain::monster::{self, MonsterPosition};
use crate::domain::game::{
    Game,
    applied,
    MonsterAttackError,
    MonsterFollowError,
    MonsterGrowlError,
    MoveMonsterError,
    SpawnMonsterError,
    VanishMonsterError,
};

verus! {

/// Why an event could not be applied.
#[derive(Debug, Clone, Copy, PartialEq, Eq)]
pub enum ApplyError {
    TrySpawnMonster(SpawnMonsterError),
    VanishMonster(VanishMonsterError),
    TryMoveMonster(MoveMonsterError),
    MonsterAttack(MonsterAttackError),
    MonsterGrowl(MonsterGrowlError),
    MonsterFollow(MonsterFollowError),
}

/// Something that happens to the game.
#[derive(Debug, Clone, Copy, PartialEq, Eq, PartialOrd, Ord, Hash)]
pub enum Event {
    /// A monster appears at the position, if its point is free.
    TrySpawnMonster(MonsterPosition),
    /// The monster disappears.
    VanishMonster(monster::Id),
    /// The monster steps or turns in the direction.
    TryMoveMonster(monster::Id, Direction),
    /// The monster attacks what is in front of it.
    MonsterAttack(monster::Id),
    /// The monster steps towards the player, and keeps doing so `limit` more
    /// times, every `period` ticks.
    FollowPlayer { id: monster::Id, period: Coord, limit: u32 },
    /// The monster growls.
    MonsterGrowl(monster::Id),
}

impl Event {
    /// Applies the event to `game`.
    pub(crate) fn apply(self, game: &mut Game) -> (r: Result<(), ApplyError>)
        requires
            old(game).wf(),
            old(game).epoch_spec() + 0x1_0000 <= u64::MAX,
        ensures
            final(game).wf(),
            applied(*old(game), *final(game), self, r),
    {
        match self {
            Event::TrySpawnMonster(position) => match game.try_spawn_moster(position) {
                Ok(()) => Ok(()),
                Err(e) => Err(ApplyError::TrySpawnMonster(e)),
            },
            Event::VanishMonster(id) => match game.vanish_monster(id) {
                Ok(()) => Ok(()),
                Err(e) => Err(ApplyError::VanishMonster(e)),
            },
            Event::TryMoveMonster(id, direction) => match game.try_move_monster(id, direction) {
                Ok(()) => Ok(()),
                Err(e) => Err(ApplyError::TryMoveMonster(e)),
            },
            Event::MonsterAttack(id) => match game.monster_attack(id) {
                Ok(()) => Ok(()),
                Err(e) => Err(ApplyError::MonsterAttack(e)),
            },
            Event::MonsterGrowl(id) => match game.monster_growl(id) {
                Ok(()) => Ok(()),
                Err(e) => Err(ApplyError::MonsterGrowl(e)),
            },
            Event::FollowPlayer { id, period, limit } => match game.monster_follow_player(id, period, limit) {
                Ok(()) => Ok(()),
                Err(e) => Err(ApplyError::MonsterFollow(e)),
            },
        }
    }
}

/// Something the player perceives happening at a point.
#[derive(Debug, Clone, Copy, PartialEq, Eq, PartialOrd, Ord, Hash)]
pub enum MetaEvent {
    /// A monster hit something at the point.
    MonsterHit(CoordPair),
    /// A monster growled at the point.
    MonsterGrowl(CoordPair),
}

} // verus!
