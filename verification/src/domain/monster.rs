//! Monsters: where each one is and where it faces.
use vstd::prelude::*;
use crate::geometry::axis::Direction;
use crate::domain::geometry::CoordPair;

verus! {

pub use crate::entity::monotonic::InvalidId;

/// The registry of the monsters of a game.
pub type Registry = crate::entity::monotonic::Registry<Monster>;

/// The identifier of a monster.
pub type Id = crate::entity::monotonic::Id;

/// Where a monster is: the point it occupies and the direction it faces.
#[derive(Debug, Clone, Copy, PartialEq, Eq, PartialOrd, Ord, Hash)]
pub struct MonsterPosition {
    pub body: CoordPair,
    pub facing: Direction,
}

impl MonsterPosition {
    /// A position with the given body and facing.
    pub fn new(body: CoordPair, facing: Direction) -> (r: MonsterPosition)
        ensures
            r.body == body,
            r.facing == facing,
    {
        MonsterPosition { body, facing }
    }

    /// The point the monster occupies.
    pub fn body(&self) -> (r: CoordPair)
        ensures
            r == self.body,
    {
        self.body
    }

    /// The direction the monster faces.
    pub fn facing(&self) -> (r: Direction)
        ensures
            r == self.facing,
    {
        self.facing
    }

    /// Moves the monster's body.
    pub(crate) fn set_body(&mut self, body: CoordPair)
        ensures
            *final(self) == (MonsterPosition { body, ..*old(self) }),
    {
        self.body = body;
    }

    /// Turns the monster to face `facing`.
    pub(crate) fn face(&mut self, facing: Direction)
        ensures
            *final(self) == (MonsterPosition { facing, ..*old(self) }),
    {
        self.facing = facing;
    }
}

/// A monster.
#[derive(Debug, Clone, Copy, PartialEq, Eq, PartialOrd, Ord, Hash)]
pub struct Monster {
    pub position: MonsterPosition,
}

impl Monster {
    /// A monster at `position`.
    pub fn new(position: MonsterPosition) -> (r: Monster)
        ensures
            r.position == position,
    {
        Monster { position }
    }

    /// The monster's position.
    pub fn position(&self) -> (r: MonsterPosition)
        ensures
            r == self.position,
    {
        self.position
    }

    /// The monster's position, mutably borrowed.
    pub(crate) fn position_mut(&mut self) -> (r: &mut MonsterPosition)
        ensures
            *r == old(self).position,
            final(self).position == *final(r),
    {
        &mut self.position
    }
}

} // verus!

verus! {

/// No identifier is left for a new monster.
#[derive(Debug, Clone, Copy, PartialEq, Eq)]
pub struct IdShortageError;

} // verus!
