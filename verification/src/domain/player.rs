//! The player: where its head is, where it faces, and its hit points.
use vstd::prelude::*;
use crate::geometry::axis::{Direction, fits, moved_pair, pair_value};
use crate::domain::geometry::{Coord, CoordPair};
use crate::domain::stat::{Stat, StatValue};

verus! {

/// Player hit points that do not fit.
#[derive(Debug, Clone, Copy, PartialEq, Eq)]
pub enum InvalidPlayerHp {
    /// The hit points are too big.
    TooBig(u8),
}

/// Why a player position could not be made.
#[derive(Debug, Clone, Copy, PartialEq, Eq)]
pub enum InitError {
    /// The pointer, one unit from the head, would not fit in the coordinates.
    Overflow,
}

/// Where the player is: its head and the direction it faces. The pointer, the
/// point in front of the head, always fits in the coordinates.
#[derive(Debug, Clone, Copy, PartialEq, Eq, PartialOrd, Ord, Hash)]
pub struct PlayerPosition {
    head: CoordPair,
    facing: Direction,
}

/// The point one unit from `head` in direction `facing`, as values.
pub open spec fn pointer_of(head: CoordPair, facing: Direction) -> (int, int) {
    moved_pair(facing, 1, head)
}

impl PlayerPosition {
    /// The position's invariant: its pointer fits in the coordinates.
    #[verifier::type_invariant]
    spec fn pointer_fits(self) -> bool {
        fits::<Coord>(pointer_of(self.head, self.facing))
    }

    /// The head.
    pub closed spec fn head_spec(self) -> CoordPair {
        self.head
    }

    /// The facing direction.
    pub closed spec fn facing_spec(self) -> Direction {
        self.facing
    }

    /// A position with the given head and facing, unless its pointer would not fit.
    pub fn new(head: CoordPair, facing: Direction) -> (r: Result<PlayerPosition, InitError>)
        ensures
            match r {
                Ok(p) => p.head_spec() == head && p.facing_spec() == facing && fits::<Coord>(pointer_of(head, facing)),
                Err(e) => e == InitError::Overflow && !fits::<Coord>(pointer_of(head, facing)),
            },
    {
        match head.checked_move_unit(facing) {
            Some(_) => Ok(PlayerPosition { head, facing }),
            None => Err(InitError::Overflow),
        }
    }

    /// The head.
    pub fn head(&self) -> (r: CoordPair)
        ensures
            r == self.head_spec(),
            fits::<Coord>(pointer_of(self.head_spec(), self.facing_spec())),
    {
        proof {
            use_type_invariant(self);
        }
        self.head
    }

    /// Moves the head.
    pub(crate) fn set_head(&mut self, new_head: CoordPair)
        requires
            fits::<Coord>(pointer_of(new_head, old(self).facing_spec())),
        ensures
            final(self).head_spec() == new_head,
            final(self).facing_spec() == old(self).facing_spec(),
    {
        *self = PlayerPosition { head: new_head, facing: self.facing };
    }

    /// The facing direction.
    pub fn facing(&self) -> (r: Direction)
        ensures
            r == self.facing_spec(),
    {
        self.facing
    }

    /// Turns to face `direction`.
    pub(crate) fn face(&mut self, direction: Direction)
        requires
            fits::<Coord>(pointer_of(old(self).head_spec(), direction)),
        ensures
            final(self).head_spec() == old(self).head_spec(),
            final(self).facing_spec() == direction,
    {
        *self = PlayerPosition { head: self.head, facing: direction };
    }

    /// The point in front of the head.
    pub fn pointer(&self) -> (r: CoordPair)
        ensures
            pair_value(r) == pointer_of(self.head_spec(), self.facing_spec()),
    {
        proof {
            use_type_invariant(self);
        }
        self.head.move_unit(self.facing)
    }
}

/// The player.
#[derive(Debug, Clone, Copy, PartialEq, Eq, PartialOrd, Ord, Hash)]
pub struct Player {
    position: PlayerPosition,
    hp: Stat,
}

impl Player {
    /// The position.
    pub closed spec fn position_spec(self) -> PlayerPosition {
        self.position
    }

    /// The hit points.
    pub closed spec fn hp_spec(self) -> Stat {
        self.hp
    }

    /// The hit points a player starts with: eighty out of eighty.
    pub fn default_hp() -> (r: Stat)
        ensures
            r.value_spec() == 80,
            r.max_spec() == 80,
    {
        Stat::new(80, 80)
    }

    /// A player at `position` with hit points `hp`.
    pub fn new(position: PlayerPosition, hp: Stat) -> (r: Player)
        ensures
            r.position_spec() == position,
            r.hp_spec() == hp,
    {
        Player { position, hp }
    }

    /// The position.
    pub fn position(&self) -> (r: &PlayerPosition)
        ensures
            *r == self.position_spec(),
    {
        &self.position
    }

    /// Replaces the position.
    pub(crate) fn set_position(&mut self, position: PlayerPosition)
        ensures
            final(self).position_spec() == position,
            final(self).hp_spec() == old(self).hp_spec(),
    {
        self.position = position;
    }

    /// The hit points.
    pub fn hp(&self) -> (r: Stat)
        ensures
            r == self.hp_spec(),
    {
        self.hp
    }

    /// Takes `amount` hit points away, down to zero.
    pub fn damage(&mut self, amount: StatValue)
        ensures
            final(self).position_spec() == old(self).position_spec(),
            final(self).hp_spec().max_spec() == old(self).hp_spec().max_spec(),
            final(self).hp_spec().value_spec() == if old(self).hp_spec().value_spec() < amount {
                0
            } else {
                old(self).hp_spec().value_spec() - amount
            },
    {
        self.hp.decrease_value(amount);
    }

    /// Gives `amount` hit points back, up to the maximum.
    pub fn heal(&mut self, amount: StatValue)
        ensures
            final(self).position_spec() == old(self).position_spec(),
            final(self).hp_spec().max_spec() == old(self).hp_spec().max_spec(),
            final(self).hp_spec().value_spec() == if old(self).hp_spec().value_spec() + amount
                > old(self).hp_spec().max_spec() {
                old(self).hp_spec().max_spec() as int
            } else {
                old(self).hp_spec().value_spec() + amount
            },
    {
        self.hp.increase_value(amount);
    }
}

} // verus!
