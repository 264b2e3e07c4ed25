//! The distributions of the events that happen to a game: which kind of event
//! comes, weighted by how many monsters there are, and what it is about.
use vstd::prelude::*;
use crate::domain::event::Event;
use crate::domain::game::Game;
use crate::domain::geometry::{Coord, CoordPair, Rect};
use crate::domain::monster::{self, MonsterPosition};
use crate::geometry::axis::Direction;
use crate::gen::random::{
    InvalidRectDistr,
    PickedReproducibleRng,
    ProabilityWeight,
    UniformRectDistr,
    random_direction,
    random_range_u32,
    random_range_usize,
    rect_distr_error,
    uniform_rect_ok,
    weight_sum,
    weighted_index,
};

verus! {

/// Why the distribution of events could not be made.
#[derive(Debug, Clone, Copy, PartialEq, Eq)]
pub enum DistrError {
    /// The map's rectangle admits no uniform distribution of its points.
    InvalidMapRect(InvalidRectDistr),
    /// The distribution of the monster follow limit could not be made from its bounds.
    InvalidMonsterFollowLimitDistr,
    /// The distribution of the monster follow period could not be made from its bounds.
    InvalidMonsterFollowPeriodDistr,
}

/// A monster follow limit refused by the configuration.
#[derive(Debug, Clone, Copy, PartialEq, Eq)]
pub enum InvalidMonsterFollowLimit {
    /// The limit is outside the interval that limits may take.
    Range(u32),
    /// The peak would not lie between the minimum and the maximum.
    PeakOutOfBounds { min: u32, max: u32, peak: u32 },
    /// The minimum would exceed the maximum.
    BoundOrder { min: u32, max: u32 },
}

/// A monster follow period refused by the configuration.
#[derive(Debug, Clone, Copy, PartialEq, Eq)]
pub enum InvalidMonsterFollowPeriod {
    /// The period is outside the interval that periods may take.
    Range(Coord),
    /// The peak would not lie between the minimum and the maximum.
    PeakOutOfBounds { min: Coord, max: Coord, peak: Coord },
    /// The minimum would exceed the maximum.
    BoundOrder { min: Coord, max: Coord },
}

/// The kinds of event that the distribution draws.
#[derive(Debug, Clone, Copy, PartialEq, Eq, Structural, PartialOrd, Ord, Hash)]
pub enum EventType {
    TrySpawnMonster,
    VanishMonster,
    TryMoveMonster,
    MonsterAttack,
    FollowPlayer,
}

/// The kind of event at `index` in the order of [`EventType::all`].
pub open spec fn event_type_at(index: int) -> EventType {
    if index == 0 {
        EventType::TrySpawnMonster
    } else if index == 1 {
        EventType::VanishMonster
    } else if index == 2 {
        EventType::TryMoveMonster
    } else if index == 3 {
        EventType::MonsterAttack
    } else {
        EventType::FollowPlayer
    }
}

/// The place of a kind of event in the order of [`EventType::all`].
pub open spec fn event_type_index(ty: EventType) -> int {
    match ty {
        EventType::TrySpawnMonster => 0,
        EventType::VanishMonster => 1,
        EventType::TryMoveMonster => 2,
        EventType::MonsterAttack => 3,
        EventType::FollowPlayer => 4,
    }
}

impl EventType {
    /// The number of kinds of event.
    pub const COUNT: usize = 5;

    /// Every kind of event, in declaration order.
    pub fn all() -> (r: [EventType; 5])
        ensures
            forall|i: int| 0 <= i < 5 ==> #[trigger] r@[i] == event_type_at(i),
    {
        [
            EventType::TrySpawnMonster,
            EventType::VanishMonster,
            EventType::TryMoveMonster,
            EventType::MonsterAttack,
            EventType::FollowPlayer,
        ]
    }
}

/// Whether `weights` are weights that `density` may give, one for each kind of
/// event taken in order, for as many kinds as there are weights.
pub open spec fn density_outcomes<F: Fn(EventType) -> ProabilityWeight>(density: F, weights: Seq<u32>) -> bool {
    &&& weights.len() <= 5
    &&& forall|i: int| 0 <= i < weights.len() ==> call_ensures(density, (event_type_at(i),), #[trigger] weights[i])
}

/// The cumulative weights of `weights`: entry `i` is the sum of the first `i + 1`.
pub open spec fn cumulative_of(weights: Seq<u32>) -> Seq<int> {
    Seq::new(weights.len(), |i: int| weight_sum(weights.take(i + 1)))
}

/// The weight that a kind of event gets when there are `x` monsters.
pub open spec fn monster_weight(x: int, ty: EventType) -> int {
    let cut = 10000int;
    match ty {
        EventType::TrySpawnMonster => if x == 0 {
            1
        } else if x < cut {
            cut * 2 - x
        } else {
            x / cut
        },
        EventType::VanishMonster => if x == 0 {
            0
        } else if x < cut {
            x
        } else {
            x - cut
        },
        EventType::TryMoveMonster => x * cut / 100,
        EventType::MonsterAttack => x * cut / 5,
        EventType::FollowPlayer => x,
    }
}

/// How the weights of the kinds of event grow with the number `x` of
/// monsters: a move weighs a hundred per monster and an attack twenty times a
/// move; following the player weighs one per monster; below ten thousand
/// monsters a spawn and a vanishing together weigh twenty thousand, the spawn
/// losing what the vanishing gains with each monster; from ten thousand on,
/// the vanishing weighs the monsters past ten thousand and the spawn the number
/// of whole ten thousands; with no monster, only a spawn may come.
pub proof fn law_monster_weights(x: int)
    requires
        x >= 0,
    ensures
        monster_weight(x, EventType::TryMoveMonster) == 100 * x,
        monster_weight(x, EventType::MonsterAttack) == 20 * monster_weight(x, EventType::TryMoveMonster),
        monster_weight(x, EventType::FollowPlayer) == x,
        0 < x < 10000 ==> monster_weight(x, EventType::TrySpawnMonster) + monster_weight(x, EventType::VanishMonster)
            == 20000,
        0 < x < 10000 ==> monster_weight(x, EventType::VanishMonster) == x,
        x >= 10000 ==> monster_weight(x, EventType::VanishMonster) + 10000 == x,
        x >= 10000 ==> monster_weight(x, EventType::TrySpawnMonster) * 10000 <= x < (monster_weight(
            x,
            EventType::TrySpawnMonster,
        ) + 1) * 10000,
        x == 0 ==> monster_weight(x, EventType::TrySpawnMonster) > 0 && monster_weight(x, EventType::VanishMonster) == 0
            && monster_weight(x, EventType::TryMoveMonster) == 0 && monster_weight(x, EventType::MonsterAttack) == 0
            && monster_weight(x, EventType::FollowPlayer) == 0,
{
    assert(x * 10000 / 100 == 100 * x) by (nonlinear_arith)
        requires
            x >= 0,
    ;
    assert(x * 10000 / 5 == 2000 * x) by (nonlinear_arith)
        requires
            x >= 0,
    ;
    assert((x / 10000) * 10000 <= x < (x / 10000 + 1) * 10000) by (nonlinear_arith)
        requires
            x >= 0,
    ;
}

/// The weights of the kinds of event, in order, when there are `x` monsters.
pub open spec fn monster_weights(x: Coord) -> Seq<u32> {
    Seq::new(5, |i: int| monster_weight(x as int, event_type_at(i)) as u32)
}

/// A sum of weights each at most `bound` is at most their number times `bound`.
proof fn lemma_weight_sum_bound(weights: Seq<u32>, bound: int)
    requires
        bound >= 0,
        forall|i: int| 0 <= i < weights.len() ==> weights[i] <= bound,
    ensures
        0 <= weight_sum(weights) <= weights.len() * bound,
    decreases weights.len(),
{
    if weights.len() > 0 {
        let rest = weights.drop_last();
        assert forall|i: int| 0 <= i < rest.len() implies rest[i] <= bound by {
            assert(rest[i] == weights[i]);
        }
        lemma_weight_sum_bound(rest, bound);
        let n = rest.len() as int;
        assert(weights.last() <= bound);
        assert(n * bound + bound == (n + 1) * bound) by (nonlinear_arith);
    }
}

/// The weight of a kind of event when there are `x` monsters, in executable form.
fn monster_weight_of(x: Coord, ty: EventType) -> (r: ProabilityWeight)
    ensures
        r == monster_weight(x as int, ty),
{
    let cut: u32 = 10000;
    let x = x as u32;
    match ty {
        EventType::TrySpawnMonster => {
            if x == 0 {
                1
            } else if x < cut {
                cut * 2 - x
            } else {
                x / cut
            }
        },
        EventType::VanishMonster => {
            if x == 0 {
                0
            } else if x < cut {
                x
            } else {
                x - cut
            }
        },
        EventType::TryMoveMonster => x * cut / 100,
        EventType::MonsterAttack => x * cut / 5,
        EventType::FollowPlayer => x,
    }
}

/// The distribution of the kinds of event, by cumulative weights.
#[derive(Debug, Clone)]
pub struct EventTypeDistr {
    cumulative_weights: [ProabilityWeight; 5],
}

impl EventTypeDistr {
    /// The cumulative weights, in the order of the kinds of event.
    pub closed spec fn cumulative(self) -> Seq<u32> {
        self.cumulative_weights@
    }

    /// The well-formedness of the distribution: its cumulative weights never decrease.
    pub open spec fn wf(self) -> bool {
        forall|i: int, j: int| 0 <= i <= j < 5 ==> self.cumulative()[i] <= self.cumulative()[j]
    }

    /// The total weight.
    pub open spec fn total(self) -> u32 {
        self.cumulative()[4]
    }

    /// The weight of a kind of event.
    pub open spec fn weight(self, ty: EventType) -> int {
        let i = event_type_index(ty);
        if i == 0 {
            self.cumulative()[0] as int
        } else {
            self.cumulative()[i] - self.cumulative()[i - 1]
        }
    }

    /// The kind of event that a weight drawn below the total stands for: the
    /// first whose cumulative weight exceeds it.
    pub open spec fn type_for(self, drawn: u32) -> EventType {
        let c = self.cumulative();
        if drawn < c[0] {
            EventType::TrySpawnMonster
        } else if drawn < c[1] {
            EventType::VanishMonster
        } else if drawn < c[2] {
            EventType::TryMoveMonster
        } else if drawn < c[3] {
            EventType::MonsterAttack
        } else {
            EventType::FollowPlayer
        }
    }

    /// The distribution whose weights `density` gives, each kind of event asked
    /// once, in declaration order.
    pub fn new<F>(density_function: F) -> (r: EventTypeDistr) where F: Fn(EventType) -> ProabilityWeight
        requires
            forall|ty: EventType| call_requires(density_function, (ty,)),
            forall|ws: Seq<u32>| density_outcomes(density_function, ws) ==> #[trigger] weight_sum(ws) <= u32::MAX,
        ensures
            r.wf(),
            exists|ws: Seq<u32>| {
                &&& #[trigger] density_outcomes(density_function, ws)
                &&& ws.len() == 5
                &&& r.cumulative().map_values(|c: u32| c as int) == cumulative_of(ws)
            },
    {
        let all = EventType::all();
        let mut accumulated: ProabilityWeight = 0;
        let mut cumulative_weights: [ProabilityWeight; 5] = [0; 5];
        let ghost mut ws: Seq<u32> = Seq::empty();
        let mut i: usize = 0;
        while i < 5
            invariant
                i <= 5,
                ws.len() == i,
                forall|k: int| 0 <= k < 5 ==> #[trigger] all@[k] == event_type_at(k),
                forall|ty: EventType| call_requires(density_function, (ty,)),
                forall|ws: Seq<u32>| density_outcomes(density_function, ws) ==> #[trigger] weight_sum(ws) <= u32::MAX,
                density_outcomes(density_function, ws),
                accumulated == weight_sum(ws),
                cumulative_weights@.len() == 5,
                forall|k: int| 0 <= k < i ==> #[trigger] cumulative_weights@[k] == weight_sum(ws.take(k + 1)),
                forall|k: int, l: int| 0 <= k <= l < i ==> cumulative_weights@[k] <= cumulative_weights@[l],
                forall|k: int| 0 <= k < i ==> cumulative_weights@[k] <= accumulated,
            decreases 5 - i,
        {
            let w = density_function(all[i]);
            let ghost next = ws.push(w);
            proof {
                assert(next.drop_last() =~= ws);
                assert(density_outcomes(density_function, next));
                assert(weight_sum(next) <= u32::MAX);
            }
            accumulated = accumulated + w;
            cumulative_weights[i] = accumulated;
            proof {
                assert forall|k: int| 0 <= k < i + 1 implies #[trigger] cumulative_weights@[k] == weight_sum(next.take(k + 1)) by {
                    if k < i {
                        assert(next.take(k + 1) =~= ws.take(k + 1));
                    } else {
                        assert(next.take(k + 1) =~= next);
                    }
                }
                ws = next;
            }
            i += 1;
        }
        let r = EventTypeDistr { cumulative_weights };
        assert(r.cumulative().map_values(|c: u32| c as int) =~= cumulative_of(ws));
        r
    }

    /// The distribution of the kinds of event when there are `x` monsters.
    pub fn from_monster_count(x: Coord) -> (r: EventTypeDistr)
        ensures
            r.wf(),
            r.cumulative().map_values(|c: u32| c as int) == cumulative_of(monster_weights(x)),
    {
        let density = |ty: EventType| -> (w: ProabilityWeight)
            ensures
                w == monster_weight(x as int, ty),
            { monster_weight_of(x, ty) };
        proof {
            assert forall|ws: Seq<u32>| density_outcomes(density, ws) implies #[trigger] weight_sum(ws) <= u32::MAX by {
                assert forall|i: int| 0 <= i < ws.len() implies ws[i] <= 200_000_000 by {
                    assert(call_ensures(density, (event_type_at(i),), ws[i]));
                }
                lemma_weight_sum_bound(ws, 200_000_000);
            }
        }
        let r = EventTypeDistr::new(density);
        proof {
            let ws = choose|ws: Seq<u32>| {
                &&& #[trigger] density_outcomes(density, ws)
                &&& ws.len() == 5
                &&& r.cumulative().map_values(|c: u32| c as int) == cumulative_of(ws)
            };
            assert forall|i: int| 0 <= i < 5 implies #[trigger] ws[i] == monster_weights(x)[i] by {
                assert(call_ensures(density, (event_type_at(i),), ws[i]));
            }
            assert(ws =~= monster_weights(x));
        }
        r
    }

    /// The kind of event that the weight `drawn` stands for.
    pub fn type_for_weight(&self, drawn: ProabilityWeight) -> (r: EventType)
        requires
            self.wf(),
            drawn < self.total(),
        ensures
            r == self.type_for(drawn),
            self.weight(r) > 0,
    {
        let all = EventType::all();
        let mut i: usize = 0;
        while i < 4
            invariant
                i <= 4,
                drawn < self.cumulative_weights@[4],
                forall|k: int| 0 <= k < 5 ==> #[trigger] all@[k] == event_type_at(k),
                forall|k: int| 0 <= k < i ==> drawn >= #[trigger] self.cumulative_weights@[k],
                forall|k: int, l: int| 0 <= k <= l < 5 ==> self.cumulative_weights@[k] <= self.cumulative_weights@[l],
            decreases 4 - i,
        {
            if drawn < self.cumulative_weights[i] {
                return all[i];
            }
            i += 1;
        }
        all[4]
    }

    /// A kind of event drawn with `rng` from the distribution. Which one comes
    /// depends on the generator; it is always one of positive weight.
    pub fn sample(&self, rng: &mut PickedReproducibleRng) -> (r: EventType)
        requires
            self.wf(),
            self.total() > 0,
        ensures
            exists|drawn: u32| drawn < self.total() && r == self.type_for(drawn),
            self.weight(r) > 0,
    {
        let last_cumulative_weight = self.cumulative_weights[4];
        let sampled_weight = random_range_u32(rng, 0, last_cumulative_weight);
        self.type_for_weight(sampled_weight)
    }
}

/// The least monster follow period.
pub const MIN_FOLLOW_PERIOD: Coord = 1;

/// The greatest monster follow period.
pub const MAX_FOLLOW_PERIOD: Coord = 65535;

/// The least monster follow limit.
pub const MIN_FOLLOW_LIMIT: u32 = 1;

/// The greatest monster follow limit.
pub const MAX_FOLLOW_LIMIT: u32 = 4294967295;

/// Whether bounds `(min, peak, max)` are ordered: the peak between the two
/// others and the minimum below the maximum, all at least `least`.
pub open spec fn bounds_ordered(bounds: (int, int, int), least: int) -> bool {
    &&& least <= bounds.0
    &&& bounds.0 <= bounds.1 <= bounds.2
    &&& bounds.0 < bounds.2
}

/// The configuration of the distribution of events: the triangular
/// distributions of how many times, and every how many ticks, a monster
/// follows the player.
#[derive(Debug, Clone)]
pub struct DistrConfig {
    monster_follow_limit_min: u32,
    monster_follow_limit_peak: u32,
    monster_follow_limit_max: u32,
    monster_follow_period_min: Coord,
    monster_follow_period_peak: Coord,
    monster_follow_period_max: Coord,
}

/// The result of setting the least monster follow limit of bounds `(min, peak, max)` to `value`.
pub open spec fn set_limit_min_result(b: (u32, u32, u32), value: u32) -> Result<(), InvalidMonsterFollowLimit> {
    if value < MIN_FOLLOW_LIMIT || value > MAX_FOLLOW_LIMIT {
        Err(InvalidMonsterFollowLimit::Range(value))
    } else if b.1 < value {
        Err(InvalidMonsterFollowLimit::BoundOrder { min: value, max: b.2 })
    } else if b.2 <= value {
        Err(InvalidMonsterFollowLimit::PeakOutOfBounds { min: value, max: b.2, peak: b.1 })
    } else {
        Ok(())
    }
}

/// The result of setting the peak monster follow limit of bounds `(min, peak, max)` to `value`.
pub open spec fn set_limit_peak_result(b: (u32, u32, u32), value: u32) -> Result<(), InvalidMonsterFollowLimit> {
    if b.2 < value || b.0 > value {
        Err(InvalidMonsterFollowLimit::PeakOutOfBounds { min: value, max: b.2, peak: b.1 })
    } else {
        Ok(())
    }
}

/// The result of setting the greatest monster follow limit of bounds `(min, peak, max)` to `value`.
pub open spec fn set_limit_max_result(b: (u32, u32, u32), value: u32) -> Result<(), InvalidMonsterFollowLimit> {
    if value < MIN_FOLLOW_LIMIT || value > MAX_FOLLOW_LIMIT {
        Err(InvalidMonsterFollowLimit::Range(value))
    } else if b.1 > value {
        Err(InvalidMonsterFollowLimit::BoundOrder { min: b.0, max: value })
    } else if b.0 >= value {
        Err(InvalidMonsterFollowLimit::PeakOutOfBounds { min: b.0, max: value, peak: b.1 })
    } else {
        Ok(())
    }
}

/// The result of setting the least monster follow period of bounds `(min, peak, max)` to `value`.
pub open spec fn set_period_min_result(b: (Coord, Coord, Coord), value: Coord) -> Result<(), InvalidMonsterFollowPeriod> {
    if value < MIN_FOLLOW_PERIOD || value > MAX_FOLLOW_PERIOD {
        Err(InvalidMonsterFollowPeriod::Range(value))
    } else if b.1 < value {
        Err(InvalidMonsterFollowPeriod::BoundOrder { min: value, max: b.2 })
    } else if b.2 <= value {
        Err(InvalidMonsterFollowPeriod::PeakOutOfBounds { min: value, max: b.2, peak: b.1 })
    } else {
        Ok(())
    }
}

/// The result of setting the peak monster follow period of bounds `(min, peak, max)` to `value`.
pub open spec fn set_period_peak_result(b: (Coord, Coord, Coord), value: Coord) -> Result<(), InvalidMonsterFollowPeriod> {
    if b.2 < value || b.0 > value {
        Err(InvalidMonsterFollowPeriod::PeakOutOfBounds { min: value, max: b.2, peak: b.1 })
    } else {
        Ok(())
    }
}

/// The result of setting the greatest monster follow period of bounds `(min, peak, max)` to `value`.
pub open spec fn set_period_max_result(b: (Coord, Coord, Coord), value: Coord) -> Result<(), InvalidMonsterFollowPeriod> {
    if value < MIN_FOLLOW_PERIOD || value > MAX_FOLLOW_PERIOD {
        Err(InvalidMonsterFollowPeriod::Range(value))
    } else if b.1 > value {
        Err(InvalidMonsterFollowPeriod::BoundOrder { min: b.0, max: value })
    } else if b.0 >= value {
        Err(InvalidMonsterFollowPeriod::PeakOutOfBounds { min: b.0, max: value, peak: b.1 })
    } else {
        Ok(())
    }
}

/// Widens bounds to integers.
pub open spec fn limit_ints(b: (u32, u32, u32)) -> (int, int, int) {
    (b.0 as int, b.1 as int, b.2 as int)
}

/// Widens bounds to integers.
pub open spec fn period_ints(b: (Coord, Coord, Coord)) -> (int, int, int) {
    (b.0 as int, b.1 as int, b.2 as int)
}

impl DistrConfig {
    /// The bounds `(min, peak, max)` of the monster follow limit.
    pub closed spec fn limit_bounds(self) -> (u32, u32, u32) {
        (self.monster_follow_limit_min, self.monster_follow_limit_peak, self.monster_follow_limit_max)
    }

    /// The bounds `(min, peak, max)` of the monster follow period.
    pub closed spec fn period_bounds(self) -> (Coord, Coord, Coord) {
        (self.monster_follow_period_min, self.monster_follow_period_peak, self.monster_follow_period_max)
    }

    /// The well-formedness of the configuration: both sets of bounds are ordered.
    pub open spec fn wf(self) -> bool {
        &&& bounds_ordered(limit_ints(self.limit_bounds()), MIN_FOLLOW_LIMIT as int)
        &&& bounds_ordered(period_ints(self.period_bounds()), MIN_FOLLOW_PERIOD as int)
    }

    /// The default configuration: periods from 1500 to 2500 peaking at 2000,
    /// limits from 100 to 5000 peaking at 1000.
    pub fn new() -> (r: DistrConfig)
        ensures
            r.wf(),
            r.limit_bounds() == (100u32, 1000u32, 5000u32),
            r.period_bounds() == (1500u16, 2000u16, 2500u16),
    {
        DistrConfig {
            monster_follow_period_min: 1500,
            monster_follow_period_peak: 2000,
            monster_follow_period_max: 2500,
            monster_follow_limit_min: 100,
            monster_follow_limit_peak: 1000,
            monster_follow_limit_max: 5000,
        }
    }

    /// The least monster follow limit.
    pub fn monster_follow_limit_min(&self) -> (r: u32)
        ensures
            r == self.limit_bounds().0,
    {
        self.monster_follow_limit_min
    }

    /// Sets the least monster follow limit, if it stays in range, at most the
    /// peak and below the maximum.
    pub fn set_monster_follow_limit_min(&mut self, value: u32) -> (r: Result<(), InvalidMonsterFollowLimit>)
        ensures
            r == set_limit_min_result(old(self).limit_bounds(), value),
            r is Ok ==> final(self).limit_bounds() == (value, old(self).limit_bounds().1, old(self).limit_bounds().2)
                && final(self).period_bounds() == old(self).period_bounds(),
            r is Err ==> *final(self) == *old(self),
            old(self).wf() ==> final(self).wf(),
    {
        if value < MIN_FOLLOW_LIMIT || value > MAX_FOLLOW_LIMIT {
            return Err(InvalidMonsterFollowLimit::Range(value));
        }
        if self.monster_follow_limit_peak() < value {
            return Err(InvalidMonsterFollowLimit::BoundOrder { min: value, max: self.monster_follow_limit_max() });
        }
        if self.monster_follow_limit_max() <= value {
            return Err(
                InvalidMonsterFollowLimit::PeakOutOfBounds {
                    min: value,
                    max: self.monster_follow_limit_max(),
                    peak: self.monster_follow_limit_peak(),
                },
            );
        }
        self.monster_follow_limit_min = value;
        Ok(())
    }

    /// The configuration with the least monster follow limit set, or the error of setting it.
    pub fn with_monster_follow_limit_min(self, value: u32) -> (r: Result<DistrConfig, InvalidMonsterFollowLimit>)
        ensures
            match r {
                Ok(c) => set_limit_min_result(self.limit_bounds(), value) is Ok
                    && c.limit_bounds() == (value, self.limit_bounds().1, self.limit_bounds().2)
                    && c.period_bounds() == self.period_bounds(),
                Err(e) => set_limit_min_result(self.limit_bounds(), value) == Err::<(), InvalidMonsterFollowLimit>(e),
            },
    {
        let mut this = self;
        match this.set_monster_follow_limit_min(value) {
            Ok(()) => Ok(this),
            Err(e) => Err(e),
        }
    }

    /// The peak monster follow limit.
    pub fn monster_follow_limit_peak(&self) -> (r: u32)
        ensures
            r == self.limit_bounds().1,
    {
        self.monster_follow_limit_peak
    }

    /// Sets the peak monster follow limit, if it lies between the minimum and the maximum.
    pub fn set_monster_follow_limit_peak(&mut self, value: u32) -> (r: Result<(), InvalidMonsterFollowLimit>)
        ensures
            r == set_limit_peak_result(old(self).limit_bounds(), value),
            r is Ok ==> final(self).limit_bounds() == (old(self).limit_bounds().0, value, old(self).limit_bounds().2)
                && final(self).period_bounds() == old(self).period_bounds(),
            r is Err ==> *final(self) == *old(self),
            old(self).wf() ==> final(self).wf(),
    {
        if self.monster_follow_limit_max() < value || self.monster_follow_limit_min() > value {
            return Err(
                InvalidMonsterFollowLimit::PeakOutOfBounds {
                    min: value,
                    max: self.monster_follow_limit_max(),
                    peak: self.monster_follow_limit_peak(),
                },
            );
        }
        self.monster_follow_limit_peak = value;
        Ok(())
    }

    /// The configuration with the peak monster follow limit set, or the error of setting it.
    pub fn with_monster_follow_limit_peak(self, value: u32) -> (r: Result<DistrConfig, InvalidMonsterFollowLimit>)
        ensures
            match r {
                Ok(c) => set_limit_peak_result(self.limit_bounds(), value) is Ok
                    && c.limit_bounds() == (self.limit_bounds().0, value, self.limit_bounds().2)
                    && c.period_bounds() == self.period_bounds(),
                Err(e) => set_limit_peak_result(self.limit_bounds(), value) == Err::<(), InvalidMonsterFollowLimit>(e),
            },
    {
        let mut this = self;
        match this.set_monster_follow_limit_peak(value) {
            Ok(()) => Ok(this),
            Err(e) => Err(e),
        }
    }

    /// The greatest monster follow limit.
    pub fn monster_follow_limit_max(&self) -> (r: u32)
        ensures
            r == self.limit_bounds().2,
    {
        self.monster_follow_limit_max
    }

    /// Sets the greatest monster follow limit, if it stays in range, at least
    /// the peak and above the minimum.
    pub fn set_monster_follow_limit_max(&mut self, value: u32) -> (r: Result<(), InvalidMonsterFollowLimit>)
        ensures
            r == set_limit_max_result(old(self).limit_bounds(), value),
            r is Ok ==> final(self).limit_bounds() == (old(self).limit_bounds().0, old(self).limit_bounds().1, value)
                && final(self).period_bounds() == old(self).period_bounds(),
            r is Err ==> *final(self) == *old(self),
            old(self).wf() ==> final(self).wf(),
    {
        if value < MIN_FOLLOW_LIMIT || value > MAX_FOLLOW_LIMIT {
            return Err(InvalidMonsterFollowLimit::Range(value));
        }
        if self.monster_follow_limit_peak() > value {
            return Err(InvalidMonsterFollowLimit::BoundOrder { min: self.monster_follow_limit_min(), max: value });
        }
        if self.monster_follow_limit_min() >= value {
            return Err(
                InvalidMonsterFollowLimit::PeakOutOfBounds {
                    min: self.monster_follow_limit_min(),
                    max: value,
                    peak: self.monster_follow_limit_peak(),
                },
            );
        }
        self.monster_follow_limit_max = value;
        Ok(())
    }

    /// The configuration with the greatest monster follow limit set, or the error of setting it.
    pub fn with_monster_follow_limit_max(self, value: u32) -> (r: Result<DistrConfig, InvalidMonsterFollowLimit>)
        ensures
            match r {
                Ok(c) => set_limit_max_result(self.limit_bounds(), value) is Ok
                    && c.limit_bounds() == (self.limit_bounds().0, self.limit_bounds().1, value)
                    && c.period_bounds() == self.period_bounds(),
                Err(e) => set_limit_max_result(self.limit_bounds(), value) == Err::<(), InvalidMonsterFollowLimit>(e),
            },
    {
        let mut this = self;
        match this.set_monster_follow_limit_max(value) {
            Ok(()) => Ok(this),
            Err(e) => Err(e),
        }
    }

    /// The least monster follow period.
    pub fn monster_follow_period_min(&self) -> (r: Coord)
        ensures
            r == self.period_bounds().0,
    {
        self.monster_follow_period_min
    }

    /// Sets the least monster follow period, if it stays in range, at most the
    /// peak and below the maximum.
    pub fn set_monster_follow_period_min(&mut self, value: Coord) -> (r: Result<(), InvalidMonsterFollowPeriod>)
        ensures
            r == set_period_min_result(old(self).period_bounds(), value),
            r is Ok ==> final(self).period_bounds() == (value, old(self).period_bounds().1, old(self).period_bounds().2)
                && final(self).limit_bounds() == old(self).limit_bounds(),
            r is Err ==> *final(self) == *old(self),
            old(self).wf() ==> final(self).wf(),
    {
        if value < MIN_FOLLOW_PERIOD || value > MAX_FOLLOW_PERIOD {
            return Err(InvalidMonsterFollowPeriod::Range(value));
        }
        if self.monster_follow_period_peak() < value {
            return Err(InvalidMonsterFollowPeriod::BoundOrder { min: value, max: self.monster_follow_period_max() });
        }
        if self.monster_follow_period_max() <= value {
            return Err(
                InvalidMonsterFollowPeriod::PeakOutOfBounds {
                    min: value,
                    max: self.monster_follow_period_max(),
                    peak: self.monster_follow_period_peak(),
                },
            );
        }
        self.monster_follow_period_min = value;
        Ok(())
    }

    /// The configuration with the least monster follow period set, or the error of setting it.
    pub fn with_monster_follow_period_min(self, value: Coord) -> (r: Result<DistrConfig, InvalidMonsterFollowPeriod>)
        ensures
            match r {
                Ok(c) => set_period_min_result(self.period_bounds(), value) is Ok
                    && c.period_bounds() == (value, self.period_bounds().1, self.period_bounds().2)
                    && c.limit_bounds() == self.limit_bounds(),
                Err(e) => set_period_min_result(self.period_bounds(), value) == Err::<(), InvalidMonsterFollowPeriod>(e),
            },
    {
        let mut this = self;
        match this.set_monster_follow_period_min(value) {
            Ok(()) => Ok(this),
            Err(e) => Err(e),
        }
    }

    /// The peak monster follow period.
    pub fn monster_follow_period_peak(&self) -> (r: Coord)
        ensures
            r == self.period_bounds().1,
    {
        self.monster_follow_period_peak
    }

    /// Sets the peak monster follow period, if it lies between the minimum and the maximum.
    pub fn set_monster_follow_period_peak(&mut self, value: Coord) -> (r: Result<(), InvalidMonsterFollowPeriod>)
        ensures
            r == set_period_peak_result(old(self).period_bounds(), value),
            r is Ok ==> final(self).period_bounds() == (old(self).period_bounds().0, value, old(self).period_bounds().2)
                && final(self).limit_bounds() == old(self).limit_bounds(),
            r is Err ==> *final(self) == *old(self),
            old(self).wf() ==> final(self).wf(),
    {
        if self.monster_follow_period_max() < value || self.monster_follow_period_min() > value {
            return Err(
                InvalidMonsterFollowPeriod::PeakOutOfBounds {
                    min: value,
                    max: self.monster_follow_period_max(),
                    peak: self.monster_follow_period_peak(),
                },
            );
        }
        self.monster_follow_period_peak = value;
        Ok(())
    }

    /// The configuration with the peak monster follow period set, or the error of setting it.
    pub fn with_monster_follow_period_peak(self, value: Coord) -> (r: Result<DistrConfig, InvalidMonsterFollowPeriod>)
        ensures
            match r {
                Ok(c) => set_period_peak_result(self.period_bounds(), value) is Ok
                    && c.period_bounds() == (self.period_bounds().0, value, self.period_bounds().2)
                    && c.limit_bounds() == self.limit_bounds(),
                Err(e) => set_period_peak_result(self.period_bounds(), value) == Err::<(), InvalidMonsterFollowPeriod>(e),
            },
    {
        let mut this = self;
        match this.set_monster_follow_period_peak(value) {
            Ok(()) => Ok(this),
            Err(e) => Err(e),
        }
    }

    /// The greatest monster follow period.
    pub fn monster_follow_period_max(&self) -> (r: Coord)
        ensures
            r == self.period_bounds().2,
    {
        self.monster_follow_period_max
    }

    /// Sets the greatest monster follow period, if it stays in range, at least
    /// the peak and above the minimum.
    pub fn set_monster_follow_period_max(&mut self, value: Coord) -> (r: Result<(), InvalidMonsterFollowPeriod>)
        ensures
            r == set_period_max_result(old(self).period_bounds(), value),
            r is Ok ==> final(self).period_bounds() == (old(self).period_bounds().0, old(self).period_bounds().1, value)
                && final(self).limit_bounds() == old(self).limit_bounds(),
            r is Err ==> *final(self) == *old(self),
            old(self).wf() ==> final(self).wf(),
    {
        if value < MIN_FOLLOW_PERIOD || value > MAX_FOLLOW_PERIOD {
            return Err(InvalidMonsterFollowPeriod::Range(value));
        }
        if self.monster_follow_period_peak() > value {
            return Err(InvalidMonsterFollowPeriod::BoundOrder { min: self.monster_follow_period_min(), max: value });
        }
        if self.monster_follow_period_min() >= value {
            return Err(
                InvalidMonsterFollowPeriod::PeakOutOfBounds {
                    min: self.monster_follow_period_min(),
                    max: value,
                    peak: self.monster_follow_period_peak(),
                },
            );
        }
        self.monster_follow_period_max = value;
        Ok(())
    }

    /// The configuration with the greatest monster follow period set, or the error of setting it.
    pub fn with_monster_follow_period_max(self, value: Coord) -> (r: Result<DistrConfig, InvalidMonsterFollowPeriod>)
        ensures
            match r {
                Ok(c) => set_period_max_result(self.period_bounds(), value) is Ok
                    && c.period_bounds() == (self.period_bounds().0, self.period_bounds().1, value)
                    && c.limit_bounds() == self.limit_bounds(),
                Err(e) => set_period_max_result(self.period_bounds(), value) == Err::<(), InvalidMonsterFollowPeriod>(e),
            },
    {
        let mut this = self;
        match this.set_monster_follow_period_max(value) {
            Ok(()) => Ok(this),
            Err(e) => Err(e),
        }
    }
}

/// The weight of a kind of event equals the sum of the weights up to it minus
/// the sum of those before it.
proof fn lemma_cumulative_step(ws: Seq<u32>, i: int)
    requires
        0 <= i < ws.len(),
    ensures
        weight_sum(ws.take(i + 1)) == weight_sum(ws.take(i)) + ws[i],
{
    assert(ws.take(i + 1).drop_last() =~= ws.take(i));
}

/// In the distribution made for `x` monsters, each kind of event weighs what
/// [`monster_weight`] gives it.
proof fn lemma_monster_count_weight(d: EventTypeDistr, x: Coord, ty: EventType)
    requires
        d.cumulative().map_values(|c: u32| c as int) == cumulative_of(monster_weights(x)),
    ensures
        d.weight(ty) == monster_weight(x as int, ty),
        d.total() > 0,
{
    let ws = monster_weights(x);
    let i = event_type_index(ty);
    assert(d.cumulative().len() == 5);
    assert forall|k: int| 0 <= k < 5 implies #[trigger] ws[k] == monster_weight(x as int, event_type_at(k)) by {}
    assert(d.cumulative().map_values(|c: u32| c as int)[i] == cumulative_of(ws)[i]);
    assert(d.cumulative().map_values(|c: u32| c as int)[4] == cumulative_of(ws)[4]);
    lemma_cumulative_step(ws, i);
    if i > 0 {
        assert(d.cumulative().map_values(|c: u32| c as int)[i - 1] == cumulative_of(ws)[i - 1]);
    } else {
        assert(ws.take(0) =~= Seq::<u32>::empty());
    }
    lemma_cumulative_step(ws, 0);
    assert(ws.take(0) =~= Seq::<u32>::empty());
    assert(ws[0] == monster_weight(x as int, EventType::TrySpawnMonster));
    assert(ws[0] >= 1);
    lemma_weight_sum_monotone(ws, 1, 5);
}

/// A longer prefix of weights sums to at least as much.
proof fn lemma_weight_sum_monotone(ws: Seq<u32>, i: int, j: int)
    requires
        0 <= i <= j <= ws.len(),
    ensures
        weight_sum(ws.take(i)) <= weight_sum(ws.take(j)),
    decreases j - i,
{
    if i < j {
        lemma_cumulative_step(ws, j - 1);
        lemma_weight_sum_monotone(ws, i, j - 1);
    }
}

/// The distribution of the events that happen to a game: a kind of event
/// weighted by the number of monsters, then what the event is about.
#[derive(Debug, Clone)]
pub struct EventDistr<'a> {
    monsters: &'a monster::Registry,
    event_type_distr: EventTypeDistr,
    map_rect_uniform_distr: UniformRectDistr,
    monster_follow_limit_min: u32,
    monster_follow_limit_peak: u32,
    monster_follow_limit_max: u32,
    monster_follow_period_min: Coord,
    monster_follow_period_peak: Coord,
    monster_follow_period_max: Coord,
}

/// The weight that the facing direction of a monster gets against the three others
/// when it moves.
fn direction_weight(direction: Direction, facing: Direction) -> (r: u32)
    ensures
        r == if direction == facing { 5u32 } else { 1u32 },
{
    if direction == facing {
        5
    } else {
        1
    }
}

/// The weights of the four directions, in the order of [`Direction::all`], for
/// a monster facing `facing` when it moves: five for the facing, one for each
/// other; they sum to eight.
pub fn direction_weights(facing: Direction) -> (r: [u32; 4])
    ensures
        r@ == seq![Direction::Up, Direction::Left, Direction::Down, Direction::Right].map_values(
            |d: Direction| if d == facing { 5u32 } else { 1u32 },
        ),
        weight_sum(r@) == 8,
{
    let directions = Direction::all();
    let r: [u32; 4] = [
        direction_weight(directions[0], facing),
        direction_weight(directions[1], facing),
        direction_weight(directions[2], facing),
        direction_weight(directions[3], facing),
    ];
    proof {
        reveal_with_fuel(weight_sum, 5);
        assert(r@.drop_last().drop_last().drop_last().drop_last().len() == 0);
        assert(r@ =~= seq![Direction::Up, Direction::Left, Direction::Down, Direction::Right].map_values(
            |d: Direction| if d == facing { 5u32 } else { 1u32 },
        ));
    }
    r
}

impl<'a> EventDistr<'a> {
    /// The monsters that events are about.
    pub closed spec fn monsters_spec(self) -> monster::Registry {
        *self.monsters
    }

    /// The distribution of the kinds of event.
    pub closed spec fn type_distr_spec(self) -> EventTypeDistr {
        self.event_type_distr
    }

    /// The rectangle where monsters spawn.
    pub closed spec fn rect_spec(self) -> Rect {
        self.map_rect_uniform_distr.rect_spec()
    }

    /// The bounds `(min, peak, max)` of the monster follow limit.
    pub closed spec fn limit_bounds(self) -> (u32, u32, u32) {
        (self.monster_follow_limit_min, self.monster_follow_limit_peak, self.monster_follow_limit_max)
    }

    /// The bounds `(min, peak, max)` of the monster follow period.
    pub closed spec fn period_bounds(self) -> (Coord, Coord, Coord) {
        (self.monster_follow_period_min, self.monster_follow_period_peak, self.monster_follow_period_max)
    }

    /// The number of monsters as the distribution counts them: modulo the
    /// number of coordinates.
    pub open spec fn monster_count(self) -> Coord {
        (self.monsters_spec().spec_len() % 0x1_0000) as Coord
    }

    /// The well-formedness of the distribution: the registry is well formed and
    /// the kinds of event are weighted by the number of monsters.
    pub open spec fn wf(self) -> bool {
        &&& self.monsters_spec().wf()
        &&& self.type_distr_spec().wf()
        &&& self.type_distr_spec().cumulative().map_values(|c: u32| c as int) == cumulative_of(monster_weights(self.monster_count()))
    }

    /// Whether `event` is an event that the distribution may draw when the
    /// follow limit and period drawn are `limit` and `period`: a kind of positive
    /// weight, a spawn inside of the rectangle, and the other kinds about a
    /// monster of the registry.
    pub open spec fn admits(self, event: Event, limit: u32, period: Coord) -> bool {
        match event {
            Event::TrySpawnMonster(position) => {
                &&& self.type_distr_spec().weight(EventType::TrySpawnMonster) > 0
                &&& self.rect_spec().contains(position.body)
            },
            Event::VanishMonster(id) => {
                &&& self.type_distr_spec().weight(EventType::VanishMonster) > 0
                &&& self.monsters_spec().view().contains_key(id)
            },
            Event::TryMoveMonster(id, _) => {
                &&& self.type_distr_spec().weight(EventType::TryMoveMonster) > 0
                &&& self.monsters_spec().view().contains_key(id)
            },
            Event::MonsterAttack(id) => {
                &&& self.type_distr_spec().weight(EventType::MonsterAttack) > 0
                &&& self.monsters_spec().view().contains_key(id)
            },
            Event::FollowPlayer { id, period: p, limit: l } => {
                &&& self.type_distr_spec().weight(EventType::FollowPlayer) > 0
                &&& self.monsters_spec().view().contains_key(id)
                &&& p == period
                &&& l == limit
            },
            Event::MonsterGrowl(_) => false,
        }
    }

    /// The bounds `(min, peak, max)` of the triangular distribution of the monster follow limit.
    pub fn monster_follow_limit_bounds(&self) -> (r: (u32, u32, u32))
        ensures
            r == self.limit_bounds(),
    {
        (self.monster_follow_limit_min, self.monster_follow_limit_peak, self.monster_follow_limit_max)
    }

    /// The bounds `(min, peak, max)` of the triangular distribution of the monster follow period.
    pub fn monster_follow_period_bounds(&self) -> (r: (Coord, Coord, Coord))
        ensures
            r == self.period_bounds(),
    {
        (self.monster_follow_period_min, self.monster_follow_period_peak, self.monster_follow_period_max)
    }

    /// The event made of what was drawn: a spawn at `body` facing `facing`;
    /// else an event about the `monster_index`-th monster of the registry, and
    /// for a move, the `direction_index`-th of up, left, down and right.
    pub open spec fn event_of(
        self,
        ty: EventType,
        monster_index: int,
        body: CoordPair,
        facing: Direction,
        direction_index: int,
        follow_limit: u32,
        follow_period: Coord,
    ) -> Event {
        let id = self.monsters_spec().entries()[monster_index].0;
        match ty {
            EventType::TrySpawnMonster => Event::TrySpawnMonster(MonsterPosition { body, facing }),
            EventType::VanishMonster => Event::VanishMonster(id),
            EventType::TryMoveMonster => Event::TryMoveMonster(
                id,
                seq![Direction::Up, Direction::Left, Direction::Down, Direction::Right][direction_index],
            ),
            EventType::MonsterAttack => Event::MonsterAttack(id),
            EventType::FollowPlayer => Event::FollowPlayer { id, period: follow_period, limit: follow_limit },
        }
    }

    /// Whether the draws are ones that the distribution may make: a kind of
    /// positive weight, a spawn point inside of the rectangle, a monster of the
    /// registry for the other kinds, and one of the four directions.
    pub open spec fn draws_ok(self, ty: EventType, monster_index: int, body: CoordPair, direction_index: int) -> bool {
        &&& self.type_distr_spec().weight(ty) > 0
        &&& ty == EventType::TrySpawnMonster ==> self.rect_spec().contains(body)
        &&& ty != EventType::TrySpawnMonster ==> 0 <= monster_index < self.monsters_spec().spec_len()
        &&& 0 <= direction_index < 4
    }

    /// The event made of what was drawn; see [`EventDistr::event_of`].
    pub fn event_from_draws(
        &self,
        ty: EventType,
        monster_index: usize,
        body: CoordPair,
        facing: Direction,
        direction_index: usize,
        follow_limit: u32,
        follow_period: Coord,
    ) -> (r: Event)
        requires
            self.wf(),
            ty != EventType::TrySpawnMonster ==> monster_index < self.monsters_spec().spec_len(),
            direction_index < 4,
        ensures
            r == self.event_of(
                ty,
                monster_index as int,
                body,
                facing,
                direction_index as int,
                follow_limit,
                follow_period,
            ),
    {
        match ty {
            EventType::TrySpawnMonster => Event::TrySpawnMonster(MonsterPosition::new(body, facing)),
            _ => {
                let (id, _) = self.monsters.get_by_index(monster_index).unwrap();
                match ty {
                    EventType::VanishMonster => Event::VanishMonster(id),
                    EventType::TryMoveMonster => {
                        let directions = Direction::all();
                        Event::TryMoveMonster(id, directions[direction_index])
                    },
                    EventType::MonsterAttack => Event::MonsterAttack(id),
                    _ => Event::FollowPlayer { id, period: follow_period, limit: follow_limit },
                }
            },
        }
    }

    /// An event drawn with `rng`, where a monster follows the player `follow_limit`
    /// times every `follow_period` ticks when it is one of following: a kind
    /// by its weight; for a spawn, a point of the rectangle and a facing, each
    /// uniformly; else a monster of the registry uniformly, and for a move a
    /// direction weighted five for the monster's facing and one for each other.
    /// Which event comes depends on the generator; it is always one made of
    /// draws that the distribution may make, and one that it admits.
    pub fn sample(&self, rng: &mut PickedReproducibleRng, follow_limit: u32, follow_period: Coord) -> (r: Event)
        requires
            self.wf(),
        ensures
            self.admits(r, follow_limit, follow_period),
            exists|ty: EventType, i: int, body: CoordPair, facing: Direction, d: int|
                #![trigger self.event_of(ty, i, body, facing, d, follow_limit, follow_period)]
                self.draws_ok(ty, i, body, d) && r == self.event_of(ty, i, body, facing, d, follow_limit, follow_period),
    {
        proof {
            lemma_monster_count_weight(self.event_type_distr, self.monster_count(), EventType::TrySpawnMonster);
        }
        let ty = self.event_type_distr.sample(rng);
        proof {
            lemma_monster_count_weight(self.event_type_distr, self.monster_count(), ty);
            if ty != EventType::TrySpawnMonster {
                assert(self.monster_count() != 0);
            }
        }
        let mut body = CoordPair { y: 0, x: 0 };
        let mut facing = Direction::Up;
        let mut monster_index: usize = 0;
        let mut direction_index: usize = 0;
        match ty {
            EventType::TrySpawnMonster => {
                body = self.map_rect_uniform_distr.sample(rng);
                facing = random_direction(rng);
            },
            _ => {
                let len = self.monsters.len();
                monster_index = random_range_usize(rng, 0, len);
                match ty {
                    EventType::TryMoveMonster => {
                        let (_, monster) = self.monsters.get_by_index(monster_index).unwrap();
                        let curr_direction = monster.position().facing();
                        let weights = direction_weights(curr_direction);
                        direction_index = weighted_index(rng, &weights);
                    },
                    _ => {},
                }
            },
        }
        let r = self.event_from_draws(
            ty,
            monster_index,
            body,
            facing,
            direction_index,
            follow_limit,
            follow_period,
        );
        proof {
            assert(self.draws_ok(ty, monster_index as int, body, direction_index as int));
            if ty != EventType::TrySpawnMonster {
                let id = self.monsters_spec().entries()[monster_index as int].0;
                self.monsters_spec().lemma_entries_keys(monster_index as int);
                assert(self.monsters_spec().view().contains_key(id));
            }
        }
        r
    }
}

impl DistrConfig {
    /// The distribution of the events of `game`, with this configuration's
    /// bounds; it fails only when the map's rectangle admits no uniform
    /// distribution.
    pub fn finish<'a>(&self, game: &'a Game) -> (r: Result<EventDistr<'a>, DistrError>)
        requires
            game.wf(),
        ensures
            match r {
                Ok(d) => {
                    &&& uniform_rect_ok(game.map_spec().rect_spec())
                    &&& d.wf()
                    &&& d.monsters_spec() == game.registry_spec()
                    &&& d.rect_spec() == game.map_spec().rect_spec()
                    &&& d.limit_bounds() == self.limit_bounds()
                    &&& d.period_bounds() == self.period_bounds()
                },
                Err(e) => {
                    &&& !uniform_rect_ok(game.map_spec().rect_spec())
                    &&& e == DistrError::InvalidMapRect(rect_distr_error(game.map_spec().rect_spec()))
                },
            },
    {
        proof {
            game.lemma_wf();
        }
        let monsters = game.monster_registry();
        let monster_count = (monsters.len() % 0x1_0000) as Coord;
        let event_type_distr = EventTypeDistr::from_monster_count(monster_count);
        let map_rect_uniform_distr = match UniformRectDistr::new(game.map().rect()) {
            Ok(d) => d,
            Err(e) => return Err(DistrError::InvalidMapRect(e)),
        };
        Ok(EventDistr {
            monsters,
            event_type_distr,
            map_rect_uniform_distr,
            monster_follow_limit_min: self.monster_follow_limit_min,
            monster_follow_limit_peak: self.monster_follow_limit_peak,
            monster_follow_limit_max: self.monster_follow_limit_max,
            monster_follow_period_min: self.monster_follow_period_min,
            monster_follow_period_peak: self.monster_follow_period_peak,
            monster_follow_period_max: self.monster_follow_period_max,
        })
    }
}

} // verus!
