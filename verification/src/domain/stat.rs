//! A bounded statistic, such as hit points: a value that never exceeds a maximum.
use vstd::prelude::*;

verus! {

/// The numbers a statistic holds.
pub type StatValue = u32;

/// A value together with its maximum; the value never exceeds the maximum.
#[derive(Debug, Clone, Copy, PartialEq, Eq, PartialOrd, Ord, Hash, Default)]
pub struct Stat {
    value: StatValue,
    max: StatValue,
}

impl Stat {
    /// The statistic's invariant: the value does not exceed the maximum.
    #[verifier::type_invariant]
    spec fn bounded(self) -> bool {
        self.value <= self.max
    }

    /// The current value.
    pub closed spec fn value_spec(self) -> StatValue {
        self.value
    }

    /// The current maximum.
    pub closed spec fn max_spec(self) -> StatValue {
        self.max
    }

    /// A statistic with maximum `max` and value `value`, lowered to `max` if above it.
    pub fn new(value: StatValue, max: StatValue) -> (r: Stat)
        ensures
            r.max_spec() == max,
            r.value_spec() == if value > max {
                max
            } else {
                value
            },
    {
        if value > max {
            Stat { value: max, max }
        } else {
            Stat { value, max }
        }
    }

    /// The current value.
    pub fn value(&self) -> (r: StatValue)
        ensures
            r == self.value_spec(),
            r <= self.max_spec(),
    {
        proof {
            use_type_invariant(self);
        }
        self.value
    }

    /// Sets the value, lowered to the maximum if above it.
    pub fn set_value(&mut self, value: StatValue)
        ensures
            final(self).max_spec() == old(self).max_spec(),
            final(self).value_spec() == if value > old(self).max_spec() {
                old(self).max_spec()
            } else {
                value
            },
    {
        *self = Stat::new(value, self.max);
    }

    /// Raises the value by `amount`, up to the maximum.
    pub fn increase_value(&mut self, amount: StatValue)
        ensures
            final(self).max_spec() == old(self).max_spec(),
            final(self).value_spec() == if old(self).value_spec() + amount > old(self).max_spec() {
                old(self).max_spec() as int
            } else {
                old(self).value_spec() + amount
            },
    {
        proof {
            use_type_invariant(&*self);
        }
        let v = self.value.saturating_add(amount);
        self.set_value(v);
    }

    /// Lowers the value by `amount`, down to zero.
    pub fn decrease_value(&mut self, amount: StatValue)
        ensures
            final(self).max_spec() == old(self).max_spec(),
            final(self).value_spec() == if old(self).value_spec() < amount {
                0
            } else {
                old(self).value_spec() - amount
            },
    {
        proof {
            use_type_invariant(&*self);
        }
        let v = self.value.saturating_sub(amount);
        self.set_value(v);
    }

    /// The current maximum.
    pub fn curr_max(&self) -> (r: StatValue)
        ensures
            r == self.max_spec(),
    {
        self.max
    }

    /// Sets the maximum, lowering the value to it if above it.
    pub fn set_max(&mut self, max: StatValue)
        ensures
            final(self).max_spec() == max,
            final(self).value_spec() == if old(self).value_spec() > max {
                max
            } else {
                old(self).value_spec()
            },
    {
        *self = Stat::new(self.value, max);
    }

    /// Raises the maximum by `amount`, saturating.
    pub fn increase_max(&mut self, amount: StatValue)
        ensures
            final(self).max_spec() == if old(self).max_spec() + amount > StatValue::MAX {
                StatValue::MAX as int
            } else {
                old(self).max_spec() + amount
            },
            final(self).value_spec() == old(self).value_spec(),
    {
        proof {
            use_type_invariant(&*self);
        }
        let m = self.max.saturating_add(amount);
        self.set_max(m);
    }

    /// Lowers the maximum by `amount`, down to zero, lowering the value with it.
    pub fn decrease_max(&mut self, amount: StatValue)
        ensures
            final(self).max_spec() == if old(self).max_spec() < amount {
                0
            } else {
                old(self).max_spec() - amount
            },
            final(self).value_spec() == if old(self).value_spec() > final(self).max_spec() {
                final(self).max_spec()
            } else {
                old(self).value_spec()
            },
    {
        let m = self.max.saturating_sub(amount);
        self.set_max(m);
    }
}

} // verus!
