//! Fractions of whole numbers, compared by their values.
use vstd::prelude::*;

verus! {

/// The product of two `u64`, exactly.
fn wide_mul(a: u64, b: u64) -> (r: u128)
    ensures
        r == a * b,
        r <= 0xFFFF_FFFF_FFFF_FFFEu128 * 0x1_0000_0000_0000_0000u128 + 1,
{
    assert(a * b <= 0xFFFF_FFFF_FFFF_FFFFu64 * 0xFFFF_FFFF_FFFF_FFFFu64) by (nonlinear_arith)
        requires
            a <= 0xFFFF_FFFF_FFFF_FFFFu64,
            b <= 0xFFFF_FFFF_FFFF_FFFFu64,
    ;
    assert(0xFFFF_FFFF_FFFF_FFFFu64 * 0xFFFF_FFFF_FFFF_FFFFu64 == 0xFFFF_FFFF_FFFF_FFFEu128 * 0x1_0000_0000_0000_0000u128 + 1)
        by (nonlinear_arith);
    (a as u128) * (b as u128)
}

/// A fraction `numer / denom` of whole numbers, its denominator positive.
/// Two fractions are equal when their values are.
#[derive(Debug, Clone, Copy)]
pub struct Ratio {
    numer: u64,
    denom: u64,
}

impl Ratio {
    /// The fraction's invariant: its denominator is positive.
    #[verifier::type_invariant]
    spec fn positive_denominator(self) -> bool {
        self.denom > 0
    }

    /// The numerator.
    pub closed spec fn numer_spec(self) -> int {
        self.numer as int
    }

    /// The denominator.
    pub closed spec fn denom_spec(self) -> int {
        self.denom as int
    }

    /// Whether the value of `self` is below that of `other`.
    pub open spec fn lt_spec(self, other: Ratio) -> bool {
        self.numer_spec() * other.denom_spec() < other.numer_spec() * self.denom_spec()
    }

    /// Whether the two values are equal.
    pub open spec fn same_value(self, other: Ratio) -> bool {
        self.numer_spec() * other.denom_spec() == other.numer_spec() * self.denom_spec()
    }

    /// The whole part of the value times `k`, rounded down.
    pub open spec fn floor_mul_spec(self, k: int) -> int {
        (self.numer_spec() * k) / self.denom_spec()
    }

    /// The whole part of the value times `k`, rounded up.
    pub open spec fn ceil_mul_spec(self, k: int) -> int {
        (self.numer_spec() * k + self.denom_spec() - 1) / self.denom_spec()
    }

    /// The fraction `numer / denom`; the denominator must not be zero.
    pub fn new(numer: u64, denom: u64) -> (r: Ratio)
        requires
            denom != 0,
        ensures
            r.numer_spec() == numer,
            r.denom_spec() == denom,
    {
        Ratio { numer, denom }
    }

    /// The fraction `0 / 1`.
    pub fn zero() -> (r: Ratio)
        ensures
            r.numer_spec() == 0,
            r.denom_spec() == 1,
    {
        Ratio { numer: 0, denom: 1 }
    }

    /// The fraction `1 / 1`.
    pub fn one() -> (r: Ratio)
        ensures
            r.numer_spec() == 1,
            r.denom_spec() == 1,
    {
        Ratio { numer: 1, denom: 1 }
    }

    /// The numerator.
    pub fn numer(&self) -> (r: u64)
        ensures
            r == self.numer_spec(),
    {
        self.numer
    }

    /// The denominator.
    pub fn denom(&self) -> (r: u64)
        ensures
            r == self.denom_spec(),
            r > 0,
    {
        proof {
            use_type_invariant(self);
        }
        self.denom
    }

    /// Whether the value of `self` is below that of `other`.
    pub fn lt(&self, other: &Ratio) -> (r: bool)
        ensures
            r == self.lt_spec(*other),
    {
        let a = wide_mul(self.numer, other.denom);
        let b = wide_mul(other.numer, self.denom);
        a < b
    }

    /// Whether the value of `self` is above that of `other`.
    pub fn gt(&self, other: &Ratio) -> (r: bool)
        ensures
            r == other.lt_spec(*self),
    {
        other.lt(self)
    }

    /// The whole part of the value times `k`, rounded down, if it is at most `cap`;
    /// else `cap`.
    pub fn floor_mul_capped(&self, k: u64, cap: u64) -> (r: u64)
        ensures
            r == if self.floor_mul_spec(k as int) < cap {
                self.floor_mul_spec(k as int)
            } else {
                cap as int
            },
    {
        proof {
            use_type_invariant(self);
        }
        let product = wide_mul(self.numer, k);
        let q = product / (self.denom as u128);
        if q < cap as u128 {
            q as u64
        } else {
            cap
        }
    }

    /// The whole part of the value times `k`, rounded up, if it is at most
    /// `cap`; else `cap`.
    pub fn ceil_mul_capped(&self, k: u64, cap: u64) -> (r: u64)
        ensures
            r == if self.ceil_mul_spec(k as int) < cap {
                self.ceil_mul_spec(k as int)
            } else {
                cap as int
            },
    {
        proof {
            use_type_invariant(self);
        }
        let product = wide_mul(self.numer, k);
        let q = (product + (self.denom as u128) - 1) / (self.denom as u128);
        if q < cap as u128 {
            q as u64
        } else {
            cap
        }
    }
}

impl PartialEq for Ratio {
    fn eq(&self, other: &Ratio) -> (r: bool) {
        let a = wide_mul(self.numer, other.denom);
        let b = wide_mul(other.numer, self.denom);
        a == b
    }
}

impl vstd::std_specs::cmp::PartialEqSpecImpl for Ratio {
    open spec fn obeys_eq_spec() -> bool {
        true
    }

    open spec fn eq_spec(&self, other: &Ratio) -> bool {
        self.same_value(*other)
    }
}

} // verus!
