//! Integer types usable as coordinates, with their arithmetic stated over `int`.
use vstd::prelude::*;

verus! {

/// An integer type usable as one coordinate of a point.
///
/// Every coordinate has a mathematical value; two coordinates are equal exactly
/// when their values are, and every operation is stated over those values.
pub trait Coord: Copy + Sized {
    /// The mathematical value of the coordinate.
    spec fn value(self) -> int;

    /// The least value of the type.
    spec fn min_value() -> int;

    /// The greatest value of the type.
    spec fn max_value() -> int;

    proof fn lemma_bounds(self)
        ensures
            Self::min_value() <= self.value() <= Self::max_value(),
            Self::min_value() <= 0,
            1 <= Self::max_value(),
    ;

    proof fn lemma_injective(a: Self, b: Self)
        ensures
            a.value() == b.value() ==> a == b,
    ;

    fn is_lt(&self, other: &Self) -> (r: bool)
        ensures
            r == (self.value() < other.value()),
    ;

    fn is_le(&self, other: &Self) -> (r: bool)
        ensures
            r == (self.value() <= other.value()),
    ;

    fn is_eq(&self, other: &Self) -> (r: bool)
        ensures
            r == (self.value() == other.value()),
            r == (*self == *other),
    ;

    fn zero() -> (r: Self)
        ensures
            r.value() == 0,
    ;

    fn one() -> (r: Self)
        ensures
            r.value() == 1,
    ;

    fn plus(self, other: Self) -> (r: Self)
        requires
            Self::min_value() <= self.value() + other.value() <= Self::max_value(),
        ensures
            r.value() == self.value() + other.value(),
    ;

    fn minus(self, other: Self) -> (r: Self)
        requires
            Self::min_value() <= self.value() - other.value() <= Self::max_value(),
        ensures
            r.value() == self.value() - other.value(),
    ;

    fn times(self, other: Self) -> (r: Self)
        requires
            Self::min_value() <= self.value() * other.value() <= Self::max_value(),
        ensures
            r.value() == self.value() * other.value(),
    ;

    fn checked_plus(&self, other: &Self) -> (r: Option<Self>)
        ensures
            match r {
                Some(v) => v.value() == self.value() + other.value(),
                None => !(Self::min_value() <= self.value() + other.value() <= Self::max_value()),
            },
    ;

    fn checked_minus(&self, other: &Self) -> (r: Option<Self>)
        ensures
            match r {
                Some(v) => v.value() == self.value() - other.value(),
                None => !(Self::min_value() <= self.value() - other.value() <= Self::max_value()),
            },
    ;

    fn checked_times(&self, other: &Self) -> (r: Option<Self>)
        ensures
            match r {
                Some(v) => v.value() == self.value() * other.value(),
                None => !(Self::min_value() <= self.value() * other.value() <= Self::max_value()),
            },
    ;

    fn saturating_plus(&self, other: &Self) -> (r: Self)
        ensures
            r.value() == clamp(self.value() + other.value(), Self::min_value(), Self::max_value()),
    ;

    fn saturating_minus(&self, other: &Self) -> (r: Self)
        ensures
            r.value() == clamp(self.value() - other.value(), Self::min_value(), Self::max_value()),
    ;

    fn saturating_times(&self, other: &Self) -> (r: Self)
        ensures
            r.value() == clamp(self.value() * other.value(), Self::min_value(), Self::max_value()),
    ;
}

/// A coordinate type without negative values, which also divides.
pub trait UnsignedCoord: Coord {
    proof fn lemma_unsigned(self)
        ensures
            Self::min_value() == 0,
            0 <= self.value(),
    ;

    fn checked_quot(&self, other: &Self) -> (r: Option<Self>)
        ensures
            match r {
                Some(v) => other.value() != 0 && v.value() == self.value() / other.value(),
                None => other.value() == 0,
            },
    ;

    fn checked_remainder(&self, other: &Self) -> (r: Option<Self>)
        ensures
            match r {
                Some(v) => other.value() != 0 && v.value() == self.value() % other.value(),
                None => other.value() == 0,
            },
    ;

    fn quot_floor(&self, divisor: &Self) -> (r: Self)
        requires
            divisor.value() != 0,
        ensures
            r.value() == self.value() / divisor.value(),
    ;

    fn quot_ceil(&self, divisor: &Self) -> (r: Self)
        requires
            divisor.value() != 0,
        ensures
            r.value() == ceil_div(self.value(), divisor.value()),
    ;
}

/// `x` clamped into `[lo, hi]`.
pub open spec fn clamp(x: int, lo: int, hi: int) -> int {
    if x < lo {
        lo
    } else if x > hi {
        hi
    } else {
        x
    }
}

/// Division rounded up, for a non-negative dividend and a positive divisor.
pub open spec fn ceil_div(a: int, b: int) -> int {
    if a % b == 0 {
        a / b
    } else {
        a / b + 1
    }
}

impl Coord for u8 {
    open spec fn value(self) -> int {
        self as int
    }

    open spec fn min_value() -> int {
        u8::MIN as int
    }

    open spec fn max_value() -> int {
        u8::MAX as int
    }

    proof fn lemma_bounds(self) {
    }

    proof fn lemma_injective(a: Self, b: Self) {
    }

    fn is_lt(&self, other: &Self) -> (r: bool) {
        *self < *other
    }

    fn is_le(&self, other: &Self) -> (r: bool) {
        *self <= *other
    }

    fn is_eq(&self, other: &Self) -> (r: bool) {
        *self == *other
    }

    fn zero() -> (r: Self) {
        0
    }

    fn one() -> (r: Self) {
        1
    }

    fn plus(self, other: Self) -> (r: Self) {
        self + other
    }

    fn minus(self, other: Self) -> (r: Self) {
        self - other
    }

    fn times(self, other: Self) -> (r: Self) {
        self * other
    }

    fn checked_plus(&self, other: &Self) -> (r: Option<Self>) {
        (*self).checked_add(*other)
    }

    fn checked_minus(&self, other: &Self) -> (r: Option<Self>) {
        (*self).checked_sub(*other)
    }

    fn checked_times(&self, other: &Self) -> (r: Option<Self>) {
        (*self).checked_mul(*other)
    }

    fn saturating_plus(&self, other: &Self) -> (r: Self) {
        match (*self).checked_add(*other) {
            Some(v) => v,
            None => {
                if *other > 0 {
                    u8::MAX
                } else {
                    u8::MIN
                }
            },
        }
    }

    fn saturating_minus(&self, other: &Self) -> (r: Self) {
        match (*self).checked_sub(*other) {
            Some(v) => v,
            None => {
                if *other > 0 {
                    u8::MIN
                } else {
                    u8::MAX
                }
            },
        }
    }

    fn saturating_times(&self, other: &Self) -> (r: Self) {
        match (*self).checked_mul(*other) {
            Some(v) => v,
            None => {
                u8::MAX
            },
        }
    }
}

impl Coord for u16 {
    open spec fn value(self) -> int {
        self as int
    }

    open spec fn min_value() -> int {
        u16::MIN as int
    }

    open spec fn max_value() -> int {
        u16::MAX as int
    }

    proof fn lemma_bounds(self) {
    }

    proof fn lemma_injective(a: Self, b: Self) {
    }

    fn is_lt(&self, other: &Self) -> (r: bool) {
        *self < *other
    }

    fn is_le(&self, other: &Self) -> (r: bool) {
        *self <= *other
    }

    fn is_eq(&self, other: &Self) -> (r: bool) {
        *self == *other
    }

    fn zero() -> (r: Self) {
        0
    }

    fn one() -> (r: Self) {
        1
    }

    fn plus(self, other: Self) -> (r: Self) {
        self + other
    }

    fn minus(self, other: Self) -> (r: Self) {
        self - other
    }

    fn times(self, other: Self) -> (r: Self) {
        self * other
    }

    fn checked_plus(&self, other: &Self) -> (r: Option<Self>) {
        (*self).checked_add(*other)
    }

    fn checked_minus(&self, other: &Self) -> (r: Option<Self>) {
        (*self).checked_sub(*other)
    }

    fn checked_times(&self, other: &Self) -> (r: Option<Self>) {
        (*self).checked_mul(*other)
    }

    fn saturating_plus(&self, other: &Self) -> (r: Self) {
        match (*self).checked_add(*other) {
            Some(v) => v,
            None => {
                if *other > 0 {
                    u16::MAX
                } else {
                    u16::MIN
                }
            },
        }
    }

    fn saturating_minus(&self, other: &Self) -> (r: Self) {
        match (*self).checked_sub(*other) {
            Some(v) => v,
            None => {
                if *other > 0 {
                    u16::MIN
                } else {
                    u16::MAX
                }
            },
        }
    }

    fn saturating_times(&self, other: &Self) -> (r: Self) {
        match (*self).checked_mul(*other) {
            Some(v) => v,
            None => {
                u16::MAX
            },
        }
    }
}

impl Coord for u32 {
    open spec fn value(self) -> int {
        self as int
    }

    open spec fn min_value() -> int {
        u32::MIN as int
    }

    open spec fn max_value() -> int {
        u32::MAX as int
    }

    proof fn lemma_bounds(self) {
    }

    proof fn lemma_injective(a: Self, b: Self) {
    }

    fn is_lt(&self, other: &Self) -> (r: bool) {
        *self < *other
    }

    fn is_le(&self, other: &Self) -> (r: bool) {
        *self <= *other
    }

    fn is_eq(&self, other: &Self) -> (r: bool) {
        *self == *other
    }

    fn zero() -> (r: Self) {
        0
    }

    fn one() -> (r: Self) {
        1
    }

    fn plus(self, other: Self) -> (r: Self) {
        self + other
    }

    fn minus(self, other: Self) -> (r: Self) {
        self - other
    }

    fn times(self, other: Self) -> (r: Self) {
        self * other
    }

    fn checked_plus(&self, other: &Self) -> (r: Option<Self>) {
        (*self).checked_add(*other)
    }

    fn checked_minus(&self, other: &Self) -> (r: Option<Self>) {
        (*self).checked_sub(*other)
    }

    fn checked_times(&self, other: &Self) -> (r: Option<Self>) {
        (*self).checked_mul(*other)
    }

    fn saturating_plus(&self, other: &Self) -> (r: Self) {
        match (*self).checked_add(*other) {
            Some(v) => v,
            None => {
                if *other > 0 {
                    u32::MAX
                } else {
                    u32::MIN
                }
            },
        }
    }

    fn saturating_minus(&self, other: &Self) -> (r: Self) {
        match (*self).checked_sub(*other) {
            Some(v) => v,
            None => {
                if *other > 0 {
                    u32::MIN
                } else {
                    u32::MAX
                }
            },
        }
    }

    fn saturating_times(&self, other: &Self) -> (r: Self) {
        match (*self).checked_mul(*other) {
            Some(v) => v,
            None => {
                u32::MAX
            },
        }
    }
}

impl Coord for u64 {
    open spec fn value(self) -> int {
        self as int
    }

    open spec fn min_value() -> int {
        u64::MIN as int
    }

    open spec fn max_value() -> int {
        u64::MAX as int
    }

    proof fn lemma_bounds(self) {
    }

    proof fn lemma_injective(a: Self, b: Self) {
    }

    fn is_lt(&self, other: &Self) -> (r: bool) {
        *self < *other
    }

    fn is_le(&self, other: &Self) -> (r: bool) {
        *self <= *other
    }

    fn is_eq(&self, other: &Self) -> (r: bool) {
        *self == *other
    }

    fn zero() -> (r: Self) {
        0
    }

    fn one() -> (r: Self) {
        1
    }

    fn plus(self, other: Self) -> (r: Self) {
        self + other
    }

    fn minus(self, other: Self) -> (r: Self) {
        self - other
    }

    fn times(self, other: Self) -> (r: Self) {
        self * other
    }

    fn checked_plus(&self, other: &Self) -> (r: Option<Self>) {
        (*self).checked_add(*other)
    }

    fn checked_minus(&self, other: &Self) -> (r: Option<Self>) {
        (*self).checked_sub(*other)
    }

    fn checked_times(&self, other: &Self) -> (r: Option<Self>) {
        (*self).checked_mul(*other)
    }

    fn saturating_plus(&self, other: &Self) -> (r: Self) {
        match (*self).checked_add(*other) {
            Some(v) => v,
            None => {
                if *other > 0 {
                    u64::MAX
                } else {
                    u64::MIN
                }
            },
        }
    }

    fn saturating_minus(&self, other: &Self) -> (r: Self) {
        match (*self).checked_sub(*other) {
            Some(v) => v,
            None => {
                if *other > 0 {
                    u64::MIN
                } else {
                    u64::MAX
                }
            },
        }
    }

    fn saturating_times(&self, other: &Self) -> (r: Self) {
        match (*self).checked_mul(*other) {
            Some(v) => v,
            None => {
                u64::MAX
            },
        }
    }
}

impl Coord for usize {
    open spec fn value(self) -> int {
        self as int
    }

    open spec fn min_value() -> int {
        usize::MIN as int
    }

    open spec fn max_value() -> int {
        usize::MAX as int
    }

    proof fn lemma_bounds(self) {
    }

    proof fn lemma_injective(a: Self, b: Self) {
    }

    fn is_lt(&self, other: &Self) -> (r: bool) {
        *self < *other
    }

    fn is_le(&self, other: &Self) -> (r: bool) {
        *self <= *other
    }

    fn is_eq(&self, other: &Self) -> (r: bool) {
        *self == *other
    }

    fn zero() -> (r: Self) {
        0
    }

    fn one() -> (r: Self) {
        1
    }

    fn plus(self, other: Self) -> (r: Self) {
        self + other
    }

    fn minus(self, other: Self) -> (r: Self) {
        self - other
    }

    fn times(self, other: Self) -> (r: Self) {
        self * other
    }

    fn checked_plus(&self, other: &Self) -> (r: Option<Self>) {
        (*self).checked_add(*other)
    }

    fn checked_minus(&self, other: &Self) -> (r: Option<Self>) {
        (*self).checked_sub(*other)
    }

    fn checked_times(&self, other: &Self) -> (r: Option<Self>) {
        (*self).checked_mul(*other)
    }

    fn saturating_plus(&self, other: &Self) -> (r: Self) {
        match (*self).checked_add(*other) {
            Some(v) => v,
            None => {
                if *other > 0 {
                    usize::MAX
                } else {
                    usize::MIN
                }
            },
        }
    }

    fn saturating_minus(&self, other: &Self) -> (r: Self) {
        match (*self).checked_sub(*other) {
            Some(v) => v,
            None => {
                if *other > 0 {
                    usize::MIN
                } else {
                    usize::MAX
                }
            },
        }
    }

    fn saturating_times(&self, other: &Self) -> (r: Self) {
        match (*self).checked_mul(*other) {
            Some(v) => v,
            None => {
                usize::MAX
            },
        }
    }
}

impl Coord for i32 {
    open spec fn value(self) -> int {
        self as int
    }

    open spec fn min_value() -> int {
        i32::MIN as int
    }

    open spec fn max_value() -> int {
        i32::MAX as int
    }

    proof fn lemma_bounds(self) {
    }

    proof fn lemma_injective(a: Self, b: Self) {
    }

    fn is_lt(&self, other: &Self) -> (r: bool) {
        *self < *other
    }

    fn is_le(&self, other: &Self) -> (r: bool) {
        *self <= *other
    }

    fn is_eq(&self, other: &Self) -> (r: bool) {
        *self == *other
    }

    fn zero() -> (r: Self) {
        0
    }

    fn one() -> (r: Self) {
        1
    }

    fn plus(self, other: Self) -> (r: Self) {
        self + other
    }

    fn minus(self, other: Self) -> (r: Self) {
        self - other
    }

    fn times(self, other: Self) -> (r: Self) {
        self * other
    }

    fn checked_plus(&self, other: &Self) -> (r: Option<Self>) {
        (*self).checked_add(*other)
    }

    fn checked_minus(&self, other: &Self) -> (r: Option<Self>) {
        (*self).checked_sub(*other)
    }

    fn checked_times(&self, other: &Self) -> (r: Option<Self>) {
        (*self).checked_mul(*other)
    }

    fn saturating_plus(&self, other: &Self) -> (r: Self) {
        match (*self).checked_add(*other) {
            Some(v) => v,
            None => {
                if *other > 0 {
                    i32::MAX
                } else {
                    i32::MIN
                }
            },
        }
    }

    fn saturating_minus(&self, other: &Self) -> (r: Self) {
        match (*self).checked_sub(*other) {
            Some(v) => v,
            None => {
                if *other > 0 {
                    i32::MIN
                } else {
                    i32::MAX
                }
            },
        }
    }

    fn saturating_times(&self, other: &Self) -> (r: Self) {
        match (*self).checked_mul(*other) {
            Some(v) => v,
            None => {
                if (*self > 0) == (*other > 0) {
                    proof {
                        lemma_same_sign_product(*self as int, *other as int);
                    }
                    i32::MAX
                } else {
                    proof {
                        lemma_diff_sign_product(*self as int, *other as int);
                    }
                    i32::MIN
                }
            },
        }
    }
}

impl Coord for i64 {
    open spec fn value(self) -> int {
        self as int
    }

    open spec fn min_value() -> int {
        i64::MIN as int
    }

    open spec fn max_value() -> int {
        i64::MAX as int
    }

    proof fn lemma_bounds(self) {
    }

    proof fn lemma_injective(a: Self, b: Self) {
    }

    fn is_lt(&self, other: &Self) -> (r: bool) {
        *self < *other
    }

    fn is_le(&self, other: &Self) -> (r: bool) {
        *self <= *other
    }

    fn is_eq(&self, other: &Self) -> (r: bool) {
        *self == *other
    }

    fn zero() -> (r: Self) {
        0
    }

    fn one() -> (r: Self) {
        1
    }

    fn plus(self, other: Self) -> (r: Self) {
        self + other
    }

    fn minus(self, other: Self) -> (r: Self) {
        self - other
    }

    fn times(self, other: Self) -> (r: Self) {
        self * other
    }

    fn checked_plus(&self, other: &Self) -> (r: Option<Self>) {
        (*self).checked_add(*other)
    }

    fn checked_minus(&self, other: &Self) -> (r: Option<Self>) {
        (*self).checked_sub(*other)
    }

    fn checked_times(&self, other: &Self) -> (r: Option<Self>) {
        (*self).checked_mul(*other)
    }

    fn saturating_plus(&self, other: &Self) -> (r: Self) {
        match (*self).checked_add(*other) {
            Some(v) => v,
            None => {
                if *other > 0 {
                    i64::MAX
                } else {
                    i64::MIN
                }
            },
        }
    }

    fn saturating_minus(&self, other: &Self) -> (r: Self) {
        match (*self).checked_sub(*other) {
            Some(v) => v,
            None => {
                if *other > 0 {
                    i64::MIN
                } else {
                    i64::MAX
                }
            },
        }
    }

    fn saturating_times(&self, other: &Self) -> (r: Self) {
        match (*self).checked_mul(*other) {
            Some(v) => v,
            None => {
                if (*self > 0) == (*other > 0) {
                    proof {
                        lemma_same_sign_product(*self as int, *other as int);
                    }
                    i64::MAX
                } else {
                    proof {
                        lemma_diff_sign_product(*self as int, *other as int);
                    }
                    i64::MIN
                }
            },
        }
    }
}

impl UnsignedCoord for u8 {
    proof fn lemma_unsigned(self) {
    }

    fn checked_quot(&self, other: &Self) -> (r: Option<Self>) {
        if *other == 0 {
            None
        } else {
            Some(*self / *other)
        }
    }

    fn checked_remainder(&self, other: &Self) -> (r: Option<Self>) {
        if *other == 0 {
            None
        } else {
            Some(*self % *other)
        }
    }

    fn quot_floor(&self, divisor: &Self) -> (r: Self) {
        *self / *divisor
    }

    fn quot_ceil(&self, divisor: &Self) -> (r: Self) {
        let q = *self / *divisor;
        if *self % *divisor == 0 {
            q
        } else {
            proof {
                lemma_quot_lt(*self as int, *divisor as int);
            }
            q + 1
        }
    }
}

impl UnsignedCoord for u16 {
    proof fn lemma_unsigned(self) {
    }

    fn checked_quot(&self, other: &Self) -> (r: Option<Self>) {
        if *other == 0 {
            None
        } else {
            Some(*self / *other)
        }
    }

    fn checked_remainder(&self, other: &Self) -> (r: Option<Self>) {
        if *other == 0 {
            None
        } else {
            Some(*self % *other)
        }
    }

    fn quot_floor(&self, divisor: &Self) -> (r: Self) {
        *self / *divisor
    }

    fn quot_ceil(&self, divisor: &Self) -> (r: Self) {
        let q = *self / *divisor;
        if *self % *divisor == 0 {
            q
        } else {
            proof {
                lemma_quot_lt(*self as int, *divisor as int);
            }
            q + 1
        }
    }
}

impl UnsignedCoord for u32 {
    proof fn lemma_unsigned(self) {
    }

    fn checked_quot(&self, other: &Self) -> (r: Option<Self>) {
        if *other == 0 {
            None
        } else {
            Some(*self / *other)
        }
    }

    fn checked_remainder(&self, other: &Self) -> (r: Option<Self>) {
        if *other == 0 {
            None
        } else {
            Some(*self % *other)
        }
    }

    fn quot_floor(&self, divisor: &Self) -> (r: Self) {
        *self / *divisor
    }

    fn quot_ceil(&self, divisor: &Self) -> (r: Self) {
        let q = *self / *divisor;
        if *self % *divisor == 0 {
            q
        } else {
            proof {
                lemma_quot_lt(*self as int, *divisor as int);
            }
            q + 1
        }
    }
}

impl UnsignedCoord for u64 {
    proof fn lemma_unsigned(self) {
    }

    fn checked_quot(&self, other: &Self) -> (r: Option<Self>) {
        if *other == 0 {
            None
        } else {
            Some(*self / *other)
        }
    }

    fn checked_remainder(&self, other: &Self) -> (r: Option<Self>) {
        if *other == 0 {
            None
        } else {
            Some(*self % *other)
        }
    }

    fn quot_floor(&self, divisor: &Self) -> (r: Self) {
        *self / *divisor
    }

    fn quot_ceil(&self, divisor: &Self) -> (r: Self) {
        let q = *self / *divisor;
        if *self % *divisor == 0 {
            q
        } else {
            proof {
                lemma_quot_lt(*self as int, *divisor as int);
            }
            q + 1
        }
    }
}

impl UnsignedCoord for usize {
    proof fn lemma_unsigned(self) {
    }

    fn checked_quot(&self, other: &Self) -> (r: Option<Self>) {
        if *other == 0 {
            None
        } else {
            Some(*self / *other)
        }
    }

    fn checked_remainder(&self, other: &Self) -> (r: Option<Self>) {
        if *other == 0 {
            None
        } else {
            Some(*self % *other)
        }
    }

    fn quot_floor(&self, divisor: &Self) -> (r: Self) {
        *self / *divisor
    }

    fn quot_ceil(&self, divisor: &Self) -> (r: Self) {
        let q = *self / *divisor;
        if *self % *divisor == 0 {
            q
        } else {
            proof {
                lemma_quot_lt(*self as int, *divisor as int);
            }
            q + 1
        }
    }
}

proof fn lemma_same_sign_product(a: int, b: int)
    requires
        (a > 0) == (b > 0),
    ensures
        a * b >= 0,
{
    if a > 0 {
        vstd::arithmetic::mul::lemma_mul_nonnegative(a, b);
    } else {
        vstd::arithmetic::mul::lemma_mul_nonnegative(-a, -b);
        assert((-a) * (-b) == a * b) by (nonlinear_arith);
    }
}

proof fn lemma_diff_sign_product(a: int, b: int)
    requires
        (a > 0) != (b > 0),
    ensures
        a * b <= 0,
{
    if a > 0 {
        vstd::arithmetic::mul::lemma_mul_nonnegative(a, -b);
        assert(a * (-b) == -(a * b)) by (nonlinear_arith);
    } else {
        vstd::arithmetic::mul::lemma_mul_nonnegative(-a, b);
        assert((-a) * b == -(a * b)) by (nonlinear_arith);
    }
}

proof fn lemma_quot_lt(a: int, b: int)
    requires
        0 <= a,
        0 < b,
        a % b != 0,
    ensures
        a / b < a,
        a / b + 1 <= a,
{
    if b == 1 {
        vstd::arithmetic::div_mod::lemma_mod_self_0(1);
        assert(a % 1 == 0) by {
            vstd::arithmetic::div_mod::lemma_small_mod(0, 1);
            vstd::arithmetic::div_mod::lemma_fundamental_div_mod(a, 1);
        }
    }
    if a == 0 {
        assert(0int % b == 0) by {
            vstd::arithmetic::div_mod::lemma_small_mod(0, b as nat);
        }
    }
    vstd::arithmetic::div_mod::lemma_div_decreases(a, b);
}

} // verus!
