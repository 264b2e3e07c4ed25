//! Pairs of coordinates, one per axis.
use vstd::prelude::*;
use crate::geometry::coord::{Coord, UnsignedCoord, clamp, ceil_div};
use crate::geometry::axis::{Axis, Direction, moved_pair, saturated_pair, fits, pair_value};
use crate::geometry::rect::Rect;

verus! {

/// A pair of values, one for the `y` axis and one for the `x` axis.
///
/// Pairs order by `y` first, then `x` (row-major order).
#[derive(Debug, Clone, Copy, PartialEq, Eq, PartialOrd, Ord, Hash, Default)]
pub struct CoordPair<C> {
    pub y: C,
    pub x: C,
}

/// The pair of values behind a pair of references.
pub open spec fn deref_pair<C>(p: CoordPair<&C>) -> CoordPair<C> {
    CoordPair { y: *p.y, x: *p.x }
}

impl<C> CoordPair<C> {
    /// The component on `axis`.
    pub open spec fn on(self, axis: Axis) -> C {
        match axis {
            Axis::Y => self.y,
            Axis::X => self.x,
        }
    }

    /// Builds a pair by calling `generator` on each axis.
    pub fn from_axes<F>(generator: F) -> (r: Self)
        where
            F: Fn(Axis) -> C,
        requires
            call_requires(generator, (Axis::Y,)),
            call_requires(generator, (Axis::X,)),
        ensures
            call_ensures(generator, (Axis::Y,), r.y),
            call_ensures(generator, (Axis::X,), r.x),
    {
        CoordPair { y: generator(Axis::Y), x: generator(Axis::X) }
    }

    /// Builds a pair by calling `generator` on each axis, stopping at the first error.
    pub fn try_from_axes<F, E>(generator: F) -> (r: Result<Self, E>)
        where
            F: Fn(Axis) -> Result<C, E>,
        requires
            call_requires(generator, (Axis::Y,)),
            call_requires(generator, (Axis::X,)),
        ensures
            match r {
                Ok(p) => call_ensures(generator, (Axis::Y,), Ok(p.y)) && call_ensures(generator, (Axis::X,), Ok(p.x)),
                Err(e) => call_ensures(generator, (Axis::Y,), Err(e)) || call_ensures(generator, (Axis::X,), Err(e)),
            },
    {
        let y = match generator(Axis::Y) {
            Ok(y) => y,
            Err(e) => return Err(e),
        };
        let x = match generator(Axis::X) {
            Ok(x) => x,
            Err(e) => return Err(e),
        };
        Ok(CoordPair { y, x })
    }

    /// A pair of references to the components.
    pub fn as_ref(&self) -> (r: CoordPair<&C>)
        ensures
            deref_pair(r) == *self,
    {
        CoordPair { y: &self.y, x: &self.x }
    }

    /// A pair of mutable references to the components.
    pub fn as_mut(&mut self) -> (r: CoordPair<&mut C>)
        ensures
            *r.y == old(self).y,
            *r.x == old(self).x,
            final(self).y == *final(r.y),
            final(self).x == *final(r.x),
    {
        CoordPair { y: &mut self.y, x: &mut self.x }
    }

    /// The component on `axis`.
    pub fn get(&self, axis: Axis) -> (r: &C)
        ensures
            *r == self.on(axis),
    {
        match axis {
            Axis::Y => &self.y,
            Axis::X => &self.x,
        }
    }

    /// Applies `mapper` to each component.
    pub fn map<F, C0>(self, mapper: F) -> (r: CoordPair<C0>)
        where
            F: Fn(C) -> C0,
        requires
            call_requires(mapper, (self.y,)),
            call_requires(mapper, (self.x,)),
        ensures
            call_ensures(mapper, (self.y,), r.y),
            call_ensures(mapper, (self.x,), r.x),
    {
        CoordPair { y: mapper(self.y), x: mapper(self.x) }
    }

    /// Applies `mapper` to each component, stopping at the first error.
    pub fn try_map<F, C0, E>(self, mapper: F) -> (r: Result<CoordPair<C0>, E>)
        where
            F: Fn(C) -> Result<C0, E>,
        requires
            call_requires(mapper, (self.y,)),
            call_requires(mapper, (self.x,)),
        ensures
            match r {
                Ok(p) => call_ensures(mapper, (self.y,), Ok(p.y)) && call_ensures(mapper, (self.x,), Ok(p.x)),
                Err(e) => call_ensures(mapper, (self.y,), Err(e)) || call_ensures(mapper, (self.x,), Err(e)),
            },
    {
        let y = match mapper(self.y) {
            Ok(y) => y,
            Err(e) => return Err(e),
        };
        let x = match mapper(self.x) {
            Ok(x) => x,
            Err(e) => return Err(e),
        };
        Ok(CoordPair { y, x })
    }

    /// Applies `mapper` to each component together with its axis.
    pub fn map_with_axes<F, C0>(self, mapper: F) -> (r: CoordPair<C0>)
        where
            F: Fn(C, Axis) -> C0,
        requires
            call_requires(mapper, (self.y, Axis::Y)),
            call_requires(mapper, (self.x, Axis::X)),
        ensures
            call_ensures(mapper, (self.y, Axis::Y), r.y),
            call_ensures(mapper, (self.x, Axis::X), r.x),
    {
        CoordPair { y: mapper(self.y, Axis::Y), x: mapper(self.x, Axis::X) }
    }

    /// Applies `mapper` to each component with its axis, stopping at the first error.
    pub fn try_map_with_axes<F, C0, E>(self, mapper: F) -> (r: Result<CoordPair<C0>, E>)
        where
            F: Fn(C, Axis) -> Result<C0, E>,
        requires
            call_requires(mapper, (self.y, Axis::Y)),
            call_requires(mapper, (self.x, Axis::X)),
        ensures
            match r {
                Ok(p) => call_ensures(mapper, (self.y, Axis::Y), Ok(p.y))
                    && call_ensures(mapper, (self.x, Axis::X), Ok(p.x)),
                Err(e) => call_ensures(mapper, (self.y, Axis::Y), Err(e))
                    || call_ensures(mapper, (self.x, Axis::X), Err(e)),
            },
    {
        let y = match mapper(self.y, Axis::Y) {
            Ok(y) => y,
            Err(e) => return Err(e),
        };
        let x = match mapper(self.x, Axis::X) {
            Ok(x) => x,
            Err(e) => return Err(e),
        };
        Ok(CoordPair { y, x })
    }

    /// Pairs the components of `self` and `other` axis by axis.
    pub fn zip2<C0>(self, other: CoordPair<C0>) -> (r: CoordPair<(C, C0)>)
        ensures
            r.y == (self.y, other.y),
            r.x == (self.x, other.x),
    {
        CoordPair { y: (self.y, other.y), x: (self.x, other.x) }
    }

    /// Combines the components of `self` and `other` axis by axis.
    pub fn zip2_with<F, C0, C1>(self, other: CoordPair<C0>, zipper: F) -> (r: CoordPair<C1>)
        where
            F: Fn(C, C0) -> C1,
        requires
            call_requires(zipper, (self.y, other.y)),
            call_requires(zipper, (self.x, other.x)),
        ensures
            call_ensures(zipper, (self.y, other.y), r.y),
            call_ensures(zipper, (self.x, other.x), r.x),
    {
        CoordPair { y: zipper(self.y, other.y), x: zipper(self.x, other.x) }
    }

    /// Combines the components of `self` and `other` axis by axis, with the axis.
    pub fn zip2_with_axes<F, C0, C1>(self, other: CoordPair<C0>, zipper: F) -> (r: CoordPair<C1>)
        where
            F: Fn(C, C0, Axis) -> C1,
        requires
            call_requires(zipper, (self.y, other.y, Axis::Y)),
            call_requires(zipper, (self.x, other.x, Axis::X)),
        ensures
            call_ensures(zipper, (self.y, other.y, Axis::Y), r.y),
            call_ensures(zipper, (self.x, other.x, Axis::X), r.x),
    {
        CoordPair { y: zipper(self.y, other.y, Axis::Y), x: zipper(self.x, other.x, Axis::X) }
    }

    /// Combines the components axis by axis, stopping at the first error.
    pub fn try_zip2_with<F, C0, C1, E>(self, other: CoordPair<C0>, zipper: F) -> (r: Result<CoordPair<C1>, E>)
        where
            F: Fn(C, C0) -> Result<C1, E>,
        requires
            call_requires(zipper, (self.y, other.y)),
            call_requires(zipper, (self.x, other.x)),
        ensures
            match r {
                Ok(p) => call_ensures(zipper, (self.y, other.y), Ok(p.y))
                    && call_ensures(zipper, (self.x, other.x), Ok(p.x)),
                Err(e) => call_ensures(zipper, (self.y, other.y), Err(e))
                    || call_ensures(zipper, (self.x, other.x), Err(e)),
            },
    {
        let y = match zipper(self.y, other.y) {
            Ok(y) => y,
            Err(e) => return Err(e),
        };
        let x = match zipper(self.x, other.x) {
            Ok(x) => x,
            Err(e) => return Err(e),
        };
        Ok(CoordPair { y, x })
    }

    /// Combines the components axis by axis with the axis, stopping at the first error.
    pub fn try_zip2_with_axes<F, C0, C1, E>(self, other: CoordPair<C0>, zipper: F) -> (r: Result<
        CoordPair<C1>,
        E,
    >)
        where
            F: Fn(C, C0, Axis) -> Result<C1, E>,
        requires
            call_requires(zipper, (self.y, other.y, Axis::Y)),
            call_requires(zipper, (self.x, other.x, Axis::X)),
        ensures
            match r {
                Ok(p) => call_ensures(zipper, (self.y, other.y, Axis::Y), Ok(p.y))
                    && call_ensures(zipper, (self.x, other.x, Axis::X), Ok(p.x)),
                Err(e) => call_ensures(zipper, (self.y, other.y, Axis::Y), Err(e))
                    || call_ensures(zipper, (self.x, other.x, Axis::X), Err(e)),
            },
    {
        let y = match zipper(self.y, other.y, Axis::Y) {
            Ok(y) => y,
            Err(e) => return Err(e),
        };
        let x = match zipper(self.x, other.x, Axis::X) {
            Ok(x) => x,
            Err(e) => return Err(e),
        };
        Ok(CoordPair { y, x })
    }

    /// Groups the components of three pairs axis by axis.
    pub fn zip3<C0, C1>(self, other: CoordPair<C0>, another: CoordPair<C1>) -> (r: CoordPair<(C, C0, C1)>)
        ensures
            r.y == (self.y, other.y, another.y),
            r.x == (self.x, other.x, another.x),
    {
        CoordPair { y: (self.y, other.y, another.y), x: (self.x, other.x, another.x) }
    }

    /// Combines the components of three pairs axis by axis.
    pub fn zip3_with<F, C0, C1, C2>(self, other: CoordPair<C0>, another: CoordPair<C1>, zipper: F) -> (r:
        CoordPair<C2>)
        where
            F: Fn(C, C0, C1) -> C2,
        requires
            call_requires(zipper, (self.y, other.y, another.y)),
            call_requires(zipper, (self.x, other.x, another.x)),
        ensures
            call_ensures(zipper, (self.y, other.y, another.y), r.y),
            call_ensures(zipper, (self.x, other.x, another.x), r.x),
    {
        CoordPair { y: zipper(self.y, other.y, another.y), x: zipper(self.x, other.x, another.x) }
    }

    /// Combines the components of three pairs axis by axis, with the axis.
    pub fn zip3_with_axes<F, C0, C1, C2>(
        self,
        other: CoordPair<C0>,
        another: CoordPair<C1>,
        zipper: F,
    ) -> (r: CoordPair<C2>)
        where
            F: Fn(C, C0, C1, Axis) -> C2,
        requires
            call_requires(zipper, (self.y, other.y, another.y, Axis::Y)),
            call_requires(zipper, (self.x, other.x, another.x, Axis::X)),
        ensures
            call_ensures(zipper, (self.y, other.y, another.y, Axis::Y), r.y),
            call_ensures(zipper, (self.x, other.x, another.x, Axis::X), r.x),
    {
        CoordPair {
            y: zipper(self.y, other.y, another.y, Axis::Y),
            x: zipper(self.x, other.x, another.x, Axis::X),
        }
    }

    /// Combines three pairs axis by axis, stopping at the first error.
    pub fn try_zip3_with<F, C0, C1, C2, E>(
        self,
        other: CoordPair<C0>,
        another: CoordPair<C1>,
        zipper: F,
    ) -> (r: Result<CoordPair<C2>, E>)
        where
            F: Fn(C, C0, C1) -> Result<C2, E>,
        requires
            call_requires(zipper, (self.y, other.y, another.y)),
            call_requires(zipper, (self.x, other.x, another.x)),
        ensures
            match r {
                Ok(p) => call_ensures(zipper, (self.y, other.y, another.y), Ok(p.y))
                    && call_ensures(zipper, (self.x, other.x, another.x), Ok(p.x)),
                Err(e) => call_ensures(zipper, (self.y, other.y, another.y), Err(e))
                    || call_ensures(zipper, (self.x, other.x, another.x), Err(e)),
            },
    {
        let y = match zipper(self.y, other.y, another.y) {
            Ok(y) => y,
            Err(e) => return Err(e),
        };
        let x = match zipper(self.x, other.x, another.x) {
            Ok(x) => x,
            Err(e) => return Err(e),
        };
        Ok(CoordPair { y, x })
    }

    /// Combines three pairs axis by axis with the axis, stopping at the first error.
    pub fn try_zip3_with_axes<F, C0, C1, C2, E>(
        self,
        other: CoordPair<C0>,
        another: CoordPair<C1>,
        zipper: F,
    ) -> (r: Result<CoordPair<C2>, E>)
        where
            F: Fn(C, C0, C1, Axis) -> Result<C2, E>,
        requires
            call_requires(zipper, (self.y, other.y, another.y, Axis::Y)),
            call_requires(zipper, (self.x, other.x, another.x, Axis::X)),
        ensures
            match r {
                Ok(p) => call_ensures(zipper, (self.y, other.y, another.y, Axis::Y), Ok(p.y))
                    && call_ensures(zipper, (self.x, other.x, another.x, Axis::X), Ok(p.x)),
                Err(e) => call_ensures(zipper, (self.y, other.y, another.y, Axis::Y), Err(e))
                    || call_ensures(zipper, (self.x, other.x, another.x, Axis::X), Err(e)),
            },
    {
        let y = match zipper(self.y, other.y, another.y, Axis::Y) {
            Ok(y) => y,
            Err(e) => return Err(e),
        };
        let x = match zipper(self.x, other.x, another.x, Axis::X) {
            Ok(x) => x,
            Err(e) => return Err(e),
        };
        Ok(CoordPair { y, x })
    }

    /// Whether `predicate` holds on both components (`x` is not tested when `y` fails).
    pub fn all<F>(self, predicate: F) -> (r: bool)
        where
            F: Fn(C) -> bool,
        requires
            call_requires(predicate, (self.y,)),
            call_requires(predicate, (self.x,)),
        ensures
            r ==> call_ensures(predicate, (self.y,), true) && call_ensures(predicate, (self.x,), true),
            !r ==> call_ensures(predicate, (self.y,), false) || call_ensures(predicate, (self.x,), false),
    {
        predicate(self.y) && predicate(self.x)
    }

    /// Whether `predicate` holds on some component (`x` is not tested when `y` holds).
    pub fn any<F>(self, predicate: F) -> (r: bool)
        where
            F: Fn(C) -> bool,
        requires
            call_requires(predicate, (self.y,)),
            call_requires(predicate, (self.x,)),
        ensures
            r ==> call_ensures(predicate, (self.y,), true) || call_ensures(predicate, (self.x,), true),
            !r ==> call_ensures(predicate, (self.y,), false) && call_ensures(predicate, (self.x,), false),
    {
        predicate(self.y) || predicate(self.x)
    }

    /// The rectangle with this pair as size and `top_left` as corner.
    pub fn as_rect_size(self, top_left: Self) -> (r: Rect<C>)
        ensures
            r.top_left == top_left,
            r.size == self,
    {
        Rect { top_left, size: self }
    }

    /// The rectangle with this pair as corner and `size` as size.
    pub fn as_rect_top_left(self, size: Self) -> (r: Rect<C>)
        ensures
            r.top_left == self,
            r.size == size,
    {
        Rect { top_left: self, size }
    }
}

impl<'a, C> CoordPair<&'a C> {
    /// The pair of referenced values, in specifications.
    pub open spec fn copied_spec(self) -> CoordPair<C> {
        deref_pair(self)
    }

    /// A pair of clones of the referenced values.
    pub fn cloned(self) -> (r: CoordPair<C>)
        where
            C: Clone,
        ensures
            cloned(*self.y, r.y),
            cloned(*self.x, r.x),
    {
        CoordPair { y: self.y.clone(), x: self.x.clone() }
    }

    /// A pair of copies of the referenced values.
    pub fn copied(self) -> (r: CoordPair<C>)
        where
            C: Copy,
        ensures
            r == deref_pair(self),
    {
        CoordPair { y: *self.y, x: *self.x }
    }
}

impl<'a, C> CoordPair<&'a mut C> {
    /// A pair of clones of the referenced values.
    pub fn cloned(self) -> (r: CoordPair<C>)
        where
            C: Clone,
        ensures
            cloned(*old(self.y), r.y),
            cloned(*old(self.x), r.x),
    {
        CoordPair { y: self.y.clone(), x: self.x.clone() }
    }

    /// The pair of shared references to the same components.
    pub fn share(self) -> (r: CoordPair<&'a C>)
        ensures
            *r.y == *old(self.y),
            *r.x == *old(self.x),
            *final(self.y) == *old(self.y),
            *final(self.x) == *old(self.x),
    {
        CoordPair { y: &*self.y, x: &*self.x }
    }
}

impl<C> CoordPair<Option<C>> {
    /// `Some` pair when both components are `Some`, else `None`.
    pub fn transpose(self) -> (r: Option<CoordPair<C>>)
        ensures
            match r {
                Some(p) => self.y == Some(p.y) && self.x == Some(p.x),
                None => self.y is None || self.x is None,
            },
    {
        match (self.y, self.x) {
            (Some(y), Some(x)) => Some(CoordPair { y, x }),
            _ => None,
        }
    }

    /// The pair of options that `transpose` undoes.
    pub fn from_transposed(transposed: Option<CoordPair<C>>) -> (r: Self)
        ensures
            match transposed {
                Some(p) => r.y == Some(p.y) && r.x == Some(p.x),
                None => r.y is None && r.x is None,
            },
    {
        match transposed {
            Some(p) => CoordPair { y: Some(p.y), x: Some(p.x) },
            None => CoordPair { y: None, x: None },
        }
    }
}

impl<C> CoordPair<C> where C: Coord {
    /// The value of the pair.
    pub open spec fn val(self) -> (int, int) {
        (self.y.value(), self.x.value())
    }

    /// Whether the pairs hold equal coordinates.
    pub fn coords_eq(&self, other: &Self) -> (r: bool)
        ensures
            r == (self.val() == other.val()),
            r == (*self == *other),
    {
        proof {
            C::lemma_injective(self.y, other.y);
            C::lemma_injective(self.x, other.x);
        }
        self.y.is_eq(&other.y) && self.x.is_eq(&other.x)
    }

    /// Adds the pairs axis by axis, or `None` if a component overflows.
    pub fn checked_add(&self, other: &Self) -> (r: Option<Self>)
        ensures
            match r {
                Some(p) => p.y.value() == self.y.value() + other.y.value()
                    && p.x.value() == self.x.value() + other.x.value(),
                None => !fits::<C>((self.y.value() + other.y.value(), self.x.value() + other.x.value())),
            },
    {
        match (self.y.checked_plus(&other.y), self.x.checked_plus(&other.x)) {
            (Some(y), Some(x)) => Some(CoordPair { y, x }),
            _ => None,
        }
    }

    /// Subtracts the pairs axis by axis, or `None` if a component overflows.
    pub fn checked_sub(&self, other: &Self) -> (r: Option<Self>)
        ensures
            match r {
                Some(p) => p.y.value() == self.y.value() - other.y.value()
                    && p.x.value() == self.x.value() - other.x.value(),
                None => !fits::<C>((self.y.value() - other.y.value(), self.x.value() - other.x.value())),
            },
    {
        match (self.y.checked_minus(&other.y), self.x.checked_minus(&other.x)) {
            (Some(y), Some(x)) => Some(CoordPair { y, x }),
            _ => None,
        }
    }

    /// Multiplies the pairs axis by axis, or `None` if a component overflows.
    pub fn checked_mul(&self, other: &Self) -> (r: Option<Self>)
        ensures
            match r {
                Some(p) => p.y.value() == self.y.value() * other.y.value()
                    && p.x.value() == self.x.value() * other.x.value(),
                None => !fits::<C>((self.y.value() * other.y.value(), self.x.value() * other.x.value())),
            },
    {
        match (self.y.checked_times(&other.y), self.x.checked_times(&other.x)) {
            (Some(y), Some(x)) => Some(CoordPair { y, x }),
            _ => None,
        }
    }

    /// Adds `other` to both components, or `None` on overflow.
    pub fn checked_add_to(&self, other: &C) -> (r: Option<Self>)
        ensures
            match r {
                Some(p) => p.y.value() == self.y.value() + other.value()
                    && p.x.value() == self.x.value() + other.value(),
                None => !fits::<C>((self.y.value() + other.value(), self.x.value() + other.value())),
            },
    {
        self.checked_add(&CoordPair { y: *other, x: *other })
    }

    /// Subtracts `other` from both components, or `None` on overflow.
    pub fn checked_sub_except(&self, other: &C) -> (r: Option<Self>)
        ensures
            match r {
                Some(p) => p.y.value() == self.y.value() - other.value()
                    && p.x.value() == self.x.value() - other.value(),
                None => !fits::<C>((self.y.value() - other.value(), self.x.value() - other.value())),
            },
    {
        self.checked_sub(&CoordPair { y: *other, x: *other })
    }

    /// Subtracts both components from `other`, or `None` on overflow.
    pub fn checked_sub_from(&self, other: &C) -> (r: Option<Self>)
        ensures
            match r {
                Some(p) => p.y.value() == other.value() - self.y.value()
                    && p.x.value() == other.value() - self.x.value(),
                None => !fits::<C>((other.value() - self.y.value(), other.value() - self.x.value())),
            },
    {
        CoordPair { y: *other, x: *other }.checked_sub(self)
    }

    /// Multiplies both components by `other`, or `None` on overflow.
    pub fn checked_mul_scalar(&self, other: &C) -> (r: Option<Self>)
        ensures
            match r {
                Some(p) => p.y.value() == self.y.value() * other.value()
                    && p.x.value() == self.x.value() * other.value(),
                None => !fits::<C>((self.y.value() * other.value(), self.x.value() * other.value())),
            },
    {
        self.checked_mul(&CoordPair { y: *other, x: *other })
    }

    /// Adds the pairs axis by axis, saturating at the bounds.
    pub fn saturating_add(&self, other: &Self) -> (r: Self)
        ensures
            r.y.value() == clamp(self.y.value() + other.y.value(), C::min_value(), C::max_value()),
            r.x.value() == clamp(self.x.value() + other.x.value(), C::min_value(), C::max_value()),
    {
        CoordPair { y: self.y.saturating_plus(&other.y), x: self.x.saturating_plus(&other.x) }
    }

    /// Subtracts the pairs axis by axis, saturating at the bounds.
    pub fn saturating_sub(&self, other: &Self) -> (r: Self)
        ensures
            r.y.value() == clamp(self.y.value() - other.y.value(), C::min_value(), C::max_value()),
            r.x.value() == clamp(self.x.value() - other.x.value(), C::min_value(), C::max_value()),
    {
        CoordPair { y: self.y.saturating_minus(&other.y), x: self.x.saturating_minus(&other.x) }
    }

    /// Multiplies the pairs axis by axis, saturating at the bounds.
    pub fn saturating_mul(&self, other: &Self) -> (r: Self)
        ensures
            r.y.value() == clamp(self.y.value() * other.y.value(), C::min_value(), C::max_value()),
            r.x.value() == clamp(self.x.value() * other.x.value(), C::min_value(), C::max_value()),
    {
        CoordPair { y: self.y.saturating_times(&other.y), x: self.x.saturating_times(&other.x) }
    }

    /// Adds `other` to both components, saturating at the bounds.
    pub fn saturating_add_to(&self, other: &C) -> (r: Self)
        ensures
            r.y.value() == clamp(self.y.value() + other.value(), C::min_value(), C::max_value()),
            r.x.value() == clamp(self.x.value() + other.value(), C::min_value(), C::max_value()),
    {
        self.saturating_add(&CoordPair { y: *other, x: *other })
    }

    /// Subtracts `other` from both components, saturating at the bounds.
    pub fn saturating_sub_except(&self, other: &C) -> (r: Self)
        ensures
            r.y.value() == clamp(self.y.value() - other.value(), C::min_value(), C::max_value()),
            r.x.value() == clamp(self.x.value() - other.value(), C::min_value(), C::max_value()),
    {
        self.saturating_sub(&CoordPair { y: *other, x: *other })
    }

    /// Subtracts `other` from both components, saturating at the bounds, as
    /// `saturating_sub_except` does.
    pub fn saturating_sub_from(&self, other: &C) -> (r: Self)
        ensures
            r.y.value() == clamp(self.y.value() - other.value(), C::min_value(), C::max_value()),
            r.x.value() == clamp(self.x.value() - other.value(), C::min_value(), C::max_value()),
    {
        self.saturating_sub(&CoordPair { y: *other, x: *other })
    }

    /// Multiplies both components by `other`, saturating at the bounds.
    pub fn saturating_mul_scalar(&self, other: &C) -> (r: Self)
        ensures
            r.y.value() == clamp(self.y.value() * other.value(), C::min_value(), C::max_value()),
            r.x.value() == clamp(self.x.value() * other.value(), C::min_value(), C::max_value()),
    {
        self.saturating_mul(&CoordPair { y: *other, x: *other })
    }

    /// Adds the pairs axis by axis.
    pub fn plus(self, other: Self) -> (r: Self)
        requires
            fits::<C>((self.y.value() + other.y.value(), self.x.value() + other.x.value())),
        ensures
            r.y.value() == self.y.value() + other.y.value(),
            r.x.value() == self.x.value() + other.x.value(),
    {
        CoordPair { y: self.y.plus(other.y), x: self.x.plus(other.x) }
    }

    /// Subtracts the pairs axis by axis.
    pub fn minus(self, other: Self) -> (r: Self)
        requires
            fits::<C>((self.y.value() - other.y.value(), self.x.value() - other.x.value())),
        ensures
            r.y.value() == self.y.value() - other.y.value(),
            r.x.value() == self.x.value() - other.x.value(),
    {
        CoordPair { y: self.y.minus(other.y), x: self.x.minus(other.x) }
    }

    /// Moves this point one unit in `direction`.
    pub fn move_unit(self, direction: Direction) -> (r: Self)
        requires
            fits::<C>(moved_pair(direction, 1, self)),
        ensures
            pair_value(r) == moved_pair(direction, 1, self),
    {
        direction.move_unit(self)
    }

    /// Moves this point one unit in `direction`, or `None` on overflow.
    pub fn checked_move_unit(&self, direction: Direction) -> (r: Option<Self>)
        ensures
            match r {
                Some(p) => pair_value(p) == moved_pair(direction, 1, *self),
                None => !fits::<C>(moved_pair(direction, 1, *self)),
            },
    {
        direction.checked_move_unit(self)
    }

    /// Moves this point one unit in `direction`, saturating at the bounds.
    pub fn saturating_move_unit(&self, direction: Direction) -> (r: Self)
        ensures
            pair_value(r) == saturated_pair(direction, 1, *self),
    {
        direction.saturating_move_unit(self)
    }

    /// Moves this point by `magnitude` in `direction`.
    pub fn move_by(self, magnitude: C, direction: Direction) -> (r: Self)
        requires
            fits::<C>(moved_pair(direction, magnitude.value(), self)),
        ensures
            pair_value(r) == moved_pair(direction, magnitude.value(), self),
    {
        direction.move_by(magnitude, self)
    }

    /// Moves this point by `magnitude` in `direction`, or `None` on overflow.
    pub fn checked_move_by(&self, magnitude: &C, direction: Direction) -> (r: Option<Self>)
        ensures
            match r {
                Some(p) => pair_value(p) == moved_pair(direction, magnitude.value(), *self),
                None => !fits::<C>(moved_pair(direction, magnitude.value(), *self)),
            },
    {
        direction.checked_move_by(magnitude, self)
    }

    /// Moves this point by `magnitude` in `direction`, saturating at the bounds.
    pub fn saturating_move_by(&self, magnitude: &C, direction: Direction) -> (r: Self)
        ensures
            pair_value(r) == saturated_pair(direction, magnitude.value(), *self),
    {
        direction.saturating_move_by(magnitude, self)
    }
}

impl<C> CoordPair<C> where C: UnsignedCoord {
    /// Divides both components by `divisor`, rounding down.
    pub fn div_floor_by(&self, divisor: &C) -> (r: Self)
        requires
            divisor.value() != 0,
        ensures
            r.y.value() == self.y.value() / divisor.value(),
            r.x.value() == self.x.value() / divisor.value(),
    {
        CoordPair { y: self.y.quot_floor(divisor), x: self.x.quot_floor(divisor) }
    }

    /// Divides both components by `divisor`, rounding up.
    pub fn div_ceil_by(&self, divisor: &C) -> (r: Self)
        requires
            divisor.value() != 0,
        ensures
            r.y.value() == ceil_div(self.y.value(), divisor.value()),
            r.x.value() == ceil_div(self.x.value(), divisor.value()),
    {
        CoordPair { y: self.y.quot_ceil(divisor), x: self.x.quot_ceil(divisor) }
    }

    /// Divides `dividend` by each component, rounding down.
    pub fn div_floor_on(&self, dividend: &C) -> (r: Self)
        requires
            self.y.value() != 0,
            self.x.value() != 0,
        ensures
            r.y.value() == dividend.value() / self.y.value(),
            r.x.value() == dividend.value() / self.x.value(),
    {
        CoordPair { y: dividend.quot_floor(&self.y), x: dividend.quot_floor(&self.x) }
    }

    /// Divides `dividend` by each component, rounding up.
    pub fn div_ceil_on(&self, dividend: &C) -> (r: Self)
        requires
            self.y.value() != 0,
            self.x.value() != 0,
        ensures
            r.y.value() == ceil_div(dividend.value(), self.y.value()),
            r.x.value() == ceil_div(dividend.value(), self.x.value()),
    {
        CoordPair { y: dividend.quot_ceil(&self.y), x: dividend.quot_ceil(&self.x) }
    }

    /// Divides the pairs axis by axis, rounding down.
    pub fn div_floor(&self, other: &Self) -> (r: Self)
        requires
            other.y.value() != 0,
            other.x.value() != 0,
        ensures
            r.y.value() == self.y.value() / other.y.value(),
            r.x.value() == self.x.value() / other.x.value(),
    {
        CoordPair { y: self.y.quot_floor(&other.y), x: self.x.quot_floor(&other.x) }
    }

    /// Divides the pairs axis by axis, rounding up.
    pub fn div_ceil(&self, other: &Self) -> (r: Self)
        requires
            other.y.value() != 0,
            other.x.value() != 0,
        ensures
            r.y.value() == ceil_div(self.y.value(), other.y.value()),
            r.x.value() == ceil_div(self.x.value(), other.x.value()),
    {
        CoordPair { y: self.y.quot_ceil(&other.y), x: self.x.quot_ceil(&other.x) }
    }

    /// Divides the pairs axis by axis, or `None` if a divisor is zero.
    pub fn checked_div(&self, other: &Self) -> (r: Option<Self>)
        ensures
            match r {
                Some(p) => other.y.value() != 0 && other.x.value() != 0
                    && p.y.value() == self.y.value() / other.y.value()
                    && p.x.value() == self.x.value() / other.x.value(),
                None => other.y.value() == 0 || other.x.value() == 0,
            },
    {
        match (self.y.checked_quot(&other.y), self.x.checked_quot(&other.x)) {
            (Some(y), Some(x)) => Some(CoordPair { y, x }),
            _ => None,
        }
    }

    /// The remainders of the pairs axis by axis, or `None` if a divisor is zero.
    pub fn checked_rem(&self, other: &Self) -> (r: Option<Self>)
        ensures
            match r {
                Some(p) => other.y.value() != 0 && other.x.value() != 0
                    && p.y.value() == self.y.value() % other.y.value()
                    && p.x.value() == self.x.value() % other.x.value(),
                None => other.y.value() == 0 || other.x.value() == 0,
            },
    {
        match (self.y.checked_remainder(&other.y), self.x.checked_remainder(&other.x)) {
            (Some(y), Some(x)) => Some(CoordPair { y, x }),
            _ => None,
        }
    }

    /// Divides both components by `other`, or `None` if it is zero.
    pub fn checked_div_by(&self, other: &C) -> (r: Option<Self>)
        ensures
            match r {
                Some(p) => other.value() != 0 && p.y.value() == self.y.value() / other.value()
                    && p.x.value() == self.x.value() / other.value(),
                None => other.value() == 0,
            },
    {
        self.checked_div(&CoordPair { y: *other, x: *other })
    }

    /// Divides `other` by each component, or `None` if one is zero.
    pub fn checked_div_on(&self, other: &C) -> (r: Option<Self>)
        ensures
            match r {
                Some(p) => self.y.value() != 0 && self.x.value() != 0 && p.y.value() == other.value() / self.y.value()
                    && p.x.value() == other.value() / self.x.value(),
                None => self.y.value() == 0 || self.x.value() == 0,
            },
    {
        CoordPair { y: *other, x: *other }.checked_div(self)
    }

    /// The remainders of `other` by each component, or `None` if one is zero.
    pub fn checked_rem_on(&self, other: &C) -> (r: Option<Self>)
        ensures
            match r {
                Some(p) => self.y.value() != 0 && self.x.value() != 0 && p.y.value() == other.value() % self.y.value()
                    && p.x.value() == other.value() % self.x.value(),
                None => self.y.value() == 0 || self.x.value() == 0,
            },
    {
        CoordPair { y: *other, x: *other }.checked_rem(self)
    }

    /// The remainders of both components by `other`, or `None` if it is zero.
    pub fn checked_rem_by(&self, other: &C) -> (r: Option<Self>)
        ensures
            match r {
                Some(p) => other.value() != 0 && p.y.value() == self.y.value() % other.value()
                    && p.x.value() == self.x.value() % other.value(),
                None => other.value() == 0,
            },
    {
        self.checked_rem(&CoordPair { y: *other, x: *other })
    }
}

impl<'a, C> CoordPair<&'a C> where C: Coord {
    /// On the referenced values: adds the pairs axis by axis, or `None` if a component overflows.
    pub fn checked_add_by_ref(self, other: CoordPair<&'a C>) -> (r: Option<CoordPair<C>>)
        ensures
            match r {
                Some(p) => p.y.value() == deref_pair(self).y.value() + deref_pair(other).y.value()
                    && p.x.value() == deref_pair(self).x.value() + deref_pair(other).x.value(),
                None => !fits::<C>((deref_pair(self).y.value() + deref_pair(other).y.value(), deref_pair(self).x.value() + deref_pair(other).x.value())),
            },
    {
        self.copied().checked_add(&other.copied())
    }

    /// On the referenced values: adds `other` to both components, or `None` on overflow.
    pub fn checked_add_by_ref_to(self, other: &C) -> (r: Option<CoordPair<C>>)
        ensures
            match r {
                Some(p) => p.y.value() == deref_pair(self).y.value() + other.value()
                    && p.x.value() == deref_pair(self).x.value() + other.value(),
                None => !fits::<C>((deref_pair(self).y.value() + other.value(), deref_pair(self).x.value() + other.value())),
            },
    {
        self.copied().checked_add_to(other)
    }

    /// On the referenced values: subtracts the pairs axis by axis, or `None` if a component overflows.
    pub fn checked_sub_by_ref(self, other: CoordPair<&'a C>) -> (r: Option<CoordPair<C>>)
        ensures
            match r {
                Some(p) => p.y.value() == deref_pair(self).y.value() - deref_pair(other).y.value()
                    && p.x.value() == deref_pair(self).x.value() - deref_pair(other).x.value(),
                None => !fits::<C>((deref_pair(self).y.value() - deref_pair(other).y.value(), deref_pair(self).x.value() - deref_pair(other).x.value())),
            },
    {
        self.copied().checked_sub(&other.copied())
    }

    /// On the referenced values: subtracts `other` from both components, or `None` on overflow.
    pub fn checked_sub_by_ref_except(self, other: &C) -> (r: Option<CoordPair<C>>)
        ensures
            match r {
                Some(p) => p.y.value() == deref_pair(self).y.value() - other.value()
                    && p.x.value() == deref_pair(self).x.value() - other.value(),
                None => !fits::<C>((deref_pair(self).y.value() - other.value(), deref_pair(self).x.value() - other.value())),
            },
    {
        self.copied().checked_sub_except(other)
    }

    /// On the referenced values: subtracts both components from `other`, or `None` on overflow.
    pub fn checked_sub_by_ref_from(self, other: &C) -> (r: Option<CoordPair<C>>)
        ensures
            match r {
                Some(p) => p.y.value() == other.value() - deref_pair(self).y.value()
                    && p.x.value() == other.value() - deref_pair(self).x.value(),
                None => !fits::<C>((other.value() - deref_pair(self).y.value(), other.value() - deref_pair(self).x.value())),
            },
    {
        self.copied().checked_sub_from(other)
    }

    /// On the referenced values: multiplies the pairs axis by axis, or `None` if a component overflows.
    pub fn checked_mul_by_ref(self, other: CoordPair<&'a C>) -> (r: Option<CoordPair<C>>)
        ensures
            match r {
                Some(p) => p.y.value() == deref_pair(self).y.value() * deref_pair(other).y.value()
                    && p.x.value() == deref_pair(self).x.value() * deref_pair(other).x.value(),
                None => !fits::<C>((deref_pair(self).y.value() * deref_pair(other).y.value(), deref_pair(self).x.value() * deref_pair(other).x.value())),
            },
    {
        self.copied().checked_mul(&other.copied())
    }

    /// On the referenced values: multiplies both components by `other`, or `None` on overflow.
    pub fn checked_mul_by_ref_scalar(self, other: &C) -> (r: Option<CoordPair<C>>)
        ensures
            match r {
                Some(p) => p.y.value() == deref_pair(self).y.value() * other.value()
                    && p.x.value() == deref_pair(self).x.value() * other.value(),
                None => !fits::<C>((deref_pair(self).y.value() * other.value(), deref_pair(self).x.value() * other.value())),
            },
    {
        self.copied().checked_mul_scalar(other)
    }

    /// On the referenced values: adds the pairs axis by axis, saturating at the bounds.
    pub fn saturating_add_by_ref(self, other: CoordPair<&'a C>) -> (r: CoordPair<C>)
        ensures
            r.y.value() == clamp(deref_pair(self).y.value() + deref_pair(other).y.value(), C::min_value(), C::max_value()),
            r.x.value() == clamp(deref_pair(self).x.value() + deref_pair(other).x.value(), C::min_value(), C::max_value()),
    {
        self.copied().saturating_add(&other.copied())
    }

    /// On the referenced values: adds `other` to both components, saturating at the bounds.
    pub fn saturating_add_by_ref_to(self, other: &C) -> (r: CoordPair<C>)
        ensures
            r.y.value() == clamp(deref_pair(self).y.value() + other.value(), C::min_value(), C::max_value()),
            r.x.value() == clamp(deref_pair(self).x.value() + other.value(), C::min_value(), C::max_value()),
    {
        self.copied().saturating_add_to(other)
    }

    /// On the referenced values: subtracts the pairs axis by axis, saturating at the bounds.
    pub fn saturating_sub_by_ref(self, other: CoordPair<&'a C>) -> (r: CoordPair<C>)
        ensures
            r.y.value() == clamp(deref_pair(self).y.value() - deref_pair(other).y.value(), C::min_value(), C::max_value()),
            r.x.value() == clamp(deref_pair(self).x.value() - deref_pair(other).x.value(), C::min_value(), C::max_value()),
    {
        self.copied().saturating_sub(&other.copied())
    }

    /// On the referenced values: subtracts `other` from both components, saturating at the bounds.
    pub fn saturating_sub_by_ref_except(self, other: &C) -> (r: CoordPair<C>)
        ensures
            r.y.value() == clamp(deref_pair(self).y.value() - other.value(), C::min_value(), C::max_value()),
            r.x.value() == clamp(deref_pair(self).x.value() - other.value(), C::min_value(), C::max_value()),
    {
        self.copied().saturating_sub_except(other)
    }

    /// On the referenced values: subtracts `other` from both components, saturating at the bounds.
    pub fn saturating_sub_by_ref_from(self, other: &C) -> (r: CoordPair<C>)
        ensures
            r.y.value() == clamp(deref_pair(self).y.value() - other.value(), C::min_value(), C::max_value()),
            r.x.value() == clamp(deref_pair(self).x.value() - other.value(), C::min_value(), C::max_value()),
    {
        self.copied().saturating_sub_from(other)
    }

    /// On the referenced values: multiplies the pairs axis by axis, saturating at the bounds.
    pub fn saturating_mul_by_ref(self, other: CoordPair<&'a C>) -> (r: CoordPair<C>)
        ensures
            r.y.value() == clamp(deref_pair(self).y.value() * deref_pair(other).y.value(), C::min_value(), C::max_value()),
            r.x.value() == clamp(deref_pair(self).x.value() * deref_pair(other).x.value(), C::min_value(), C::max_value()),
    {
        self.copied().saturating_mul(&other.copied())
    }

    /// On the referenced values: multiplies both components by `other`, saturating at the bounds.
    pub fn saturating_mul_by_ref_scalar(self, other: &C) -> (r: CoordPair<C>)
        ensures
            r.y.value() == clamp(deref_pair(self).y.value() * other.value(), C::min_value(), C::max_value()),
            r.x.value() == clamp(deref_pair(self).x.value() * other.value(), C::min_value(), C::max_value()),
    {
        self.copied().saturating_mul_scalar(other)
    }

    /// On the referenced values: moves this point one unit in `direction`, saturating at the bounds.
    pub fn saturating_move_unit_by_ref(self, direction: Direction) -> (r: CoordPair<C>)
        ensures
            pair_value(r) == saturated_pair(direction, 1, deref_pair(self)),
    {
        self.copied().saturating_move_unit(direction)
    }

    /// On the referenced values: moves this point one unit in `direction`, or `None` on overflow.
    pub fn checked_move_unit_by_ref(self, direction: Direction) -> (r: Option<CoordPair<C>>)
        ensures
            match r {
                Some(p) => pair_value(p) == moved_pair(direction, 1, deref_pair(self)),
                None => !fits::<C>(moved_pair(direction, 1, deref_pair(self))),
            },
    {
        self.copied().checked_move_unit(direction)
    }

    /// On the referenced values: moves this point by `magnitude` in `direction`, or `None` on overflow.
    pub fn checked_move_by_ref_by(self, magnitude: &C, direction: Direction) -> (r: Option<CoordPair<C>>)
        ensures
            match r {
                Some(p) => pair_value(p) == moved_pair(direction, magnitude.value(), deref_pair(self)),
                None => !fits::<C>(moved_pair(direction, magnitude.value(), deref_pair(self))),
            },
    {
        self.copied().checked_move_by(magnitude, direction)
    }

    /// On the referenced values: moves this point by `magnitude` in `direction`, saturating at the bounds.
    pub fn saturating_move_by_ref_by(self, magnitude: &C, direction: Direction) -> (r: CoordPair<C>)
        ensures
            pair_value(r) == saturated_pair(direction, magnitude.value(), deref_pair(self)),
    {
        self.copied().saturating_move_by(magnitude, direction)
    }
}

impl<'a, C> CoordPair<&'a C> where C: UnsignedCoord {
    /// On the referenced values: divides the pairs axis by axis, or `None` if a divisor is zero.
    pub fn checked_div_by_ref(self, other: CoordPair<&'a C>) -> (r: Option<CoordPair<C>>)
        ensures
            match r {
                Some(p) => deref_pair(other).y.value() != 0 && deref_pair(other).x.value() != 0
                    && p.y.value() == deref_pair(self).y.value() / deref_pair(other).y.value()
                    && p.x.value() == deref_pair(self).x.value() / deref_pair(other).x.value(),
                None => deref_pair(other).y.value() == 0 || deref_pair(other).x.value() == 0,
            },
    {
        self.copied().checked_div(&other.copied())
    }

    /// On the referenced values: divides both components by `other`, or `None` if it is zero.
    pub fn checked_div_by_ref_by(self, other: &C) -> (r: Option<CoordPair<C>>)
        ensures
            match r {
                Some(p) => other.value() != 0 && p.y.value() == deref_pair(self).y.value() / other.value()
                    && p.x.value() == deref_pair(self).x.value() / other.value(),
                None => other.value() == 0,
            },
    {
        self.copied().checked_div_by(other)
    }

    /// On the referenced values: divides `other` by each component, or `None` if one is zero.
    pub fn checked_div_by_ref_on(self, other: &C) -> (r: Option<CoordPair<C>>)
        ensures
            match r {
                Some(p) => deref_pair(self).y.value() != 0 && deref_pair(self).x.value() != 0 && p.y.value() == other.value() / deref_pair(self).y.value()
                    && p.x.value() == other.value() / deref_pair(self).x.value(),
                None => deref_pair(self).y.value() == 0 || deref_pair(self).x.value() == 0,
            },
    {
        self.copied().checked_div_on(other)
    }

    /// On the referenced values: the remainders of the pairs axis by axis, or `None` if a divisor is zero.
    pub fn checked_rem_by_ref(self, other: CoordPair<&'a C>) -> (r: Option<CoordPair<C>>)
        ensures
            match r {
                Some(p) => deref_pair(other).y.value() != 0 && deref_pair(other).x.value() != 0
                    && p.y.value() == deref_pair(self).y.value() % deref_pair(other).y.value()
                    && p.x.value() == deref_pair(self).x.value() % deref_pair(other).x.value(),
                None => deref_pair(other).y.value() == 0 || deref_pair(other).x.value() == 0,
            },
    {
        self.copied().checked_rem(&other.copied())
    }

    /// On the referenced values: the remainders of both components by `other`, or `None` if it is zero.
    pub fn checked_rem_by_ref_by(self, other: &C) -> (r: Option<CoordPair<C>>)
        ensures
            match r {
                Some(p) => other.value() != 0 && p.y.value() == deref_pair(self).y.value() % other.value()
                    && p.x.value() == deref_pair(self).x.value() % other.value(),
                None => other.value() == 0,
            },
    {
        self.copied().checked_rem_by(other)
    }

    /// On the referenced values: the remainders of `other` by each component, or `None` if one is zero.
    pub fn checked_rem_by_ref_on(self, other: &C) -> (r: Option<CoordPair<C>>)
        ensures
            match r {
                Some(p) => deref_pair(self).y.value() != 0 && deref_pair(self).x.value() != 0 && p.y.value() == other.value() % deref_pair(self).y.value()
                    && p.x.value() == other.value() % deref_pair(self).x.value(),
                None => deref_pair(self).y.value() == 0 || deref_pair(self).x.value() == 0,
            },
    {
        self.copied().checked_rem_on(other)
    }

    /// On the referenced values: divides both components by `divisor`, rounding down.
    pub fn div_floor_by_ref_by(self, divisor: &C) -> (r: CoordPair<C>)
        requires
            divisor.value() != 0,
        ensures
            r.y.value() == deref_pair(self).y.value() / divisor.value(),
            r.x.value() == deref_pair(self).x.value() / divisor.value(),
    {
        self.copied().div_floor_by(divisor)
    }

    /// On the referenced values: divides both components by `divisor`, rounding up.
    pub fn div_ceil_by_ref_by(self, divisor: &C) -> (r: CoordPair<C>)
        requires
            divisor.value() != 0,
        ensures
            r.y.value() == ceil_div(deref_pair(self).y.value(), divisor.value()),
            r.x.value() == ceil_div(deref_pair(self).x.value(), divisor.value()),
    {
        self.copied().div_ceil_by(divisor)
    }

    /// On the referenced values: divides `dividend` by each component, rounding down.
    pub fn div_floor_by_ref_on(self, dividend: &C) -> (r: CoordPair<C>)
        requires
            deref_pair(self).y.value() != 0,
            deref_pair(self).x.value() != 0,
        ensures
            r.y.value() == dividend.value() / deref_pair(self).y.value(),
            r.x.value() == dividend.value() / deref_pair(self).x.value(),
    {
        self.copied().div_floor_on(dividend)
    }

    /// On the referenced values: divides `dividend` by each component, rounding up.
    pub fn div_ceil_by_ref_on(self, dividend: &C) -> (r: CoordPair<C>)
        requires
            deref_pair(self).y.value() != 0,
            deref_pair(self).x.value() != 0,
        ensures
            r.y.value() == ceil_div(dividend.value(), deref_pair(self).y.value()),
            r.x.value() == ceil_div(dividend.value(), deref_pair(self).x.value()),
    {
        self.copied().div_ceil_on(dividend)
    }

    /// On the referenced values: divides the pairs axis by axis, rounding down.
    pub fn div_floor_by_ref(self, other: CoordPair<&'a C>) -> (r: CoordPair<C>)
        requires
            deref_pair(other).y.value() != 0,
            deref_pair(other).x.value() != 0,
        ensures
            r.y.value() == deref_pair(self).y.value() / deref_pair(other).y.value(),
            r.x.value() == deref_pair(self).x.value() / deref_pair(other).x.value(),
    {
        self.copied().div_floor(&other.copied())
    }

    /// On the referenced values: divides the pairs axis by axis, rounding up.
    pub fn div_ceil_by_ref(self, other: CoordPair<&'a C>) -> (r: CoordPair<C>)
        requires
            deref_pair(other).y.value() != 0,
            deref_pair(other).x.value() != 0,
        ensures
            r.y.value() == ceil_div(deref_pair(self).y.value(), deref_pair(other).y.value()),
            r.x.value() == ceil_div(deref_pair(self).x.value(), deref_pair(other).x.value()),
    {
        self.copied().div_ceil(&other.copied())
    }
}

} // verus!
