//! Axis-aligned rectangles.
use vstd::prelude::*;
use crate::geometry::coord::{Coord, UnsignedCoord};
use crate::geometry::coords::{CoordPair, deref_pair};
use crate::geometry::axis::{Direction, moved_pair, fits, pair_value};

verus! {

/// A rectangle given by its top-left corner and its size.
#[derive(Debug, Clone, Copy, PartialEq, Eq, PartialOrd, Ord, Hash, Default)]
pub struct Rect<C> {
    pub top_left: CoordPair<C>,
    pub size: CoordPair<C>,
}

/// A point that lies outside of a rectangle.
#[derive(Debug, Clone, Copy, PartialEq, Eq)]
pub struct InvalidPoint<C> {
    pub point: CoordPair<C>,
    pub rect: Rect<C>,
}

/// A point that lies outside of a rectangle.
pub type InvalidRectPoint<C> = InvalidPoint<C>;

/// An area that does not partition a rectangle.
#[derive(Debug, Clone, Copy, PartialEq, Eq)]
pub struct InvalidArea<C> {
    pub area: C,
    pub rect: Rect<C>,
}

/// Why the horizontal area up to a point could not be computed.
#[derive(Debug, Clone, Copy, PartialEq, Eq)]
pub enum HorzAreaError<C> {
    /// The point lies outside of the rectangle.
    InvalidRectPoint(InvalidPoint<C>),
    /// The area does not fit in the coordinate type.
    Overflow { size: CoordPair<C> },
}

impl<C> Rect<C> {
    /// A rectangle of references to the coordinates.
    pub fn as_ref(&self) -> (r: Rect<&C>)
        ensures
            deref_pair(r.top_left) == self.top_left,
            deref_pair(r.size) == self.size,
    {
        Rect { top_left: self.top_left.as_ref(), size: self.size.as_ref() }
    }

    /// A rectangle of mutable references to the coordinates.
    pub fn as_mut(&mut self) -> (r: Rect<&mut C>)
        ensures
            *r.top_left.y == old(self).top_left.y,
            *r.top_left.x == old(self).top_left.x,
            *r.size.y == old(self).size.y,
            *r.size.x == old(self).size.x,
            final(self).top_left.y == *final(r.top_left.y),
            final(self).top_left.x == *final(r.top_left.x),
            final(self).size.y == *final(r.size.y),
            final(self).size.x == *final(r.size.x),
    {
        Rect { top_left: self.top_left.as_mut(), size: self.size.as_mut() }
    }

    /// Applies `mapper` to the four coordinates.
    pub fn map<F, C0>(self, mapper: F) -> (r: Rect<C0>)
        where
            F: Fn(C) -> C0,
        requires
            call_requires(mapper, (self.top_left.y,)),
            call_requires(mapper, (self.top_left.x,)),
            call_requires(mapper, (self.size.y,)),
            call_requires(mapper, (self.size.x,)),
        ensures
            call_ensures(mapper, (self.top_left.y,), r.top_left.y),
            call_ensures(mapper, (self.top_left.x,), r.top_left.x),
            call_ensures(mapper, (self.size.y,), r.size.y),
            call_ensures(mapper, (self.size.x,), r.size.x),
    {
        let Rect { top_left, size } = self;
        let tl = CoordPair { y: mapper(top_left.y), x: mapper(top_left.x) };
        let sz = CoordPair { y: mapper(size.y), x: mapper(size.x) };
        Rect { top_left: tl, size: sz }
    }

    /// Applies `mapper` to the four coordinates, stopping at the first error.
    pub fn try_map<F, C0, E>(self, mapper: F) -> (r: Result<Rect<C0>, E>)
        where
            F: Fn(C) -> Result<C0, E>,
        requires
            call_requires(mapper, (self.top_left.y,)),
            call_requires(mapper, (self.top_left.x,)),
            call_requires(mapper, (self.size.y,)),
            call_requires(mapper, (self.size.x,)),
        ensures
            match r {
                Ok(q) => call_ensures(mapper, (self.top_left.y,), Ok(q.top_left.y))
                    && call_ensures(mapper, (self.top_left.x,), Ok(q.top_left.x))
                    && call_ensures(mapper, (self.size.y,), Ok(q.size.y))
                    && call_ensures(mapper, (self.size.x,), Ok(q.size.x)),
                Err(e) => call_ensures(mapper, (self.top_left.y,), Err(e))
                    || call_ensures(mapper, (self.top_left.x,), Err(e))
                    || call_ensures(mapper, (self.size.y,), Err(e))
                    || call_ensures(mapper, (self.size.x,), Err(e)),
            },
    {
        let Rect { top_left, size } = self;
        let ty = match mapper(top_left.y) {
            Ok(v) => v,
            Err(e) => return Err(e),
        };
        let tx = match mapper(top_left.x) {
            Ok(v) => v,
            Err(e) => return Err(e),
        };
        let sy = match mapper(size.y) {
            Ok(v) => v,
            Err(e) => return Err(e),
        };
        let sx = match mapper(size.x) {
            Ok(v) => v,
            Err(e) => return Err(e),
        };
        Ok(Rect { top_left: CoordPair { y: ty, x: tx }, size: CoordPair { y: sy, x: sx } })
    }
}

impl<'a, C> Rect<&'a mut C> {
    /// A rectangle of clones of the referenced coordinates.
    pub fn cloned(self) -> (r: Rect<C>)
        where
            C: Clone,
        ensures
            cloned(*old(self.top_left.y), r.top_left.y),
            cloned(*old(self.top_left.x), r.top_left.x),
            cloned(*old(self.size.y), r.size.y),
            cloned(*old(self.size.x), r.size.x),
    {
        Rect { top_left: self.top_left.cloned(), size: self.size.cloned() }
    }

    /// The rectangle of shared references to the same coordinates.
    pub fn share(self) -> (r: Rect<&'a C>)
        ensures
            *r.top_left.y == *old(self.top_left.y),
            *r.top_left.x == *old(self.top_left.x),
            *r.size.y == *old(self.size.y),
            *r.size.x == *old(self.size.x),
    {
        Rect { top_left: self.top_left.share(), size: self.size.share() }
    }
}

impl<'a, C> Rect<&'a C> {
    /// A rectangle of clones of the referenced coordinates.
    pub fn cloned(self) -> (r: Rect<C>)
        where
            C: Clone,
        ensures
            cloned(*self.top_left.y, r.top_left.y),
            cloned(*self.top_left.x, r.top_left.x),
            cloned(*self.size.y, r.size.y),
            cloned(*self.size.x, r.size.x),
    {
        Rect { top_left: self.top_left.cloned(), size: self.size.cloned() }
    }

    /// A rectangle of copies of the referenced coordinates.
    pub fn copied(self) -> (r: Rect<C>)
        where
            C: Copy,
        ensures
            r.top_left == deref_pair(self.top_left),
            r.size == deref_pair(self.size),
    {
        Rect { top_left: self.top_left.copied(), size: self.size.copied() }
    }

    /// The corner one past the bottom right of the referenced rectangle, or
    /// `None` on overflow.
    pub fn checked_bottom_right_by_ref(self) -> (r: Option<CoordPair<C>>)
        where
            C: Coord,
        ensures
            match r {
                Some(p) => p.y.value() == deref_pair(self.top_left).y.value() + deref_pair(self.size).y.value()
                    && p.x.value() == deref_pair(self.top_left).x.value() + deref_pair(self.size).x.value(),
                None => !fits::<C>((deref_pair(self.top_left).y.value() + deref_pair(self.size).y.value(),
                    deref_pair(self.top_left).x.value() + deref_pair(self.size).x.value())),
            },
    {
        self.copied().checked_bottom_right()
    }

    /// The area of the referenced rectangle, or `None` on overflow.
    pub fn checked_total_area_by_ref(self) -> (r: Option<C>)
        where
            C: Coord,
        ensures
            match r {
                Some(a) => a.value() == deref_pair(self.size).x.value() * deref_pair(self.size).y.value(),
                None => !(C::min_value() <= deref_pair(self.size).x.value() * deref_pair(self.size).y.value()
                    <= C::max_value()),
            },
    {
        self.copied().checked_total_area()
    }
}

/// Whether `v` lies in `[start, start + size)`.
pub open spec fn in_span(start: int, size: int, v: int) -> bool {
    start <= v < start + size
}

impl<C: Coord> Rect<C> {
    /// Whether `point` lies inside of the rectangle.
    pub open spec fn contains(self, point: CoordPair<C>) -> bool {
        &&& in_span(self.top_left.y.value(), self.size.y.value(), point.y.value())
        &&& in_span(self.top_left.x.value(), self.size.x.value(), point.x.value())
    }

    /// The number of cells before `point` in row-major order inside of the rectangle.
    pub open spec fn horz_area_spec(self, point: CoordPair<C>) -> int {
        self.size.x.value() * (point.y.value() - self.top_left.y.value())
            + (point.x.value() - self.top_left.x.value())
    }

    /// The corner one past the bottom right of the rectangle.
    pub fn bottom_right(self) -> (r: CoordPair<C>)
        requires
            fits::<C>((self.top_left.y.value() + self.size.y.value(), self.top_left.x.value() + self.size.x.value())),
        ensures
            r.y.value() == self.top_left.y.value() + self.size.y.value(),
            r.x.value() == self.top_left.x.value() + self.size.x.value(),
    {
        self.top_left.plus(self.size)
    }

    /// The corner one past the bottom right, or `None` on overflow.
    pub fn checked_bottom_right(&self) -> (r: Option<CoordPair<C>>)
        ensures
            match r {
                Some(p) => p.y.value() == self.top_left.y.value() + self.size.y.value()
                    && p.x.value() == self.top_left.x.value() + self.size.x.value(),
                None => !fits::<C>((self.top_left.y.value() + self.size.y.value(),
                    self.top_left.x.value() + self.size.x.value())),
            },
    {
        self.top_left.checked_add(&self.size)
    }

    /// Whether `point` lies inside of the rectangle.
    pub fn contains_point(self, point: CoordPair<C>) -> (r: bool)
        ensures
            r == self.contains(point),
    {
        proof {
            point.y.lemma_bounds();
            self.top_left.y.lemma_bounds();
            point.x.lemma_bounds();
            self.top_left.x.lemma_bounds();
            self.size.x.lemma_bounds();
            self.size.y.lemma_bounds();
        }
        let y_in = !point.y.is_lt(&self.top_left.y) && match point.y.checked_minus(&self.top_left.y) {
            Some(d) => d.is_lt(&self.size.y),
            None => false,
        };
        let x_in = !point.x.is_lt(&self.top_left.x) && match point.x.checked_minus(&self.top_left.x) {
            Some(d) => d.is_lt(&self.size.x),
            None => false,
        };
        y_in && x_in
    }

    /// The number of cells before `point` in row-major order, or why it cannot be computed.
    pub fn checked_horz_area_down_to(self, point: CoordPair<C>) -> (r: Result<C, HorzAreaError<C>>)
        ensures
            match r {
                Ok(a) => self.contains(point) && a.value() == self.horz_area_spec(point),
                Err(HorzAreaError::InvalidRectPoint(e)) => !self.contains(point) && e.point == point
                    && e.rect == self,
                Err(HorzAreaError::Overflow { size }) => self.contains(point) && size == self.size
                    && !(C::min_value() <= self.horz_area_spec(point) <= C::max_value()),
            },
    {
        if self.contains_point(point) {
            proof {
                point.y.lemma_bounds();
                self.top_left.y.lemma_bounds();
                point.x.lemma_bounds();
                self.top_left.x.lemma_bounds();
                self.size.x.lemma_bounds();
                self.size.y.lemma_bounds();
            }
            let dy = point.y.minus(self.top_left.y);
            let dx = point.x.minus(self.top_left.x);
            match self.size.x.checked_times(&dy) {
                Some(scaled) => match scaled.checked_plus(&dx) {
                    Some(a) => Ok(a),
                    None => Err(HorzAreaError::Overflow { size: self.size }),
                },
                None => {
                    proof {
                        assert(0 <= dx.value());
                        assert(0 <= dy.value());
                        assert(0 <= self.size.x.value() * dy.value()) by (nonlinear_arith)
                            requires 0 <= self.size.x.value(), 0 <= dy.value();
                    }
                    Err(HorzAreaError::Overflow { size: self.size })
                },
            }
        } else {
            Err(HorzAreaError::InvalidRectPoint(InvalidPoint { point, rect: self }))
        }
    }

    /// The number of cells before `point` in row-major order inside of the
    /// rectangle, the error telling a point outside from an overflow.
    pub fn checked_horz_area_up_to(self, point: CoordPair<C>) -> (r: Result<C, HorzAreaError<C>>)
        ensures
            match r {
                Ok(a) => self.contains(point) && a.value() == self.horz_area_spec(point),
                Err(HorzAreaError::InvalidRectPoint(e)) => !self.contains(point) && e.point == point
                    && e.rect == self,
                Err(HorzAreaError::Overflow { size }) => self.contains(point) && size == self.size
                    && !(C::min_value() <= self.horz_area_spec(point) <= C::max_value()),
            },
    {
        self.checked_horz_area_down_to(point)
    }

    /// The number of cells before `point` in row-major order, for a point inside.
    pub fn horz_area_down_to(self, point: CoordPair<C>) -> (r: C)
        requires
            self.contains(point),
            C::min_value() <= self.horz_area_spec(point) <= C::max_value(),
        ensures
            r.value() == self.horz_area_spec(point),
    {
        proof {
            point.y.lemma_bounds();
            self.top_left.y.lemma_bounds();
            point.x.lemma_bounds();
            self.top_left.x.lemma_bounds();
            self.size.x.lemma_bounds();
            self.size.y.lemma_bounds();
        }
        let dy = point.y.minus(self.top_left.y);
        let dx = point.x.minus(self.top_left.x);
        proof {
            assert(0 <= self.size.x.value() * dy.value()) by (nonlinear_arith)
                requires 0 <= self.size.x.value(), 0 <= dy.value();
        }
        self.size.x.times(dy).plus(dx)
    }

    /// The number of cells before `point` in row-major order, counted from
    /// the top left by the width of the rectangle; the point need not lie
    /// inside of it.
    pub fn horz_area_up_to(self, point: CoordPair<C>) -> (r: C)
        requires
            C::min_value() <= point.y.value() - self.top_left.y.value() <= C::max_value(),
            C::min_value() <= point.x.value() - self.top_left.x.value() <= C::max_value(),
            C::min_value() <= self.size.x.value() * (point.y.value() - self.top_left.y.value()) <= C::max_value(),
            C::min_value() <= self.horz_area_spec(point) <= C::max_value(),
        ensures
            r.value() == self.horz_area_spec(point),
    {
        let dy = point.y.minus(self.top_left.y);
        let dx = point.x.minus(self.top_left.x);
        self.size.x.times(dy).plus(dx)
    }

    /// The area of the rectangle.
    pub fn total_area(self) -> (r: C)
        requires
            C::min_value() <= self.size.x.value() * self.size.y.value() <= C::max_value(),
        ensures
            r.value() == self.size.x.value() * self.size.y.value(),
    {
        self.size.x.times(self.size.y)
    }

    /// The area of the rectangle, or `None` on overflow.
    pub fn checked_total_area(&self) -> (r: Option<C>)
        ensures
            match r {
                Some(a) => a.value() == self.size.x.value() * self.size.y.value(),
                None => !(C::min_value() <= self.size.x.value() * self.size.y.value() <= C::max_value()),
            },
    {
        self.size.x.checked_times(&self.size.y)
    }

    /// Moves `point` one unit in `direction` when it lies inside of the rectangle.
    pub fn checked_move_point_unit(self, point: CoordPair<C>, direction: Direction) -> (r: Result<
        CoordPair<C>,
        InvalidPoint<C>,
    >)
        requires
            self.contains(point) ==> fits::<C>(moved_pair(direction, 1, point)),
        ensures
            match r {
                Ok(p) => self.contains(point) && pair_value(p) == moved_pair(direction, 1, point),
                Err(e) => !self.contains(point) && e.point == point && e.rect == self,
            },
    {
        self.checked_move_point_by(point, C::one(), direction)
    }

    /// Moves `point` by `magnitude` in `direction` when it lies inside of the rectangle.
    pub fn checked_move_point_by(self, point: CoordPair<C>, magnitude: C, direction: Direction) -> (r:
        Result<CoordPair<C>, InvalidPoint<C>>)
        requires
            self.contains(point) ==> fits::<C>(moved_pair(direction, magnitude.value(), point)),
        ensures
            match r {
                Ok(p) => self.contains(point) && pair_value(p) == moved_pair(direction, magnitude.value(), point),
                Err(e) => !self.contains(point) && e.point == point && e.rect == self,
            },
    {
        if self.contains_point(point) {
            Ok(point.move_by(magnitude, direction))
        } else {
            Err(InvalidPoint { point, rect: self })
        }
    }
}

impl<C: UnsignedCoord> Rect<C> {
    /// The point at horizontal `area`: the remainder of `area` by the width gives
    /// the column and the quotient of `area` by the height gives the row, both
    /// offset by the top-left corner.
    pub fn checked_bot_right_of_horz_area(&self, area: &C) -> (r: Result<CoordPair<C>, InvalidArea<C>>)
        ensures
            match r {
                Ok(p) => self.size.x.value() != 0 && self.size.y.value() != 0
                    && p.x.value() == self.top_left.x.value() + area.value() % self.size.x.value()
                    && p.y.value() == self.top_left.y.value() + area.value() / self.size.y.value(),
                Err(e) => e.area == *area && e.rect == *self && (self.size.x.value() == 0
                    || self.size.y.value() == 0 || !fits::<C>((
                        self.top_left.y.value() + area.value() / self.size.y.value(),
                        self.top_left.x.value() + area.value() % self.size.x.value(),
                    ))),
            },
    {
        let x = area.checked_remainder(&self.size.x);
        let y = area.checked_quot(&self.size.y);
        match (y, x) {
            (Some(y), Some(x)) => match self.top_left.checked_add(&CoordPair { y, x }) {
                Some(p) => Ok(p),
                None => Err(InvalidArea { area: *area, rect: *self }),
            },
            _ => Err(InvalidArea { area: *area, rect: *self }),
        }
    }

    /// The point at horizontal `area`, for an area inside of the rectangle.
    pub fn bot_right_of_horz_area(self, area: C) -> (r: CoordPair<C>)
        requires
            self.size.x.value() != 0,
            self.size.y.value() != 0,
            fits::<C>((
                self.top_left.y.value() + area.value() / self.size.y.value(),
                self.top_left.x.value() + area.value() % self.size.x.value(),
            )),
        ensures
            r.x.value() == self.top_left.x.value() + area.value() % self.size.x.value(),
            r.y.value() == self.top_left.y.value() + area.value() / self.size.y.value(),
    {
        let x = area.checked_remainder(&self.size.x).unwrap();
        let y = area.quot_floor(&self.size.y);
        self.top_left.plus(CoordPair { y, x })
    }
}

} // verus!
