//! Bounds on the coordinates of one axis, and pairs of them for both axes.
use vstd::prelude::*;
use crate::geometry::coord::Coord;
use crate::geometry::coords::CoordPair;

verus! {

/// The full range `..`, which admits every coordinate.
#[verifier::external_type_specification]
#[verifier::external_body]
pub struct ExRangeFull(std::ops::RangeFull);

/// A set of coordinates of one axis, given by its bounds.
pub trait AxisBounds<C: Coord> {
    /// Whether `c` is within the bounds.
    spec fn admits(&self, c: C) -> bool;

    /// Whether `c` is within the bounds.
    fn admits_coord(&self, c: &C) -> (r: bool)
        ensures
            r == self.admits(*c),
    ;
}

impl<C: Coord> AxisBounds<C> for std::ops::Range<C> {
    open spec fn admits(&self, c: C) -> bool {
        self.start.value() <= c.value() && c.value() < self.end.value()
    }

    fn admits_coord(&self, c: &C) -> (r: bool) {
        self.start.is_le(c) && c.is_lt(&self.end)
    }
}

impl<C: Coord> AxisBounds<C> for std::ops::RangeFull {
    open spec fn admits(&self, c: C) -> bool {
        true
    }

    fn admits_coord(&self, c: &C) -> (r: bool) {
        true
    }
}

impl AxisBounds<u8> for std::ops::RangeInclusive<u8> {
    open spec fn admits(&self, c: u8) -> bool {
        self@.start <= c && if self@.exhausted {
            c < self@.end
        } else {
            c <= self@.end
        }
    }

    fn admits_coord(&self, c: &u8) -> (r: bool) {
        self.contains(c)
    }
}

impl AxisBounds<u16> for std::ops::RangeInclusive<u16> {
    open spec fn admits(&self, c: u16) -> bool {
        self@.start <= c && if self@.exhausted {
            c < self@.end
        } else {
            c <= self@.end
        }
    }

    fn admits_coord(&self, c: &u16) -> (r: bool) {
        self.contains(c)
    }
}

impl AxisBounds<u32> for std::ops::RangeInclusive<u32> {
    open spec fn admits(&self, c: u32) -> bool {
        self@.start <= c && if self@.exhausted {
            c < self@.end
        } else {
            c <= self@.end
        }
    }

    fn admits_coord(&self, c: &u32) -> (r: bool) {
        self.contains(c)
    }
}

impl AxisBounds<u64> for std::ops::RangeInclusive<u64> {
    open spec fn admits(&self, c: u64) -> bool {
        self@.start <= c && if self@.exhausted {
            c < self@.end
        } else {
            c <= self@.end
        }
    }

    fn admits_coord(&self, c: &u64) -> (r: bool) {
        self.contains(c)
    }
}

impl AxisBounds<usize> for std::ops::RangeInclusive<usize> {
    open spec fn admits(&self, c: usize) -> bool {
        self@.start <= c && if self@.exhausted {
            c < self@.end
        } else {
            c <= self@.end
        }
    }

    fn admits_coord(&self, c: &usize) -> (r: bool) {
        self.contains(c)
    }
}

impl AxisBounds<i32> for std::ops::RangeInclusive<i32> {
    open spec fn admits(&self, c: i32) -> bool {
        self@.start <= c && if self@.exhausted {
            c < self@.end
        } else {
            c <= self@.end
        }
    }

    fn admits_coord(&self, c: &i32) -> (r: bool) {
        self.contains(c)
    }
}

impl AxisBounds<i64> for std::ops::RangeInclusive<i64> {
    open spec fn admits(&self, c: i64) -> bool {
        self@.start <= c && if self@.exhausted {
            c < self@.end
        } else {
            c <= self@.end
        }
    }

    fn admits_coord(&self, c: &i64) -> (r: bool) {
        self.contains(c)
    }
}

/// One end of an interval of coordinates.
#[derive(Debug, Clone, Copy, PartialEq, Eq)]
pub enum Limit<C> {
    /// The end is the given coordinate, which is admitted.
    Included(C),
    /// The end is the given coordinate, which is not admitted.
    Excluded(C),
    /// There is no end on this side.
    Unbounded,
}

/// An interval of coordinates given by its two ends.
#[derive(Debug, Clone, Copy, PartialEq, Eq)]
pub struct Interval<C> {
    /// The lower end.
    pub start: Limit<C>,
    /// The upper end.
    pub end: Limit<C>,
}

impl<C: Coord> AxisBounds<C> for Interval<C> {
    open spec fn admits(&self, c: C) -> bool {
        &&& match self.start {
            Limit::Included(s) => s.value() <= c.value(),
            Limit::Excluded(s) => s.value() < c.value(),
            Limit::Unbounded => true,
        }
        &&& match self.end {
            Limit::Included(e) => c.value() <= e.value(),
            Limit::Excluded(e) => c.value() < e.value(),
            Limit::Unbounded => true,
        }
    }

    fn admits_coord(&self, c: &C) -> (r: bool) {
        let above = match &self.start {
            Limit::Included(s) => s.is_le(c),
            Limit::Excluded(s) => s.is_lt(c),
            Limit::Unbounded => true,
        };
        let below = match &self.end {
            Limit::Included(e) => c.is_le(e),
            Limit::Excluded(e) => c.is_lt(e),
            Limit::Unbounded => true,
        };
        above && below
    }
}

/// A pair of bounds, one for each axis.
#[derive(Debug, Clone, Copy, PartialEq, Eq)]
pub struct CoordRange<Ry, Rx> {
    /// The bounds on `y`.
    pub y: Ry,
    /// The bounds on `x`.
    pub x: Rx,
}

impl<Ry, Rx> CoordRange<Ry, Rx> {
    /// Whether `p` is within the bounds on both axes.
    pub open spec fn admits<C: Coord>(&self, p: CoordPair<C>) -> bool
        where
            Ry: AxisBounds<C>,
            Rx: AxisBounds<C>,
    {
        self.y.admits(p.y) && self.x.admits(p.x)
    }

    /// Whether `p` is within the bounds on both axes.
    pub fn admits_point<C: Coord>(&self, p: &CoordPair<C>) -> (r: bool)
        where
            Ry: AxisBounds<C>,
            Rx: AxisBounds<C>,
        ensures
            r == self.admits(*p),
    {
        self.y.admits_coord(&p.y) && self.x.admits_coord(&p.x)
    }
}

} // verus!
