//! Axes, orders along an axis, directions and diagonals, and tables indexed by them.
use vstd::prelude::*;
use crate::geometry::coord::{Coord, clamp};
use crate::geometry::coords::CoordPair;

verus! {

/// One of the two axes of the plane.
#[derive(Debug, Clone, Copy, PartialEq, Eq, PartialOrd, Ord, Hash, Structural)]
pub enum Axis {
    Y,
    X,
}

impl Axis {
    /// The other axis, in specifications.
    pub open spec fn other_spec(self) -> Axis {
        match self {
            Axis::Y => Axis::X,
            Axis::X => Axis::Y,
        }
    }

    /// The other axis.
    pub fn other(self) -> (r: Axis)
        ensures
            r != self,
            r == self.other_spec(),
    {
        match self {
            Axis::Y => Axis::X,
            Axis::X => Axis::Y,
        }
    }

    /// Both axes, `Y` first.
    pub fn all() -> (r: [Axis; 2])
        ensures
            r@ == seq![Axis::Y, Axis::X],
    {
        [Axis::Y, Axis::X]
    }
}

/// An order along an axis: towards smaller or towards greater coordinates.
#[derive(Debug, Clone, Copy, PartialEq, Eq, PartialOrd, Ord, Hash, Structural)]
pub enum Order {
    Backwards,
    Forwards,
}

/// The value `target` moved by `magnitude` in `order`.
pub open spec fn moved_value(order: Order, magnitude: int, target: int) -> int {
    match order {
        Order::Backwards => target - magnitude,
        Order::Forwards => target + magnitude,
    }
}

impl Order {
    /// Both orders, `Backwards` first.
    pub fn all() -> (r: [Order; 2])
        ensures
            r@ == seq![Order::Backwards, Order::Forwards],
    {
        [Order::Backwards, Order::Forwards]
    }

    /// The other order.
    pub fn reverse(self) -> (r: Order)
        ensures
            r != self,
    {
        match self {
            Order::Backwards => Order::Forwards,
            Order::Forwards => Order::Backwards,
        }
    }

    /// Moves `target` by one unit in this order.
    pub fn move_unit<C: Coord>(self, target: C) -> (r: C)
        requires
            C::min_value() <= moved_value(self, 1, target.value()) <= C::max_value(),
        ensures
            r.value() == moved_value(self, 1, target.value()),
    {
        self.move_by(C::one(), target)
    }

    /// Moves `target` by `magnitude` in this order.
    pub fn move_by<C: Coord>(self, magnitude: C, target: C) -> (r: C)
        requires
            C::min_value() <= moved_value(self, magnitude.value(), target.value()) <= C::max_value(),
        ensures
            r.value() == moved_value(self, magnitude.value(), target.value()),
    {
        match self {
            Order::Backwards => target.minus(magnitude),
            Order::Forwards => target.plus(magnitude),
        }
    }

    /// Moves `target` by one unit in this order, or `None` on overflow.
    pub fn checked_move_unit<C: Coord>(self, target: &C) -> (r: Option<C>)
        ensures
            match r {
                Some(v) => v.value() == moved_value(self, 1, target.value()),
                None => !(C::min_value() <= moved_value(self, 1, target.value()) <= C::max_value()),
            },
    {
        self.checked_move_by(&C::one(), target)
    }

    /// Moves `target` by `magnitude` in this order, or `None` on overflow.
    pub fn checked_move_by<C: Coord>(self, magnitude: &C, target: &C) -> (r: Option<C>)
        ensures
            match r {
                Some(v) => v.value() == moved_value(self, magnitude.value(), target.value()),
                None => !(C::min_value() <= moved_value(self, magnitude.value(), target.value())
                    <= C::max_value()),
            },
    {
        match self {
            Order::Backwards => target.checked_minus(magnitude),
            Order::Forwards => target.checked_plus(magnitude),
        }
    }

    /// Moves `target` by one unit, saturating at the type's bounds.
    pub fn saturating_move_unit<C: Coord>(self, target: &C) -> (r: C)
        ensures
            r.value() == clamp(moved_value(self.reverse_spec(), 1, target.value()), C::min_value(), C::max_value()),
    {
        self.saturating_move_by(&C::one(), target)
    }

    /// Moves `target` by `magnitude`, saturating at the type's bounds.
    /// Unlike `move_by`, this move adds going backwards and subtracts going forwards.
    pub fn saturating_move_by<C: Coord>(self, magnitude: &C, target: &C) -> (r: C)
        ensures
            r.value() == clamp(
                moved_value(self.reverse_spec(), magnitude.value(), target.value()),
                C::min_value(),
                C::max_value(),
            ),
    {
        match self {
            Order::Backwards => target.saturating_plus(magnitude),
            Order::Forwards => target.saturating_minus(magnitude),
        }
    }

    pub open spec fn reverse_spec(self) -> Order {
        match self {
            Order::Backwards => Order::Forwards,
            Order::Forwards => Order::Backwards,
        }
    }
}

/// One of the four straight directions of the plane.
#[derive(Debug, Clone, Copy, PartialEq, Eq, PartialOrd, Ord, Hash, Structural)]
pub enum Direction {
    Up,
    Left,
    Down,
    Right,
}

/// The axis along which a direction runs.
pub open spec fn dir_axis(d: Direction) -> Axis {
    match d {
        Direction::Up | Direction::Down => Axis::Y,
        Direction::Left | Direction::Right => Axis::X,
    }
}

/// The order in which a direction runs along its axis.
pub open spec fn dir_order(d: Direction) -> Order {
    match d {
        Direction::Up | Direction::Left => Order::Backwards,
        Direction::Down | Direction::Right => Order::Forwards,
    }
}

/// The direction running along `axis` in `order`.
pub open spec fn dir_of(axis: Axis, order: Order) -> Direction {
    match (axis, order) {
        (Axis::Y, Order::Backwards) => Direction::Up,
        (Axis::X, Order::Backwards) => Direction::Left,
        (Axis::Y, Order::Forwards) => Direction::Down,
        (Axis::X, Order::Forwards) => Direction::Right,
    }
}

/// The direction opposite to `d`.
pub open spec fn dir_opposite(d: Direction) -> Direction {
    match d {
        Direction::Up => Direction::Down,
        Direction::Left => Direction::Right,
        Direction::Down => Direction::Up,
        Direction::Right => Direction::Left,
    }
}

/// The opposite of the opposite of a direction is the direction itself.
pub proof fn law_opposite_involutive(d: Direction)
    ensures
        dir_opposite(dir_opposite(d)) == d,
{
}

/// Moving a point by some magnitude in a direction, then by the same
/// magnitude in the opposite direction, comes back to the point.
pub proof fn law_move_back<C: Coord>(d: Direction, magnitude: int, p: CoordPair<C>, q: CoordPair<C>)
    requires
        pair_value(q) == moved_pair(d, magnitude, p),
    ensures
        moved_pair(dir_opposite(d), magnitude, q) == pair_value(p),
{
}

/// The value of `p` moved by `magnitude` in direction `d`, as a pair `(y, x)`.
pub open spec fn moved_pair<C: Coord>(d: Direction, magnitude: int, p: CoordPair<C>) -> (int, int) {
    match dir_axis(d) {
        Axis::Y => (moved_value(dir_order(d), magnitude, p.y.value()), p.x.value()),
        Axis::X => (p.y.value(), moved_value(dir_order(d), magnitude, p.x.value())),
    }
}

/// Whether a pair of values fits in the coordinate type.
pub open spec fn fits<C: Coord>(v: (int, int)) -> bool {
    &&& C::min_value() <= v.0 <= C::max_value()
    &&& C::min_value() <= v.1 <= C::max_value()
}

/// The value `(y, x)` of a pair.
pub open spec fn pair_value<C: Coord>(p: CoordPair<C>) -> (int, int) {
    (p.y.value(), p.x.value())
}

/// A pair moved by `magnitude` in `d`, saturating at the bounds of the type.
pub open spec fn saturated_pair<C: Coord>(d: Direction, magnitude: int, p: CoordPair<C>) -> (int, int) {
    match dir_axis(d) {
        Axis::Y => (
            clamp(moved_value(dir_order(d).reverse_spec(), magnitude, p.y.value()), C::min_value(), C::max_value()),
            p.x.value(),
        ),
        Axis::X => (
            p.y.value(),
            clamp(moved_value(dir_order(d).reverse_spec(), magnitude, p.x.value()), C::min_value(), C::max_value()),
        ),
    }
}

impl Direction {
    /// All four directions, in the order up, left, down, right.
    pub fn all() -> (r: [Direction; 4])
        ensures
            r@ == seq![Direction::Up, Direction::Left, Direction::Down, Direction::Right],
    {
        [Direction::Up, Direction::Left, Direction::Down, Direction::Right]
    }

    /// The direction running along `axis` in `order`.
    pub fn new(axis: Axis, order: Order) -> (r: Direction)
        ensures
            r == dir_of(axis, order),
            dir_axis(r) == axis,
            dir_order(r) == order,
    {
        match (axis, order) {
            (Axis::Y, Order::Backwards) => Direction::Up,
            (Axis::X, Order::Backwards) => Direction::Left,
            (Axis::Y, Order::Forwards) => Direction::Down,
            (Axis::X, Order::Forwards) => Direction::Right,
        }
    }

    /// The axis of this direction.
    pub fn axis(self) -> (r: Axis)
        ensures
            r == dir_axis(self),
    {
        match self {
            Direction::Up | Direction::Down => Axis::Y,
            Direction::Left | Direction::Right => Axis::X,
        }
    }

    /// The order of this direction along its axis.
    pub fn order(self) -> (r: Order)
        ensures
            r == dir_order(self),
    {
        match self {
            Direction::Up | Direction::Left => Order::Backwards,
            Direction::Down | Direction::Right => Order::Forwards,
        }
    }

    /// The opposite direction.
    pub fn opposite(self) -> (r: Direction)
        ensures
            r == dir_opposite(self),
            dir_axis(r) == dir_axis(self),
            dir_order(r) != dir_order(self),
    {
        match self {
            Direction::Up => Direction::Down,
            Direction::Left => Direction::Right,
            Direction::Down => Direction::Up,
            Direction::Right => Direction::Left,
        }
    }

    /// Moves `target` one unit in this direction.
    pub fn move_unit<C: Coord>(self, target: CoordPair<C>) -> (r: CoordPair<C>)
        requires
            fits::<C>(moved_pair(self, 1, target)),
        ensures
            pair_value(r) == moved_pair(self, 1, target),
    {
        DirectionVec::unit(self).mov(target)
    }

    /// Moves `target` one unit in this direction, or `None` on overflow.
    pub fn checked_move_unit<C: Coord>(self, target: &CoordPair<C>) -> (r: Option<CoordPair<C>>)
        ensures
            match r {
                Some(p) => pair_value(p) == moved_pair(self, 1, *target),
                None => !fits::<C>(moved_pair(self, 1, *target)),
            },
    {
        self.checked_move_by(&C::one(), target)
    }

    /// Moves the referenced point one unit in this direction, or `None` on overflow.
    pub fn checked_move_unit_by_ref<C: Coord>(self, target: CoordPair<&C>) -> (r: Option<CoordPair<C>>)
        ensures
            match r {
                Some(p) => pair_value(p) == moved_pair(self, 1, target.copied_spec()),
                None => !fits::<C>(moved_pair(self, 1, target.copied_spec())),
            },
    {
        self.checked_move_by(&C::one(), &target.copied())
    }

    /// Moves the referenced point one unit in this direction, saturating at the bounds.
    pub fn saturating_move_unit_by_ref<C: Coord>(self, target: CoordPair<&C>) -> (r: CoordPair<C>)
        ensures
            pair_value(r) == saturated_pair(self, 1, target.copied_spec()),
    {
        self.saturating_move_unit(&target.copied())
    }

    /// Moves the referenced point by `magnitude` in this direction, or `None` on overflow.
    pub fn checked_move_by_ref_by<C: Coord>(self, magnitude: &C, target: CoordPair<&C>) -> (r: Option<CoordPair<C>>)
        ensures
            match r {
                Some(p) => pair_value(p) == moved_pair(self, magnitude.value(), target.copied_spec()),
                None => !fits::<C>(moved_pair(self, magnitude.value(), target.copied_spec())),
            },
    {
        self.checked_move_by(magnitude, &target.copied())
    }

    /// Moves the referenced point by `magnitude` in this direction, saturating at the bounds.
    pub fn saturating_move_by_ref_by<C: Coord>(self, magnitude: &C, target: CoordPair<&C>) -> (r: CoordPair<C>)
        ensures
            pair_value(r) == saturated_pair(self, magnitude.value(), target.copied_spec()),
    {
        self.saturating_move_by(magnitude, &target.copied())
    }

    /// Moves `target` one unit in this direction, saturating at the bounds.
    pub fn saturating_move_unit<C: Coord>(self, target: &CoordPair<C>) -> (r: CoordPair<C>)
        ensures
            pair_value(r) == saturated_pair(self, 1, *target),
    {
        self.saturating_move_by(&C::one(), target)
    }

    /// Moves `target` by `magnitude` in this direction.
    pub fn move_by<C: Coord>(self, magnitude: C, target: CoordPair<C>) -> (r: CoordPair<C>)
        requires
            fits::<C>(moved_pair(self, magnitude.value(), target)),
        ensures
            pair_value(r) == moved_pair(self, magnitude.value(), target),
    {
        DirectionVec { direction: self, magnitude }.mov(target)
    }

    /// Moves `target` by `magnitude` in this direction, or `None` on overflow.
    pub fn checked_move_by<C: Coord>(self, magnitude: &C, target: &CoordPair<C>) -> (r: Option<CoordPair<C>>)
        ensures
            match r {
                Some(p) => pair_value(p) == moved_pair(self, magnitude.value(), *target),
                None => !fits::<C>(moved_pair(self, magnitude.value(), *target)),
            },
    {
        proof {
            target.y.lemma_bounds();
            target.x.lemma_bounds();
        }
        match self.axis() {
            Axis::Y => match self.order().checked_move_by(magnitude, &target.y) {
                Some(y) => Some(CoordPair { y, x: target.x }),
                None => None,
            },
            Axis::X => match self.order().checked_move_by(magnitude, &target.x) {
                Some(x) => Some(CoordPair { y: target.y, x }),
                None => None,
            },
        }
    }

    /// Moves `target` by `magnitude` in this direction, saturating at the bounds.
    pub fn saturating_move_by<C: Coord>(self, magnitude: &C, target: &CoordPair<C>) -> (r: CoordPair<C>)
        ensures
            pair_value(r) == saturated_pair(self, magnitude.value(), *target),
    {
        match self.axis() {
            Axis::Y => CoordPair { y: self.order().saturating_move_by(magnitude, &target.y), x: target.x },
            Axis::X => CoordPair { y: target.y, x: self.order().saturating_move_by(magnitude, &target.x) },
        }
    }
}

/// A table holding one value per direction.
#[derive(Debug, Clone, Copy, PartialEq, Eq, PartialOrd, Ord, Hash, Default)]
pub struct DirectionMap<T> {
    pub up: T,
    pub left: T,
    pub down: T,
    pub right: T,
}

impl<T> DirectionMap<T> {
    /// The entry of direction `d`.
    pub open spec fn at(self, d: Direction) -> T {
        match d {
            Direction::Up => self.up,
            Direction::Left => self.left,
            Direction::Down => self.down,
            Direction::Right => self.right,
        }
    }

    /// The table with the entry of `d` replaced by `value`.
    pub open spec fn with(self, d: Direction, value: T) -> Self {
        match d {
            Direction::Up => DirectionMap { up: value, ..self },
            Direction::Left => DirectionMap { left: value, ..self },
            Direction::Down => DirectionMap { down: value, ..self },
            Direction::Right => DirectionMap { right: value, ..self },
        }
    }

    /// Builds a table by calling `generator` on each direction.
    pub fn from_dirs<F>(generator: F) -> (r: DirectionMap<T>)
        where
            F: Fn(Direction) -> T,
        requires
            forall|d: Direction| call_requires(generator, (d,)),
        ensures
            forall|d: Direction| call_ensures(generator, (d,), #[trigger] r.at(d)),
    {
        let up = generator(Direction::Up);
        let left = generator(Direction::Left);
        let down = generator(Direction::Down);
        let right = generator(Direction::Right);
        let r = DirectionMap { up, left, down, right };
        assert forall|d: Direction| call_ensures(generator, (d,), #[trigger] r.at(d)) by {
            match d {
                Direction::Up => {},
                Direction::Left => {},
                Direction::Down => {},
                Direction::Right => {},
            }
        }
        r
    }

    /// Applies `mapper` to each entry.
    pub fn map<F, U>(self, mapper: F) -> (r: DirectionMap<U>)
        where
            F: Fn(T) -> U,
        requires
            forall|d: Direction| call_requires(mapper, (#[trigger] self.at(d),)),
        ensures
            forall|d: Direction| call_ensures(mapper, (self.at(d),), #[trigger] r.at(d)),
    {
        let ghost pre = self;
        assert(call_requires(mapper, (pre.at(Direction::Up),)));
        assert(call_requires(mapper, (pre.at(Direction::Left),)));
        assert(call_requires(mapper, (pre.at(Direction::Down),)));
        assert(call_requires(mapper, (pre.at(Direction::Right),)));
        let r = DirectionMap {
            up: mapper(self.up),
            left: mapper(self.left),
            down: mapper(self.down),
            right: mapper(self.right),
        };
        assert forall|d: Direction| call_ensures(mapper, (pre.at(d),), #[trigger] r.at(d)) by {
            match d {
                Direction::Up => {},
                Direction::Left => {},
                Direction::Down => {},
                Direction::Right => {},
            }
        }
        r
    }

    /// Applies `mapper` to each entry together with its direction.
    pub fn map_with_dirs<F, U>(self, mapper: F) -> (r: DirectionMap<U>)
        where
            F: Fn(T, Direction) -> U,
        requires
            forall|d: Direction| call_requires(mapper, (#[trigger] self.at(d), d)),
        ensures
            forall|d: Direction| call_ensures(mapper, (self.at(d), d), #[trigger] r.at(d)),
    {
        let ghost pre = self;
        assert(call_requires(mapper, (pre.at(Direction::Up), Direction::Up)));
        assert(call_requires(mapper, (pre.at(Direction::Left), Direction::Left)));
        assert(call_requires(mapper, (pre.at(Direction::Down), Direction::Down)));
        assert(call_requires(mapper, (pre.at(Direction::Right), Direction::Right)));
        let r = DirectionMap {
            up: mapper(self.up, Direction::Up),
            left: mapper(self.left, Direction::Left),
            down: mapper(self.down, Direction::Down),
            right: mapper(self.right, Direction::Right),
        };
        assert forall|d: Direction| call_ensures(mapper, (pre.at(d), d), #[trigger] r.at(d)) by {
            match d {
                Direction::Up => {},
                Direction::Left => {},
                Direction::Down => {},
                Direction::Right => {},
            }
        }
        r
    }

    /// A table of references to the entries.
    pub fn as_ref(&self) -> (r: DirectionMap<&T>)
        ensures
            *r.up == self.up,
            *r.left == self.left,
            *r.down == self.down,
            *r.right == self.right,
    {
        DirectionMap { up: &self.up, left: &self.left, down: &self.down, right: &self.right }
    }

    /// A table of mutable references to the entries.
    pub fn as_mut(&mut self) -> (r: DirectionMap<&mut T>)
        ensures
            *r.up == old(self).up,
            *r.left == old(self).left,
            *r.down == old(self).down,
            *r.right == old(self).right,
            final(self).up == *final(r.up),
            final(self).left == *final(r.left),
            final(self).down == *final(r.down),
            final(self).right == *final(r.right),
    {
        DirectionMap { up: &mut self.up, left: &mut self.left, down: &mut self.down, right: &mut self.right }
    }

    /// The entry of direction `d`.
    pub fn get(&self, d: Direction) -> (r: &T)
        ensures
            *r == self.at(d),
    {
        match d {
            Direction::Up => &self.up,
            Direction::Left => &self.left,
            Direction::Down => &self.down,
            Direction::Right => &self.right,
        }
    }

    /// The entry of direction `d`, to change in place.
    pub fn get_mut(&mut self, d: Direction) -> (r: &mut T)
        ensures
            *r == old(self).at(d),
            *final(self) == old(self).with(d, *final(r)),
    {
        match d {
            Direction::Up => &mut self.up,
            Direction::Left => &mut self.left,
            Direction::Down => &mut self.down,
            Direction::Right => &mut self.right,
        }
    }

    /// Replaces the entry of direction `d`, returning the one it held.
    pub fn replace(&mut self, d: Direction, value: T) -> (r: T)
        ensures
            r == old(self).at(d),
            *final(self) == old(self).with(d, value),
    {
        let mut v = value;
        match d {
            Direction::Up => std::mem::swap(&mut self.up, &mut v),
            Direction::Left => std::mem::swap(&mut self.left, &mut v),
            Direction::Down => std::mem::swap(&mut self.down, &mut v),
            Direction::Right => std::mem::swap(&mut self.right, &mut v),
        }
        v
    }
}

impl<'a, T> DirectionMap<&'a mut T> {
    /// A table of clones of the referenced entries.
    pub fn cloned(self) -> (r: DirectionMap<T>)
        where
            T: Clone,
        ensures
            cloned(*old(self.up), r.up),
            cloned(*old(self.left), r.left),
            cloned(*old(self.down), r.down),
            cloned(*old(self.right), r.right),
    {
        DirectionMap { up: self.up.clone(), left: self.left.clone(), down: self.down.clone(), right: self.right.clone() }
    }

    /// The table of shared references to the same entries.
    pub fn share(self) -> (r: DirectionMap<&'a T>)
        ensures
            *r.up == *old(self.up),
            *r.left == *old(self.left),
            *r.down == *old(self.down),
            *r.right == *old(self.right),
    {
        DirectionMap { up: &*self.up, left: &*self.left, down: &*self.down, right: &*self.right }
    }
}

impl<'a, T> DirectionMap<&'a T> {
    /// A table of clones of the referenced entries.
    pub fn cloned(self) -> (r: DirectionMap<T>)
        where
            T: Clone,
        ensures
            cloned(*self.up, r.up),
            cloned(*self.left, r.left),
            cloned(*self.down, r.down),
            cloned(*self.right, r.right),
    {
        DirectionMap { up: self.up.clone(), left: self.left.clone(), down: self.down.clone(), right: self.right.clone() }
    }

    /// A table of copies of the referenced entries.
    pub fn copied(self) -> (r: DirectionMap<T>)
        where
            T: Copy,
        ensures
            r.up == *self.up,
            r.left == *self.left,
            r.down == *self.down,
            r.right == *self.right,
    {
        DirectionMap { up: *self.up, left: *self.left, down: *self.down, right: *self.right }
    }
}

impl<T> DirectionMap<Option<T>> {
    /// `Some` table when every entry is `Some`, else `None`.
    pub fn transpose(self) -> (r: Option<DirectionMap<T>>)
        ensures
            match r {
                Some(m) => forall|d: Direction| #[trigger] self.at(d) == Some(m.at(d)),
                None => exists|d: Direction| #[trigger] self.at(d) is None,
            },
    {
        match (self.up, self.left, self.down, self.right) {
            (Some(up), Some(left), Some(down), Some(right)) => {
                let m = DirectionMap { up, left, down, right };
                assert forall|d: Direction| #[trigger] self.at(d) == Some(m.at(d)) by {
                    match d {
                        Direction::Up => {},
                        Direction::Left => {},
                        Direction::Down => {},
                        Direction::Right => {},
                    }
                }
                Some(m)
            },
            _ => {
                assert(self.at(Direction::Up) is None || self.at(Direction::Left) is None
                    || self.at(Direction::Down) is None || self.at(Direction::Right) is None);
                None
            },
        }
    }

    /// The table of options that `transpose` undoes.
    pub fn from_transposed(transposed: Option<DirectionMap<T>>) -> (r: DirectionMap<Option<T>>)
        ensures
            forall|d: Direction| #[trigger] r.at(d) == match transposed {
                Some(m) => Some(m.at(d)),
                None => None,
            },
    {
        match transposed {
            Some(m) => DirectionMap { up: Some(m.up), left: Some(m.left), down: Some(m.down), right: Some(m.right) },
            None => DirectionMap { up: None, left: None, down: None, right: None },
        }
    }
}

/// A direction together with a magnitude.
#[derive(Debug, Clone, Copy, PartialEq, Eq, PartialOrd, Ord, Hash)]
pub struct DirectionVec<C> {
    pub direction: Direction,
    pub magnitude: C,
}

impl<C> DirectionVec<C> {
    /// The vector of unit magnitude in `direction`.
    pub fn unit(direction: Direction) -> (r: DirectionVec<C>)
        where
            C: Coord,
        ensures
            r.direction == direction,
            r.magnitude.value() == 1,
    {
        DirectionVec { direction, magnitude: C::one() }
    }

    /// The same vector, with its magnitude borrowed.
    pub fn by_ref(&self) -> (r: DirectionVec<&C>)
        ensures
            r.direction == self.direction,
            *r.magnitude == self.magnitude,
    {
        DirectionVec { direction: self.direction, magnitude: &self.magnitude }
    }

    /// Moves `target` by this vector.
    pub fn mov(self, target: CoordPair<C>) -> (r: CoordPair<C>)
        where
            C: Coord,
        requires
            fits::<C>(moved_pair(self.direction, self.magnitude.value(), target)),
        ensures
            pair_value(r) == moved_pair(self.direction, self.magnitude.value(), target),
    {
        match self.direction.axis() {
            Axis::Y => CoordPair { y: self.direction.order().move_by(self.magnitude, target.y), x: target.x },
            Axis::X => CoordPair { y: target.y, x: self.direction.order().move_by(self.magnitude, target.x) },
        }
    }
}

impl<'a, C> DirectionVec<&'a C> {
    /// Moves `target` by this vector, or `None` on overflow.
    pub fn checked_move(self, target: &CoordPair<C>) -> (r: Option<CoordPair<C>>)
        where
            C: Coord,
        ensures
            match r {
                Some(p) => pair_value(p) == moved_pair(self.direction, self.magnitude.value(), *target),
                None => !fits::<C>(moved_pair(self.direction, self.magnitude.value(), *target)),
            },
    {
        self.direction.checked_move_by(self.magnitude, target)
    }

    /// Moves the referenced point by this vector, or `None` on overflow.
    pub fn checked_move_by_ref(self, target: CoordPair<&C>) -> (r: Option<CoordPair<C>>)
        where
            C: Coord,
        ensures
            match r {
                Some(p) => pair_value(p) == moved_pair(self.direction, self.magnitude.value(), target.copied_spec()),
                None => !fits::<C>(moved_pair(self.direction, self.magnitude.value(), target.copied_spec())),
            },
    {
        self.direction.checked_move_by(self.magnitude, &target.copied())
    }

    /// Moves the referenced point by this vector, saturating at the bounds.
    pub fn saturating_move_by_ref(self, target: CoordPair<&C>) -> (r: CoordPair<C>)
        where
            C: Coord,
        ensures
            pair_value(r) == saturated_pair(self.direction, self.magnitude.value(), target.copied_spec()),
    {
        self.direction.saturating_move_by(self.magnitude, &target.copied())
    }

    /// Moves `target` by this vector, saturating at the bounds.
    pub fn saturating_move(self, target: &CoordPair<C>) -> (r: CoordPair<C>)
        where
            C: Coord,
        ensures
            pair_value(r) == saturated_pair(self.direction, self.magnitude.value(), *target),
    {
        self.direction.saturating_move_by(self.magnitude, target)
    }
}

/// One of the four diagonal directions.
#[derive(Debug, Clone, Copy, PartialEq, Eq, PartialOrd, Ord, Hash, Structural)]
pub enum Diagonal {
    TopLeft,
    TopRight,
    BottomLeft,
    BottomRight,
}

/// The orders on `(y, x)` of a diagonal.
pub open spec fn diagonal_orders(d: Diagonal) -> (Order, Order) {
    match d {
        Diagonal::TopLeft => (Order::Backwards, Order::Backwards),
        Diagonal::TopRight => (Order::Backwards, Order::Forwards),
        Diagonal::BottomLeft => (Order::Forwards, Order::Backwards),
        Diagonal::BottomRight => (Order::Forwards, Order::Forwards),
    }
}

impl Diagonal {
    /// All four diagonals.
    pub fn all() -> (r: [Diagonal; 4])
        ensures
            r@ == seq![Diagonal::TopLeft, Diagonal::TopRight, Diagonal::BottomLeft, Diagonal::BottomRight],
    {
        [Diagonal::TopLeft, Diagonal::TopRight, Diagonal::BottomLeft, Diagonal::BottomRight]
    }

    /// The diagonal whose orders on each axis are `axes_orders`.
    pub fn new(axes_orders: CoordPair<Order>) -> (r: Diagonal)
        ensures
            diagonal_orders(r) == (axes_orders.y, axes_orders.x),
    {
        match (axes_orders.y, axes_orders.x) {
            (Order::Backwards, Order::Backwards) => Diagonal::TopLeft,
            (Order::Backwards, Order::Forwards) => Diagonal::TopRight,
            (Order::Forwards, Order::Backwards) => Diagonal::BottomLeft,
            (Order::Forwards, Order::Forwards) => Diagonal::BottomRight,
        }
    }

    /// The orders of this diagonal on each axis.
    pub fn axes_orders(self) -> (r: CoordPair<Order>)
        ensures
            diagonal_orders(self) == (r.y, r.x),
    {
        match self {
            Diagonal::TopLeft => CoordPair { y: Order::Backwards, x: Order::Backwards },
            Diagonal::TopRight => CoordPair { y: Order::Backwards, x: Order::Forwards },
            Diagonal::BottomLeft => CoordPair { y: Order::Forwards, x: Order::Backwards },
            Diagonal::BottomRight => CoordPair { y: Order::Forwards, x: Order::Forwards },
        }
    }
}

/// A table holding one value per diagonal.
#[derive(Debug, Clone, Copy, PartialEq, Eq, PartialOrd, Ord, Hash, Default)]
pub struct DiagonalMap<T> {
    pub top_left: T,
    pub top_right: T,
    pub bottom_left: T,
    pub bottom_right: T,
}

impl<T> DiagonalMap<T> {
    /// The entry of diagonal `d`.
    pub open spec fn at(self, d: Diagonal) -> T {
        match d {
            Diagonal::TopLeft => self.top_left,
            Diagonal::TopRight => self.top_right,
            Diagonal::BottomLeft => self.bottom_left,
            Diagonal::BottomRight => self.bottom_right,
        }
    }

    /// The entry of diagonal `d`.
    pub fn get(&self, d: Diagonal) -> (r: &T)
        ensures
            *r == self.at(d),
    {
        match d {
            Diagonal::TopLeft => &self.top_left,
            Diagonal::TopRight => &self.top_right,
            Diagonal::BottomLeft => &self.bottom_left,
            Diagonal::BottomRight => &self.bottom_right,
        }
    }

    /// The entry of diagonal `d`, to change in place; the others stay.
    pub fn get_mut(&mut self, d: Diagonal) -> (r: &mut T)
        ensures
            *r == old(self).at(d),
            final(self).at(d) == *final(r),
            forall|e: Diagonal| e != d ==> #[trigger] final(self).at(e) == old(self).at(e),
    {
        match d {
            Diagonal::TopLeft => &mut self.top_left,
            Diagonal::TopRight => &mut self.top_right,
            Diagonal::BottomLeft => &mut self.bottom_left,
            Diagonal::BottomRight => &mut self.bottom_right,
        }
    }
}

} // verus!
