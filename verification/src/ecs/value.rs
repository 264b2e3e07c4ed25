//! Values of components: every value is stored as one primitive, a `u64`, and
//! converted to and from the component's value type.
use vstd::prelude::*;
use std::marker::PhantomData;
use crate::ecs::component::Component;
use crate::ecs::error::{attrs_added, dec_digits, dec_text, Error, ErrorCause, ErrorContext, Result};
use crate::geometry::axis::{Axis, Direction, Order};
use crate::geometry::coords::CoordPair;
use crate::geometry::rect::Rect;

verus! {

/// The primitive that stores any value.
pub type AnyValue = u64;

/// A value type whose conversions to and from primitives may fail.
pub trait TryValue: Sized {
    /// The value that `primitive` stands for, if any.
    spec fn try_from_spec(primitive: AnyValue) -> Option<Self>;

    /// The primitive that stands for the value, if any.
    spec fn try_to_spec(&self) -> Option<AnyValue>;

    /// The value that `primitive` stands for.
    fn try_from_primitive(primitive: AnyValue) -> (r: Result<Self>)
        ensures
            match r {
                Ok(v) => Self::try_from_spec(primitive) == Some(v),
                Err(_) => Self::try_from_spec(primitive) is None,
            },
            r matches Err(e) ==> e.cause_spec() == ErrorCause::InvalidPrimitive && e.info_spec().entries() == Seq::<
                (Seq<char>, Seq<Seq<char>>),
            >::empty(),
    ;

    /// The primitive that stands for the value.
    fn try_to_primitive(&self) -> (r: Result<AnyValue>)
        ensures
            match r {
                Ok(p) => self.try_to_spec() == Some(p),
                Err(_) => self.try_to_spec() is None,
            },
    ;
}

/// A value type that converts to and from primitives without fail.
pub trait Value: Sized {
    /// The value that `primitive` stands for.
    spec fn from_spec(primitive: AnyValue) -> Self;

    /// The primitive that stands for the value.
    spec fn to_spec(&self) -> AnyValue;

    /// The value that `primitive` stands for.
    fn from_primitive(primitive: AnyValue) -> (r: Self)
        ensures
            r == Self::from_spec(primitive),
    ;

    /// The primitive that stands for the value.
    fn to_primitive(&self) -> (r: AnyValue)
        ensures
            r == self.to_spec(),
    ;
}

impl<V: Value> TryValue for V {
    open spec fn try_from_spec(primitive: AnyValue) -> Option<V> {
        Some(V::from_spec(primitive))
    }

    open spec fn try_to_spec(&self) -> Option<AnyValue> {
        Some(self.to_spec())
    }

    fn try_from_primitive(primitive: AnyValue) -> (r: Result<V>) {
        Ok(V::from_primitive(primitive))
    }

    fn try_to_primitive(&self) -> (r: Result<AnyValue>) {
        Ok(self.to_primitive())
    }
}

impl Value for u8 {
    open spec fn from_spec(primitive: AnyValue) -> u8 {
        primitive as u8
    }

    open spec fn to_spec(&self) -> AnyValue {
        *self as AnyValue
    }

    fn from_primitive(primitive: AnyValue) -> (r: u8) {
        primitive as u8
    }

    fn to_primitive(&self) -> (r: AnyValue) {
        *self as AnyValue
    }
}

impl Value for i8 {
    open spec fn from_spec(primitive: AnyValue) -> i8 {
        primitive as i8
    }

    open spec fn to_spec(&self) -> AnyValue {
        *self as AnyValue
    }

    fn from_primitive(primitive: AnyValue) -> (r: i8) {
        primitive as i8
    }

    fn to_primitive(&self) -> (r: AnyValue) {
        *self as AnyValue
    }
}

impl Value for u16 {
    open spec fn from_spec(primitive: AnyValue) -> u16 {
        primitive as u16
    }

    open spec fn to_spec(&self) -> AnyValue {
        *self as AnyValue
    }

    fn from_primitive(primitive: AnyValue) -> (r: u16) {
        primitive as u16
    }

    fn to_primitive(&self) -> (r: AnyValue) {
        *self as AnyValue
    }
}

impl Value for i16 {
    open spec fn from_spec(primitive: AnyValue) -> i16 {
        primitive as i16
    }

    open spec fn to_spec(&self) -> AnyValue {
        *self as AnyValue
    }

    fn from_primitive(primitive: AnyValue) -> (r: i16) {
        primitive as i16
    }

    fn to_primitive(&self) -> (r: AnyValue) {
        *self as AnyValue
    }
}

impl Value for u32 {
    open spec fn from_spec(primitive: AnyValue) -> u32 {
        primitive as u32
    }

    open spec fn to_spec(&self) -> AnyValue {
        *self as AnyValue
    }

    fn from_primitive(primitive: AnyValue) -> (r: u32) {
        primitive as u32
    }

    fn to_primitive(&self) -> (r: AnyValue) {
        *self as AnyValue
    }
}

impl Value for i32 {
    open spec fn from_spec(primitive: AnyValue) -> i32 {
        primitive as i32
    }

    open spec fn to_spec(&self) -> AnyValue {
        *self as AnyValue
    }

    fn from_primitive(primitive: AnyValue) -> (r: i32) {
        primitive as i32
    }

    fn to_primitive(&self) -> (r: AnyValue) {
        *self as AnyValue
    }
}

impl Value for u64 {
    open spec fn from_spec(primitive: AnyValue) -> u64 {
        primitive
    }

    open spec fn to_spec(&self) -> AnyValue {
        *self
    }

    fn from_primitive(primitive: AnyValue) -> (r: u64) {
        primitive
    }

    fn to_primitive(&self) -> (r: AnyValue) {
        *self
    }
}

impl Value for i64 {
    open spec fn from_spec(primitive: AnyValue) -> i64 {
        primitive as i64
    }

    open spec fn to_spec(&self) -> AnyValue {
        *self as AnyValue
    }

    fn from_primitive(primitive: AnyValue) -> (r: i64) {
        primitive as i64
    }

    fn to_primitive(&self) -> (r: AnyValue) {
        *self as AnyValue
    }
}

impl Value for bool {
    open spec fn from_spec(primitive: AnyValue) -> bool {
        primitive != 0
    }

    open spec fn to_spec(&self) -> AnyValue {
        if *self {
            1
        } else {
            0
        }
    }

    fn from_primitive(primitive: AnyValue) -> (r: bool) {
        primitive != 0
    }

    fn to_primitive(&self) -> (r: AnyValue) {
        if *self {
            1
        } else {
            0
        }
    }
}

impl Value for CoordPair<u8> {
    open spec fn from_spec(primitive: AnyValue) -> CoordPair<u8> {
        CoordPair { y: (primitive & 0xff) as u8, x: ((primitive >> 8u64) & 0xff) as u8 }
    }

    open spec fn to_spec(&self) -> AnyValue {
        (self.y as AnyValue) | ((self.x as AnyValue) << 8u64)
    }

    fn from_primitive(primitive: AnyValue) -> (r: CoordPair<u8>) {
        CoordPair { y: (primitive & 0xff) as u8, x: ((primitive >> 8) & 0xff) as u8 }
    }

    fn to_primitive(&self) -> (r: AnyValue) {
        (self.y as AnyValue) | ((self.x as AnyValue) << 8)
    }
}

impl Value for CoordPair<u16> {
    open spec fn from_spec(primitive: AnyValue) -> CoordPair<u16> {
        CoordPair { y: (primitive & 0xffff) as u16, x: ((primitive >> 16u64) & 0xffff) as u16 }
    }

    open spec fn to_spec(&self) -> AnyValue {
        (self.y as AnyValue) | ((self.x as AnyValue) << 16u64)
    }

    fn from_primitive(primitive: AnyValue) -> (r: CoordPair<u16>) {
        CoordPair { y: (primitive & 0xffff) as u16, x: ((primitive >> 16) & 0xffff) as u16 }
    }

    fn to_primitive(&self) -> (r: AnyValue) {
        (self.y as AnyValue) | ((self.x as AnyValue) << 16)
    }
}

impl Value for CoordPair<u32> {
    open spec fn from_spec(primitive: AnyValue) -> CoordPair<u32> {
        CoordPair { y: (primitive & 0xffff_ffff) as u32, x: ((primitive >> 32u64) & 0xffff_ffff) as u32 }
    }

    open spec fn to_spec(&self) -> AnyValue {
        (self.y as AnyValue) | ((self.x as AnyValue) << 32u64)
    }

    fn from_primitive(primitive: AnyValue) -> (r: CoordPair<u32>) {
        CoordPair { y: (primitive & 0xffff_ffff) as u32, x: ((primitive >> 32) & 0xffff_ffff) as u32 }
    }

    fn to_primitive(&self) -> (r: AnyValue) {
        (self.y as AnyValue) | ((self.x as AnyValue) << 32)
    }
}

impl Value for Rect<u8> {
    open spec fn from_spec(primitive: AnyValue) -> Rect<u8> {
        Rect {
            top_left: CoordPair::<u8>::from_spec(primitive & 0xffff),
            size: CoordPair::<u8>::from_spec((primitive >> 16u64) & 0xffff),
        }
    }

    open spec fn to_spec(&self) -> AnyValue {
        self.top_left.to_spec() | (self.size.to_spec() << 16u64)
    }

    fn from_primitive(primitive: AnyValue) -> (r: Rect<u8>) {
        Rect {
            top_left: CoordPair::<u8>::from_primitive(primitive & 0xffff),
            size: CoordPair::<u8>::from_primitive((primitive >> 16) & 0xffff),
        }
    }

    fn to_primitive(&self) -> (r: AnyValue) {
        self.top_left.to_primitive() | (self.size.to_primitive() << 16)
    }
}

impl Value for Rect<u16> {
    open spec fn from_spec(primitive: AnyValue) -> Rect<u16> {
        Rect {
            top_left: CoordPair::<u16>::from_spec(primitive & 0xffff_ffff),
            size: CoordPair::<u16>::from_spec((primitive >> 32u64) & 0xffff_ffff),
        }
    }

    open spec fn to_spec(&self) -> AnyValue {
        self.top_left.to_spec() | (self.size.to_spec() << 32u64)
    }

    fn from_primitive(primitive: AnyValue) -> (r: Rect<u16>) {
        Rect {
            top_left: CoordPair::<u16>::from_primitive(primitive & 0xffff_ffff),
            size: CoordPair::<u16>::from_primitive((primitive >> 32) & 0xffff_ffff),
        }
    }

    fn to_primitive(&self) -> (r: AnyValue) {
        self.top_left.to_primitive() | (self.size.to_primitive() << 32)
    }
}

/// The error of a primitive that stands for no value.
fn invalid_primitive() -> (r: Error)
    ensures
        r.cause_spec() == ErrorCause::InvalidPrimitive,
        r.info_spec().entries() == Seq::<(Seq<char>, Seq<Seq<char>>)>::empty(),
{
    ErrorContext::new(ErrorCause::InvalidPrimitive)
}

impl TryValue for Direction {
    open spec fn try_from_spec(primitive: AnyValue) -> Option<Direction> {
        if primitive == 0 {
            Some(Direction::Up)
        } else if primitive == 1 {
            Some(Direction::Left)
        } else if primitive == 2 {
            Some(Direction::Down)
        } else if primitive == 3 {
            Some(Direction::Right)
        } else {
            None
        }
    }

    open spec fn try_to_spec(&self) -> Option<AnyValue> {
        Some(
            match *self {
                Direction::Up => 0,
                Direction::Left => 1,
                Direction::Down => 2,
                Direction::Right => 3,
            },
        )
    }

    fn try_from_primitive(primitive: AnyValue) -> (r: Result<Direction>) {
        if primitive == 0 {
            Ok(Direction::Up)
        } else if primitive == 1 {
            Ok(Direction::Left)
        } else if primitive == 2 {
            Ok(Direction::Down)
        } else if primitive == 3 {
            Ok(Direction::Right)
        } else {
            Err(invalid_primitive())
        }
    }

    fn try_to_primitive(&self) -> (r: Result<AnyValue>) {
        Ok(
            match *self {
                Direction::Up => 0,
                Direction::Left => 1,
                Direction::Down => 2,
                Direction::Right => 3,
            },
        )
    }
}

impl TryValue for Axis {
    open spec fn try_from_spec(primitive: AnyValue) -> Option<Axis> {
        if primitive == 0 {
            Some(Axis::Y)
        } else if primitive == 1 {
            Some(Axis::X)
        } else {
            None
        }
    }

    open spec fn try_to_spec(&self) -> Option<AnyValue> {
        Some(
            match *self {
                Axis::Y => 0,
                Axis::X => 1,
            },
        )
    }

    fn try_from_primitive(primitive: AnyValue) -> (r: Result<Axis>) {
        if primitive == 0 {
            Ok(Axis::Y)
        } else if primitive == 1 {
            Ok(Axis::X)
        } else {
            Err(invalid_primitive())
        }
    }

    fn try_to_primitive(&self) -> (r: Result<AnyValue>) {
        Ok(
            match *self {
                Axis::Y => 0,
                Axis::X => 1,
            },
        )
    }
}

impl TryValue for Order {
    open spec fn try_from_spec(primitive: AnyValue) -> Option<Order> {
        if primitive == 0 {
            Some(Order::Backwards)
        } else if primitive == 1 {
            Some(Order::Forwards)
        } else {
            None
        }
    }

    open spec fn try_to_spec(&self) -> Option<AnyValue> {
        Some(
            match *self {
                Order::Backwards => 0,
                Order::Forwards => 1,
            },
        )
    }

    fn try_from_primitive(primitive: AnyValue) -> (r: Result<Order>) {
        if primitive == 0 {
            Ok(Order::Backwards)
        } else if primitive == 1 {
            Ok(Order::Forwards)
        } else {
            Err(invalid_primitive())
        }
    }

    fn try_to_primitive(&self) -> (r: Result<AnyValue>) {
        Ok(
            match *self {
                Order::Backwards => 0,
                Order::Forwards => 1,
            },
        )
    }
}

/// A value read from or written to a component, as its primitive.
#[derive(Debug)]
pub struct RawEntry {
    primitive: AnyValue,
}

impl RawEntry {
    /// The primitive held.
    pub closed spec fn primitive_spec(self) -> AnyValue {
        self.primitive
    }

    /// An entry holding `primitive`.
    pub(crate) fn new(primitive: AnyValue) -> (r: RawEntry)
        ensures
            r.primitive_spec() == primitive,
    {
        RawEntry { primitive }
    }

    /// The value the primitive stands for.
    pub fn get<V: Value>(&self) -> (r: V)
        ensures
            r == V::from_spec(self.primitive_spec()),
    {
        V::from_primitive(self.get_primitive())
    }

    /// Stores the primitive of `value`.
    pub fn set<V: Value>(&mut self, value: V)
        ensures
            final(self).primitive_spec() == value.to_spec(),
    {
        self.set_primitive(value.to_primitive());
    }

    /// The value the primitive stands for, or an error when it stands for none.
    pub fn try_get<V: TryValue>(&self) -> (r: Result<V>)
        ensures
            match r {
                Ok(v) => V::try_from_spec(self.primitive_spec()) == Some(v),
                Err(_) => V::try_from_spec(self.primitive_spec()) is None,
            },
            r matches Err(e) ==> e.cause_spec() == ErrorCause::InvalidPrimitive && e.info_spec().entries()
                == attrs_added(
                Seq::<(Seq<char>, Seq<Seq<char>>)>::empty(),
                "primitive"@,
                dec_digits(self.primitive_spec() as nat),
            ),
    {
        let primitive = self.get_primitive();
        match V::try_from_primitive(primitive) {
            Ok(v) => Ok(v),
            Err(e) => Err(e.adding_info("primitive", dec_text(primitive))),
        }
    }

    /// Stores the primitive of `value`, or fails, unchanged, when it has none.
    pub fn try_set<V: TryValue>(&mut self, value: V) -> (r: Result<()>)
        ensures
            match r {
                Ok(()) => value.try_to_spec() == Some(final(self).primitive_spec()),
                Err(_) => value.try_to_spec() is None && final(self).primitive_spec() == old(self).primitive_spec(),
            },
    {
        let primitive = match value.try_to_primitive() {
            Ok(p) => p,
            Err(e) => return Err(e),
        };
        self.set_primitive(primitive);
        Ok(())
    }

    /// The primitive held.
    pub fn get_primitive(&self) -> (r: AnyValue)
        ensures
            r == self.primitive_spec(),
    {
        self.primitive
    }

    /// Stores `primitive`.
    pub fn set_primitive(&mut self, primitive: AnyValue)
        ensures
            final(self).primitive_spec() == primitive,
    {
        self.primitive = primitive;
    }
}

/// A raw entry seen as a value of the component `C`.
pub struct Entry<'b, C> {
    pub raw: &'b mut RawEntry,
    pub marker: PhantomData<C>,
}

impl<'b, C> Entry<'b, C> {
    /// The raw entry seen as a value of `C`.
    pub fn from_raw(raw: &'b mut RawEntry) -> (r: Entry<'b, C>)
        ensures
            *r.raw == *old(raw),
            *final(raw) == *final(r.raw),
    {
        Entry { raw, marker: PhantomData }
    }

    /// The raw entry.
    pub fn into_raw(self) -> (r: &'b mut RawEntry)
        ensures
            *r == *old(self.raw),
            *final(self.raw) == *final(r),
    {
        self.raw
    }

    /// The value held.
    pub fn get(&self) -> (r: C::Value) where C: Component, C::Value: Value
        ensures
            r == C::Value::from_spec(old(self.raw).primitive_spec()),
    {
        self.raw.get()
    }

    /// Stores `value`.
    pub fn set(&mut self, value: C::Value) where C: Component, C::Value: Value
        ensures
            final(self).raw.primitive_spec() == value.to_spec(),
            *final(final(self).raw) == *final(old(self).raw),
    {
        self.raw.set(value);
    }

    /// The value held, or an error when the primitive stands for none.
    pub fn try_get(&self) -> (r: Result<C::Value>) where C: Component
        ensures
            match r {
                Ok(v) => C::Value::try_from_spec(old(self.raw).primitive_spec()) == Some(v),
                Err(_) => C::Value::try_from_spec(old(self.raw).primitive_spec()) is None,
            },
            r matches Err(e) ==> e.cause_spec() == ErrorCause::InvalidPrimitive && e.info_spec().entries()
                == attrs_added(
                Seq::<(Seq<char>, Seq<Seq<char>>)>::empty(),
                "primitive"@,
                dec_digits(old(self.raw).primitive_spec() as nat),
            ),
    {
        self.raw.try_get()
    }

    /// Stores `value`, or fails, unchanged, when it has no primitive.
    pub fn try_set(&mut self, value: C::Value) -> (r: Result<()>) where C: Component
        ensures
            match r {
                Ok(()) => value.try_to_spec() == Some(final(self).raw.primitive_spec()),
                Err(_) => value.try_to_spec() is None && final(self).raw.primitive_spec() == old(self).raw.primitive_spec(),
            },
            *final(final(self).raw) == *final(old(self).raw),
    {
        self.raw.try_set(value)
    }
}

/// Reading back what was stored gives the value stored: for each primitive
/// type, the value that the primitive of `v` stands for is `v`. So after
/// `set(v)` on an entry, `get` gives `v` and `get_primitive` gives the
/// primitive of `v`.
pub proof fn law_value_round_trip(a: u8, b: i8, c: u16, d: i16, e: u32, f: i32, g: u64, h: i64, i: bool)
    ensures
        u8::from_spec(a.to_spec()) == a,
        i8::from_spec(b.to_spec()) == b,
        u16::from_spec(c.to_spec()) == c,
        i16::from_spec(d.to_spec()) == d,
        u32::from_spec(e.to_spec()) == e,
        i32::from_spec(f.to_spec()) == f,
        u64::from_spec(g.to_spec()) == g,
        i64::from_spec(h.to_spec()) == h,
        bool::from_spec(i.to_spec()) == i,
{
    assert((a as u64) as u8 == a) by (bit_vector);
    assert((b as u64) as i8 == b) by (bit_vector);
    assert((c as u64) as u16 == c) by (bit_vector);
    assert((d as u64) as i16 == d) by (bit_vector);
    assert((e as u64) as u32 == e) by (bit_vector);
    assert((f as u64) as i32 == f) by (bit_vector);
    assert((h as u64) as i64 == h) by (bit_vector);
}

/// Reading back a stored point gives the point stored, for each width of
/// coordinate.
pub proof fn law_point_round_trip(a: CoordPair<u8>, b: CoordPair<u16>, c: CoordPair<u32>)
    ensures
        CoordPair::<u8>::from_spec(a.to_spec()) == a,
        CoordPair::<u16>::from_spec(b.to_spec()) == b,
        CoordPair::<u32>::from_spec(c.to_spec()) == c,
{
    let (ay, ax) = (a.y, a.x);
    let (qy, qx) = (b.y, b.x);
    let (cy, cx) = (c.y, c.x);
    assert((((ay as u64) | ((ax as u64) << 8u64)) & 0xff) as u8 == ay && ((((ay as u64) | ((ax as u64) << 8u64))
        >> 8u64) & 0xff) as u8 == ax) by (bit_vector);
    assert((((qy as u64) | ((qx as u64) << 16u64)) & 0xffff) as u16 == qy && ((((qy as u64) | ((qx as u64)
        << 16u64)) >> 16u64) & 0xffff) as u16 == qx) by (bit_vector);
    assert((((cy as u64) | ((cx as u64) << 32u64)) & 0xffff_ffff) as u32 == cy && ((((cy as u64) | ((cx as u64)
        << 32u64)) >> 32u64) & 0xffff_ffff) as u32 == cx) by (bit_vector);
}

} // verus!
