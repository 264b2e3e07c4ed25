//! Packing small values into the bits of unsigned integers.
use vstd::prelude::*;

verus! {

/// An unsigned integer used as a vector of bits.
pub trait BitVector: Copy + Sized {
    /// The number of bits.
    const BIT_COUNT: u32;

    /// The vector with no bit set.
    const ZERO: Self;

    /// The number of bits, in specifications.
    spec fn width() -> u32;

    /// The `width` bits starting at bit `shift`, moved down to bit 0.
    spec fn field(self, shift: u32, width: u32) -> Self;

    /// The vector with its `width` bits starting at bit `shift` cleared and
    /// `value`, moved up by `shift`, or-ed in.
    spec fn insert_field(self, shift: u32, width: u32, value: Self) -> Self;

    /// Whether `value` has no bit set at or above bit `width`.
    spec fn fits(value: Self, width: u32) -> bool;

    proof fn lemma_consts()
        ensures
            Self::BIT_COUNT == Self::width(),
            Self::width() >= 8,
    ;

    fn read_field(self, shift: u32, width: u32) -> (r: Self)
        requires
            1 <= width <= Self::width(),
            shift + width <= Self::width(),
        ensures
            r == self.field(shift, width),
    ;

    fn write_field(self, shift: u32, width: u32, value: Self) -> (r: Self)
        requires
            1 <= width <= Self::width(),
            shift + width <= Self::width(),
        ensures
            r == self.insert_field(shift, width, value),
    ;

    /// A field that was just written reads back as the value written.
    proof fn lemma_read_written(self, shift: u32, width: u32, value: Self)
        requires
            1 <= width <= Self::width(),
            shift + width <= Self::width(),
            Self::fits(value, width),
        ensures
            self.insert_field(shift, width, value).field(shift, width) == value,
    ;

    /// Writing a field leaves every field that does not overlap it as it was.
    proof fn lemma_other_field(self, shift: u32, other: u32, width: u32, value: Self)
        requires
            1 <= width <= Self::width(),
            shift + width <= Self::width(),
            other + width <= Self::width(),
            shift + width <= other || other + width <= shift,
            Self::fits(value, width),
        ensures
            self.insert_field(shift, width, value).field(other, width) == self.field(other, width),
    ;

    /// Every field of the vector with no bit set is that vector.
    proof fn lemma_zero_field(shift: u32, width: u32)
        requires
            1 <= width <= Self::width(),
            shift + width <= Self::width(),
        ensures
            Self::ZERO.field(shift, width) == Self::ZERO,
    ;
}

impl BitVector for u8 {
    const BIT_COUNT: u32 = 8;

    const ZERO: Self = 0;

    open spec fn width() -> u32 {
        8
    }

    open spec fn field(self, shift: u32, width: u32) -> Self {
        (self >> shift) & (!0u8 >> (8 - width) as u32)
    }

    open spec fn insert_field(self, shift: u32, width: u32, value: Self) -> Self {
        (self & !((!0u8 >> (8 - width) as u32) << shift)) | (value << shift)
    }

    open spec fn fits(value: Self, width: u32) -> bool {
        value & (!0u8 >> (8 - width) as u32) == value
    }

    proof fn lemma_consts() {
    }

    fn read_field(self, shift: u32, width: u32) -> (r: Self) {
        let mask = !0u8 >> (8 - width);
        (self >> shift) & mask
    }

    fn write_field(self, shift: u32, width: u32, value: Self) -> (r: Self) {
        let mask = !0u8 >> (8 - width);
        (self & !(mask << shift)) | (value << shift)
    }

    proof fn lemma_read_written(self, shift: u32, width: u32, value: Self) {
        let x = self;
        assert((((x & !((!0u8 >> (8 - width) as u32) << shift)) | (value << shift)) >> shift) & (!0u8 >> (8 - width) as u32) == value) by (bit_vector)
            requires
                1 <= width <= 8,
                shift + width <= 8,
                value & (!0u8 >> (8 - width) as u32) == value;
    }

    proof fn lemma_other_field(self, shift: u32, other: u32, width: u32, value: Self) {
        let x = self;
        assert((((x & !((!0u8 >> (8 - width) as u32) << shift)) | (value << shift)) >> other) & (!0u8 >> (8 - width) as u32) == (x >> other) & (!0u8 >> (8 - width) as u32)) by (bit_vector)
            requires
                1 <= width <= 8,
                shift + width <= 8,
                other + width <= 8,
                shift + width <= other || other + width <= shift,
                value & (!0u8 >> (8 - width) as u32) == value;
    }

    proof fn lemma_zero_field(shift: u32, width: u32) {
        assert((0u8 >> shift) & (!0u8 >> (8 - width) as u32) == 0u8) by (bit_vector)
            requires
                1 <= width <= 8,
                shift + width <= 8;
    }
}

impl BitVector for u16 {
    const BIT_COUNT: u32 = 16;

    const ZERO: Self = 0;

    open spec fn width() -> u32 {
        16
    }

    open spec fn field(self, shift: u32, width: u32) -> Self {
        (self >> shift) & (!0u16 >> (16 - width) as u32)
    }

    open spec fn insert_field(self, shift: u32, width: u32, value: Self) -> Self {
        (self & !((!0u16 >> (16 - width) as u32) << shift)) | (value << shift)
    }

    open spec fn fits(value: Self, width: u32) -> bool {
        value & (!0u16 >> (16 - width) as u32) == value
    }

    proof fn lemma_consts() {
    }

    fn read_field(self, shift: u32, width: u32) -> (r: Self) {
        let mask = !0u16 >> (16 - width);
        (self >> shift) & mask
    }

    fn write_field(self, shift: u32, width: u32, value: Self) -> (r: Self) {
        let mask = !0u16 >> (16 - width);
        (self & !(mask << shift)) | (value << shift)
    }

    proof fn lemma_read_written(self, shift: u32, width: u32, value: Self) {
        let x = self;
        assert((((x & !((!0u16 >> (16 - width) as u32) << shift)) | (value << shift)) >> shift) & (!0u16 >> (16 - width) as u32) == value) by (bit_vector)
            requires
                1 <= width <= 16,
                shift + width <= 16,
                value & (!0u16 >> (16 - width) as u32) == value;
    }

    proof fn lemma_other_field(self, shift: u32, other: u32, width: u32, value: Self) {
        let x = self;
        assert((((x & !((!0u16 >> (16 - width) as u32) << shift)) | (value << shift)) >> other) & (!0u16 >> (16 - width) as u32) == (x >> other) & (!0u16 >> (16 - width) as u32)) by (bit_vector)
            requires
                1 <= width <= 16,
                shift + width <= 16,
                other + width <= 16,
                shift + width <= other || other + width <= shift,
                value & (!0u16 >> (16 - width) as u32) == value;
    }

    proof fn lemma_zero_field(shift: u32, width: u32) {
        assert((0u16 >> shift) & (!0u16 >> (16 - width) as u32) == 0u16) by (bit_vector)
            requires
                1 <= width <= 16,
                shift + width <= 16;
    }
}

impl BitVector for u32 {
    const BIT_COUNT: u32 = 32;

    const ZERO: Self = 0;

    open spec fn width() -> u32 {
        32
    }

    open spec fn field(self, shift: u32, width: u32) -> Self {
        (self >> shift) & (!0u32 >> (32 - width) as u32)
    }

    open spec fn insert_field(self, shift: u32, width: u32, value: Self) -> Self {
        (self & !((!0u32 >> (32 - width) as u32) << shift)) | (value << shift)
    }

    open spec fn fits(value: Self, width: u32) -> bool {
        value & (!0u32 >> (32 - width) as u32) == value
    }

    proof fn lemma_consts() {
    }

    fn read_field(self, shift: u32, width: u32) -> (r: Self) {
        let mask = !0u32 >> (32 - width);
        (self >> shift) & mask
    }

    fn write_field(self, shift: u32, width: u32, value: Self) -> (r: Self) {
        let mask = !0u32 >> (32 - width);
        (self & !(mask << shift)) | (value << shift)
    }

    proof fn lemma_read_written(self, shift: u32, width: u32, value: Self) {
        let x = self;
        assert((((x & !((!0u32 >> (32 - width) as u32) << shift)) | (value << shift)) >> shift) & (!0u32 >> (32 - width) as u32) == value) by (bit_vector)
            requires
                1 <= width <= 32,
                shift + width <= 32,
                value & (!0u32 >> (32 - width) as u32) == value;
    }

    proof fn lemma_other_field(self, shift: u32, other: u32, width: u32, value: Self) {
        let x = self;
        assert((((x & !((!0u32 >> (32 - width) as u32) << shift)) | (value << shift)) >> other) & (!0u32 >> (32 - width) as u32) == (x >> other) & (!0u32 >> (32 - width) as u32)) by (bit_vector)
            requires
                1 <= width <= 32,
                shift + width <= 32,
                other + width <= 32,
                shift + width <= other || other + width <= shift,
                value & (!0u32 >> (32 - width) as u32) == value;
    }

    proof fn lemma_zero_field(shift: u32, width: u32) {
        assert((0u32 >> shift) & (!0u32 >> (32 - width) as u32) == 0u32) by (bit_vector)
            requires
                1 <= width <= 32,
                shift + width <= 32;
    }
}

impl BitVector for u64 {
    const BIT_COUNT: u32 = 64;

    const ZERO: Self = 0;

    open spec fn width() -> u32 {
        64
    }

    open spec fn field(self, shift: u32, width: u32) -> Self {
        (self >> shift) & (!0u64 >> (64 - width) as u32)
    }

    open spec fn insert_field(self, shift: u32, width: u32, value: Self) -> Self {
        (self & !((!0u64 >> (64 - width) as u32) << shift)) | (value << shift)
    }

    open spec fn fits(value: Self, width: u32) -> bool {
        value & (!0u64 >> (64 - width) as u32) == value
    }

    proof fn lemma_consts() {
    }

    fn read_field(self, shift: u32, width: u32) -> (r: Self) {
        let mask = !0u64 >> (64 - width);
        (self >> shift) & mask
    }

    fn write_field(self, shift: u32, width: u32, value: Self) -> (r: Self) {
        let mask = !0u64 >> (64 - width);
        (self & !(mask << shift)) | (value << shift)
    }

    proof fn lemma_read_written(self, shift: u32, width: u32, value: Self) {
        let x = self;
        assert((((x & !((!0u64 >> (64 - width) as u32) << shift)) | (value << shift)) >> shift) & (!0u64 >> (64 - width) as u32) == value) by (bit_vector)
            requires
                1 <= width <= 64,
                shift + width <= 64,
                value & (!0u64 >> (64 - width) as u32) == value;
    }

    proof fn lemma_other_field(self, shift: u32, other: u32, width: u32, value: Self) {
        let x = self;
        assert((((x & !((!0u64 >> (64 - width) as u32) << shift)) | (value << shift)) >> other) & (!0u64 >> (64 - width) as u32) == (x >> other) & (!0u64 >> (64 - width) as u32)) by (bit_vector)
            requires
                1 <= width <= 64,
                shift + width <= 64,
                other + width <= 64,
                shift + width <= other || other + width <= shift,
                value & (!0u64 >> (64 - width) as u32) == value;
    }

    proof fn lemma_zero_field(shift: u32, width: u32) {
        assert((0u64 >> shift) & (!0u64 >> (64 - width) as u32) == 0u64) by (bit_vector)
            requires
                1 <= width <= 64,
                shift + width <= 64;
    }
}

impl BitVector for u128 {
    const BIT_COUNT: u32 = 128;

    const ZERO: Self = 0;

    open spec fn width() -> u32 {
        128
    }

    open spec fn field(self, shift: u32, width: u32) -> Self {
        (self >> shift) & (!0u128 >> (128 - width) as u32)
    }

    open spec fn insert_field(self, shift: u32, width: u32, value: Self) -> Self {
        (self & !((!0u128 >> (128 - width) as u32) << shift)) | (value << shift)
    }

    open spec fn fits(value: Self, width: u32) -> bool {
        value & (!0u128 >> (128 - width) as u32) == value
    }

    proof fn lemma_consts() {
    }

    fn read_field(self, shift: u32, width: u32) -> (r: Self) {
        let mask = !0u128 >> (128 - width);
        (self >> shift) & mask
    }

    fn write_field(self, shift: u32, width: u32, value: Self) -> (r: Self) {
        let mask = !0u128 >> (128 - width);
        (self & !(mask << shift)) | (value << shift)
    }

    #[verifier::rlimit(100)]
    proof fn lemma_read_written(self, shift: u32, width: u32, value: Self) {
        let x = self;
        assert((((x & !((!0u128 >> (128 - width) as u32) << shift)) | (value << shift)) >> shift) & (!0u128 >> (128 - width) as u32) == value) by (bit_vector)
            requires
                1 <= width <= 128,
                shift + width <= 128,
                value & (!0u128 >> (128 - width) as u32) == value;
    }

    #[verifier::rlimit(100)]
    proof fn lemma_other_field(self, shift: u32, other: u32, width: u32, value: Self) {
        let x = self;
        assert((((x & !((!0u128 >> (128 - width) as u32) << shift)) | (value << shift)) >> other) & (!0u128 >> (128 - width) as u32) == (x >> other) & (!0u128 >> (128 - width) as u32)) by (bit_vector)
            requires
                1 <= width <= 128,
                shift + width <= 128,
                other + width <= 128,
                shift + width <= other || other + width <= shift,
                value & (!0u128 >> (128 - width) as u32) == value;
    }

    proof fn lemma_zero_field(shift: u32, width: u32) {
        assert((0u128 >> shift) & (!0u128 >> (128 - width) as u32) == 0u128) by (bit_vector)
            requires
                1 <= width <= 128,
                shift + width <= 128;
    }
}


/// A value that can be packed into the low bits of a bit vector.
pub trait BitPack: Copy + Sized {
    /// The bit vector that holds packed values.
    type BitVector: BitVector;

    /// How many low bits a packed value takes.
    const BIT_COUNT: u32;

    /// The packed bits of a value, in specifications.
    spec fn pack_spec(self) -> Self::BitVector;

    /// The value that some bits unpack to, if any, in specifications.
    spec fn unpack_spec(bits: Self::BitVector) -> Option<Self>;

    /// The packed bits of the value.
    fn pack(self) -> (r: Self::BitVector)
        ensures
            r == self.pack_spec(),
    ;

    /// The value that `bits` unpack to, if any.
    fn unpack(bits: Self::BitVector) -> (r: Option<Self>)
        ensures
            r == Self::unpack_spec(bits),
    ;
}

/// Whether packed values of `T` fit in its bit vector: at least one bit, at most
/// all of them.
pub open spec fn packable<T: BitPack>() -> bool {
    1 <= T::BIT_COUNT <= <T::BitVector as BitVector>::width()
}

/// How many packed values of `T` one element of the buffer holds.
pub open spec fn per_elem<T: BitPack>() -> int {
    (<T::BitVector as BitVector>::width() / T::BIT_COUNT) as int
}

/// The element of the buffer that holds the value at `index`.
pub open spec fn elem_of<T: BitPack>(index: int) -> int {
    index / per_elem::<T>()
}

/// The bit shift, within its element, of the value at `index`.
pub open spec fn shift_of<T: BitPack>(index: int) -> u32 {
    ((index % per_elem::<T>()) * T::BIT_COUNT) as u32
}

/// The bits stored for the value at `index`.
pub open spec fn packed_at<T: BitPack>(buf: Seq<T::BitVector>, index: int) -> T::BitVector {
    buf[elem_of::<T>(index)].field(shift_of::<T>(index), T::BIT_COUNT)
}

/// What reading the value at `index` gives: the value its bits unpack to, or
/// the bits when they unpack to none.
pub open spec fn read_spec<T: BitPack>(buf: Seq<T::BitVector>, index: int) -> Result<T, T::BitVector> {
    match T::unpack_spec(packed_at::<T>(buf, index)) {
        Some(v) => Ok(v),
        None => Err(packed_at::<T>(buf, index)),
    }
}

/// The buffer after writing `data` at `index`.
pub open spec fn write_spec<T: BitPack>(buf: Seq<T::BitVector>, index: int, data: T) -> Seq<T::BitVector> {
    buf.update(
        elem_of::<T>(index),
        buf[elem_of::<T>(index)].insert_field(shift_of::<T>(index), T::BIT_COUNT, data.pack_spec()),
    )
}

/// Facts about where a value is stored.
pub proof fn lemma_slot<T: BitPack>(index: int)
    requires
        packable::<T>(),
        0 <= index,
    ensures
        per_elem::<T>() >= 1,
        0 <= elem_of::<T>(index),
        shift_of::<T>(index) + T::BIT_COUNT <= <T::BitVector as BitVector>::width(),
        (index % per_elem::<T>()) * T::BIT_COUNT + T::BIT_COUNT <= <T::BitVector as BitVector>::width(),
{
    let w = <T::BitVector as BitVector>::width() as int;
    let k = T::BIT_COUNT as int;
    let p = per_elem::<T>();
    assert(p >= 1) by (nonlinear_arith)
        requires
            p == w / k,
            1 <= k <= w,
    ;
    assert(index / p >= 0) by (nonlinear_arith)
        requires
            p >= 1,
            index >= 0,
    ;
    let j = index % p;
    assert(0 <= j < p) by (nonlinear_arith)
        requires
            p >= 1,
            j == index % p,
    ;
    assert(j * k + k <= w) by (nonlinear_arith)
        requires
            0 <= j < p,
            p == w / k,
            1 <= k <= w,
    ;
}

/// Writes `data` packed at `index` of `buf`.
pub fn write_packed<T: BitPack>(buf: &mut [T::BitVector], index: usize, data: T)
    requires
        packable::<T>(),
        elem_of::<T>(index as int) < old(buf)@.len(),
    ensures
        final(buf)@ == write_spec::<T>(old(buf)@, index as int, data),
        final(buf)@.len() == old(buf)@.len(),
{
    proof {
        <T::BitVector as BitVector>::lemma_consts();
        lemma_slot::<T>(index as int);
    }
    let per_elem = <T::BitVector as BitVector>::BIT_COUNT / T::BIT_COUNT;
    let inter_elem = index / (per_elem as usize);
    let intra_elem = index % (per_elem as usize);
    let shift = (intra_elem as u32) * T::BIT_COUNT;
    let packed = data.pack();
    let stored = buf[inter_elem].write_field(shift, T::BIT_COUNT, packed);
    buf[inter_elem] = stored;
}

/// Reads the value packed at `index` of `buf`, or the bits stored there when
/// they unpack to no value.
pub fn read_packed<T: BitPack>(buf: &[T::BitVector], index: usize) -> (r: Result<T, T::BitVector>)
    requires
        packable::<T>(),
        elem_of::<T>(index as int) < buf@.len(),
    ensures
        r == read_spec::<T>(buf@, index as int),
{
    proof {
        <T::BitVector as BitVector>::lemma_consts();
        lemma_slot::<T>(index as int);
    }
    let per_elem = <T::BitVector as BitVector>::BIT_COUNT / T::BIT_COUNT;
    let inter_elem = index / (per_elem as usize);
    let intra_elem = index % (per_elem as usize);
    let shift = (intra_elem as u32) * T::BIT_COUNT;
    let packed = buf[inter_elem].read_field(shift, T::BIT_COUNT);
    match T::unpack(packed) {
        Some(v) => Ok(v),
        None => Err(packed),
    }
}

/// Reading back the index just written gives the value written, when its packed
/// bits fit and unpack to it.
pub proof fn lemma_read_after_write<T: BitPack>(buf: Seq<T::BitVector>, index: int, data: T)
    requires
        packable::<T>(),
        0 <= index,
        elem_of::<T>(index) < buf.len(),
        <T::BitVector as BitVector>::fits(data.pack_spec(), T::BIT_COUNT),
        T::unpack_spec(data.pack_spec()) == Some(data),
    ensures
        read_spec::<T>(write_spec::<T>(buf, index, data), index) == Ok::<T, T::BitVector>(data),
{
    lemma_slot::<T>(index);
    buf[elem_of::<T>(index)].lemma_read_written(shift_of::<T>(index), T::BIT_COUNT, data.pack_spec());
}

/// Writing at one index leaves what every other index reads as it was, when the
/// packed bits fit.
pub proof fn lemma_write_keeps_others<T: BitPack>(buf: Seq<T::BitVector>, index: int, other: int, data: T)
    requires
        packable::<T>(),
        0 <= index,
        0 <= other,
        index != other,
        elem_of::<T>(index) < buf.len(),
        elem_of::<T>(other) < buf.len(),
        <T::BitVector as BitVector>::fits(data.pack_spec(), T::BIT_COUNT),
    ensures
        read_spec::<T>(write_spec::<T>(buf, index, data), other) == read_spec::<T>(buf, other),
{
    lemma_slot::<T>(index);
    lemma_slot::<T>(other);
    let p = per_elem::<T>();
    let k = T::BIT_COUNT as int;
    if elem_of::<T>(index) == elem_of::<T>(other) {
        let i = index % p;
        let j = other % p;
        assert(i != j) by (nonlinear_arith)
            requires
                index / p == other / p,
                index != other,
                p >= 1,
                i == index % p,
                j == other % p,
        ;
        assert(i * k + k <= j * k || j * k + k <= i * k) by (nonlinear_arith)
            requires
                i != j,
                k >= 1,
        ;
        buf[elem_of::<T>(index)].lemma_other_field(shift_of::<T>(index), shift_of::<T>(other), T::BIT_COUNT, data.pack_spec());
    }
}

/// Every index of a buffer with no bit set reads as what no bit set unpacks to.
pub proof fn lemma_read_zeroed<T: BitPack>(buf: Seq<T::BitVector>, index: int)
    requires
        packable::<T>(),
        0 <= index,
        elem_of::<T>(index) < buf.len(),
        buf[elem_of::<T>(index)] == <T::BitVector as BitVector>::ZERO,
    ensures
        packed_at::<T>(buf, index) == <T::BitVector as BitVector>::ZERO,
{
    lemma_slot::<T>(index);
    <T::BitVector as BitVector>::lemma_zero_field(shift_of::<T>(index), T::BIT_COUNT);
}

} // verus!
