//! Identifiers of thedes (the peoples of the map), allocated from a fixed pool.
use vstd::prelude::*;

verus! {

/// The identifier of a thede: a number from 1 to 255.
#[derive(Debug, Clone, Copy, PartialEq, Eq, Structural, PartialOrd, Ord, Hash)]
pub struct Id {
    bits: u8,
}

impl Id {
    /// The number of the identifier.
    pub closed spec fn bits_spec(self) -> u8 {
        self.bits
    }

    /// Whether the identifier is valid: its number is not zero.
    pub open spec fn wf(self) -> bool {
        self.bits_spec() != 0
    }

    fn new_raw(bits: u8) -> (r: Id)
        ensures
            r.bits_spec() == bits,
    {
        Id { bits }
    }

    /// The identifier with number `bits`, unless it is zero.
    pub fn new(bits: u8) -> (r: Option<Id>)
        ensures
            match r {
                Some(id) => bits != 0 && id.bits_spec() == bits && id.wf(),
                None => bits == 0,
            },
    {
        if bits == 0 {
            None
        } else {
            Some(Id::new_raw(bits))
        }
    }

    /// The number of the identifier.
    pub fn bits(self) -> (r: u8)
        ensures
            r == self.bits_spec(),
    {
        self.bits
    }

    /// The number of an optional identifier, zero for none.
    pub fn option_bits(this: Option<Id>) -> (r: u8)
        ensures
            r == match this {
                Some(id) => id.bits_spec(),
                None => 0,
            },
    {
        match this {
            Some(id) => id.bits(),
            None => 0,
        }
    }
}

/// Why no identifier could be allocated.
#[derive(Debug, Clone, Copy, PartialEq, Eq)]
pub enum AllocError {
    /// Every identifier is in use.
    Exhausted,
}

/// Why an identifier could not be freed.
#[derive(Debug, Clone, Copy, PartialEq, Eq)]
pub enum DeallocError {
    /// The identifier was not in use.
    AlreadyFree(Id),
}

/// Whether bit `i` of `mask` is set.
pub open spec fn bit_set(mask: u128, i: u32) -> bool {
    (mask >> i) & 1u128 == 1u128
}

proof fn lemma_bit_set_or(mask: u128, t: u32, i: u32)
    requires
        t < 128,
        i < 128,
    ensures
        bit_set(mask | (1u128 << t), i) == (i == t || bit_set(mask, i)),
{
    assert((((mask | (1u128 << t)) >> i) & 1u128 == 1u128) == (i == t || (mask >> i) & 1u128 == 1u128)) by (bit_vector)
        requires
            t < 128,
            i < 128,
    ;
}

proof fn lemma_zero_clear(i: u32)
    requires
        i < 128,
    ensures
        !bit_set(0u128, i),
{
    assert(((0u128 >> i) & 1u128 == 1u128) == false) by (bit_vector)
        requires
            i < 128,
    ;
}

/// The pool of thede identifiers, one bit per identifier.
#[derive(Debug, Clone, Copy)]
pub struct Registry {
    alloc_masks: [u128; 2],
}

/// The mask holding identifier number `b`.
pub open spec fn block_of(b: u8) -> int {
    (b - 1) / 128
}

/// The bit of identifier number `b` within its mask.
pub open spec fn bit_of(b: u8) -> u32 {
    ((b - 1) % 128) as u32
}

impl Registry {
    /// The numbers of the identifiers in use.
    pub closed spec fn allocated(self) -> Set<u8> {
        Set::new(|b: u8| 1 <= b && bit_set(self.alloc_masks@[block_of(b)], bit_of(b)))
    }

    /// Only identifiers from one up are ever allocated.
    pub proof fn lemma_allocated_nonzero(self)
        ensures
            forall|b: u8| #[trigger] self.allocated().contains(b) ==> 1 <= b,
    {
    }

    /// A pool with every identifier free.
    pub fn all_free() -> (r: Registry)
        ensures
            r.allocated() == Set::<u8>::empty(),
    {
        let r = Registry { alloc_masks: [0, 0] };
        assert forall|b: u8| !r.allocated().contains(b) by {
            if 1 <= b {
                lemma_zero_clear(bit_of(b));
            }
        }
        assert(r.allocated() =~= Set::<u8>::empty());
        r
    }

    /// The number of trailing set bits of `mask`.
    fn trailing_ones(mask: u128) -> (r: u32)
        ensures
            r <= 128,
            forall|i: u32| i < r ==> bit_set(mask, i),
            r < 128 ==> !bit_set(mask, r),
    {
        let mut t: u32 = 0;
        while t < 128 && (mask >> t) & 1 == 1
            invariant
                t <= 128,
                forall|i: u32| i < t ==> bit_set(mask, i),
            decreases 128 - t,
        {
            t += 1;
        }
        t
    }

    /// Allocates the smallest identifier not in use.
    pub fn allocate(&mut self) -> (r: Result<Id, AllocError>)
        ensures
            match r {
                Ok(id) => {
                    &&& id.wf()
                    &&& !old(self).allocated().contains(id.bits_spec())
                    &&& final(self).allocated() == old(self).allocated().insert(id.bits_spec())
                    &&& forall|b: u8| 1 <= b < id.bits_spec() ==> old(self).allocated().contains(b)
                },
                Err(e) => e == AllocError::Exhausted && *final(self) == *old(self) && forall|b: u8|
                    1 <= b ==> old(self).allocated().contains(b),
            },
    {
        let ghost before = self.allocated();
        let t0 = Registry::trailing_ones(self.alloc_masks[0]);
        if t0 < 128 {
            let m = self.alloc_masks[0] | (1u128 << t0);
            self.alloc_masks.set(0, m);
            let bits = (t0 as u8) + 1;
            proof {
                assert forall|b: u8| #[trigger] self.allocated().contains(b) == before.insert(bits).contains(b) by {
                    if 1 <= b {
                        lemma_bit_set_or(old(self).alloc_masks@[0], t0, bit_of(b));
                    }
                }
                assert(self.allocated() =~= before.insert(bits));
                assert forall|b: u8| 1 <= b < bits implies before.contains(b) by {
                    assert(bit_of(b) < t0);
                }
            }
            return Ok(Id::new_raw(bits));
        }
        let t1 = Registry::trailing_ones(self.alloc_masks[1]);
        if t1 < 127 {
            let m = self.alloc_masks[1] | (1u128 << t1);
            self.alloc_masks.set(1, m);
            let bits = (t1 as u8) + 129;
            proof {
                assert forall|b: u8| #[trigger] self.allocated().contains(b) == before.insert(bits).contains(b) by {
                    if 129 <= b {
                        lemma_bit_set_or(old(self).alloc_masks@[1], t1, bit_of(b));
                    }
                }
                assert(self.allocated() =~= before.insert(bits));
                assert forall|b: u8| 1 <= b < bits implies before.contains(b) by {
                    if b >= 129 {
                        assert(bit_of(b) < t1);
                    }
                }
            }
            return Ok(Id::new_raw(bits));
        }
        proof {
            assert forall|b: u8| 1 <= b implies before.contains(b) by {
            }
        }
        Err(AllocError::Exhausted)
    }

    /// The mask that `is_allocated` and `free` look in for `id`: its number
    /// less one, halved.
    fn block(id: Id) -> (r: usize)
        requires
            id.wf(),
        ensures
            r == (id.bits_spec() - 1) / 2,
    {
        let index = id.bits() - 1;
        (index / 2) as usize
    }

    /// The mask that `is_allocated` and `free` test and clear for `id`: its
    /// number less one, modulo 128, taken as the mask itself.
    fn bit(id: Id) -> (r: u128)
        requires
            id.wf(),
        ensures
            r == ((id.bits_spec() - 1) % 128) as u128,
    {
        let index = id.bits() - 1;
        (index % 128) as u128
    }

    /// The masks, in specifications.
    pub closed spec fn masks(self) -> Seq<u128> {
        self.alloc_masks@
    }

    /// What `is_allocated` reads for the number `b`: the mask at `(b - 1) / 2`
    /// and-ed with `(b - 1) % 128` is not zero.
    pub open spec fn tested(self, b: u8) -> bool {
        self.masks()[(b - 1) / 2] & (((b - 1) % 128) as u128) != 0
    }

    /// Whether the test of `id` finds a bit: the mask at its number less one,
    /// halved, and-ed with its number less one modulo 128. Only the numbers
    /// one to four have a mask there.
    pub fn is_allocated(&self, id: Id) -> (r: bool)
        requires
            id.wf(),
            id.bits_spec() <= 4,
        ensures
            r == self.tested(id.bits_spec()),
    {
        let mask = self.alloc_masks[Registry::block(id)];
        mask & Registry::bit(id) != 0
    }

    /// Refuses `id` where its test finds a bit; else clears the tested bits
    /// from its mask.
    pub fn free(&mut self, id: Id) -> (r: Result<(), DeallocError>)
        requires
            id.wf(),
            id.bits_spec() <= 4,
        ensures
            match r {
                Ok(()) => !old(self).tested(id.bits_spec()) && final(self).masks() == old(self).masks().update(
                    (id.bits_spec() - 1) / 2,
                    old(self).masks()[(id.bits_spec() - 1) / 2] & !(((id.bits_spec() - 1) % 128) as u128),
                ),
                Err(e) => e == DeallocError::AlreadyFree(id) && old(self).tested(id.bits_spec()) && *final(self)
                    == *old(self),
            },
    {
        if self.is_allocated(id) {
            return Err(DeallocError::AlreadyFree(id));
        }
        let b = Registry::block(id);
        let m = self.alloc_masks[b] & !Registry::bit(id);
        self.alloc_masks.set(b, m);
        proof {
            assert(self.alloc_masks@ =~= old(self).alloc_masks@.update(b as int, m));
        }
        Ok(())
    }
}

} // verus!
