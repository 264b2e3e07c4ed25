//! Items and the player's inventory, whose slots are packed into bits.
use vstd::prelude::*;
use crate::domain::bitpack::{
    BitPack,
    BitVector,
    read_packed,
    write_packed,
    read_spec,
    write_spec,
    elem_of,
    lemma_read_after_write,
    lemma_write_keeps_others,
};

verus! {

/// A count that a stack cannot hold.
#[derive(Debug, Clone, Copy, PartialEq, Eq)]
pub enum InvalidCount {
    /// The count is below the minimum.
    TooLow { min: u8, found: u8 },
    /// The count is above the maximum.
    TooHigh { max: u8, found: u8 },
}

/// Why an inventory slot could not be accessed.
#[derive(Debug, Clone, Copy, PartialEq, Eq)]
pub enum AccessError {
    /// There is no slot at the index.
    BadIndex(usize),
    /// The slot's bits decode to no entry.
    Corrupted,
}

/// An item that stacks up to eight per slot.
#[derive(Debug, Clone, Copy, PartialEq, Eq, Structural, PartialOrd, Ord, Hash)]
pub enum StackableItem8 {
    Stick,
}

impl BitPack for StackableItem8 {
    type BitVector = u8;

    const BIT_COUNT: u32 = 1;

    open spec fn pack_spec(self) -> u8 {
        0
    }

    open spec fn unpack_spec(bits: u8) -> Option<StackableItem8> {
        if bits == 0 {
            Some(StackableItem8::Stick)
        } else {
            None
        }
    }

    fn pack(self) -> (r: u8) {
        0
    }

    fn unpack(bits: u8) -> (r: Option<StackableItem8>) {
        if bits == 0 {
            Some(StackableItem8::Stick)
        } else {
            None
        }
    }
}

/// An item.
#[derive(Debug, Clone, Copy, PartialEq, Eq, Structural, PartialOrd, Ord, Hash)]
pub enum Item {
    Stackable8(StackableItem8),
}

impl From<StackableItem8> for Item {
    fn from(item: StackableItem8) -> (r: Item) {
        Item::Stackable8(item)
    }
}

impl vstd::std_specs::convert::FromSpecImpl<StackableItem8> for Item {
    open spec fn obeys_from_spec() -> bool {
        true
    }

    open spec fn from_spec(v: StackableItem8) -> Item {
        Item::Stackable8(v)
    }
}

impl BitPack for Item {
    type BitVector = u8;

    const BIT_COUNT: u32 = 1;

    open spec fn pack_spec(self) -> u8 {
        match self {
            Item::Stackable8(item) => item.pack_spec(),
        }
    }

    open spec fn unpack_spec(bits: u8) -> Option<Item> {
        match StackableItem8::unpack_spec(bits) {
            Some(item) => Some(Item::Stackable8(item)),
            None => None,
        }
    }

    fn pack(self) -> (r: u8) {
        match self {
            Item::Stackable8(item) => item.pack(),
        }
    }

    fn unpack(bits: u8) -> (r: Option<Item>) {
        match StackableItem8::unpack(bits) {
            Some(item) => Some(Item::Stackable8(item)),
            None => None,
        }
    }
}

/// A stack of one to eight items of one kind.
#[derive(Debug, Clone, Copy, PartialEq, Eq, Structural, PartialOrd, Ord, Hash)]
pub struct StackableEntry8 {
    item: StackableItem8,
    count: u8,
}

impl StackableEntry8 {
    /// The item stacked.
    pub closed spec fn item_spec(self) -> StackableItem8 {
        self.item
    }

    /// How many items the stack holds.
    pub closed spec fn count_spec(self) -> u8 {
        self.count
    }

    /// Whether the count is from one to eight.
    pub closed spec fn wf(self) -> bool {
        1 <= self.count <= 8
    }

    #[verifier::type_invariant]
    spec fn count_in_range(self) -> bool {
        self.wf()
    }

    /// The stack of `count` items `item`, in specifications.
    pub closed spec fn stack_of(item: StackableItem8, count: u8) -> StackableEntry8 {
        StackableEntry8 { item, count }
    }

    /// A stack of `count` items `item`, if `count` is from one to eight.
    pub fn new(item: StackableItem8, count: u8) -> (r: Result<StackableEntry8, InvalidCount>)
        ensures
            match r {
                Ok(e) => 1 <= count <= 8 && e.item_spec() == item && e.count_spec() == count && e.wf(),
                Err(InvalidCount::TooHigh { max, found }) => count > 8 && max == 8 && found == count,
                Err(InvalidCount::TooLow { min, found }) => count < 1 && min == 1 && found == count,
            },
    {
        if count > 8 {
            return Err(InvalidCount::TooHigh { max: 8, found: count });
        }
        if count < 1 {
            return Err(InvalidCount::TooLow { min: 1, found: count });
        }
        Ok(StackableEntry8 { item, count })
    }

    /// The item stacked.
    pub fn item(self) -> (r: StackableItem8)
        ensures
            r == self.item_spec(),
    {
        self.item
    }

    /// How many items the stack holds.
    pub fn count(self) -> (r: u8)
        ensures
            r == self.count_spec(),
            1 <= r <= 8,
    {
        proof {
            use_type_invariant(&self);
        }
        self.count
    }
}

impl BitPack for StackableEntry8 {
    type BitVector = u8;

    const BIT_COUNT: u32 = 3;

    open spec fn pack_spec(self) -> u8 {
        (self.count_spec() - 1) as u8
    }

    open spec fn unpack_spec(bits: u8) -> Option<StackableEntry8> {
        if bits < 8 {
            Some(StackableEntry8::stack_of(StackableItem8::Stick, (bits + 1) as u8))
        } else {
            None
        }
    }

    fn pack(self) -> (r: u8) {
        proof {
            use_type_invariant(&self);
        }
        self.count - 1
    }

    fn unpack(bits: u8) -> (r: Option<StackableEntry8>) {
        if bits < 8 {
            match StackableEntry8::new(StackableItem8::Stick, bits + 1) {
                Ok(e) => Some(e),
                Err(_) => None,
            }
        } else {
            None
        }
    }
}

/// What an inventory slot holds.
#[derive(Debug, Clone, Copy, PartialEq, Eq, Structural, PartialOrd, Ord, Hash)]
pub enum SlotEntry {
    /// Nothing.
    Vaccant,
    /// A stack of items.
    Stackable8(StackableEntry8),
}

impl Default for SlotEntry {
    fn default() -> (r: SlotEntry)
        ensures
            r == SlotEntry::Vaccant,
    {
        SlotEntry::Vaccant
    }
}

impl From<StackableEntry8> for SlotEntry {
    fn from(entry: StackableEntry8) -> (r: SlotEntry) {
        SlotEntry::Stackable8(entry)
    }
}

impl vstd::std_specs::convert::FromSpecImpl<StackableEntry8> for SlotEntry {
    open spec fn obeys_from_spec() -> bool {
        true
    }

    open spec fn from_spec(v: StackableEntry8) -> SlotEntry {
        SlotEntry::Stackable8(v)
    }
}

impl SlotEntry {
    /// Whether the entry is valid: a stack holds one to eight items.
    pub open spec fn wf(self) -> bool {
        match self {
            SlotEntry::Vaccant => true,
            SlotEntry::Stackable8(e) => e.wf(),
        }
    }
}

impl BitPack for SlotEntry {
    type BitVector = u8;

    const BIT_COUNT: u32 = 4;

    open spec fn pack_spec(self) -> u8 {
        match self {
            SlotEntry::Vaccant => 0,
            SlotEntry::Stackable8(e) => (e.pack_spec() + 1) as u8,
        }
    }

    open spec fn unpack_spec(bits: u8) -> Option<SlotEntry> {
        if bits < 1 {
            Some(SlotEntry::Vaccant)
        } else {
            match StackableEntry8::unpack_spec((bits - 1) as u8) {
                Some(e) => Some(SlotEntry::Stackable8(e)),
                None => None,
            }
        }
    }

    fn pack(self) -> (r: u8) {
        match self {
            SlotEntry::Vaccant => 0,
            SlotEntry::Stackable8(e) => {
                proof {
                    use_type_invariant(&e);
                }
                e.pack() + 1
            },
        }
    }

    fn unpack(bits: u8) -> (r: Option<SlotEntry>) {
        if bits < 1 {
            Some(SlotEntry::Vaccant)
        } else {
            match StackableEntry8::unpack(bits - 1) {
                Some(e) => Some(SlotEntry::Stackable8(e)),
                None => None,
            }
        }
    }
}

/// A valid slot entry packs into four bits and unpacks back to itself.
pub proof fn lemma_slot_entry_round_trip(entry: SlotEntry)
    requires
        entry.wf(),
    ensures
        <u8 as BitVector>::fits(entry.pack_spec(), 4),
        SlotEntry::unpack_spec(entry.pack_spec()) == Some(entry),
{
    let p = entry.pack_spec();
    assert(p <= 8);
    assert(p & (!0u8 >> (8 - 4) as u32) == p) by (bit_vector)
        requires
            p <= 8,
    ;
    match entry {
        SlotEntry::Vaccant => {},
        SlotEntry::Stackable8(e) => {
            assert(e.item_spec() == StackableItem8::Stick);
        },
    }
}

/// The number of slots of an inventory.
pub const SLOT_COUNT: usize = 8;

/// The player's inventory: eight slots of four bits each.
#[derive(Debug, Clone, PartialEq, Eq, PartialOrd, Ord, Hash)]
pub struct Inventory {
    slots: [u8; 4],
}

impl Inventory {
    /// What slot `index` reads as: its entry, or its bits when they decode to none.
    pub closed spec fn slot(self, index: int) -> Result<SlotEntry, u8> {
        read_spec::<SlotEntry>(self.slots@, index)
    }

    /// An inventory with every slot vacant.
    pub fn new() -> (r: Inventory)
        ensures
            forall|i: int| 0 <= i < SLOT_COUNT ==> #[trigger] r.slot(i) == Ok::<SlotEntry, u8>(SlotEntry::Vaccant),
    {
        let mut this = Inventory { slots: [0, 0, 0, 0] };
        let mut slot: usize = 0;
        while slot < SLOT_COUNT
            invariant
                slot <= SLOT_COUNT,
                forall|i: int| 0 <= i < slot ==> #[trigger] this.slot(i) == Ok::<SlotEntry, u8>(SlotEntry::Vaccant),
            decreases SLOT_COUNT - slot,
        {
            let _ = this.set(slot, SlotEntry::Vaccant);
            slot += 1;
        }
        this
    }

    /// The entry of slot `index`.
    pub fn get(&self, index: usize) -> (r: Result<SlotEntry, AccessError>)
        ensures
            r == if index >= SLOT_COUNT {
                Err(AccessError::BadIndex(index))
            } else {
                match self.slot(index as int) {
                    Ok(e) => Ok::<SlotEntry, AccessError>(e),
                    Err(_) => Err(AccessError::Corrupted),
                }
            },
    {
        if index >= SLOT_COUNT {
            return Err(AccessError::BadIndex(index));
        }
        match read_packed::<SlotEntry>(self.slots.as_slice(), index) {
            Ok(e) => Ok(e),
            Err(_) => Err(AccessError::Corrupted),
        }
    }

    /// Stores `entry` in slot `index`.
    pub fn set(&mut self, index: usize, entry: SlotEntry) -> (r: Result<(), AccessError>)
        requires
            entry.wf(),
        ensures
            r == if index >= SLOT_COUNT {
                Err(AccessError::BadIndex(index))
            } else {
                Ok::<(), AccessError>(())
            },
            forall|i: int| 0 <= i < SLOT_COUNT ==> #[trigger] final(self).slot(i) == if i == index && r is Ok {
                Ok::<SlotEntry, u8>(entry)
            } else {
                old(self).slot(i)
            },
    {
        if index >= SLOT_COUNT {
            return Err(AccessError::BadIndex(index));
        }
        let ghost before = self.slots@;
        let mut buf = self.slots;
        write_packed::<SlotEntry>(&mut buf, index, entry);
        self.slots = buf;
        proof {
            assert(self.slots@ == write_spec::<SlotEntry>(before, index as int, entry));
            lemma_slot_entry_round_trip(entry);
            assert forall|i: int| 0 <= i < SLOT_COUNT implies #[trigger] self.slot(i) == if i == index {
                Ok::<SlotEntry, u8>(entry)
            } else {
                old(self).slot(i)
            } by {
                if i == index {
                    lemma_read_after_write::<SlotEntry>(before, i, entry);
                } else {
                    lemma_write_keeps_others::<SlotEntry>(before, index as int, i, entry);
                }
            }
        }
        Ok(())
    }
}

} // verus!
