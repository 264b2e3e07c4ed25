//! The initial lands of the thedes: as regions of thedes grow, a collector
//! notes each region that belongs to a thede, with its center, and counts the
//! points that join its frontier.
use vstd::prelude::*;
use crate::domain::geometry::{Coord, CoordPair};
use crate::domain::thede;
use crate::gen::region::Collector;

verus! {

/// Why a point could not be counted.
#[derive(Debug, Clone, Copy, PartialEq, Eq)]
pub enum InitialLandsError {
    /// The region index is not one of a region noted.
    InvalidRegion { index: usize, len: usize },
}

/// The land of a thede at the start: the thede, the center of its region, and
/// how many points joined the region's frontier.
#[derive(Debug, Clone, Copy, PartialEq, Eq, PartialOrd, Ord, Hash)]
pub struct InitialLand {
    pub id: thede::Id,
    pub location: CoordPair,
    pub area: Coord,
}

/// The lands of the regions noted so far, in order; `None` for a region of
/// no thede.
#[derive(Debug, Clone)]
pub struct InitialLandsCollector {
    entries: Vec<Option<InitialLand>>,
}

/// The lands among `entries`, in order.
pub open spec fn lands_of(entries: Seq<Option<InitialLand>>) -> Seq<InitialLand>
    decreases entries.len(),
{
    if entries.len() == 0 {
        Seq::empty()
    } else {
        let rest = lands_of(entries.drop_last());
        match entries.last() {
            Some(land) => rest.push(land),
            None => rest,
        }
    }
}

impl InitialLandsCollector {
    /// The entries, one per region noted.
    pub closed spec fn entries_spec(self) -> Seq<Option<InitialLand>> {
        self.entries@
    }

    /// A collector with no region noted.
    pub fn new() -> (r: InitialLandsCollector)
        ensures
            r.entries_spec() == Seq::<Option<InitialLand>>::empty(),
    {
        InitialLandsCollector { entries: Vec::new() }
    }

    /// Takes out every land noted, in order, leaving no region noted.
    pub fn drain(&mut self) -> (r: Vec<InitialLand>)
        ensures
            r@ == lands_of(old(self).entries_spec()),
            final(self).entries_spec() == Seq::<Option<InitialLand>>::empty(),
    {
        let mut lands: Vec<InitialLand> = Vec::new();
        let mut i: usize = 0;
        while i < self.entries.len()
            invariant
                i <= self.entries@.len(),
                lands@ == lands_of(self.entries@.subrange(0, i as int)),
            decreases self.entries@.len() - i,
        {
            assert(self.entries@.subrange(0, i + 1).drop_last() =~= self.entries@.subrange(0, i as int));
            match self.entries[i] {
                Some(land) => lands.push(land),
                None => {},
            }
            i = i + 1;
        }
        assert(self.entries@.subrange(0, self.entries@.len() as int) =~= self.entries@);
        self.entries = Vec::new();
        lands
    }
}

impl Default for InitialLandsCollector {
    fn default() -> (r: InitialLandsCollector)
        ensures
            r.entries_spec() == Seq::<Option<InitialLand>>::empty(),
    {
        InitialLandsCollector::new()
    }
}

/// The entry noted for a region of `data` centered at `center`.
pub open spec fn entry_for(center: CoordPair, data: Option<thede::Id>) -> Option<InitialLand> {
    match data {
        Some(id) => Some(InitialLand { id, location: center, area: 0 }),
        None => None,
    }
}

/// The entry after one more point of its region is counted.
pub open spec fn counted(entry: Option<InitialLand>) -> Option<InitialLand> {
    match entry {
        Some(land) => Some(InitialLand { area: (if land.area == Coord::MAX { 0 } else { land.area + 1 }) as Coord, ..land }),
        None => None,
    }
}

impl Collector<Option<thede::Id>> for InitialLandsCollector {
    type Error = InitialLandsError;

    /// Every region of a run is noted after those noted before it, so its
    /// index lies below the number of entries.
    open spec fn open_to(&self, regions: nat) -> bool {
        regions <= self.entries_spec().len()
    }

    fn add_region(&mut self, center: CoordPair, data: &Option<thede::Id>) -> (r: Result<(), InitialLandsError>)
        ensures
            r is Ok,
            final(self).entries_spec() == old(self).entries_spec().push(entry_for(center, *data)),
    {
        let entry = match data {
            Some(id) => Some(InitialLand { id: *id, location: center, area: 0 }),
            None => None,
        };
        self.entries.push(entry);
        Ok(())
    }

    fn add_point(&mut self, region: usize, point: CoordPair) -> (r: Result<(), InitialLandsError>)
        ensures
            r == if region < old(self).entries_spec().len() {
                Ok::<(), InitialLandsError>(())
            } else {
                Err(InitialLandsError::InvalidRegion { index: region, len: old(self).entries_spec().len() as usize })
            },
            final(self).entries_spec() == if region < old(self).entries_spec().len() {
                old(self).entries_spec().update(region as int, counted(old(self).entries_spec()[region as int]))
            } else {
                old(self).entries_spec()
            },
    {
        let len = self.entries.len();
        if region >= len {
            return Err(InitialLandsError::InvalidRegion { index: region, len });
        }
        match self.entries[region] {
            Some(land) => {
                let area = land.area.wrapping_add(1);
                self.entries.set(region, Some(InitialLand { area, ..land }));
            },
            None => {},
        }
        Ok(())
    }
}

} // verus!
