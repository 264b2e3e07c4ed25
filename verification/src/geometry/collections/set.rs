//! A set of points, which lists its points row by row or column by column.
use vstd::prelude::*;
use crate::geometry::coord::Coord;
use crate::geometry::coords::{CoordPair, deref_pair};
use crate::geometry::axis::Axis;
use crate::geometry::bounds::{AxisBounds, CoordRange};
use crate::geometry::collections::map::{
    CoordMap,
    is_point_listing,
    is_point_neighbor,
    is_listing,
    every_key,
    unref_entries,
    unref_keys,
    lemma_keys_of_listing,
    lemma_key_listing_points,
    lemma_neighbor_point,
    unref_entry,
};

verus! {

/// Points, borrowed, listed in the order of some axis.
pub type Iter<'a, C> = std::vec::IntoIter<CoordPair<&'a C>>;

/// Points, owned, listed in the order of some axis.
pub type IntoIter<C> = std::vec::IntoIter<CoordPair<C>>;

/// Points within bounds, borrowed, listed in the order of some axis.
pub type Range<'a, C> = std::vec::IntoIter<CoordPair<&'a C>>;

/// A set of points.
#[derive(Debug, Clone)]
pub struct CoordSet<C> {
    inner: CoordMap<C, ()>,
}

impl<C: Coord> CoordSet<C> {
    /// The well-formedness of the set.
    pub closed spec fn wf(self) -> bool {
        self.inner.wf()
    }

    /// The points of the set.
    pub closed spec fn view(self) -> Set<CoordPair<C>> {
        self.inner.view().dom()
    }

    /// The number of points.
    pub closed spec fn spec_len(self) -> nat {
        self.inner.spec_len()
    }

    /// An empty set.
    pub fn new() -> (r: Self)
        ensures
            r.wf(),
            r.view() == Set::<CoordPair<C>>::empty(),
            r.spec_len() == 0,
    {
        CoordSet { inner: CoordMap::new() }
    }

    /// The number of points.
    pub fn len(&self) -> (r: usize)
        ensures
            r == self.spec_len(),
    {
        self.inner.len()
    }

    /// Whether the set has no points.
    pub fn is_empty(&self) -> (r: bool)
        requires
            self.wf(),
        ensures
            r == (self.spec_len() == 0),
            r == (self.view() =~= Set::<CoordPair<C>>::empty()),
    {
        let r = self.inner.is_empty();
        proof {
            if !r {
                assert(!(self.inner.view() =~= Map::<CoordPair<C>, ()>::empty()));
                let k = choose|k: CoordPair<C>| self.inner.view().contains_key(k);
                assert(self.view().contains(k));
            }
        }
        r
    }

    /// Whether `elem` is in the set.
    pub fn contains(&self, elem: CoordPair<&C>) -> (r: bool)
        requires
            self.wf(),
        ensures
            r == self.view().contains(deref_pair(elem)),
    {
        self.inner.contains_key(elem)
    }

    /// The stored point equal to `elem`, if any.
    pub fn get(&self, elem: CoordPair<&C>) -> (r: Option<CoordPair<&C>>)
        requires
            self.wf(),
        ensures
            match r {
                Some(p) => self.view().contains(deref_pair(elem)) && deref_pair(p) == deref_pair(elem),
                None => !self.view().contains(deref_pair(elem)),
            },
    {
        match self.inner.get_key_value(elem) {
            Some((stored, _)) => Some(stored),
            None => None,
        }
    }

    /// Adds `elem`, returning whether it was new.
    pub fn insert(&mut self, elem: CoordPair<C>) -> (r: bool)
        requires
            old(self).wf(),
        ensures
            final(self).wf(),
            final(self).view() == old(self).view().insert(elem),
            r == !old(self).view().contains(elem),
            final(self).spec_len() == old(self).spec_len() + if r { 1int } else { 0int },
    {
        let prev = self.inner.insert(elem, ());
        proof {
            assert(self.view() =~= old(self).view().insert(elem));
        }
        prev.is_none()
    }

    /// Removes `elem`, returning whether it was there.
    pub fn remove(&mut self, elem: CoordPair<&C>) -> (r: bool)
        requires
            old(self).wf(),
        ensures
            final(self).wf(),
            final(self).view() == old(self).view().remove(deref_pair(elem)),
            r == old(self).view().contains(deref_pair(elem)),
            final(self).spec_len() == old(self).spec_len() - if r { 1int } else { 0int },
    {
        let prev = self.inner.remove(elem);
        proof {
            assert(self.view() =~= old(self).view().remove(deref_pair(elem)));
        }
        prev.is_some()
    }

    /// The points, borrowed, within `ranges` on both axes, with `higher_axis` as
    /// the primary order.
    pub fn range<Ry, Rx>(&self, higher_axis: Axis, ranges: &CoordRange<Ry, Rx>) -> (r: Range<'_, C>)
        where
            Ry: AxisBounds<C>,
            Rx: AxisBounds<C>,
        requires
            self.wf(),
        ensures
            is_point_listing(
                unref_keys(vstd::std_specs::vec::into_iter_elts(r)),
                self.view(),
                higher_axis,
                |k: CoordPair<C>| ranges.admits(k),
            ),
    {
        let entries = self.inner.range_listing(higher_axis, ranges);
        let ghost es = unref_entries(entries@);
        let mut out: Vec<CoordPair<&C>> = Vec::new();
        let mut i: usize = 0;
        while i < entries.len()
            invariant
                es == unref_entries(entries@),
                i <= entries@.len(),
                out@.len() == i,
                forall|a: int| 0 <= a < i ==> #[trigger] deref_pair(out@[a]) == es[a].0,
            decreases entries@.len() - i,
        {
            out.push(entries[i].0);
            i += 1;
        }
        proof {
            let pred = |k: CoordPair<C>| ranges.admits(k);
            lemma_keys_of_listing(es, self.inner.view(), higher_axis, pred);
            assert(unref_keys(out@) =~= es.map_values(|e: (CoordPair<C>, ())| e.0));
        }
        out.into_iter()
    }

    /// The nearest point after `elem` along `axis`, on the same line.
    pub fn next_neighbor(&self, axis: Axis, elem: CoordPair<&C>) -> (r: Option<CoordPair<&C>>)
        requires
            self.wf(),
        ensures
            is_point_neighbor(self.view(), axis, deref_pair(elem), true, true, unref_point(r)),
    {
        let found = self.inner.next_neighbor(axis, elem);
        proof {
            lemma_neighbor_point(self.inner.view(), axis, deref_pair(elem), true, true, unref_entry(found));
        }
        match found {
            Some((k, _)) => Some(k),
            None => None,
        }
    }

    /// The nearest point before `elem` along `axis`, on the same line.
    pub fn prev_neighbor(&self, axis: Axis, elem: CoordPair<&C>) -> (r: Option<CoordPair<&C>>)
        requires
            self.wf(),
        ensures
            is_point_neighbor(self.view(), axis, deref_pair(elem), false, false, unref_point(r)),
    {
        let found = self.inner.prev_neighbor(axis, elem);
        proof {
            lemma_neighbor_point(self.inner.view(), axis, deref_pair(elem), false, false, unref_entry(found));
        }
        match found {
            Some((k, _)) => Some(k),
            None => None,
        }
    }

    /// The farthest point after `elem` along `axis`, on the same line.
    pub fn last_neighbor(&self, axis: Axis, elem: CoordPair<&C>) -> (r: Option<CoordPair<&C>>)
        requires
            self.wf(),
        ensures
            is_point_neighbor(self.view(), axis, deref_pair(elem), true, false, unref_point(r)),
    {
        let found = self.inner.last_neighbor(axis, elem);
        proof {
            lemma_neighbor_point(self.inner.view(), axis, deref_pair(elem), true, false, unref_entry(found));
        }
        match found {
            Some((k, _)) => Some(k),
            None => None,
        }
    }

    /// The farthest point before `elem` along `axis`, on the same line.
    pub fn first_neighbor(&self, axis: Axis, elem: CoordPair<&C>) -> (r: Option<CoordPair<&C>>)
        requires
            self.wf(),
        ensures
            is_point_neighbor(self.view(), axis, deref_pair(elem), false, true, unref_point(r)),
    {
        let found = self.inner.first_neighbor(axis, elem);
        proof {
            lemma_neighbor_point(self.inner.view(), axis, deref_pair(elem), false, true, unref_entry(found));
        }
        match found {
            Some((k, _)) => Some(k),
            None => None,
        }
    }

    /// The points, borrowed, with `higher_axis` as the primary order.
    pub fn iter(&self, higher_axis: Axis) -> (r: Iter<'_, C>)
        requires
            self.wf(),
        ensures
            is_point_listing(unref_keys(vstd::std_specs::vec::into_iter_elts(r)), self.view(), higher_axis, every_key()),
    {
        let r = self.inner.keys(higher_axis);
        proof {
            lemma_key_listing_points(unref_keys(vstd::std_specs::vec::into_iter_elts(r)), self.inner.view(), higher_axis);
        }
        r
    }

    /// The points, borrowed, row by row.
    pub fn rows(&self) -> (r: Iter<'_, C>)
        requires
            self.wf(),
        ensures
            is_point_listing(unref_keys(vstd::std_specs::vec::into_iter_elts(r)), self.view(), Axis::Y, every_key()),
    {
        self.iter(Axis::Y)
    }

    /// The points, borrowed, column by column.
    pub fn columns(&self) -> (r: Iter<'_, C>)
        requires
            self.wf(),
        ensures
            is_point_listing(unref_keys(vstd::std_specs::vec::into_iter_elts(r)), self.view(), Axis::X, every_key()),
    {
        self.iter(Axis::X)
    }

    /// The points, owned, with `higher_axis` as the primary order.
    pub fn into_iter_with(self, higher_axis: Axis) -> (r: IntoIter<C>)
        requires
            self.wf(),
        ensures
            is_point_listing(vstd::std_specs::vec::into_iter_elts(r), self.view(), higher_axis, every_key()),
    {
        let ghost m = self.inner.view();
        let r = self.inner.into_keys(higher_axis);
        proof {
            lemma_key_listing_points(vstd::std_specs::vec::into_iter_elts(r), m, higher_axis);
        }
        r
    }

    /// The points, owned, row by row.
    pub fn into_rows(self) -> (r: IntoIter<C>)
        requires
            self.wf(),
        ensures
            is_point_listing(vstd::std_specs::vec::into_iter_elts(r), self.view(), Axis::Y, every_key()),
    {
        self.into_iter_with(Axis::Y)
    }

    /// The points, owned, column by column.
    pub fn into_columns(self) -> (r: IntoIter<C>)
        requires
            self.wf(),
        ensures
            is_point_listing(vstd::std_specs::vec::into_iter_elts(r), self.view(), Axis::X, every_key()),
    {
        self.into_iter_with(Axis::X)
    }
}

/// An optional borrowed point, as an owned point.
pub open spec fn unref_point<C>(r: Option<CoordPair<&C>>) -> Option<CoordPair<C>> {
    match r {
        Some(p) => Some(deref_pair(p)),
        None => None,
    }
}

impl<C: Coord> Default for CoordSet<C> {
    fn default() -> (r: Self)
        ensures
            r.wf(),
            r.view() == Set::<CoordPair<C>>::empty(),
    {
        CoordSet::new()
    }
}

} // verus!
