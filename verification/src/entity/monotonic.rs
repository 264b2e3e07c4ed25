//! A registry whose identifiers are never reused: each new item gets an
//! identifier greater than every one handed out before.
use std::collections::HashMap;
use vstd::prelude::*;

verus! {

broadcast use vstd::std_specs::hash::group_hash_axioms;

/// An identifier that the registry does not hold.
#[derive(Debug, Clone, Copy, PartialEq, Eq)]
pub struct InvalidId(pub Id);

/// An index past the end of the registry.
#[derive(Debug, Clone, Copy, PartialEq, Eq)]
pub struct InvalidIndex {
    /// The index asked for.
    pub index: usize,
    /// The number of items.
    pub len: usize,
}

/// The identifier of an item of a registry.
#[derive(Debug, Clone, Copy, PartialEq, Eq, Structural, PartialOrd, Ord, Hash, Default)]
pub struct Id(u64);

impl Id {
    /// The number behind the identifier.
    pub closed spec fn raw(self) -> u64 {
        self.0
    }

    /// The number behind the identifier.
    pub fn to_raw(self) -> (r: u64)
        ensures
            r == self.raw(),
    {
        self.0
    }

    /// Two identifiers are equal exactly when their numbers are.
    pub proof fn lemma_raw_injective(a: Id, b: Id)
        ensures
            a.raw() == b.raw() <==> a == b,
    {
    }
}

/// The map from identifiers to items that a sequence of entries stands for.
pub open spec fn id_map<T>(s: Seq<(Id, T)>) -> Map<Id, T> {
    Map::new(
        |k: Id| exists|i: int| 0 <= i < s.len() && #[trigger] s[i].0 == k,
        |k: Id| s[choose|i: int| 0 <= i < s.len() && #[trigger] s[i].0 == k].1,
    )
}

/// Whether the identifiers of `s` are pairwise distinct.
pub open spec fn distinct_ids<T>(s: Seq<(Id, T)>) -> bool {
    forall|i: int, j: int| 0 <= i < j < s.len() ==> #[trigger] s[i].0 != #[trigger] s[j].0
}

/// The entries after the one at `i` is removed and the last takes its place.
pub open spec fn swap_removed<T>(s: Seq<(Id, T)>, i: int) -> Seq<(Id, T)> {
    if i == s.len() - 1 {
        s.drop_last()
    } else {
        s.update(i, s.last()).drop_last()
    }
}

/// The entry at `i` of a sequence with distinct identifiers is the one its map
/// holds for its identifier.
pub proof fn lemma_id_map_at<T>(s: Seq<(Id, T)>, i: int)
    requires
        distinct_ids(s),
        0 <= i < s.len(),
    ensures
        id_map(s).contains_key(s[i].0),
        id_map(s)[s[i].0] == s[i].1,
{
    let k = s[i].0;
    assert(s[i].0 == k);
    let j = choose|j: int| 0 <= j < s.len() && #[trigger] s[j].0 == k;
    if j != i {
        if j < i {
            assert(s[j].0 != s[i].0);
        } else {
            assert(s[i].0 != s[j].0);
        }
    }
}

/// Replacing the item at `i` of a sequence with distinct identifiers replaces it
/// in its map.
pub proof fn lemma_id_map_update<T>(s: Seq<(Id, T)>, i: int, x: T)
    requires
        distinct_ids(s),
        0 <= i < s.len(),
    ensures
        distinct_ids(s.update(i, (s[i].0, x))),
        id_map(s.update(i, (s[i].0, x))) == id_map(s).insert(s[i].0, x),
{
    let id = s[i].0;
    let t = s.update(i, (id, x));
    assert forall|a: int, b: int| 0 <= a < b < t.len() implies #[trigger] t[a].0 != #[trigger] t[b].0 by {
        assert(t[a].0 == s[a].0 && t[b].0 == s[b].0);
    }
    let m = id_map(s).insert(id, x);
    assert forall|q: Id| #[trigger] id_map(t).contains_key(q) <==> m.contains_key(q) by {
        if m.contains_key(q) {
            if q == id {
                assert(t[i].0 == q);
            } else {
                let j = choose|j: int| 0 <= j < s.len() && #[trigger] s[j].0 == q;
                assert(t[j].0 == q);
            }
        }
        if id_map(t).contains_key(q) {
            let j = choose|j: int| 0 <= j < t.len() && #[trigger] t[j].0 == q;
            assert(s[j].0 == q);
        }
    }
    assert forall|q: Id| #[trigger] id_map(t).contains_key(q) implies id_map(t)[q] == m[q] by {
        let j = choose|j: int| 0 <= j < t.len() && #[trigger] t[j].0 == q;
        lemma_id_map_at(t, j);
        if j != i {
            assert(t[j] == s[j]);
            lemma_id_map_at(s, j);
        }
    }
    assert(id_map(t) =~= m);
}

/// Whether `pos` maps the number of each identifier of `s` to its index, and
/// nothing else.
spec fn indexes<T>(s: Seq<(Id, T)>, pos: Map<u64, usize>) -> bool {
    &&& forall|i: int| 0 <= i < s.len() ==> pos.contains_key((#[trigger] s[i]).0.0) && pos[s[i].0.0] == i
    &&& forall|k: u64| #[trigger] pos.contains_key(k) ==> pos[k] < s.len() && s[pos[k] as int].0.0 == k
}

/// Items with identifiers, kept in a dense sequence, with the index of each
/// identifier kept beside them.
#[derive(Debug, Clone)]
pub struct Registry<T> {
    primary: Vec<(Id, T)>,
    secondary_pos: HashMap<u64, usize>,
    next: u64,
}

impl<T> Registry<T> {
    /// The entries, in storage order.
    pub closed spec fn entries(self) -> Seq<(Id, T)> {
        self.primary@
    }

    /// The identifier that the next item created gets.
    pub closed spec fn next_id(self) -> Id {
        Id(self.next)
    }

    /// The items, by identifier.
    pub closed spec fn view(self) -> Map<Id, T> {
        id_map(self.primary@)
    }

    /// The well-formedness of the registry: identifiers are distinct and below
    /// the next one, and the index holds the place of each.
    pub closed spec fn wf(self) -> bool {
        &&& distinct_ids(self.primary@)
        &&& forall|i: int| 0 <= i < self.primary@.len() ==> (#[trigger] self.primary@[i]).0.0 < self.next
        &&& indexes(self.primary@, self.secondary_pos@)
    }

    /// The number of items.
    pub open spec fn spec_len(self) -> nat {
        self.entries().len()
    }

    /// Every identifier held is below the next one.
    pub proof fn lemma_held_below_next(self, id: Id)
        requires
            self.wf(),
            self.view().contains_key(id),
        ensures
            id.raw() < self.next_id().raw(),
    {
        let i = choose|i: int| 0 <= i < self.primary@.len() && #[trigger] self.primary@[i].0 == id;
        assert(self.primary@[i].0.0 < self.next);
    }

    /// The entry at `i` in storage order is the one the registry holds for
    /// its identifier.
    pub proof fn lemma_entries_keys(self, i: int)
        requires
            self.wf(),
            0 <= i < self.spec_len(),
        ensures
            self.view().contains_key(self.entries()[i].0),
            self.view()[self.entries()[i].0] == self.entries()[i].1,
    {
        lemma_id_map_at(self.primary@, i);
    }

    /// An empty registry.
    pub fn new() -> (r: Self)
        ensures
            r.wf(),
            r.view() == Map::<Id, T>::empty(),
            r.spec_len() == 0,
            r.next_id().raw() == 0,
    {
        let r = Registry { primary: Vec::new(), secondary_pos: HashMap::new(), next: 0 };
        assert(r.view() =~= Map::<Id, T>::empty());
        r
    }

    /// The number behind the identifier that the next item created gets.
    pub fn next_raw(&self) -> (r: u64)
        ensures
            r == self.next_id().raw(),
    {
        self.next
    }

    /// The number of items.
    pub fn len(&self) -> (r: usize)
        ensures
            r == self.spec_len(),
    {
        self.primary.len()
    }

    /// Adds `data` under a fresh identifier, which it returns.
    pub fn create(&mut self, data: T) -> (r: Id)
        requires
            old(self).wf(),
            old(self).next_id().raw() < u64::MAX,
        ensures
            final(self).wf(),
            r == old(self).next_id(),
            !old(self).view().contains_key(r),
            final(self).view() == old(self).view().insert(r, data),
            final(self).entries() == old(self).entries().push((r, data)),
            final(self).spec_len() == old(self).spec_len() + 1,
            final(self).next_id().raw() == old(self).next_id().raw() + 1,
    {
        let id = Id(self.next);
        let ghost s = self.primary@;
        proof {
            if id_map(s).contains_key(id) {
                let i = choose|i: int| 0 <= i < s.len() && #[trigger] s[i].0 == id;
                assert(s[i].0.0 < self.next);
            }
        }
        let index = self.primary.len();
        self.next = self.next + 1;
        self.primary.push((id, data));
        self.secondary_pos.insert(id.0, index);
        proof {
            let t = self.primary@;
            let pos = self.secondary_pos@;
            assert forall|i: int| 0 <= i < t.len() implies pos.contains_key((#[trigger] t[i]).0.0) && pos[t[i].0.0] == i by {
                if i < s.len() {
                    assert(t[i] == s[i]);
                    assert(s[i].0.0 < id.0);
                }
            }
            assert forall|k: u64| #[trigger] pos.contains_key(k) implies pos[k] < t.len() && t[pos[k] as int].0.0 == k by {
                if k != id.0 {
                    assert(t[pos[k] as int] == s[pos[k] as int]);
                }
            }
            assert(t == s.push((id, data)));
            assert forall|i: int, j: int| 0 <= i < j < t.len() implies #[trigger] t[i].0 != #[trigger] t[j].0 by {
                if j == s.len() {
                    assert(t[i] == s[i]);
                    assert(s[i].0.0 < id.0);
                } else {
                    assert(t[i] == s[i] && t[j] == s[j]);
                }
            }
            assert forall|i: int| 0 <= i < t.len() implies (#[trigger] t[i]).0.0 < self.next by {
                if i < s.len() {
                    assert(t[i] == s[i]);
                }
            }
            let m = id_map(s).insert(id, data);
            assert forall|k: Id| #[trigger] id_map(t).contains_key(k) <==> m.contains_key(k) by {
                if m.contains_key(k) && k != id {
                    let i = choose|i: int| 0 <= i < s.len() && #[trigger] s[i].0 == k;
                    assert(t[i] == s[i]);
                }
                if k == id {
                    assert(t[s.len() as int].0 == k);
                }
                if id_map(t).contains_key(k) {
                    let i = choose|i: int| 0 <= i < t.len() && #[trigger] t[i].0 == k;
                    if i < s.len() {
                        assert(t[i] == s[i]);
                    }
                }
            }
            assert forall|k: Id| #[trigger] id_map(t).contains_key(k) implies id_map(t)[k] == m[k] by {
                let i = choose|i: int| 0 <= i < t.len() && #[trigger] t[i].0 == k;
                lemma_id_map_at(t, i);
                if i < s.len() {
                    assert(t[i] == s[i]);
                    lemma_id_map_at(s, i);
                }
            }
            assert(id_map(t) =~= m);
        }
        id
    }

    /// The index of the item with identifier `id`.
    fn find(&self, id: Id) -> (r: Option<usize>)
        requires
            self.wf(),
        ensures
            match r {
                Some(i) => i < self.primary@.len() && self.primary@[i as int].0 == id,
                None => !self.view().contains_key(id),
            },
    {
        match self.secondary_pos.get(&id.0) {
            Some(i) => Some(*i),
            None => {
                proof {
                    if self.view().contains_key(id) {
                        let j = choose|j: int| 0 <= j < self.primary@.len() && #[trigger] self.primary@[j].0 == id;
                        assert(self.secondary_pos@.contains_key(self.primary@[j].0.0));
                    }
                }
                None
            },
        }
    }

    /// Removes the item with identifier `id`, returning it; the last item takes
    /// its place.
    pub fn remove(&mut self, id: Id) -> (r: Option<T>)
        requires
            old(self).wf(),
        ensures
            final(self).wf(),
            final(self).view() == old(self).view().remove(id),
            final(self).next_id() == old(self).next_id(),
            match r {
                Some(v) => old(self).view().contains_key(id) && v == old(self).view()[id]
                    && final(self).spec_len() == old(self).spec_len() - 1 && exists|i: int|
                    0 <= i < old(self).spec_len() && old(self).entries()[i].0 == id && final(self).entries()
                        == #[trigger] swap_removed(old(self).entries(), i),
                None => !old(self).view().contains_key(id) && *final(self) == *old(self),
            },
    {
        match self.find(id) {
            None => {
                proof {
                    assert(old(self).view().remove(id) =~= old(self).view());
                }
                None
            },
            Some(index) => {
                let ghost s = self.primary@;
                proof {
                    lemma_id_map_at(s, index as int);
                }
                let (_, item) = self.primary.swap_remove(index);
                let ghost pos0 = self.secondary_pos@;
                if index < self.primary.len() {
                    let moved = self.primary[index].0;
                    self.secondary_pos.insert(moved.0, index);
                }
                self.secondary_pos.remove(&id.0);
                proof {
                    let t = self.primary@;
                    let last = s.len() - 1;
                    let pos = self.secondary_pos@;
                    assert(pos0 == old(self).secondary_pos@);
                    assert forall|a: int| 0 <= a < t.len() implies pos.contains_key((#[trigger] t[a]).0.0) && pos[t[a].0.0] == a by {
                        let a2 = if a == index { last } else { a };
                        assert(t[a] == s[a2]);
                        assert(a2 != index);
                        assert(s[a2].0 != s[index as int].0);
                        assert(s[a2].0.0 != id.0);
                    }
                    assert forall|k: u64| #[trigger] pos.contains_key(k) implies pos[k] < t.len() && t[pos[k] as int].0.0 == k by {
                        assert(k != id.0);
                        if index < t.len() && k == t[index as int].0.0 {
                        } else {
                            assert(pos0.contains_key(k));
                            let j = pos0[k] as int;
                            assert(s[j].0.0 == k);
                            assert(j != index);
                            if j == last {
                                assert(t[index as int] == s[last]);
                                assert(false);
                            }
                            assert(t[j] == s[j]);
                        }
                    }
                    assert(t.len() == last);
                    assert forall|a: int| 0 <= a < t.len() implies #[trigger] t[a] == if a == index {
                        s[last]
                    } else {
                        s[a]
                    } by {
                    }
                    assert forall|a: int, b: int| 0 <= a < b < t.len() implies #[trigger] t[a].0 != #[trigger] t[b].0 by {
                        let a2 = if a == index { last } else { a };
                        let b2 = if b == index { last } else { b };
                        assert(t[a] == s[a2] && t[b] == s[b2]);
                        if a2 < b2 {
                            assert(s[a2].0 != s[b2].0);
                        } else {
                            assert(s[b2].0 != s[a2].0);
                        }
                    }
                    assert forall|a: int| 0 <= a < t.len() implies (#[trigger] t[a]).0.0 < self.next by {
                        let a2 = if a == index { last } else { a };
                        assert(t[a] == s[a2]);
                    }
                    let m = id_map(s).remove(id);
                    assert forall|k: Id| #[trigger] id_map(t).contains_key(k) <==> m.contains_key(k) by {
                        if m.contains_key(k) {
                            let j = choose|j: int| 0 <= j < s.len() && #[trigger] s[j].0 == k;
                            assert(j != index);
                            let a = if j == last { index as int } else { j };
                            assert(t[a] == s[j]);
                        }
                        if id_map(t).contains_key(k) {
                            let a = choose|a: int| 0 <= a < t.len() && #[trigger] t[a].0 == k;
                            let a2 = if a == index { last } else { a };
                            assert(t[a] == s[a2]);
                            assert(a2 != index);
                            assert(s[a2].0 != s[index as int].0);
                        }
                    }
                    assert forall|k: Id| #[trigger] id_map(t).contains_key(k) implies id_map(t)[k] == m[k] by {
                        let a = choose|a: int| 0 <= a < t.len() && #[trigger] t[a].0 == k;
                        lemma_id_map_at(t, a);
                        let a2 = if a == index { last } else { a };
                        assert(t[a] == s[a2]);
                        lemma_id_map_at(s, a2);
                    }
                    assert(id_map(t) =~= m);
                    assert(t =~= swap_removed(s, index as int));
                    assert(0 <= index < old(self).spec_len() && old(self).entries()[index as int].0 == id
                        && self.entries() == swap_removed(old(self).entries(), index as int));
                }
                Some(item)
            },
        }
    }

    /// The index in storage order of the item with identifier `id`.
    pub fn id_to_index(&self, id: Id) -> (r: Result<usize, InvalidId>)
        requires
            self.wf(),
        ensures
            match r {
                Ok(i) => i < self.spec_len() && self.entries()[i as int].0 == id && self.view().contains_key(id),
                Err(e) => e == InvalidId(id) && !self.view().contains_key(id),
            },
    {
        match self.find(id) {
            Some(i) => {
                proof {
                    lemma_id_map_at(self.primary@, i as int);
                }
                Ok(i)
            },
            None => Err(InvalidId(id)),
        }
    }

    /// The item with identifier `id`.
    pub fn get_by_id(&self, id: Id) -> (r: Result<&T, InvalidId>)
        requires
            self.wf(),
        ensures
            match r {
                Ok(v) => self.view().contains_key(id) && *v == self.view()[id],
                Err(e) => e == InvalidId(id) && !self.view().contains_key(id),
            },
    {
        match self.find(id) {
            Some(i) => {
                proof {
                    lemma_id_map_at(self.primary@, i as int);
                }
                Ok(&self.primary[i].1)
            },
            None => Err(InvalidId(id)),
        }
    }

    /// The item with identifier `id`, mutably borrowed.
    pub fn get_by_id_mut(&mut self, id: Id) -> (r: Result<&mut T, InvalidId>)
        requires
            old(self).wf(),
        ensures
            match r {
                Ok(v) => old(self).view().contains_key(id) && *v == old(self).view()[id] && final(self).wf()
                    && final(self).view() == old(self).view().insert(id, *final(v))
                    && final(self).next_id() == old(self).next_id()
                    && final(self).spec_len() == old(self).spec_len(),
                Err(e) => e == InvalidId(id) && !old(self).view().contains_key(id) && *final(self) == *old(self),
            },
    {
        match self.find(id) {
            Some(i) => {
                proof {
                    lemma_id_map_at(self.primary@, i as int);
                    let s = self.primary@;
                    assert forall|x: T| #[trigger] id_map(s.update(i as int, (s[i as int].0, x))) == id_map(s).insert(s[i as int].0, x) && distinct_ids(s.update(i as int, (s[i as int].0, x))) by {
                        lemma_id_map_update(s, i as int, x);
                    }
                    assert forall|x: T, a: int| 0 <= a < s.len() implies (#[trigger] s.update(i as int, (s[i as int].0, x))[a]).0.0 < self.next by {
                        assert(s.update(i as int, (s[i as int].0, x))[a].0 == s[a].0);
                    }
                }
                Ok(&mut self.primary[i].1)
            },
            None => Err(InvalidId(id)),
        }
    }

    /// Replaces the item with identifier `id`, returning the one it held.
    pub fn replace_by_id(&mut self, id: Id, data: T) -> (r: Result<T, InvalidId>)
        requires
            old(self).wf(),
        ensures
            final(self).wf(),
            final(self).next_id() == old(self).next_id(),
            final(self).spec_len() == old(self).spec_len(),
            match r {
                Ok(v) => old(self).view().contains_key(id) && v == old(self).view()[id]
                    && final(self).view() == old(self).view().insert(id, data),
                Err(e) => e == InvalidId(id) && !old(self).view().contains_key(id)
                    && final(self).view() == old(self).view(),
            },
    {
        match self.find(id) {
            Some(i) => {
                let ghost s = self.primary@;
                proof {
                    lemma_id_map_at(s, i as int);
                }
                let (k, prev) = self.primary.remove(i);
                self.primary.insert(i, (k, data));
                proof {
                    let t = self.primary@;
                    assert(t =~= s.update(i as int, (id, data)));
                    assert forall|a: int, b: int| 0 <= a < b < t.len() implies #[trigger] t[a].0 != #[trigger] t[b].0 by {
                        assert(t[a].0 == s[a].0 && t[b].0 == s[b].0);
                    }
                    assert forall|a: int| 0 <= a < t.len() implies (#[trigger] t[a]).0.0 < self.next by {
                        assert(t[a].0 == s[a].0);
                    }
                    let m = id_map(s).insert(id, data);
                    assert forall|q: Id| #[trigger] id_map(t).contains_key(q) <==> m.contains_key(q) by {
                        if m.contains_key(q) {
                            if q == id {
                                assert(t[i as int].0 == q);
                            } else {
                                let j = choose|j: int| 0 <= j < s.len() && #[trigger] s[j].0 == q;
                                assert(t[j].0 == q);
                            }
                        }
                        if id_map(t).contains_key(q) {
                            let j = choose|j: int| 0 <= j < t.len() && #[trigger] t[j].0 == q;
                            assert(s[j].0 == q);
                        }
                    }
                    assert forall|q: Id| #[trigger] id_map(t).contains_key(q) implies id_map(t)[q] == m[q] by {
                        let j = choose|j: int| 0 <= j < t.len() && #[trigger] t[j].0 == q;
                        lemma_id_map_at(t, j);
                        if j != i {
                            assert(t[j] == s[j]);
                            lemma_id_map_at(s, j);
                        }
                    }
                    assert(id_map(t) =~= m);
                }
                Ok(prev)
            },
            None => Err(InvalidId(id)),
        }
    }

    /// The identifier and the item at `index` in storage order.
    pub fn get_by_index(&self, index: usize) -> (r: Result<(Id, &T), InvalidIndex>)
        requires
            self.wf(),
        ensures
            match r {
                Ok((id, v)) => index < self.spec_len() && id == self.entries()[index as int].0 && *v
                    == self.entries()[index as int].1 && self.view().contains_key(id) && *v == self.view()[id],
                Err(e) => index >= self.spec_len() && e == InvalidIndex { index, len: self.spec_len() as usize },
            },
    {
        if index < self.primary.len() {
            proof {
                lemma_id_map_at(self.primary@, index as int);
            }
            let e = &self.primary[index];
            Ok((e.0, &e.1))
        } else {
            Err(InvalidIndex { index, len: self.primary.len() })
        }
    }

    /// The identifier and the item at `index` in storage order, mutably borrowed.
    pub fn get_by_index_mut(&mut self, index: usize) -> (r: Result<(Id, &mut T), InvalidIndex>)
        requires
            old(self).wf(),
        ensures
            match r {
                Ok((id, v)) => index < old(self).spec_len() && id == old(self).entries()[index as int].0
                    && *v == old(self).entries()[index as int].1 && final(self).wf()
                    && final(self).view() == old(self).view().insert(id, *final(v))
                    && final(self).entries() == old(self).entries().update(index as int, (id, *final(v)))
                    && final(self).next_id() == old(self).next_id(),
                Err(e) => index >= old(self).spec_len() && e == InvalidIndex {
                    index,
                    len: old(self).spec_len() as usize,
                } && *final(self) == *old(self),
            },
    {
        if index < self.primary.len() {
            proof {
                let s = self.primary@;
                let i = index as int;
                assert forall|x: T| #[trigger] id_map(s.update(i, (s[i].0, x))) == id_map(s).insert(s[i].0, x) && distinct_ids(s.update(i, (s[i].0, x))) by {
                    lemma_id_map_update(s, i, x);
                }
                assert forall|x: T, a: int| 0 <= a < s.len() implies (#[trigger] s.update(i, (s[i].0, x))[a]).0.0 < self.next by {
                    assert(s.update(i, (s[i].0, x))[a].0 == s[a].0);
                }
            }
            let e = &mut self.primary[index];
            Ok((e.0, &mut e.1))
        } else {
            Err(InvalidIndex { index, len: self.primary.len() })
        }
    }

    /// The items with their identifiers, in storage order.
    pub fn iter(&self) -> (r: std::vec::IntoIter<(Id, &T)>)
        requires
            self.wf(),
        ensures
            vstd::std_specs::vec::into_iter_elts(r).len() == self.spec_len(),
            forall|i: int| 0 <= i < self.spec_len() ==> {
                let e = #[trigger] vstd::std_specs::vec::into_iter_elts(r)[i];
                e.0 == self.entries()[i].0 && *e.1 == self.entries()[i].1
            },
    {
        let mut out: Vec<(Id, &T)> = Vec::new();
        let mut i: usize = 0;
        while i < self.primary.len()
            invariant
                i <= self.primary@.len(),
                out@.len() == i,
                forall|a: int| 0 <= a < i ==> #[trigger] out@[a].0 == self.primary@[a].0 && *out@[a].1
                    == self.primary@[a].1,
            decreases self.primary@.len() - i,
        {
            let e = &self.primary[i];
            out.push((e.0, &e.1));
            i += 1;
        }
        out.into_iter()
    }

    /// The items with their identifiers, owned, in storage order.
    pub fn into_iter(self) -> (r: std::vec::IntoIter<(Id, T)>)
        ensures
            vstd::std_specs::vec::into_iter_elts(r) == self.entries(),
    {
        self.primary.into_iter()
    }
}

} // verus!
