//! Tables of items under distinct numeric keys, kept in the order of insertion.
use vstd::prelude::*;

verus! {

/// The map from keys to items that a sequence of entries stands for.
pub open spec fn key_map<T>(s: Seq<(u64, T)>) -> Map<u64, T> {
    Map::new(
        |k: u64| exists|i: int| 0 <= i < s.len() && #[trigger] s[i].0 == k,
        |k: u64| s[choose|i: int| 0 <= i < s.len() && #[trigger] s[i].0 == k].1,
    )
}

/// Whether the keys of `s` are pairwise distinct.
pub open spec fn distinct_keys<T>(s: Seq<(u64, T)>) -> bool {
    forall|i: int, j: int| 0 <= i < j < s.len() ==> #[trigger] s[i].0 != #[trigger] s[j].0
}

/// The entry at `i` of a sequence with distinct keys is the one its map holds
/// under its key.
pub proof fn lemma_key_map_at<T>(s: Seq<(u64, T)>, i: int)
    requires
        distinct_keys(s),
        0 <= i < s.len(),
    ensures
        key_map(s).contains_key(s[i].0),
        key_map(s)[s[i].0] == s[i].1,
{
    let k = s[i].0;
    assert(s[i].0 == k);
    let j = choose|j: int| 0 <= j < s.len() && #[trigger] s[j].0 == k;
    if j != i {
        if j < i {
            assert(s[j].0 != s[i].0);
        } else {
            assert(s[i].0 != s[j].0);
        }
    }
}

/// Replacing the item at `i` replaces it in the map.
pub proof fn lemma_key_map_update<T>(s: Seq<(u64, T)>, i: int, x: T)
    requires
        distinct_keys(s),
        0 <= i < s.len(),
    ensures
        distinct_keys(s.update(i, (s[i].0, x))),
        key_map(s.update(i, (s[i].0, x))) == key_map(s).insert(s[i].0, x),
{
    let id = s[i].0;
    let t = s.update(i, (id, x));
    assert forall|a: int, b: int| 0 <= a < b < t.len() implies #[trigger] t[a].0 != #[trigger] t[b].0 by {
        assert(t[a].0 == s[a].0 && t[b].0 == s[b].0);
    }
    let m = key_map(s).insert(id, x);
    assert forall|q: u64| #[trigger] key_map(t).contains_key(q) <==> m.contains_key(q) by {
        if m.contains_key(q) {
            if q == id {
                assert(t[i].0 == q);
            } else {
                let j = choose|j: int| 0 <= j < s.len() && #[trigger] s[j].0 == q;
                assert(t[j].0 == q);
            }
        }
        if key_map(t).contains_key(q) {
            let j = choose|j: int| 0 <= j < t.len() && #[trigger] t[j].0 == q;
            assert(s[j].0 == q);
        }
    }
    assert forall|q: u64| #[trigger] key_map(t).contains_key(q) implies key_map(t)[q] == m[q] by {
        let j = choose|j: int| 0 <= j < t.len() && #[trigger] t[j].0 == q;
        lemma_key_map_at(t, j);
        if j != i {
            assert(t[j] == s[j]);
            lemma_key_map_at(s, j);
        }
    }
    assert(key_map(t) =~= m);
}

/// Appending an entry under a new key inserts it in the map.
pub proof fn lemma_key_map_push<T>(s: Seq<(u64, T)>, k: u64, x: T)
    requires
        distinct_keys(s),
        !key_map(s).contains_key(k),
    ensures
        distinct_keys(s.push((k, x))),
        key_map(s.push((k, x))) == key_map(s).insert(k, x),
{
    let t = s.push((k, x));
    assert forall|a: int, b: int| 0 <= a < b < t.len() implies #[trigger] t[a].0 != #[trigger] t[b].0 by {
        if b == s.len() {
            assert(t[a] == s[a]);
            if s[a].0 == k {
                assert(key_map(s).contains_key(k));
            }
        } else {
            assert(t[a] == s[a] && t[b] == s[b]);
        }
    }
    let m = key_map(s).insert(k, x);
    assert forall|q: u64| #[trigger] key_map(t).contains_key(q) <==> m.contains_key(q) by {
        if m.contains_key(q) {
            if q == k {
                assert(t[s.len() as int].0 == q);
            } else {
                let j = choose|j: int| 0 <= j < s.len() && #[trigger] s[j].0 == q;
                assert(t[j].0 == q);
            }
        }
        if key_map(t).contains_key(q) {
            let j = choose|j: int| 0 <= j < t.len() && #[trigger] t[j].0 == q;
            if j < s.len() {
                assert(s[j].0 == q);
            }
        }
    }
    assert forall|q: u64| #[trigger] key_map(t).contains_key(q) implies key_map(t)[q] == m[q] by {
        let j = choose|j: int| 0 <= j < t.len() && #[trigger] t[j].0 == q;
        lemma_key_map_at(t, j);
        if j < s.len() {
            assert(t[j] == s[j]);
            lemma_key_map_at(s, j);
        }
    }
    assert(key_map(t) =~= m);
}

/// Removing the entry at `i` removes its key from the map.
pub proof fn lemma_key_map_remove<T>(s: Seq<(u64, T)>, i: int)
    requires
        distinct_keys(s),
        0 <= i < s.len(),
    ensures
        distinct_keys(s.remove(i)),
        key_map(s.remove(i)) == key_map(s).remove(s[i].0),
{
    let k = s[i].0;
    let t = s.remove(i);
    assert forall|a: int| 0 <= a < t.len() implies #[trigger] t[a] == if a < i { s[a] } else { s[a + 1] } by {}
    assert forall|a: int, b: int| 0 <= a < b < t.len() implies #[trigger] t[a].0 != #[trigger] t[b].0 by {
        let sa = if a < i { a } else { a + 1 };
        let sb = if b < i { b } else { b + 1 };
        assert(t[a] == s[sa] && t[b] == s[sb]);
    }
    let m = key_map(s).remove(k);
    assert forall|q: u64| #[trigger] key_map(t).contains_key(q) <==> m.contains_key(q) by {
        if m.contains_key(q) {
            let j = choose|j: int| 0 <= j < s.len() && #[trigger] s[j].0 == q;
            assert(j != i);
            if j < i {
                assert(t[j].0 == q);
            } else {
                assert(t[j - 1].0 == q);
            }
        }
        if key_map(t).contains_key(q) {
            let j = choose|j: int| 0 <= j < t.len() && #[trigger] t[j].0 == q;
            let sj = if j < i { j } else { j + 1 };
            assert(s[sj].0 == q);
            if q == k {
                if sj < i {
                    assert(s[sj].0 != s[i].0);
                } else {
                    assert(s[i].0 != s[sj].0);
                }
            }
        }
    }
    assert forall|q: u64| #[trigger] key_map(t).contains_key(q) implies key_map(t)[q] == m[q] by {
        let j = choose|j: int| 0 <= j < t.len() && #[trigger] t[j].0 == q;
        lemma_key_map_at(t, j);
        let sj = if j < i { j } else { j + 1 };
        assert(t[j] == s[sj]);
        lemma_key_map_at(s, sj);
    }
    assert(key_map(t) =~= m);
}

/// A sequence with distinct keys stands for a finite map with as many keys as
/// entries.
pub proof fn lemma_key_map_len<T>(s: Seq<(u64, T)>)
    requires
        distinct_keys(s),
    ensures
        key_map(s).dom().finite(),
        key_map(s).len() == s.len(),
    decreases s.len(),
{
    if s.len() == 0 {
        assert(key_map(s) =~= Map::<u64, T>::empty());
    } else {
        let t = s.drop_last();
        let last = s.last();
        assert(distinct_keys(t)) by {
            assert forall|a: int, b: int| 0 <= a < b < t.len() implies #[trigger] t[a].0 != #[trigger] t[b].0 by {
                assert(t[a] == s[a] && t[b] == s[b]);
            }
        }
        lemma_key_map_len(t);
        if key_map(t).contains_key(last.0) {
            let j = choose|j: int| 0 <= j < t.len() && #[trigger] t[j].0 == last.0;
            assert(s[j].0 == s[s.len() - 1].0);
        }
        lemma_key_map_push(t, last.0, last.1);
        assert(t.push((last.0, last.1)) =~= s);
    }
}

/// A table of items under distinct keys, in the order of insertion.
#[derive(Debug, Clone)]
pub struct Table<V> {
    entries: Vec<(u64, V)>,
}

impl<V> Table<V> {
    /// The entries, in order.
    pub closed spec fn entries(self) -> Seq<(u64, V)> {
        self.entries@
    }

    /// The items by key.
    pub open spec fn view(self) -> Map<u64, V> {
        key_map(self.entries())
    }

    /// The well-formedness of the table: distinct keys.
    pub open spec fn wf(self) -> bool {
        distinct_keys(self.entries())
    }

    /// An empty table.
    pub fn new() -> (r: Table<V>)
        ensures
            r.wf(),
            r.view() == Map::<u64, V>::empty(),
            r.entries().len() == 0,
    {
        let r = Table { entries: Vec::new() };
        assert(r.view() =~= Map::<u64, V>::empty());
        r
    }

    /// The number of entries.
    pub fn len(&self) -> (r: usize)
        ensures
            r == self.entries().len(),
    {
        self.entries.len()
    }

    /// The place of `key`, if it is there.
    pub fn find(&self, key: u64) -> (r: Option<usize>)
        requires
            self.wf(),
        ensures
            match r {
                Some(i) => i < self.entries().len() && self.entries()[i as int].0 == key && self.view().contains_key(key)
                    && self.view()[key] == self.entries()[i as int].1,
                None => !self.view().contains_key(key),
            },
    {
        let mut i: usize = 0;
        while i < self.entries.len()
            invariant
                i <= self.entries@.len(),
                distinct_keys(self.entries@),
                forall|j: int| 0 <= j < i ==> #[trigger] self.entries@[j].0 != key,
            decreases self.entries@.len() - i,
        {
            if self.entries[i].0 == key {
                proof {
                    lemma_key_map_at(self.entries@, i as int);
                }
                return Some(i);
            }
            i += 1;
        }
        None
    }

    /// The key and the item at `index`.
    pub fn at(&self, index: usize) -> (r: (u64, &V))
        requires
            self.wf(),
            index < self.entries().len(),
        ensures
            r.0 == self.entries()[index as int].0,
            *r.1 == self.entries()[index as int].1,
            self.view().contains_key(r.0),
            self.view()[r.0] == *r.1,
    {
        proof {
            lemma_key_map_at(self.entries@, index as int);
        }
        let e = &self.entries[index];
        (e.0, &e.1)
    }

    /// The item under `key`.
    pub fn get(&self, key: u64) -> (r: Option<&V>)
        requires
            self.wf(),
        ensures
            match r {
                Some(v) => self.view().contains_key(key) && *v == self.view()[key],
                None => !self.view().contains_key(key),
            },
    {
        match self.find(key) {
            Some(i) => Some(&self.entries[i].1),
            None => None,
        }
    }

    /// Appends `value` under a key that is not there.
    pub fn push(&mut self, key: u64, value: V)
        requires
            old(self).wf(),
            !old(self).view().contains_key(key),
        ensures
            final(self).wf(),
            final(self).view() == old(self).view().insert(key, value),
            final(self).entries() == old(self).entries().push((key, value)),
    {
        proof {
            lemma_key_map_push(self.entries@, key, value);
        }
        self.entries.push((key, value));
    }

    /// Replaces the item at `index`, giving back the one it held.
    pub fn replace_at(&mut self, index: usize, value: V) -> (r: V)
        requires
            old(self).wf(),
            index < old(self).entries().len(),
        ensures
            final(self).wf(),
            r == old(self).entries()[index as int].1,
            final(self).entries() == old(self).entries().update(index as int, (old(self).entries()[index as int].0, value)),
            final(self).view() == old(self).view().insert(old(self).entries()[index as int].0, value),
    {
        let ghost s = self.entries@;
        let (key, prev) = self.entries.remove(index);
        self.entries.insert(index, (key, value));
        proof {
            assert(self.entries@ =~= s.update(index as int, (key, value)));
            lemma_key_map_update(s, index as int, value);
        }
        prev
    }

    /// The item at `index`, to change in place; the caller's changes land in
    /// the entry.
    pub fn at_mut(&mut self, index: usize) -> (r: &mut V)
        requires
            index < old(self).entries().len(),
        ensures
            *r == old(self).entries()[index as int].1,
            final(self).entries() == old(self).entries().update(index as int, (old(self).entries()[index as int].0, *final(r))),
    {
        &mut self.entries[index].1
    }

    /// The item under `key`, to change in place.
    pub fn get_mut(&mut self, key: u64) -> (r: Option<&mut V>)
        requires
            old(self).wf(),
        ensures
            match r {
                Some(v) => {
                    &&& old(self).view().contains_key(key)
                    &&& *v == old(self).view()[key]
                    &&& final(self).wf()
                    &&& final(self).view() == old(self).view().insert(key, *final(v))
                    &&& final(self).entries().len() == old(self).entries().len()
                    &&& forall|i: int| 0 <= i < old(self).entries().len() ==> #[trigger] final(self).entries()[i].0
                        == old(self).entries()[i].0
                },
                None => !old(self).view().contains_key(key) && *final(self) == *old(self),
            },
    {
        let i = match self.find(key) {
            Some(i) => i,
            None => return None,
        };
        proof {
            let s = self.entries@;
            assert forall|x: V| #[trigger] key_map(s.update(i as int, (s[i as int].0, x))) == key_map(s).insert(
                s[i as int].0,
                x,
            ) && distinct_keys(s.update(i as int, (s[i as int].0, x))) by {
                lemma_key_map_update(s, i as int, x);
            }
        }
        Some(self.at_mut(i))
    }

    /// Removes the entry at `index`, giving back its key and item.
    pub fn remove_at(&mut self, index: usize) -> (r: (u64, V))
        requires
            old(self).wf(),
            index < old(self).entries().len(),
        ensures
            final(self).wf(),
            r == old(self).entries()[index as int],
            final(self).entries() == old(self).entries().remove(index as int),
            final(self).view() == old(self).view().remove(r.0),
    {
        proof {
            lemma_key_map_remove(self.entries@, index as int);
        }
        self.entries.remove(index)
    }
}

} // verus!
