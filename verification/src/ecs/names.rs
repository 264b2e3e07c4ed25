//! Tables of items under distinct names.
use vstd::prelude::*;

verus! {

/// The map from names to items that a sequence of entries stands for.
pub open spec fn name_map<T>(s: Seq<(String, T)>) -> Map<Seq<char>, T> {
    Map::new(
        |k: Seq<char>| exists|i: int| 0 <= i < s.len() && #[trigger] s[i].0@ == k,
        |k: Seq<char>| s[choose|i: int| 0 <= i < s.len() && #[trigger] s[i].0@ == k].1,
    )
}

/// Whether the names of `s` are pairwise distinct.
pub open spec fn distinct_names<T>(s: Seq<(String, T)>) -> bool {
    forall|i: int, j: int| 0 <= i < j < s.len() ==> #[trigger] s[i].0@ != #[trigger] s[j].0@
}

/// The entry at `i` of a sequence with distinct names is the one its map holds
/// under its name.
pub proof fn lemma_name_map_at<T>(s: Seq<(String, T)>, i: int)
    requires
        distinct_names(s),
        0 <= i < s.len(),
    ensures
        name_map(s).contains_key(s[i].0@),
        name_map(s)[s[i].0@] == s[i].1,
{
    let k = s[i].0@;
    assert(s[i].0@ == k);
    let j = choose|j: int| 0 <= j < s.len() && #[trigger] s[j].0@ == k;
    if j != i {
        if j < i {
            assert(s[j].0@ != s[i].0@);
        } else {
            assert(s[i].0@ != s[j].0@);
        }
    }
}

/// Appending an entry under a new name inserts it in the map.
pub proof fn lemma_name_map_push<T>(s: Seq<(String, T)>, k: String, x: T)
    requires
        distinct_names(s),
        !name_map(s).contains_key(k@),
    ensures
        distinct_names(s.push((k, x))),
        name_map(s.push((k, x))) == name_map(s).insert(k@, x),
{
    let t = s.push((k, x));
    assert forall|a: int, b: int| 0 <= a < b < t.len() implies #[trigger] t[a].0@ != #[trigger] t[b].0@ by {
        if b == s.len() {
            assert(t[a] == s[a]);
            if s[a].0@ == k@ {
                assert(name_map(s).contains_key(k@));
            }
        } else {
            assert(t[a] == s[a] && t[b] == s[b]);
        }
    }
    let m = name_map(s).insert(k@, x);
    assert forall|q: Seq<char>| #[trigger] name_map(t).contains_key(q) <==> m.contains_key(q) by {
        if m.contains_key(q) {
            if q == k@ {
                assert(t[s.len() as int].0@ == q);
            } else {
                let j = choose|j: int| 0 <= j < s.len() && #[trigger] s[j].0@ == q;
                assert(t[j].0@ == q);
            }
        }
        if name_map(t).contains_key(q) {
            let j = choose|j: int| 0 <= j < t.len() && #[trigger] t[j].0@ == q;
            if j < s.len() {
                assert(s[j].0@ == q);
            }
        }
    }
    assert forall|q: Seq<char>| #[trigger] name_map(t).contains_key(q) implies name_map(t)[q] == m[q] by {
        let j = choose|j: int| 0 <= j < t.len() && #[trigger] t[j].0@ == q;
        lemma_name_map_at(t, j);
        if j < s.len() {
            assert(t[j] == s[j]);
            lemma_name_map_at(s, j);
        }
    }
    assert(name_map(t) =~= m);
}

/// Removing the entry at `i` removes its name from the map.
pub proof fn lemma_name_map_remove<T>(s: Seq<(String, T)>, i: int)
    requires
        distinct_names(s),
        0 <= i < s.len(),
    ensures
        distinct_names(s.remove(i)),
        name_map(s.remove(i)) == name_map(s).remove(s[i].0@),
{
    let k = s[i].0@;
    let t = s.remove(i);
    assert forall|a: int| 0 <= a < t.len() implies #[trigger] t[a] == if a < i { s[a] } else { s[a + 1] } by {}
    assert forall|a: int, b: int| 0 <= a < b < t.len() implies #[trigger] t[a].0@ != #[trigger] t[b].0@ by {
        let sa = if a < i { a } else { a + 1 };
        let sb = if b < i { b } else { b + 1 };
        assert(t[a] == s[sa] && t[b] == s[sb]);
    }
    let m = name_map(s).remove(k);
    assert forall|q: Seq<char>| #[trigger] name_map(t).contains_key(q) <==> m.contains_key(q) by {
        if m.contains_key(q) {
            let j = choose|j: int| 0 <= j < s.len() && #[trigger] s[j].0@ == q;
            assert(j != i);
            if j < i {
                assert(t[j].0@ == q);
            } else {
                assert(t[j - 1].0@ == q);
            }
        }
        if name_map(t).contains_key(q) {
            let j = choose|j: int| 0 <= j < t.len() && #[trigger] t[j].0@ == q;
            let sj = if j < i { j } else { j + 1 };
            assert(s[sj].0@ == q);
            if q == k {
                if sj < i {
                    assert(s[sj].0@ != s[i].0@);
                } else {
                    assert(s[i].0@ != s[sj].0@);
                }
            }
        }
    }
    assert forall|q: Seq<char>| #[trigger] name_map(t).contains_key(q) implies name_map(t)[q] == m[q] by {
        let j = choose|j: int| 0 <= j < t.len() && #[trigger] t[j].0@ == q;
        lemma_name_map_at(t, j);
        let sj = if j < i { j } else { j + 1 };
        assert(t[j] == s[sj]);
        lemma_name_map_at(s, sj);
    }
    assert(name_map(t) =~= m);
}

/// A table of items under distinct names, in the order of insertion.
#[derive(Debug, Clone)]
pub struct Names<T> {
    entries: Vec<(String, T)>,
}

impl<T: Copy> Names<T> {
    /// The entries, in order.
    pub closed spec fn entries(self) -> Seq<(String, T)> {
        self.entries@
    }

    /// The items by name.
    pub open spec fn view(self) -> Map<Seq<char>, T> {
        name_map(self.entries())
    }

    /// The well-formedness of the table: distinct names.
    pub open spec fn wf(self) -> bool {
        distinct_names(self.entries())
    }

    /// An empty table.
    pub fn new() -> (r: Names<T>)
        ensures
            r.wf(),
            r.view() == Map::<Seq<char>, T>::empty(),
    {
        let r = Names { entries: Vec::new() };
        assert(r.view() =~= Map::<Seq<char>, T>::empty());
        r
    }

    /// The place of `name`, if it is there.
    fn find(&self, name: &str) -> (r: Option<usize>)
        requires
            self.wf(),
        ensures
            match r {
                Some(i) => i < self.entries().len() && self.entries()[i as int].0@ == name@ && self.view().contains_key(name@)
                    && self.view()[name@] == self.entries()[i as int].1,
                None => !self.view().contains_key(name@),
            },
    {
        let wanted = name.to_owned();
        let mut i: usize = 0;
        while i < self.entries.len()
            invariant
                i <= self.entries@.len(),
                wanted@ == name@,
                distinct_names(self.entries@),
                forall|j: int| 0 <= j < i ==> #[trigger] self.entries@[j].0@ != name@,
            decreases self.entries@.len() - i,
        {
            if self.entries[i].0 == wanted {
                proof {
                    lemma_name_map_at(self.entries@, i as int);
                }
                return Some(i);
            }
            i += 1;
        }
        None
    }

    /// The item under `name`.
    pub fn get(&self, name: &str) -> (r: Option<T>)
        requires
            self.wf(),
        ensures
            match r {
                Some(v) => self.view().contains_key(name@) && v == self.view()[name@],
                None => !self.view().contains_key(name@),
            },
    {
        match self.find(name) {
            Some(i) => Some(self.entries[i].1),
            None => None,
        }
    }

    /// Adds `value` under a name that is not there.
    pub fn insert(&mut self, name: String, value: T)
        requires
            old(self).wf(),
            !old(self).view().contains_key(name@),
        ensures
            final(self).wf(),
            final(self).view() == old(self).view().insert(name@, value),
    {
        proof {
            lemma_name_map_push(self.entries@, name, value);
        }
        self.entries.push((name, value));
    }

    /// Removes `name`, giving back its item.
    pub fn remove(&mut self, name: &str) -> (r: Option<T>)
        requires
            old(self).wf(),
        ensures
            final(self).wf(),
            final(self).view() == old(self).view().remove(name@),
            match r {
                Some(v) => old(self).view().contains_key(name@) && v == old(self).view()[name@],
                None => !old(self).view().contains_key(name@),
            },
    {
        match self.find(name) {
            Some(i) => {
                proof {
                    lemma_name_map_remove(self.entries@, i as int);
                }
                let (_, v) = self.entries.remove(i);
                Some(v)
            },
            None => {
                assert(self.view().remove(name@) =~= self.view());
                None
            },
        }
    }
}

} // verus!
