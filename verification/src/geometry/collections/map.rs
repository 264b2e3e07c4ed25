//! A map keyed by points, which lists its entries row by row or column by column.
use vstd::prelude::*;
use crate::geometry::coord::Coord;
use crate::geometry::coords::{CoordPair, deref_pair};
use crate::geometry::axis::Axis;
use crate::geometry::bounds::{AxisBounds, CoordRange};

verus! {

/// The coordinates of `p` on the higher axis, then on the lower axis.
pub open spec fn major_minor<K: Coord>(axis: Axis, p: CoordPair<K>) -> (int, int) {
    match axis {
        Axis::Y => (p.y.value(), p.x.value()),
        Axis::X => (p.x.value(), p.y.value()),
    }
}

/// Whether `a` comes strictly before `b` when listing with `axis` as the higher axis.
pub open spec fn key_lt<K: Coord>(axis: Axis, a: CoordPair<K>, b: CoordPair<K>) -> bool {
    let (a1, a2) = major_minor(axis, a);
    let (b1, b2) = major_minor(axis, b);
    a1 < b1 || (a1 == b1 && a2 < b2)
}

/// Whether the keys of `s` strictly increase in the order of `axis`.
pub open spec fn sorted_on<K: Coord, V>(axis: Axis, s: Seq<(CoordPair<K>, V)>) -> bool {
    forall|i: int, j: int| 0 <= i < j < s.len() ==> key_lt(axis, #[trigger] s[i].0, #[trigger] s[j].0)
}

/// The map that a sequence of entries with distinct keys stands for.
pub open spec fn entries_map<K, V>(s: Seq<(CoordPair<K>, V)>) -> Map<CoordPair<K>, V> {
    Map::new(
        |k: CoordPair<K>| exists|i: int| 0 <= i < s.len() && #[trigger] s[i].0 == k,
        |k: CoordPair<K>| s[choose|i: int| 0 <= i < s.len() && #[trigger] s[i].0 == k].1,
    )
}

/// Whether `s` lists, in the order of `axis`, exactly the entries of `m` whose
/// keys satisfy `pred`.
pub open spec fn is_listing<K: Coord, V>(
    s: Seq<(CoordPair<K>, V)>,
    m: Map<CoordPair<K>, V>,
    axis: Axis,
    pred: spec_fn(CoordPair<K>) -> bool,
) -> bool {
    &&& sorted_on(axis, s)
    &&& forall|i: int| 0 <= i < s.len() ==> m.contains_key(#[trigger] s[i].0) && m[s[i].0] == s[i].1 && pred(s[i].0)
    &&& forall|k: CoordPair<K>| m.contains_key(k) && pred(k) ==> exists|i: int| 0 <= i < s.len() && #[trigger] s[i].0 == k
}

/// The entries behind a sequence of borrowed entries.
pub open spec fn unref_entries<K, V>(s: Seq<(CoordPair<&K>, &V)>) -> Seq<(CoordPair<K>, V)> {
    s.map_values(|e: (CoordPair<&K>, &V)| (deref_pair(e.0), *e.1))
}

/// A predicate that every key satisfies.
pub open spec fn every_key<K>() -> spec_fn(CoordPair<K>) -> bool {
    |k: CoordPair<K>| true
}

/// Two listings, in the order of the same axis, of the entries of the same
/// map whose keys satisfy the same predicate are the same listing. So what
/// `into_iter_with` gives is what `iter` gives, and the owned and borrowed
/// listings of a map agree entry by entry.
pub proof fn law_listing_unique<K: Coord, V>(
    s: Seq<(CoordPair<K>, V)>,
    t: Seq<(CoordPair<K>, V)>,
    m: Map<CoordPair<K>, V>,
    axis: Axis,
    pred: spec_fn(CoordPair<K>) -> bool,
)
    requires
        is_listing(s, m, axis, pred),
        is_listing(t, m, axis, pred),
    ensures
        s == t,
    decreases s.len(),
{
    if s.len() == 0 {
        if t.len() > 0 {
            assert(m.contains_key(t[0].0) && pred(t[0].0));
        }
        assert(s =~= t);
    } else {
        assert(m.contains_key(s[0].0) && pred(s[0].0));
        if t.len() == 0 {
            assert(false);
        }
        let j = choose|j: int| 0 <= j < t.len() && #[trigger] t[j].0 == s[0].0;
        assert(m.contains_key(t[0].0) && pred(t[0].0));
        let i = choose|i: int| 0 <= i < s.len() && #[trigger] s[i].0 == t[0].0;
        if s[0].0 != t[0].0 {
            assert(i != 0 && j != 0);
            assert(key_lt(axis, s[0].0, s[i].0));
            assert(key_lt(axis, t[0].0, t[j].0));
            K::lemma_injective(s[0].0.y, t[0].0.y);
            K::lemma_injective(s[0].0.x, t[0].0.x);
        }
        let first = s[0].0;
        let pred2 = |k: CoordPair<K>| pred(k) && k != first;
        let s2 = s.drop_first();
        let t2 = t.drop_first();
        assert(is_listing(s2, m, axis, pred2)) by {
            assert forall|i: int| 0 <= i < s2.len() implies m.contains_key(#[trigger] s2[i].0) && m[s2[i].0] == s2[i].1
                && pred2(s2[i].0) by {
                assert(s2[i] == s[i + 1]);
                assert(key_lt(axis, s[0].0, s[i + 1].0));
            }
            assert forall|k: CoordPair<K>| m.contains_key(k) && pred2(k) implies exists|i: int|
                0 <= i < s2.len() && #[trigger] s2[i].0 == k by {
                let i = choose|i: int| 0 <= i < s.len() && #[trigger] s[i].0 == k;
                assert(s2[i - 1].0 == k);
            }
        }
        assert(is_listing(t2, m, axis, pred2)) by {
            assert forall|i: int| 0 <= i < t2.len() implies m.contains_key(#[trigger] t2[i].0) && m[t2[i].0] == t2[i].1
                && pred2(t2[i].0) by {
                assert(t2[i] == t[i + 1]);
                assert(key_lt(axis, t[0].0, t[i + 1].0));
            }
            assert forall|k: CoordPair<K>| m.contains_key(k) && pred2(k) implies exists|i: int|
                0 <= i < t2.len() && #[trigger] t2[i].0 == k by {
                let i = choose|i: int| 0 <= i < t.len() && #[trigger] t[i].0 == k;
                assert(t2[i - 1].0 == k);
            }
        }
        law_listing_unique(s2, t2, m, axis, pred2);
        assert(s[0] == t[0]);
        assert(s =~= t) by {
            assert forall|i: int| 0 <= i < s.len() implies s[i] == t[i] by {
                if i > 0 {
                    assert(s[i] == s2[i - 1]);
                    assert(t[i] == t2[i - 1]);
                }
            }
        }
    }
}

/// On the same map and axis, the owned listing that `into_iter_with` gives is
/// the borrowed listing that `iter` gives, entry by entry; read backwards, each
/// is the other read backwards, with keys strictly decreasing on the axis.
pub proof fn law_owned_listing_is_borrowed_listing<K: Coord, V>(
    m: Map<CoordPair<K>, V>,
    axis: Axis,
    owned: IntoIter<K, V>,
    borrowed: Iter<'_, K, V>,
)
    requires
        is_listing(vstd::std_specs::vec::into_iter_elts(owned), m, axis, every_key()),
        is_listing(unref_entries(vstd::std_specs::vec::into_iter_elts(borrowed)), m, axis, every_key()),
    ensures
        vstd::std_specs::vec::into_iter_elts(owned) == unref_entries(vstd::std_specs::vec::into_iter_elts(borrowed)),
        vstd::std_specs::vec::into_iter_elts(owned).reverse() == unref_entries(
            vstd::std_specs::vec::into_iter_elts(borrowed),
        ).reverse(),
        ({
            let r = vstd::std_specs::vec::into_iter_elts(owned).reverse();
            forall|i: int, j: int| 0 <= i < j < r.len() ==> key_lt(axis, #[trigger] r[j].0, #[trigger] r[i].0)
        }),
{
    let s = vstd::std_specs::vec::into_iter_elts(owned);
    law_listing_unique(s, unref_entries(vstd::std_specs::vec::into_iter_elts(borrowed)), m, axis, every_key());
    let r = s.reverse();
    assert forall|i: int, j: int| 0 <= i < j < r.len() implies key_lt(axis, #[trigger] r[j].0, #[trigger] r[i].0) by {
        assert(r[i] == s[s.len() - 1 - i]);
        assert(r[j] == s[s.len() - 1 - j]);
    }
}

/// Removing a key that was just inserted, where the map had no entry for it,
/// gives back the map as it was; reading a key just inserted gives the value.
pub proof fn law_insert_remove<K: Coord, V>(m: Map<CoordPair<K>, V>, key: CoordPair<K>, value: V)
    ensures
        m.insert(key, value)[key] == value,
        !m.contains_key(key) ==> m.insert(key, value).remove(key) == m,
{
    if !m.contains_key(key) {
        assert(m.insert(key, value).remove(key) =~= m);
    }
}

/// The entry at `i` of a sorted sequence is the one its map holds for its key.
pub proof fn lemma_entries_map_at<K: Coord, V>(s: Seq<(CoordPair<K>, V)>, axis: Axis, i: int)
    requires
        sorted_on(axis, s),
        0 <= i < s.len(),
    ensures
        entries_map(s).contains_key(s[i].0),
        entries_map(s)[s[i].0] == s[i].1,
{
    let k = s[i].0;
    assert(s[i].0 == k);
    let j = choose|j: int| 0 <= j < s.len() && #[trigger] s[j].0 == k;
    if j != i {
        if j < i {
            assert(key_lt(axis, s[j].0, s[i].0));
        } else {
            assert(key_lt(axis, s[i].0, s[j].0));
        }
    }
}

/// Inserting an entry into a sorted sequence inserts it into its map.
pub proof fn lemma_entries_map_insert<K: Coord, V>(
    s: Seq<(CoordPair<K>, V)>,
    axis: Axis,
    pos: int,
    k: CoordPair<K>,
    v: V,
)
    requires
        0 <= pos <= s.len(),
        sorted_on(axis, s.insert(pos, (k, v))),
    ensures
        sorted_on(axis, s),
        entries_map(s.insert(pos, (k, v))) == entries_map(s).insert(k, v),
        !entries_map(s).contains_key(k),
{
    let t = s.insert(pos, (k, v));
    assert forall|i: int, j: int| 0 <= i < j < s.len() implies key_lt(axis, #[trigger] s[i].0, #[trigger] s[j].0) by {
        let i2 = if i < pos { i } else { i + 1 };
        let j2 = if j < pos { j } else { j + 1 };
        assert(t[i2] == s[i]);
        assert(t[j2] == s[j]);
    }
    let m = entries_map(s);
    let n = entries_map(t);
    assert forall|q: CoordPair<K>| n.contains_key(q) <==> m.insert(k, v).contains_key(q) by {
        if n.contains_key(q) {
            let i = choose|i: int| 0 <= i < t.len() && #[trigger] t[i].0 == q;
            if i < pos {
                assert(s[i].0 == q);
            } else if i > pos {
                assert(s[i - 1].0 == q);
            }
        }
        if m.contains_key(q) {
            let j = choose|j: int| 0 <= j < s.len() && #[trigger] s[j].0 == q;
            if j < pos {
                assert(t[j].0 == q);
            } else {
                assert(t[j + 1].0 == q);
            }
        }
        if q == k {
            assert(t[pos].0 == q);
        }
    }
    if m.contains_key(k) {
        let j = choose|j: int| 0 <= j < s.len() && #[trigger] s[j].0 == k;
        let j2 = if j < pos { j } else { j + 1 };
        assert(t[j2].0 == k);
        assert(t[pos].0 == k);
        if j2 < pos {
            assert(key_lt(axis, t[j2].0, t[pos].0));
        } else {
            assert(key_lt(axis, t[pos].0, t[j2].0));
        }
    }
    assert forall|q: CoordPair<K>| #[trigger] n.contains_key(q) implies n[q] == m.insert(k, v)[q] by {
        lemma_entries_map_at(t, axis, pos);
        if q != k {
            let j = choose|j: int| 0 <= j < s.len() && #[trigger] s[j].0 == q;
            lemma_entries_map_at(s, axis, j);
            let j2 = if j < pos { j } else { j + 1 };
            assert(t[j2] == s[j]);
            lemma_entries_map_at(t, axis, j2);
        }
    }
    assert(n =~= m.insert(k, v));
}

/// Replacing the value of an entry of a sorted sequence replaces it in its map.
pub proof fn lemma_entries_map_update<K: Coord, V>(s: Seq<(CoordPair<K>, V)>, axis: Axis, pos: int, v: V)
    requires
        sorted_on(axis, s),
        0 <= pos < s.len(),
    ensures
        sorted_on(axis, s.update(pos, (s[pos].0, v))),
        entries_map(s.update(pos, (s[pos].0, v))) == entries_map(s).insert(s[pos].0, v),
{
    let k = s[pos].0;
    let t = s.update(pos, (k, v));
    assert forall|i: int, j: int| 0 <= i < j < t.len() implies key_lt(axis, #[trigger] t[i].0, #[trigger] t[j].0) by {
        assert(t[i].0 == s[i].0);
        assert(t[j].0 == s[j].0);
    }
    let m = entries_map(s);
    let n = entries_map(t);
    assert forall|q: CoordPair<K>| n.contains_key(q) <==> m.insert(k, v).contains_key(q) by {
        if n.contains_key(q) {
            let i = choose|i: int| 0 <= i < t.len() && #[trigger] t[i].0 == q;
            assert(s[i].0 == q);
        }
        if m.contains_key(q) {
            let j = choose|j: int| 0 <= j < s.len() && #[trigger] s[j].0 == q;
            assert(t[j].0 == q);
        }
        if q == k {
            assert(t[pos].0 == q);
        }
    }
    assert forall|q: CoordPair<K>| #[trigger] n.contains_key(q) implies n[q] == m.insert(k, v)[q] by {
        lemma_entries_map_at(t, axis, pos);
        if q != k {
            let j = choose|j: int| 0 <= j < t.len() && #[trigger] t[j].0 == q;
            assert(s[j].0 == q);
            lemma_entries_map_at(s, axis, j);
            lemma_entries_map_at(t, axis, j);
        }
    }
    assert(n =~= m.insert(k, v));
}

/// Removing an entry of a sorted sequence removes its key from its map.
pub proof fn lemma_entries_map_remove<K: Coord, V>(s: Seq<(CoordPair<K>, V)>, axis: Axis, pos: int)
    requires
        sorted_on(axis, s),
        0 <= pos < s.len(),
    ensures
        sorted_on(axis, s.remove(pos)),
        entries_map(s.remove(pos)) == entries_map(s).remove(s[pos].0),
{
    let k = s[pos].0;
    let t = s.remove(pos);
    assert forall|i: int, j: int| 0 <= i < j < t.len() implies key_lt(axis, #[trigger] t[i].0, #[trigger] t[j].0) by {
        let i2 = if i < pos { i } else { i + 1 };
        let j2 = if j < pos { j } else { j + 1 };
        assert(t[i] == s[i2]);
        assert(t[j] == s[j2]);
    }
    let m = entries_map(s);
    let n = entries_map(t);
    assert forall|q: CoordPair<K>| n.contains_key(q) <==> m.remove(k).contains_key(q) by {
        if n.contains_key(q) {
            let i = choose|i: int| 0 <= i < t.len() && #[trigger] t[i].0 == q;
            let i2 = if i < pos { i } else { i + 1 };
            assert(s[i2].0 == q);
            if q == k {
                if i2 < pos {
                    assert(key_lt(axis, s[i2].0, s[pos].0));
                } else {
                    assert(key_lt(axis, s[pos].0, s[i2].0));
                }
            }
        }
        if m.contains_key(q) && q != k {
            let j = choose|j: int| 0 <= j < s.len() && #[trigger] s[j].0 == q;
            if j < pos {
                assert(t[j].0 == q);
            } else {
                assert(t[j - 1].0 == q);
            }
        }
    }
    assert forall|q: CoordPair<K>| #[trigger] n.contains_key(q) implies n[q] == m.remove(k)[q] by {
        let i = choose|i: int| 0 <= i < t.len() && #[trigger] t[i].0 == q;
        let i2 = if i < pos { i } else { i + 1 };
        assert(t[i] == s[i2]);
        lemma_entries_map_at(t, axis, i);
        lemma_entries_map_at(s, axis, i2);
    }
    assert(n =~= m.remove(k));
}

/// Inserting an entry at a gap of a sorted sequence, between the keys below and
/// above its own, keeps it sorted and inserts the entry in its map.
pub proof fn lemma_insert_at_gap<K: Coord, V>(s: Seq<(CoordPair<K>, V)>, pos: int, k: CoordPair<K>, v: V)
    requires
        sorted_on(Axis::Y, s),
        0 <= pos <= s.len(),
        forall|j: int| 0 <= j < pos ==> key_lt(Axis::Y, #[trigger] s[j].0, k),
        forall|j: int| pos <= j < s.len() ==> key_lt(Axis::Y, k, #[trigger] s[j].0),
    ensures
        sorted_on(Axis::Y, s.insert(pos, (k, v))),
        entries_map(s.insert(pos, (k, v))) == entries_map(s).insert(k, v),
        !entries_map(s).contains_key(k),
{
    let t = s.insert(pos, (k, v));
    assert forall|i: int, j: int| 0 <= i < j < t.len() implies key_lt(
        Axis::Y,
        #[trigger] t[i].0,
        #[trigger] t[j].0,
    ) by {
        if j < pos {
            assert(t[i] == s[i] && t[j] == s[j]);
        } else if j == pos {
            assert(t[i] == s[i]);
        } else if i < pos {
            assert(t[i] == s[i] && t[j] == s[j - 1]);
        } else if i == pos {
            assert(t[j] == s[j - 1]);
        } else {
            assert(t[i] == s[i - 1] && t[j] == s[j - 1]);
        }
    }
    lemma_entries_map_insert(s, Axis::Y, pos, k, v);
}

/// A map from points to values.
///
/// Its entries can be listed row by row (ordered by `y`, then `x`) or column by
/// column (ordered by `x`, then `y`).
#[derive(Debug, Clone)]
pub struct CoordMap<K, V> {
    entries: Vec<(CoordPair<K>, V)>,
}

impl<K: Coord, V> CoordMap<K, V> {
    /// The entries, ordered row by row.
    pub closed spec fn entries(self) -> Seq<(CoordPair<K>, V)> {
        self.entries@
    }

    /// The well-formedness of the map: its entries are kept in row order.
    pub closed spec fn wf(self) -> bool {
        sorted_on(Axis::Y, self.entries@)
    }

    /// The contents of the map.
    pub closed spec fn view(self) -> Map<CoordPair<K>, V> {
        entries_map(self.entries@)
    }

    /// The number of entries.
    pub closed spec fn spec_len(self) -> nat {
        self.entries@.len()
    }

    proof fn lemma_view_at(self, i: int)
        requires
            self.wf(),
            0 <= i < self.entries@.len(),
        ensures
            self.view().contains_key(self.entries@[i].0),
            self.view()[self.entries@[i].0] == self.entries@[i].1,
    {
        let s = self.entries@;
        let k = s[i].0;
        assert(s[i].0 == k);
        let j = choose|j: int| 0 <= j < s.len() && #[trigger] s[j].0 == k;
        if j != i {
            if j < i {
                assert(key_lt(Axis::Y, s[j].0, s[i].0));
            } else {
                assert(key_lt(Axis::Y, s[i].0, s[j].0));
            }
        }
    }

    /// Every key in the view is at some index.
    proof fn lemma_view_has(self, k: CoordPair<K>)
        requires
            self.wf(),
            self.view().contains_key(k),
        ensures
            exists|i: int| 0 <= i < self.entries@.len() && #[trigger] self.entries@[i].0 == k,
    {
    }

    /// The map has a listing of its entries in row order: its own entries.
    proof fn lemma_rows_listing(self)
        requires
            self.wf(),
        ensures
            is_listing(self.entries@, self.view(), Axis::Y, every_key()),
    {
        assert forall|i: int| 0 <= i < self.entries@.len() implies self.view().contains_key(
            #[trigger] self.entries@[i].0,
        ) && self.view()[self.entries@[i].0] == self.entries@[i].1 && (every_key::<K>())(self.entries@[i].0) by {
            self.lemma_view_at(i);
        }
    }

    /// The number of entries is the number of keys of the map's contents.
    pub proof fn lemma_len_is_view_len(self)
        requires
            self.wf(),
        ensures
            self.view().dom().finite(),
            self.view().dom().len() == self.spec_len(),
    {
        let s = self.entries@;
        let keys = s.map_values(|e: (CoordPair<K>, V)| e.0);
        assert(keys.no_duplicates()) by {
            assert forall|i: int, j: int| 0 <= i < keys.len() && 0 <= j < keys.len() && i != j implies keys[i]
                != keys[j] by {
                if i < j {
                    assert(key_lt(Axis::Y, s[i].0, s[j].0));
                } else {
                    assert(key_lt(Axis::Y, s[j].0, s[i].0));
                }
            }
        }
        keys.unique_seq_to_set();
        assert(self.view().dom() =~= keys.to_set()) by {
            assert forall|k: CoordPair<K>| self.view().dom().contains(k) implies keys.to_set().contains(k) by {
                let i = choose|i: int| 0 <= i < s.len() && #[trigger] s[i].0 == k;
                assert(keys[i] == k);
            }
            assert forall|k: CoordPair<K>| keys.to_set().contains(k) implies self.view().dom().contains(k) by {
                let i = choose|i: int| 0 <= i < keys.len() && keys[i] == k;
                assert(s[i].0 == k);
            }
        }
        vstd::seq_lib::seq_to_set_is_finite(keys);
    }

    /// The number of entries.
    pub open spec fn len_spec(self) -> nat {
        self.spec_len()
    }
}

impl<K: Coord, V> CoordMap<K, V> {
    /// An empty map.
    pub fn new() -> (r: Self)
        ensures
            r.wf(),
            r.view() == Map::<CoordPair<K>, V>::empty(),
            r.spec_len() == 0,
    {
        let r = CoordMap { entries: Vec::new() };
        assert(r.view() =~= Map::<CoordPair<K>, V>::empty());
        r
    }

    /// The number of entries.
    pub fn len(&self) -> (r: usize)
        ensures
            r == self.spec_len(),
            self.wf() ==> r == self.view().dom().len(),
    {
        proof {
            if self.wf() {
                self.lemma_len_is_view_len();
            }
        }
        self.entries.len()
    }

    /// Whether the map has no entries.
    pub fn is_empty(&self) -> (r: bool)
        requires
            self.wf(),
        ensures
            r == (self.spec_len() == 0),
            r == (self.view() =~= Map::<CoordPair<K>, V>::empty()),
    {
        if self.entries.len() > 0 {
            proof {
                self.lemma_view_at(0);
            }
        } else {
            assert(self.view() =~= Map::<CoordPair<K>, V>::empty());
        }
        self.entries.len() == 0
    }

    /// The index of the entry with key `key`, if any.
    fn find(&self, key: CoordPair<&K>) -> (r: Option<usize>)
        requires
            self.wf(),
        ensures
            match r {
                Some(i) => i < self.entries@.len() && self.entries@[i as int].0 == deref_pair(key),
                None => !self.view().contains_key(deref_pair(key)),
            },
    {
        let k = CoordPair { y: *key.y, x: *key.x };
        let mut i: usize = 0;
        while i < self.entries.len()
            invariant
                i <= self.entries@.len(),
                k == deref_pair(key),
                forall|j: int| 0 <= j < i ==> #[trigger] self.entries@[j].0 != k,
            decreases self.entries@.len() - i,
        {
            if self.entries[i].0.coords_eq(&k) {
                return Some(i);
            }
            i += 1;
        }
        None
    }

    /// Whether some entry has key `key`.
    pub fn contains_key(&self, key: CoordPair<&K>) -> (r: bool)
        requires
            self.wf(),
        ensures
            r == self.view().contains_key(deref_pair(key)),
    {
        match self.find(key) {
            Some(i) => {
                proof {
                    self.lemma_view_at(i as int);
                }
                true
            },
            None => false,
        }
    }

    /// The value of the entry with key `key`, if any.
    pub fn get(&self, key: CoordPair<&K>) -> (r: Option<&V>)
        requires
            self.wf(),
        ensures
            match r {
                Some(v) => self.view().contains_key(deref_pair(key)) && *v == self.view()[deref_pair(key)],
                None => !self.view().contains_key(deref_pair(key)),
            },
    {
        match self.find(key) {
            Some(i) => {
                proof {
                    self.lemma_view_at(i as int);
                }
                Some(&self.entries[i].1)
            },
            None => None,
        }
    }

    /// The stored key and the value of the entry with key `key`, if any.
    pub fn get_key_value(&self, key: CoordPair<&K>) -> (r: Option<(CoordPair<&K>, &V)>)
        requires
            self.wf(),
        ensures
            match r {
                Some((k, v)) => self.view().contains_key(deref_pair(key)) && deref_pair(k) == deref_pair(key)
                    && *v == self.view()[deref_pair(key)],
                None => !self.view().contains_key(deref_pair(key)),
            },
    {
        match self.find(key) {
            Some(i) => {
                proof {
                    self.lemma_view_at(i as int);
                }
                let e = &self.entries[i];
                Some((e.0.as_ref(), &e.1))
            },
            None => None,
        }
    }
}

/// Whether `a` comes strictly before `b` in the order of `axis`.
pub fn pair_lt<K: Coord>(axis: Axis, a: &CoordPair<K>, b: &CoordPair<K>) -> (r: bool)
    ensures
        r == key_lt(axis, *a, *b),
{
    match axis {
        Axis::Y => a.y.is_lt(&b.y) || (a.y.is_eq(&b.y) && a.x.is_lt(&b.x)),
        Axis::X => a.x.is_lt(&b.x) || (a.x.is_eq(&b.x) && a.y.is_lt(&b.y)),
    }
}

impl<K: Coord, V> CoordMap<K, V> {
    /// The index of the first entry whose key does not come before `key`.
    fn lower_bound(&self, key: &CoordPair<K>) -> (r: usize)
        requires
            self.wf(),
        ensures
            r <= self.entries@.len(),
            forall|j: int| 0 <= j < r ==> key_lt(Axis::Y, #[trigger] self.entries@[j].0, *key),
            forall|j: int| r <= j < self.entries@.len() ==> !key_lt(Axis::Y, #[trigger] self.entries@[j].0, *key),
            r < self.entries@.len() && self.entries@[r as int].0 != *key ==> key_lt(
                Axis::Y,
                *key,
                self.entries@[r as int].0,
            ),
    {
        let mut i: usize = 0;
        while i < self.entries.len()
            invariant
                i <= self.entries@.len(),
                self.wf(),
                forall|j: int| 0 <= j < i ==> key_lt(Axis::Y, #[trigger] self.entries@[j].0, *key),
            decreases self.entries@.len() - i,
        {
            if !pair_lt(Axis::Y, &self.entries[i].0, key) {
                assert forall|j: int| i <= j < self.entries@.len() implies !key_lt(
                    Axis::Y,
                    #[trigger] self.entries@[j].0,
                    *key,
                ) by {
                    if j > i {
                        assert(key_lt(Axis::Y, self.entries@[i as int].0, self.entries@[j].0));
                    }
                }
                proof {
                    let e = self.entries@[i as int].0;
                    if e != *key {
                        if e.y.value() == key.y.value() && e.x.value() == key.x.value() {
                            K::lemma_injective(e.y, key.y);
                            K::lemma_injective(e.x, key.x);
                        }
                    }
                }
                return i;
            }
            i += 1;
        }
        i
    }

    /// Inserts `value` at `key`, returning the value that was there before.
    pub fn insert(&mut self, key: CoordPair<K>, value: V) -> (r: Option<V>)
        requires
            old(self).wf(),
        ensures
            final(self).wf(),
            final(self).view() == old(self).view().insert(key, value),
            r == if old(self).view().contains_key(key) {
                Some(old(self).view()[key])
            } else {
                None::<V>
            },
            final(self).spec_len() == old(self).spec_len() + if old(self).view().contains_key(key) {
                0int
            } else {
                1int
            },
    {
        let pos = self.lower_bound(&key);
        let ghost s = self.entries@;
        if pos < self.entries.len() && self.entries[pos].0.coords_eq(&key) {
            let (k, prev) = self.entries.remove(pos);
            self.entries.insert(pos, (k, value));
            proof {
                assert(self.entries@ =~= s.update(pos as int, (s[pos as int].0, value)));
                lemma_entries_map_update(s, Axis::Y, pos as int, value);
                lemma_entries_map_at(s, Axis::Y, pos as int);
            }
            Some(prev)
        } else {
            proof {
                assert forall|j: int| pos <= j < s.len() implies key_lt(Axis::Y, key, #[trigger] s[j].0) by {
                    if j > pos {
                        assert(key_lt(Axis::Y, s[pos as int].0, s[j].0));
                    }
                }
                lemma_insert_at_gap(s, pos as int, key, value);
            }
            self.entries.insert(pos, (key, value));
            None
        }
    }

    /// Removes the entry with key `key`, returning its stored key and value.
    pub fn remove_entry(&mut self, key: CoordPair<&K>) -> (r: Option<(CoordPair<K>, V)>)
        requires
            old(self).wf(),
        ensures
            final(self).wf(),
            final(self).view() == old(self).view().remove(deref_pair(key)),
            match r {
                Some((k, v)) => old(self).view().contains_key(deref_pair(key)) && k == deref_pair(key)
                    && v == old(self).view()[deref_pair(key)]
                    && final(self).spec_len() == old(self).spec_len() - 1,
                None => !old(self).view().contains_key(deref_pair(key))
                    && final(self).spec_len() == old(self).spec_len(),
            },
    {
        match self.find(key) {
            Some(i) => {
                let ghost s = self.entries@;
                proof {
                    lemma_entries_map_at(s, Axis::Y, i as int);
                    lemma_entries_map_remove(s, Axis::Y, i as int);
                }
                let e = self.entries.remove(i);
                Some(e)
            },
            None => {
                proof {
                    assert(old(self).view().remove(deref_pair(key)) =~= old(self).view());
                }
                None
            },
        }
    }

    /// Removes the entry with key `key`, returning its value.
    pub fn remove(&mut self, key: CoordPair<&K>) -> (r: Option<V>)
        requires
            old(self).wf(),
        ensures
            final(self).wf(),
            final(self).view() == old(self).view().remove(deref_pair(key)),
            match r {
                Some(v) => old(self).view().contains_key(deref_pair(key)) && v == old(self).view()[deref_pair(key)]
                    && final(self).spec_len() == old(self).spec_len() - 1,
                None => !old(self).view().contains_key(deref_pair(key))
                    && final(self).spec_len() == old(self).spec_len(),
            },
    {
        match self.remove_entry(key) {
            Some((_, v)) => Some(v),
            None => None,
        }
    }

    /// Runs `modifier` on the value at `key`, if any, returning its output.
    pub fn with_mut<F, T>(&mut self, key: CoordPair<&K>, modifier: F) -> (r: Option<T>)
        where
            F: FnOnce(&mut V) -> T,
        requires
            old(self).wf(),
            forall|v: &mut V| call_requires(modifier, (v,)),
        ensures
            final(self).wf(),
            final(self).view().dom() == old(self).view().dom(),
            final(self).spec_len() == old(self).spec_len(),
            forall|k: CoordPair<K>| k != deref_pair(key) && #[trigger] old(self).view().contains_key(k)
                ==> final(self).view()[k] == old(self).view()[k],
            r is Some <==> old(self).view().contains_key(deref_pair(key)),
    {
        match self.find(key) {
            Some(i) => {
                let ghost s = self.entries@;
                let (k, mut v) = self.entries.remove(i);
                let out = modifier(&mut v);
                self.entries.insert(i, (k, v));
                proof {
                    assert(self.entries@ =~= s.update(i as int, (s[i as int].0, v)));
                    lemma_entries_map_update(s, Axis::Y, i as int, v);
                    lemma_entries_map_at(s, Axis::Y, i as int);
                    assert(self.view().dom() =~= old(self).view().dom());
                }
                Some(out)
            },
            None => None,
        }
    }
}

impl<K: Coord, V> CoordMap<K, V> {
    /// Whether `i` is the place where an entry with key `key` belongs: every key
    /// before it comes before `key` in row order, and every key from it on after.
    pub closed spec fn is_gap(self, i: int, key: CoordPair<K>) -> bool {
        &&& 0 <= i <= self.entries@.len()
        &&& forall|j: int| 0 <= j < i ==> key_lt(Axis::Y, #[trigger] self.entries@[j].0, key)
        &&& forall|j: int| i <= j < self.entries@.len() ==> key_lt(Axis::Y, key, #[trigger] self.entries@[j].0)
    }

    /// A key with a gap for it is not in the map.
    pub proof fn lemma_gap_absent(self, i: int, key: CoordPair<K>)
        requires
            self.wf(),
            self.is_gap(i, key),
        ensures
            !self.view().contains_key(key),
    {
        lemma_insert_at_gap::<K, V>(self.entries@, i, key, arbitrary());
    }

    /// The key at index `i` of the row order.
    pub open spec fn key_at(self, i: int) -> CoordPair<K> {
        self.entries()[i].0
    }

    /// The value at index `i` of the row order.
    pub open spec fn value_at(self, i: int) -> V {
        self.entries()[i].1
    }

    /// The entry at index `i` of the row order is in the map.
    pub proof fn lemma_entry_at(self, i: int)
        requires
            self.wf(),
            0 <= i < self.spec_len(),
        ensures
            self.view().contains_key(self.key_at(i)),
            self.view()[self.key_at(i)] == self.value_at(i),
    {
        self.lemma_view_at(i);
    }

    /// A handle on the place of `key` in the map, whether an entry is there or not.
    pub fn entry(&mut self, key: CoordPair<K>) -> (r: Entry<'_, K, V>)
        requires
            old(self).wf(),
        ensures
            match r {
                Entry::Vacant(e) => e.wf() && *e.map == *old(self) && *final(e.map) == *final(self)
                    && e.key == key && !old(self).view().contains_key(key),
                Entry::Occupied(e) => e.wf() && *e.map == *old(self) && *final(e.map) == *final(self)
                    && e.key_spec() == key && old(self).view().contains_key(key)
                    && e.value_spec() == old(self).view()[key],
            },
    {
        let pos = self.lower_bound(&key);
        if pos < self.entries.len() && self.entries[pos].0.coords_eq(&key) {
            proof {
                self.lemma_view_at(pos as int);
            }
            Entry::Occupied(OccupiedEntry { map: self, index: pos })
        } else {
            proof {
                let s = self.entries@;
                assert forall|j: int| pos <= j < s.len() implies key_lt(Axis::Y, key, #[trigger] s[j].0) by {
                    if j > pos {
                        assert(key_lt(Axis::Y, s[pos as int].0, s[j].0));
                    }
                }
                self.lemma_gap_absent(pos as int, key);
            }
            Entry::Vacant(VacantEntry { map: self, key, index: pos })
        }
    }
}

/// The place of a key that the map does not hold.
pub struct VacantEntry<'a, K, V> {
    /// The map.
    pub map: &'a mut CoordMap<K, V>,
    /// The key.
    pub key: CoordPair<K>,
    /// Where in the row order the key belongs.
    pub index: usize,
}

impl<'a, K: Coord, V> VacantEntry<'a, K, V> {
    /// Whether the handle is valid: the map is well formed and the key belongs at `index`.
    pub open spec fn wf(&self) -> bool {
        &&& self.map.wf()
        &&& self.map.is_gap(self.index as int, self.key)
    }

    /// The key, borrowed.
    pub fn key(&self) -> (r: CoordPair<&K>)
        ensures
            deref_pair(r) == self.key,
    {
        self.key.as_ref()
    }

    /// The key, owned; the map is left as it was.
    pub fn into_key(self) -> (r: CoordPair<K>)
        ensures
            r == self.key,
            *final(self.map) == *old(self.map),
    {
        self.key
    }

    /// Inserts `value` at the key, returning a reference to it in the map.
    pub fn insert(self, value: V) -> (r: &'a V)
        requires
            self.wf(),
        ensures
            final(self.map).wf(),
            final(self.map).view() == old(self.map).view().insert(self.key, value),
            final(self.map).spec_len() == old(self.map).spec_len() + 1,
            *r == value,
    {
        let VacantEntry { map, key, index } = self;
        proof {
            lemma_insert_at_gap(map.entries@, index as int, key, value);
        }
        map.entries.insert(index, (key, value));
        let shared: &'a CoordMap<K, V> = map;
        &shared.entries[index].1
    }
}

/// The place of a key that the map holds.
pub struct OccupiedEntry<'a, K, V> {
    /// The map.
    pub map: &'a mut CoordMap<K, V>,
    /// Where in the row order the entry stands.
    pub index: usize,
}

impl<'a, K: Coord, V> OccupiedEntry<'a, K, V> {
    /// Whether the handle is valid: the map is well formed and `index` is in range.
    pub open spec fn wf(&self) -> bool {
        &&& self.map.wf()
        &&& self.index < self.map.spec_len()
    }

    /// The key of the entry.
    pub open spec fn key_spec(&self) -> CoordPair<K> {
        self.map.key_at(self.index as int)
    }

    /// The value of the entry.
    pub open spec fn value_spec(&self) -> V {
        self.map.value_at(self.index as int)
    }

    /// The key, borrowed.
    pub fn key(&self) -> (r: CoordPair<&K>)
        requires
            self.wf(),
        ensures
            deref_pair(r) == self.key_spec(),
    {
        self.map.entries[self.index].0.as_ref()
    }

    /// The value, borrowed.
    pub fn get(&self) -> (r: &V)
        requires
            self.wf(),
        ensures
            *r == self.value_spec(),
            *r == old(self.map).view()[self.key_spec()],
    {
        proof {
            self.map.lemma_view_at(self.index as int);
        }
        &self.map.entries[self.index].1
    }

    /// The value, borrowed for as long as the map was; the map is left as it was.
    pub fn into_ref(self) -> (r: &'a V)
        requires
            self.wf(),
        ensures
            *r == self.value_spec(),
            *final(self.map) == *old(self.map),
    {
        let OccupiedEntry { map, index } = self;
        let shared: &'a CoordMap<K, V> = map;
        &shared.entries[index].1
    }

    /// Replaces the value, returning the one that was there.
    pub fn insert(&mut self, value: V) -> (r: V)
        requires
            old(self).wf(),
        ensures
            final(self).wf(),
            final(self).index == old(self).index,
            final(self).key_spec() == old(self).key_spec(),
            final(self).value_spec() == value,
            final(self).map.view() == old(self).map.view().insert(old(self).key_spec(), value),
            final(self).map.spec_len() == old(self).map.spec_len(),
            *final(final(self).map) == *final(old(self).map),
            r == old(self).value_spec(),
    {
        let ghost s = self.map.entries@;
        let i = self.index;
        let (k, prev) = self.map.entries.remove(i);
        self.map.entries.insert(i, (k, value));
        proof {
            assert(self.map.entries@ =~= s.update(i as int, (s[i as int].0, value)));
            lemma_entries_map_update(s, Axis::Y, i as int, value);
        }
        prev
    }

    /// Runs `modifier` on the value, returning its output.
    pub fn with_mut<F, T>(&mut self, modifier: F) -> (r: T)
        where
            F: FnOnce(&mut V) -> T,
        requires
            old(self).wf(),
            forall|v: &mut V| call_requires(modifier, (v,)),
        ensures
            final(self).wf(),
            final(self).index == old(self).index,
            final(self).key_spec() == old(self).key_spec(),
            final(self).map.view() == old(self).map.view().insert(old(self).key_spec(), final(self).value_spec()),
            final(self).map.spec_len() == old(self).map.spec_len(),
            *final(final(self).map) == *final(old(self).map),
            exists|v: &mut V|
                *v == old(self).value_spec() && *final(v) == final(self).value_spec() && call_ensures(
                    modifier,
                    (v,),
                    r,
                ),
    {
        let ghost s = self.map.entries@;
        let i = self.index;
        let (k, mut v) = self.map.entries.remove(i);
        let v_ref = &mut v;
        let out = modifier(v_ref);
        self.map.entries.insert(i, (k, v));
        proof {
            assert(self.map.entries@ =~= s.update(i as int, (s[i as int].0, v)));
            lemma_entries_map_update(s, Axis::Y, i as int, v);
        }
        out
    }

    /// Removes the entry, returning its key and value.
    pub fn remove_entry(self) -> (r: (CoordPair<K>, V))
        requires
            self.wf(),
        ensures
            final(self.map).wf(),
            final(self.map).view() == old(self.map).view().remove(self.key_spec()),
            final(self.map).spec_len() == old(self.map).spec_len() - 1,
            r == (self.key_spec(), self.value_spec()),
    {
        let OccupiedEntry { map, index } = self;
        proof {
            lemma_entries_map_remove(map.entries@, Axis::Y, index as int);
        }
        map.entries.remove(index)
    }

    /// Removes the entry, returning its value.
    pub fn remove(self) -> (r: V)
        requires
            self.wf(),
        ensures
            final(self.map).wf(),
            final(self.map).view() == old(self.map).view().remove(self.key_spec()),
            final(self.map).spec_len() == old(self.map).spec_len() - 1,
            r == self.value_spec(),
    {
        let (_, v) = self.remove_entry();
        v
    }
}

/// The place of a key in a map, held or not.
pub enum Entry<'a, K, V> {
    /// The map does not hold the key.
    Vacant(VacantEntry<'a, K, V>),
    /// The map holds the key.
    Occupied(OccupiedEntry<'a, K, V>),
}

impl<'a, K: Coord, V> Entry<'a, K, V> {
    /// Whether the handle is valid.
    pub open spec fn wf(&self) -> bool {
        match self {
            Entry::Vacant(e) => e.wf(),
            Entry::Occupied(e) => e.wf(),
        }
    }

    /// The key of the handle.
    pub open spec fn key_spec(&self) -> CoordPair<K> {
        match self {
            Entry::Vacant(e) => e.key,
            Entry::Occupied(e) => e.key_spec(),
        }
    }

    /// The value at the key, inserting `default` if there is none.
    pub fn or_insert(self, default: V) -> (r: &'a V)
        requires
            self.wf(),
        ensures
            match self {
                Entry::Vacant(e) => final(e.map).wf() && final(e.map).view() == e.map.view().insert(e.key, default)
                    && final(e.map).spec_len() == e.map.spec_len() + 1 && *r == default,
                Entry::Occupied(e) => *final(e.map) == *e.map && *r == e.value_spec(),
            },
    {
        match self {
            Entry::Vacant(e) => e.insert(default),
            Entry::Occupied(e) => e.into_ref(),
        }
    }

    /// The value at the key, inserting the output of `default` if there is none.
    pub fn or_insert_with<F>(self, default: F) -> (r: &'a V)
        where
            F: FnOnce() -> V,
        requires
            self.wf(),
            call_requires(default, ()),
        ensures
            match self {
                Entry::Vacant(e) => final(e.map).wf() && final(e.map).view() == e.map.view().insert(e.key, *r)
                    && final(e.map).spec_len() == e.map.spec_len() + 1 && call_ensures(default, (), *r),
                Entry::Occupied(e) => *final(e.map) == *e.map && *r == e.value_spec(),
            },
    {
        match self {
            Entry::Vacant(e) => {
                let v = default();
                e.insert(v)
            },
            Entry::Occupied(e) => e.into_ref(),
        }
    }

    /// The value at the key, inserting the output of `default` on the key if there is none.
    pub fn or_insert_with_key<F>(self, default: F) -> (r: &'a V)
        where
            F: FnOnce(CoordPair<&K>) -> V,
        requires
            self.wf(),
            forall|k: CoordPair<&K>| call_requires(default, (k,)),
        ensures
            match self {
                Entry::Vacant(e) => final(e.map).wf() && final(e.map).view() == e.map.view().insert(e.key, *r)
                    && final(e.map).spec_len() == e.map.spec_len() + 1
                    && exists|k: CoordPair<&K>| deref_pair(k) == e.key && call_ensures(default, (k,), *r),
                Entry::Occupied(e) => *final(e.map) == *e.map && *r == e.value_spec(),
            },
    {
        match self {
            Entry::Vacant(e) => {
                let k = e.key();
                let v = default(k);
                e.insert(v)
            },
            Entry::Occupied(e) => e.into_ref(),
        }
    }

    /// The key, borrowed.
    pub fn key(&self) -> (r: CoordPair<&K>)
        requires
            self.wf(),
        ensures
            deref_pair(r) == self.key_spec(),
    {
        match self {
            Entry::Vacant(e) => e.key(),
            Entry::Occupied(e) => e.key(),
        }
    }

    /// Runs `modifier` on the value at the key, if there is one.
    pub fn and_modify<F>(self, modifier: F) -> (r: Self)
        where
            F: FnOnce(&mut V),
        requires
            self.wf(),
            forall|v: &mut V| call_requires(modifier, (v,)),
        ensures
            r.wf(),
            r.key_spec() == self.key_spec(),
            match (self, r) {
                (Entry::Vacant(e), Entry::Vacant(f)) => f == e,
                (Entry::Occupied(e), Entry::Occupied(f)) => f.index == e.index
                    && *final(f.map) == *final(e.map)
                    && f.map.view() == e.map.view().insert(e.key_spec(), f.value_spec())
                    && f.map.spec_len() == e.map.spec_len()
                    && exists|v: &mut V|
                    *v == e.value_spec() && *final(v) == f.value_spec() && call_ensures(modifier, (v,), ()),
                _ => false,
            },
    {
        match self {
            Entry::Occupied(mut e) => {
                e.with_mut(modifier);
                Entry::Occupied(e)
            },
            Entry::Vacant(e) => Entry::Vacant(e),
        }
    }

    /// The value at the key, inserting the default value if there is none.
    pub fn or_default(self) -> (r: &'a V)
        where
            V: Default,
        requires
            self.wf(),
        ensures
            match self {
                Entry::Vacant(e) => final(e.map).wf() && final(e.map).view() == e.map.view().insert(e.key, *r)
                    && final(e.map).spec_len() == e.map.spec_len() + 1 && call_ensures(V::default, (), *r),
                Entry::Occupied(e) => *final(e.map) == *e.map && *r == e.value_spec(),
            },
    {
        match self {
            Entry::Vacant(e) => {
                let v = V::default();
                e.insert(v)
            },
            Entry::Occupied(e) => e.into_ref(),
        }
    }
}

/// Whether `k` lies on the line through `key` along `axis`, after `key` when
/// `after` holds and before it otherwise.
pub open spec fn in_line<K: Coord>(axis: Axis, key: CoordPair<K>, k: CoordPair<K>, after: bool) -> bool {
    &&& k.on(axis.other_spec()).value() == key.on(axis.other_spec()).value()
    &&& if after {
        k.on(axis).value() > key.on(axis).value()
    } else {
        k.on(axis).value() < key.on(axis).value()
    }
}

/// Whether `a` is at least as near the start of `axis` as `b` when `lowest`
/// holds, and at least as near its end otherwise.
pub open spec fn goes_first<K: Coord>(axis: Axis, a: CoordPair<K>, b: CoordPair<K>, lowest: bool) -> bool {
    if lowest {
        a.on(axis).value() <= b.on(axis).value()
    } else {
        a.on(axis).value() >= b.on(axis).value()
    }
}

/// Whether `r` is the entry of `m` on the line through `key` along `axis`
/// (after or before it) that goes first in the given sense, or there is none.
pub open spec fn is_neighbor<K: Coord, V>(
    m: Map<CoordPair<K>, V>,
    axis: Axis,
    key: CoordPair<K>,
    after: bool,
    lowest: bool,
    r: Option<(CoordPair<K>, V)>,
) -> bool {
    match r {
        Some((k, v)) => {
            &&& m.contains_key(k)
            &&& m[k] == v
            &&& in_line(axis, key, k, after)
            &&& forall|q: CoordPair<K>| #[trigger] m.contains_key(q) && in_line(axis, key, q, after)
                ==> goes_first(axis, k, q, lowest)
        },
        None => forall|q: CoordPair<K>| #[trigger] m.contains_key(q) ==> !in_line(axis, key, q, after),
    }
}

/// An optional borrowed entry, as owned values.
pub open spec fn unref_entry<K, V>(r: Option<(CoordPair<&K>, &V)>) -> Option<(CoordPair<K>, V)> {
    match r {
        Some((k, v)) => Some((deref_pair(k), *v)),
        None => None,
    }
}

impl<K: Coord, V> CoordMap<K, V> {
    /// The index of the entry on the line through `key` along `axis` that goes
    /// first in the given sense, if any.
    fn find_in_line(&self, axis: Axis, key: &CoordPair<K>, after: bool, lowest: bool) -> (r: Option<usize>)
        requires
            self.wf(),
        ensures
            match r {
                Some(i) => {
                    &&& i < self.entries@.len()
                    &&& in_line(axis, *key, self.entries@[i as int].0, after)
                    &&& forall|j: int| 0 <= j < self.entries@.len() && in_line(axis, *key, #[trigger] self.entries@[j].0, after)
                        ==> goes_first(axis, self.entries@[i as int].0, self.entries@[j].0, lowest)
                },
                None => forall|j: int| 0 <= j < self.entries@.len() ==> !in_line(axis, *key, #[trigger] self.entries@[j].0, after),
            },
    {
        let mut best: Option<usize> = None;
        let mut i: usize = 0;
        let other = axis.other();
        while i < self.entries.len()
            invariant
                i <= self.entries@.len(),
                other == axis.other_spec(),
                match best {
                    Some(b) => {
                        &&& b < i
                        &&& in_line(axis, *key, self.entries@[b as int].0, after)
                        &&& forall|j: int| 0 <= j < i && in_line(axis, *key, #[trigger] self.entries@[j].0, after)
                            ==> goes_first(axis, self.entries@[b as int].0, self.entries@[j].0, lowest)
                    },
                    None => forall|j: int| 0 <= j < i ==> !in_line(axis, *key, #[trigger] self.entries@[j].0, after),
                },
            decreases self.entries@.len() - i,
        {
            let k = &self.entries[i].0;
            let same_line = k.get(other).is_eq(key.get(other));
            let on_side = if after {
                key.get(axis).is_lt(k.get(axis))
            } else {
                k.get(axis).is_lt(key.get(axis))
            };
            if same_line && on_side {
                let better = match best {
                    None => true,
                    Some(b) => {
                        let bk = &self.entries[b].0;
                        if lowest {
                            k.get(axis).is_lt(bk.get(axis))
                        } else {
                            bk.get(axis).is_lt(k.get(axis))
                        }
                    },
                };
                if better {
                    best = Some(i);
                }
            }
            i += 1;
        }
        best
    }

    /// The entry at an index found on a line, borrowed.
    fn entry_ref(&self, i: usize) -> (r: (CoordPair<&K>, &V))
        requires
            self.wf(),
            i < self.entries@.len(),
        ensures
            deref_pair(r.0) == self.entries@[i as int].0,
            *r.1 == self.entries@[i as int].1,
    {
        let e = &self.entries[i];
        (e.0.as_ref(), &e.1)
    }

    /// What `find_in_line` gives, stated over the map.
    fn neighbor(&self, axis: Axis, key: CoordPair<&K>, after: bool, lowest: bool) -> (r: Option<(CoordPair<&K>, &V)>)
        requires
            self.wf(),
        ensures
            is_neighbor(self.view(), axis, deref_pair(key), after, lowest, unref_entry(r)),
    {
        let k = key.copied();
        match self.find_in_line(axis, &k, after, lowest) {
            Some(i) => {
                proof {
                    self.lemma_view_at(i as int);
                    assert forall|q: CoordPair<K>| #[trigger] self.view().contains_key(q) && in_line(axis, k, q, after)
                        implies goes_first(axis, self.entries@[i as int].0, q, lowest) by {
                        let j = choose|j: int| 0 <= j < self.entries@.len() && #[trigger] self.entries@[j].0 == q;
                    }
                }
                Some(self.entry_ref(i))
            },
            None => {
                proof {
                    assert forall|q: CoordPair<K>| #[trigger] self.view().contains_key(q) implies !in_line(axis, k, q, after) by {
                        let j = choose|j: int| 0 <= j < self.entries@.len() && #[trigger] self.entries@[j].0 == q;
                    }
                }
                None
            },
        }
    }

    /// The nearest entry after `key` along `axis`, on the same line.
    pub fn next_neighbor(&self, axis: Axis, key: CoordPair<&K>) -> (r: Option<(CoordPair<&K>, &V)>)
        requires
            self.wf(),
        ensures
            is_neighbor(self.view(), axis, deref_pair(key), true, true, unref_entry(r)),
    {
        self.neighbor(axis, key, true, true)
    }

    /// The farthest entry after `key` along `axis`, on the same line.
    pub fn last_neighbor(&self, axis: Axis, key: CoordPair<&K>) -> (r: Option<(CoordPair<&K>, &V)>)
        requires
            self.wf(),
        ensures
            is_neighbor(self.view(), axis, deref_pair(key), true, false, unref_entry(r)),
    {
        self.neighbor(axis, key, true, false)
    }

    /// The nearest entry before `key` along `axis`, on the same line.
    pub fn prev_neighbor(&self, axis: Axis, key: CoordPair<&K>) -> (r: Option<(CoordPair<&K>, &V)>)
        requires
            self.wf(),
        ensures
            is_neighbor(self.view(), axis, deref_pair(key), false, false, unref_entry(r)),
    {
        self.neighbor(axis, key, false, false)
    }

    /// The farthest entry before `key` along `axis`, on the same line.
    pub fn first_neighbor(&self, axis: Axis, key: CoordPair<&K>) -> (r: Option<(CoordPair<&K>, &V)>)
        requires
            self.wf(),
        ensures
            is_neighbor(self.view(), axis, deref_pair(key), false, true, unref_entry(r)),
    {
        self.neighbor(axis, key, false, true)
    }
}

/// Borrowed entries, listed in the order of some axis.
pub type Iter<'a, K, V> = std::vec::IntoIter<(CoordPair<&'a K>, &'a V)>;

/// Borrowed keys, listed in the order of some axis.
pub type Keys<'a, K> = std::vec::IntoIter<CoordPair<&'a K>>;

/// Borrowed values, listed in the order of their keys on some axis.
pub type Values<'a, V> = std::vec::IntoIter<&'a V>;

/// Owned entries, listed in the order of some axis.
pub type IntoIter<K, V> = std::vec::IntoIter<(CoordPair<K>, V)>;

/// Owned keys, listed in the order of some axis.
pub type IntoKeys<K> = std::vec::IntoIter<CoordPair<K>>;

/// Owned values, listed in the order of their keys on some axis.
pub type IntoValues<V> = std::vec::IntoIter<V>;

/// Borrowed entries within a range, listed in the order of some axis.
pub type Range<'a, K, V> = std::vec::IntoIter<(CoordPair<&'a K>, &'a V)>;

/// Keys of distinct entries differ in value, so they are ordered on every axis.
pub proof fn lemma_distinct_ordered<K: Coord>(axis: Axis, a: CoordPair<K>, b: CoordPair<K>)
    requires
        key_lt(Axis::Y, a, b),
    ensures
        key_lt(axis, a, b) || key_lt(axis, b, a),
{
}

/// Whether every element of `out` is an element of `src` in `[lo, hi)`.
#[verifier::opaque]
pub open spec fn drawn_from<T>(out: Seq<T>, src: Seq<T>, lo: int, hi: int) -> bool {
    forall|a: int| #![trigger out[a]] 0 <= a < out.len() ==> exists|j: int| lo <= j < hi && #[trigger] src[j] == out[a]
}

/// Whether every element of `src` in `[lo, hi)` is an element of `out`.
#[verifier::opaque]
pub open spec fn covers<T>(out: Seq<T>, src: Seq<T>, lo: int, hi: int) -> bool {
    forall|j: int| #![trigger src[j]] lo <= j < hi ==> exists|a: int| 0 <= a < out.len() && #[trigger] out[a] == src[j]
}

/// Whether `out` holds exactly the elements of `src` in `[lo, hi)`.
pub open spec fn same_elements<T>(out: Seq<T>, src: Seq<T>, lo: int, hi: int) -> bool {
    drawn_from(out, src, lo, hi) && covers(out, src, lo, hi)
}

/// Whether every element of `src` in `[0, hi)` whose key satisfies `pred` is an
/// element of `out`.
#[verifier::opaque]
pub open spec fn covers_where<K, V>(
    out: Seq<(CoordPair<K>, V)>,
    src: Seq<(CoordPair<K>, V)>,
    hi: int,
    pred: spec_fn(CoordPair<K>) -> bool,
) -> bool {
    forall|j: int| #![trigger src[j]] 0 <= j < hi && pred(src[j].0) ==> exists|a: int| 0 <= a < out.len() && #[trigger] out[a] == src[j]
}

/// Whether `out` lists, in order, the elements of `src` in `[0, hi)` whose keys
/// satisfy `pred`.
pub open spec fn filtered<K: Coord, V>(
    axis: Axis,
    out: Seq<(CoordPair<K>, V)>,
    src: Seq<(CoordPair<K>, V)>,
    hi: int,
    pred: spec_fn(CoordPair<K>) -> bool,
) -> bool {
    &&& sorted_on(axis, out)
    &&& drawn_from(out, src, 0, hi)
    &&& forall|a: int| 0 <= a < out.len() ==> pred(#[trigger] out[a].0)
    &&& covers_where(out, src, hi, pred)
}

/// One step of filtering a sorted source: its element at `i` is appended when
/// `take` holds, which it must exactly when the element satisfies `pred`.
proof fn lemma_filter_step<K: Coord, V>(
    axis: Axis,
    out: Seq<(CoordPair<K>, V)>,
    src: Seq<(CoordPair<K>, V)>,
    i: int,
    pred: spec_fn(CoordPair<K>) -> bool,
)
    requires
        sorted_on(axis, src),
        0 <= i < src.len(),
        filtered(axis, out, src, i, pred),
    ensures
        pred(src[i].0) ==> filtered(axis, out.push(src[i]), src, i + 1, pred),
        !pred(src[i].0) ==> filtered(axis, out, src, i + 1, pred),
{
    if pred(src[i].0) {
        lemma_filter_take(axis, out, src, i, pred);
    } else {
        assert(drawn_from(out, src, 0, i + 1)) by {
            reveal(drawn_from);
            assert forall|a: int| #![trigger out[a]] 0 <= a < out.len() implies exists|j: int|
                0 <= j < i + 1 && #[trigger] src[j] == out[a] by {
                let j = choose|j: int| 0 <= j < i && #[trigger] src[j] == out[a];
            }
        }
        assert(covers_where(out, src, i + 1, pred)) by {
            reveal(covers_where);
        }
    }
}

/// Appending the element at `i`, which satisfies `pred`, keeps the filtering.
proof fn lemma_filter_take<K: Coord, V>(
    axis: Axis,
    out: Seq<(CoordPair<K>, V)>,
    src: Seq<(CoordPair<K>, V)>,
    i: int,
    pred: spec_fn(CoordPair<K>) -> bool,
)
    requires
        sorted_on(axis, src),
        0 <= i < src.len(),
        filtered(axis, out, src, i, pred),
        pred(src[i].0),
    ensures
        filtered(axis, out.push(src[i]), src, i + 1, pred),
{
    let t = out.push(src[i]);
    assert forall|a: int| 0 <= a < out.len() implies key_lt(axis, #[trigger] out[a].0, src[i].0) by {
        reveal(drawn_from);
        let j = choose|j: int| 0 <= j < i && #[trigger] src[j] == out[a];
    }
    assert forall|a: int, b: int| 0 <= a < b < t.len() implies key_lt(axis, #[trigger] t[a].0, #[trigger] t[b].0) by {
        if b < out.len() {
            assert(t[a] == out[a] && t[b] == out[b]);
        } else {
            assert(t[a] == out[a]);
        }
    }
    assert(drawn_from(t, src, 0, i + 1)) by {
        reveal(drawn_from);
        assert forall|a: int| #![trigger t[a]] 0 <= a < t.len() implies exists|j: int| 0 <= j < i + 1 && #[trigger] src[j] == t[a] by {
            if a < out.len() {
                assert(t[a] == out[a]);
                let j = choose|j: int| 0 <= j < i && #[trigger] src[j] == out[a];
            } else {
                assert(src[i] == t[a]);
            }
        }
    }
    assert(covers_where(t, src, i + 1, pred)) by {
        reveal(covers_where);
        assert forall|j: int| #![trigger src[j]] 0 <= j < i + 1 && pred(src[j].0) implies exists|a: int| 0 <= a < t.len() && #[trigger] t[a] == src[j] by {
            if j < i {
                let a = choose|a: int| 0 <= a < out.len() && #[trigger] out[a] == src[j];
                assert(t[a] == out[a]);
            } else {
                assert(t[out.len() as int] == src[j]);
            }
        }
    }
    assert forall|a: int| 0 <= a < t.len() implies pred(#[trigger] t[a].0) by {
        if a < out.len() {
            assert(t[a] == out[a]);
        }
    }
}

/// A filtered listing of a map, filtered to the end, lists the entries of the map
/// whose keys satisfy `pred`.
proof fn lemma_filter_done<K: Coord, V>(
    axis: Axis,
    out: Seq<(CoordPair<K>, V)>,
    src: Seq<(CoordPair<K>, V)>,
    m: Map<CoordPair<K>, V>,
    pred: spec_fn(CoordPair<K>) -> bool,
)
    requires
        is_listing(src, m, axis, every_key()),
        filtered(axis, out, src, src.len() as int, pred),
    ensures
        is_listing(out, m, axis, pred),
{
    reveal(drawn_from);
    reveal(covers_where);
    assert forall|a: int| 0 <= a < out.len() implies m.contains_key(#[trigger] out[a].0) && m[out[a].0] == out[a].1
        && pred(out[a].0) by {
        let j = choose|j: int| 0 <= j < src.len() && #[trigger] src[j] == out[a];
    }
    assert forall|k: CoordPair<K>| m.contains_key(k) && pred(k) implies exists|a: int| 0 <= a < out.len() && #[trigger] out[a].0 == k by {
        assert((every_key::<K>())(k));
        let j = choose|j: int| 0 <= j < src.len() && #[trigger] src[j].0 == k;
        let a = choose|a: int| 0 <= a < out.len() && #[trigger] out[a] == src[j];
        assert(out[a].0 == k);
    }
}

/// Inserting `x` at `p` into `out`, where it sorts, keeps `out` sorted.
proof fn lemma_sorted_insert<K: Coord, V>(axis: Axis, out: Seq<(CoordPair<K>, V)>, p: int, x: (CoordPair<K>, V))
    requires
        sorted_on(axis, out),
        0 <= p <= out.len(),
        forall|a: int| 0 <= a < p ==> key_lt(axis, #[trigger] out[a].0, x.0),
        forall|a: int| p <= a < out.len() ==> key_lt(axis, x.0, #[trigger] out[a].0),
    ensures
        sorted_on(axis, out.insert(p, x)),
{
    let t = out.insert(p, x);
    assert forall|i: int, j: int| 0 <= i < j < t.len() implies key_lt(axis, #[trigger] t[i].0, #[trigger] t[j].0) by {
        if j < p {
            assert(t[i] == out[i] && t[j] == out[j]);
        } else if j == p {
            assert(t[i] == out[i]);
        } else if i < p {
            assert(t[i] == out[i] && t[j] == out[j - 1]);
        } else if i == p {
            assert(t[j] == out[j - 1]);
        } else {
            assert(t[i] == out[i - 1] && t[j] == out[j - 1]);
        }
    }
}

/// A sequence of entries, sorted on some axis and holding the same entries as a
/// sequence sorted in row order, lists the map of the latter.
#[verifier::spinoff_prover]
#[verifier::rlimit(30)]
proof fn lemma_listing_of<K: Coord, V>(axis: Axis, out: Seq<(CoordPair<K>, V)>, src: Seq<(CoordPair<K>, V)>)
    requires
        sorted_on(Axis::Y, src),
        sorted_on(axis, out),
        same_elements(out, src, 0, src.len() as int),
    ensures
        is_listing(out, entries_map(src), axis, every_key()),
{
    let m = entries_map(src);
    assert forall|i: int| 0 <= i < out.len() implies #[trigger] m.contains_key(out[i].0) && m[out[i].0] == out[i].1 by {
        reveal(drawn_from);
        let j = choose|j: int| 0 <= j < src.len() && #[trigger] src[j] == out[i];
        lemma_entries_map_at(src, Axis::Y, j);
    }
    assert forall|k: CoordPair<K>| m.contains_key(k) implies exists|i: int|
        0 <= i < out.len() && #[trigger] out[i].0 == k by {
        reveal(covers);
        let j = choose|j: int| 0 <= j < src.len() && #[trigger] src[j].0 == k;
        let a = choose|a: int| 0 <= a < out.len() && #[trigger] out[a] == src[j];
        assert(out[a].0 == k);
    }
}

/// Inserting the next source entry where it sorts keeps the listing sorted.
proof fn lemma_listing_step_sorted<K: Coord, V>(
    axis: Axis,
    u: Seq<(CoordPair<K>, V)>,
    src: Seq<(CoordPair<K>, V)>,
    i: int,
    p: int,
)
    requires
        sorted_on(Axis::Y, src),
        sorted_on(axis, u),
        0 <= i < src.len(),
        0 <= p <= u.len(),
        drawn_from(u, src, 0, i),
        forall|a: int| 0 <= a < p ==> key_lt(axis, #[trigger] u[a].0, src[i].0),
        p < u.len() ==> !key_lt(axis, u[p].0, src[i].0),
    ensures
        sorted_on(axis, u.insert(p, src[i])),
{
    assert forall|a: int| p <= a < u.len() implies key_lt(axis, src[i].0, #[trigger] u[a].0) by {
        reveal(drawn_from);
        let j = choose|j: int| 0 <= j < i && #[trigger] src[j] == u[a];
        assert(key_lt(Axis::Y, src[j].0, src[i].0));
        lemma_distinct_ordered(axis, src[j].0, src[i].0);
        if a > p {
            assert(key_lt(axis, u[p].0, u[a].0));
            let jp = choose|jp: int| 0 <= jp < i && #[trigger] src[jp] == u[p];
            assert(key_lt(Axis::Y, src[jp].0, src[i].0));
            lemma_distinct_ordered(axis, src[jp].0, src[i].0);
        }
    }
    lemma_sorted_insert(axis, u, p, src[i]);
}

/// Inserting the next source entry keeps the listing made of the entries seen so far.
proof fn lemma_listing_step_elements<T>(u: Seq<T>, src: Seq<T>, i: int, p: int)
    requires
        0 <= i < src.len(),
        0 <= p <= u.len(),
        same_elements(u, src, 0, i),
    ensures
        same_elements(u.insert(p, src[i]), src, 0, i + 1),
{
    let t = u.insert(p, src[i]);
    assert(drawn_from(t, src, 0, i + 1)) by {
        reveal(drawn_from);
        assert forall|a: int| #![trigger t[a]] 0 <= a < t.len() implies exists|j: int|
            0 <= j < i + 1 && #[trigger] src[j] == t[a] by {
            if a < p {
                assert(t[a] == u[a]);
            } else if a > p {
                assert(t[a] == u[a - 1]);
            } else {
                assert(src[i] == t[a]);
            }
        }
    }
    assert(covers(t, src, 0, i + 1)) by {
        reveal(covers);
        assert forall|j: int| #![trigger src[j]] 0 <= j < i + 1 implies exists|a: int|
            0 <= a < t.len() && #[trigger] t[a] == src[j] by {
            if j < i {
                let a = choose|a: int| 0 <= a < u.len() && #[trigger] u[a] == src[j];
                if a < p {
                    assert(t[a] == u[a]);
                } else {
                    assert(t[a + 1] == u[a]);
                }
            } else {
                assert(t[p] == src[j]);
            }
        }
    }
}

impl<K: Coord, V> CoordMap<K, V> {
    /// The entries, borrowed, in the order of `axis`.
    pub(crate) fn listing(&self, axis: Axis) -> (r: Vec<(CoordPair<&K>, &V)>)
        requires
            self.wf(),
        ensures
            is_listing(unref_entries(r@), self.view(), axis, every_key()),
            r@.len() == self.spec_len(),
    {
        let mut out: Vec<(CoordPair<&K>, &V)> = Vec::new();
        let mut i: usize = 0;
        proof {
            reveal(drawn_from);
            reveal(covers);
        }
        while i < self.entries.len()
            invariant
                i <= self.entries@.len(),
                self.wf(),
                out@.len() == i,
                sorted_on(axis, unref_entries(out@)),
                same_elements(unref_entries(out@), self.entries@, 0, i as int),
            decreases self.entries@.len() - i,
        {
            let ghost u = unref_entries(out@);
            let key = &self.entries[i].0;
            let mut p: usize = 0;
            let mut go = true;
            while go && p < out.len()
                invariant
                    p <= out@.len(),
                    u == unref_entries(out@),
                    *key == self.entries@[i as int].0,
                    forall|a: int| 0 <= a < p ==> key_lt(axis, #[trigger] u[a].0, *key),
                    !go ==> p < u.len() && !key_lt(axis, u[p as int].0, *key),
                decreases out@.len() - p + if go { 1int } else { 0int },
            {
                let ek = out[p].0.copied();
                if pair_lt(axis, &ek, key) {
                    p += 1;
                } else {
                    go = false;
                }
            }
            proof {
                lemma_listing_step_sorted(axis, u, self.entries@, i as int, p as int);
            }
            let item = (self.entries[i].0.as_ref(), &self.entries[i].1);
            out.insert(p, item);
            proof {
                assert(unref_entries(out@) =~= u.insert(p as int, self.entries@[i as int]));
                lemma_listing_step_elements(u, self.entries@, i as int, p as int);
            }
            i += 1;
        }
        proof {
            lemma_listing_of(axis, unref_entries(out@), self.entries@);
        }
        out
    }

    /// The entries, borrowed, with `higher_axis` as the primary order.
    pub fn iter(&self, higher_axis: Axis) -> (r: Iter<'_, K, V>)
        requires
            self.wf(),
        ensures
            is_listing(unref_entries(vstd::std_specs::vec::into_iter_elts(r)), self.view(), higher_axis, every_key()),
    {
        self.listing(higher_axis).into_iter()
    }

    /// The entries, borrowed, row by row.
    pub fn rows(&self) -> (r: Iter<'_, K, V>)
        requires
            self.wf(),
        ensures
            is_listing(unref_entries(vstd::std_specs::vec::into_iter_elts(r)), self.view(), Axis::Y, every_key()),
    {
        self.iter(Axis::Y)
    }

    /// The entries, borrowed, column by column.
    pub fn columns(&self) -> (r: Iter<'_, K, V>)
        requires
            self.wf(),
        ensures
            is_listing(unref_entries(vstd::std_specs::vec::into_iter_elts(r)), self.view(), Axis::X, every_key()),
    {
        self.iter(Axis::X)
    }
}

/// Whether `ks` lists, in the order of `axis`, exactly the keys of `m`.
pub open spec fn is_key_listing<K: Coord, V>(ks: Seq<CoordPair<K>>, m: Map<CoordPair<K>, V>, axis: Axis) -> bool {
    exists|s: Seq<(CoordPair<K>, V)>| #[trigger] is_listing(s, m, axis, every_key()) && ks == s.map_values(
        |e: (CoordPair<K>, V)| e.0,
    )
}

/// Whether `vs` lists the values of `m` in the order of their keys on `axis`.
pub open spec fn is_value_listing<K: Coord, V>(vs: Seq<V>, m: Map<CoordPair<K>, V>, axis: Axis) -> bool {
    exists|s: Seq<(CoordPair<K>, V)>| #[trigger] is_listing(s, m, axis, every_key()) && vs == s.map_values(
        |e: (CoordPair<K>, V)| e.1,
    )
}

/// The keys behind a sequence of borrowed keys.
pub open spec fn unref_keys<K>(s: Seq<CoordPair<&K>>) -> Seq<CoordPair<K>> {
    s.map_values(|k: CoordPair<&K>| deref_pair(k))
}

/// The values behind a sequence of borrowed values.
pub open spec fn unref_values<V>(s: Seq<&V>) -> Seq<V> {
    s.map_values(|v: &V| *v)
}

/// The entries of `src`, owned, sorted in the order of `axis`.
fn sort_owned<K: Coord, V>(src: Vec<(CoordPair<K>, V)>, axis: Axis) -> (r: Vec<(CoordPair<K>, V)>)
    requires
        sorted_on(Axis::Y, src@),
    ensures
        is_listing(r@, entries_map(src@), axis, every_key()),
        r@.len() == src@.len(),
{
    let ghost orig = src@;
    let mut rest = src;
    let mut out: Vec<(CoordPair<K>, V)> = Vec::new();
    let mut i: usize = 0;
    let n: usize = rest.len();
    proof {
        reveal(drawn_from);
        reveal(covers);
    }
    while rest.len() > 0
        invariant
            i <= orig.len(),
            orig.len() == n,
            sorted_on(Axis::Y, orig),
            rest@ == orig.subrange(i as int, orig.len() as int),
            out@.len() == i,
            sorted_on(axis, out@),
            same_elements(out@, orig, 0, i as int),
        decreases rest@.len(),
    {
        let e = rest.remove(0);
        assert(e == orig[i as int]);
        let ghost u = out@;
        let mut p: usize = 0;
        let mut go = true;
        while go && p < out.len()
            invariant
                p <= out@.len(),
                u == out@,
                i < orig.len(),
                e == orig[i as int],
                forall|a: int| 0 <= a < p ==> key_lt(axis, #[trigger] u[a].0, e.0),
                !go ==> p < u.len() && !key_lt(axis, u[p as int].0, e.0),
            decreases out@.len() - p + if go { 1int } else { 0int },
        {
            if pair_lt(axis, &out[p].0, &e.0) {
                p += 1;
            } else {
                go = false;
            }
        }
        proof {
            lemma_listing_step_sorted(axis, u, orig, i as int, p as int);
            lemma_listing_step_elements(u, orig, i as int, p as int);
        }
        out.insert(p, e);
        i += 1;
    }
    proof {
        lemma_listing_of(axis, out@, orig);
    }
    out
}

impl<K: Coord, V> CoordMap<K, V> {
    /// The keys, borrowed, with `higher_axis` as the primary order.
    pub fn keys(&self, higher_axis: Axis) -> (r: Keys<'_, K>)
        requires
            self.wf(),
        ensures
            is_key_listing(unref_keys(vstd::std_specs::vec::into_iter_elts(r)), self.view(), higher_axis),
    {
        let l = self.listing(higher_axis);
        let mut out: Vec<CoordPair<&K>> = Vec::new();
        let mut i: usize = 0;
        while i < l.len()
            invariant
                i <= l@.len(),
                out@.len() == i,
                forall|a: int| 0 <= a < i ==> #[trigger] deref_pair(out@[a]) == deref_pair(l@[a].0),
            decreases l@.len() - i,
        {
            out.push(l[i].0);
            i += 1;
        }
        proof {
            let s = unref_entries(l@);
            assert(unref_keys(out@) =~= s.map_values(|e: (CoordPair<K>, V)| e.0));
            assert(is_listing(s, self.view(), higher_axis, every_key()));
        }
        out.into_iter()
    }

    /// The keys, borrowed, row by row.
    pub fn key_rows(&self) -> (r: Keys<'_, K>)
        requires
            self.wf(),
        ensures
            is_key_listing(unref_keys(vstd::std_specs::vec::into_iter_elts(r)), self.view(), Axis::Y),
    {
        self.keys(Axis::Y)
    }

    /// The keys, borrowed, column by column.
    pub fn key_columns(&self) -> (r: Keys<'_, K>)
        requires
            self.wf(),
        ensures
            is_key_listing(unref_keys(vstd::std_specs::vec::into_iter_elts(r)), self.view(), Axis::X),
    {
        self.keys(Axis::X)
    }

    /// The values, borrowed, in the order of their keys with `higher_axis` as the primary order.
    pub fn values(&self, higher_axis: Axis) -> (r: Values<'_, V>)
        requires
            self.wf(),
        ensures
            is_value_listing(unref_values(vstd::std_specs::vec::into_iter_elts(r)), self.view(), higher_axis),
    {
        let l = self.listing(higher_axis);
        let mut out: Vec<&V> = Vec::new();
        let mut i: usize = 0;
        while i < l.len()
            invariant
                i <= l@.len(),
                out@.len() == i,
                forall|a: int| 0 <= a < i ==> *#[trigger] out@[a] == *l@[a].1,
            decreases l@.len() - i,
        {
            out.push(l[i].1);
            i += 1;
        }
        proof {
            let s = unref_entries(l@);
            assert(unref_values(out@) =~= s.map_values(|e: (CoordPair<K>, V)| e.1));
            assert(is_listing(s, self.view(), higher_axis, every_key()));
        }
        out.into_iter()
    }

    /// The values, borrowed, row by row.
    pub fn value_rows(&self) -> (r: Values<'_, V>)
        requires
            self.wf(),
        ensures
            is_value_listing(unref_values(vstd::std_specs::vec::into_iter_elts(r)), self.view(), Axis::Y),
    {
        self.values(Axis::Y)
    }

    /// The values, borrowed, column by column.
    pub fn value_columns(&self) -> (r: Values<'_, V>)
        requires
            self.wf(),
        ensures
            is_value_listing(unref_values(vstd::std_specs::vec::into_iter_elts(r)), self.view(), Axis::X),
    {
        self.values(Axis::X)
    }

    /// The entries, owned, with `higher_axis` as the primary order.
    pub fn into_iter_with(self, higher_axis: Axis) -> (r: IntoIter<K, V>)
        requires
            self.wf(),
        ensures
            is_listing(vstd::std_specs::vec::into_iter_elts(r), self.view(), higher_axis, every_key()),
    {
        sort_owned(self.entries, higher_axis).into_iter()
    }

    /// The entries, owned, row by row.
    pub fn into_rows(self) -> (r: IntoIter<K, V>)
        requires
            self.wf(),
        ensures
            is_listing(vstd::std_specs::vec::into_iter_elts(r), self.view(), Axis::Y, every_key()),
    {
        self.into_iter_with(Axis::Y)
    }

    /// The entries, owned, column by column.
    pub fn into_columns(self) -> (r: IntoIter<K, V>)
        requires
            self.wf(),
        ensures
            is_listing(vstd::std_specs::vec::into_iter_elts(r), self.view(), Axis::X, every_key()),
    {
        self.into_iter_with(Axis::X)
    }

    /// The keys, owned, with `higher_axis` as the primary order.
    pub fn into_keys(self, higher_axis: Axis) -> (r: IntoKeys<K>)
        requires
            self.wf(),
        ensures
            is_key_listing(vstd::std_specs::vec::into_iter_elts(r), self.view(), higher_axis),
    {
        let ghost m = self.view();
        let l = sort_owned(self.entries, higher_axis);
        let ghost s = l@;
        let mut out: Vec<CoordPair<K>> = Vec::new();
        let mut i: usize = 0;
        while i < l.len()
            invariant
                i <= l@.len(),
                out@.len() == i,
                forall|a: int| 0 <= a < i ==> #[trigger] out@[a] == l@[a].0,
            decreases l@.len() - i,
        {
            out.push(l[i].0);
            i += 1;
        }
        proof {
            assert(out@ =~= s.map_values(|e: (CoordPair<K>, V)| e.0));
            assert(is_listing(s, m, higher_axis, every_key()));
        }
        out.into_iter()
    }

    /// The keys, owned, row by row.
    pub fn into_key_rows(self) -> (r: IntoKeys<K>)
        requires
            self.wf(),
        ensures
            is_key_listing(vstd::std_specs::vec::into_iter_elts(r), self.view(), Axis::Y),
    {
        self.into_keys(Axis::Y)
    }

    /// The keys, owned, column by column.
    pub fn into_key_columns(self) -> (r: IntoKeys<K>)
        requires
            self.wf(),
        ensures
            is_key_listing(vstd::std_specs::vec::into_iter_elts(r), self.view(), Axis::X),
    {
        self.into_keys(Axis::X)
    }

    /// The values, owned, in the order of their keys with `higher_axis` as the primary order.
    pub fn into_values(self, higher_axis: Axis) -> (r: IntoValues<V>)
        requires
            self.wf(),
        ensures
            is_value_listing(vstd::std_specs::vec::into_iter_elts(r), self.view(), higher_axis),
    {
        let ghost m = self.view();
        let l = sort_owned(self.entries, higher_axis);
        let ghost s = l@;
        let mut rest = l;
        let mut out: Vec<V> = Vec::new();
        let mut i: usize = 0;
        let n: usize = rest.len();
        while rest.len() > 0
            invariant
                i <= s.len(),
                s.len() == n,
                rest@ == s.subrange(i as int, s.len() as int),
                out@.len() == i,
                forall|a: int| 0 <= a < i ==> #[trigger] out@[a] == s[a].1,
            decreases rest@.len(),
        {
            let e = rest.remove(0);
            out.push(e.1);
            i += 1;
        }
        proof {
            assert(out@ =~= s.map_values(|e: (CoordPair<K>, V)| e.1));
            assert(is_listing(s, m, higher_axis, every_key()));
        }
        out.into_iter()
    }

    /// The values, owned, row by row.
    pub fn into_value_rows(self) -> (r: IntoValues<V>)
        requires
            self.wf(),
        ensures
            is_value_listing(vstd::std_specs::vec::into_iter_elts(r), self.view(), Axis::Y),
    {
        self.into_values(Axis::Y)
    }

    /// The values, owned, column by column.
    pub fn into_value_columns(self) -> (r: IntoValues<V>)
        requires
            self.wf(),
        ensures
            is_value_listing(vstd::std_specs::vec::into_iter_elts(r), self.view(), Axis::X),
    {
        self.into_values(Axis::X)
    }
}


impl<K: Coord, V> CoordMap<K, V> {
    /// The entries, borrowed, whose keys are within `ranges` on both axes, with
    /// `higher_axis` as the primary order.
    pub fn range<Ry, Rx>(&self, higher_axis: Axis, ranges: &CoordRange<Ry, Rx>) -> (r: Range<'_, K, V>)
        where
            Ry: AxisBounds<K>,
            Rx: AxisBounds<K>,
        requires
            self.wf(),
        ensures
            is_listing(
                unref_entries(vstd::std_specs::vec::into_iter_elts(r)),
                self.view(),
                higher_axis,
                |k: CoordPair<K>| ranges.admits(k),
            ),
    {
        self.range_listing(higher_axis, ranges).into_iter()
    }

    /// The entries, borrowed, within `ranges`, in a vector.
    pub(crate) fn range_listing<Ry, Rx>(&self, higher_axis: Axis, ranges: &CoordRange<Ry, Rx>) -> (r: Vec<
        (CoordPair<&K>, &V),
    >)
        where
            Ry: AxisBounds<K>,
            Rx: AxisBounds<K>,
        requires
            self.wf(),
        ensures
            is_listing(unref_entries(r@), self.view(), higher_axis, |k: CoordPair<K>| ranges.admits(k)),
    {
        let ghost pred = |k: CoordPair<K>| ranges.admits(k);
        let l = self.listing(higher_axis);
        let ghost src = unref_entries(l@);
        let mut out: Vec<(CoordPair<&K>, &V)> = Vec::new();
        let mut i: usize = 0;
        proof {
            reveal(drawn_from);
            reveal(covers_where);
        }
        while i < l.len()
            invariant
                i <= l@.len(),
                src == unref_entries(l@),
                is_listing(src, self.view(), higher_axis, every_key()),
                pred == (|k: CoordPair<K>| ranges.admits(k)),
                filtered(higher_axis, unref_entries(out@), src, i as int, pred),
            decreases l@.len() - i,
        {
            let ghost u = unref_entries(out@);
            proof {
                lemma_filter_step(higher_axis, u, src, i as int, pred);
            }
            let item = l[i];
            let k = item.0.copied();
            if ranges.admits_point(&k) {
                out.push(item);
                proof {
                    assert(unref_entries(out@) =~= u.push(src[i as int]));
                }
            }
            i += 1;
        }
        proof {
            lemma_filter_done(higher_axis, unref_entries(out@), src, self.view(), pred);
        }
        out
    }
}


/// Whether `ks` lists, strictly in the order of `axis`, exactly the points of
/// `set` that satisfy `pred`.
pub open spec fn is_point_listing<K: Coord>(
    ks: Seq<CoordPair<K>>,
    set: Set<CoordPair<K>>,
    axis: Axis,
    pred: spec_fn(CoordPair<K>) -> bool,
) -> bool {
    &&& forall|i: int, j: int| 0 <= i < j < ks.len() ==> key_lt(axis, #[trigger] ks[i], #[trigger] ks[j])
    &&& forall|i: int| 0 <= i < ks.len() ==> set.contains(#[trigger] ks[i]) && pred(ks[i])
    &&& forall|k: CoordPair<K>| set.contains(k) && pred(k) ==> exists|i: int| 0 <= i < ks.len() && #[trigger] ks[i] == k
}

/// The keys of a listing of a map list the points of its domain.
pub proof fn lemma_keys_of_listing<K: Coord, V>(
    s: Seq<(CoordPair<K>, V)>,
    m: Map<CoordPair<K>, V>,
    axis: Axis,
    pred: spec_fn(CoordPair<K>) -> bool,
)
    requires
        is_listing(s, m, axis, pred),
    ensures
        is_point_listing(s.map_values(|e: (CoordPair<K>, V)| e.0), m.dom(), axis, pred),
{
    let ks = s.map_values(|e: (CoordPair<K>, V)| e.0);
    assert forall|i: int, j: int| 0 <= i < j < ks.len() implies key_lt(axis, #[trigger] ks[i], #[trigger] ks[j]) by {
        assert(ks[i] == s[i].0 && ks[j] == s[j].0);
    }
    assert forall|i: int| 0 <= i < ks.len() implies m.dom().contains(#[trigger] ks[i]) && pred(ks[i]) by {
        assert(ks[i] == s[i].0);
    }
    assert forall|k: CoordPair<K>| m.dom().contains(k) && pred(k) implies exists|i: int| 0 <= i < ks.len() && #[trigger] ks[i] == k by {
        let i = choose|i: int| 0 <= i < s.len() && #[trigger] s[i].0 == k;
        assert(ks[i] == k);
    }
}

/// A listing of all the keys of a map lists the points of its domain.
pub proof fn lemma_key_listing_points<K: Coord, V>(ks: Seq<CoordPair<K>>, m: Map<CoordPair<K>, V>, axis: Axis)
    requires
        is_key_listing(ks, m, axis),
    ensures
        is_point_listing(ks, m.dom(), axis, every_key()),
{
    let s = choose|s: Seq<(CoordPair<K>, V)>| #[trigger] is_listing(s, m, axis, every_key()) && ks == s.map_values(
        |e: (CoordPair<K>, V)| e.0,
    );
    lemma_keys_of_listing(s, m, axis, every_key());
}

/// Whether `r` is the point of `set` on the line through `key` along `axis`
/// (after or before it) that goes first in the given sense, or there is none.
pub open spec fn is_point_neighbor<K: Coord>(
    set: Set<CoordPair<K>>,
    axis: Axis,
    key: CoordPair<K>,
    after: bool,
    lowest: bool,
    r: Option<CoordPair<K>>,
) -> bool {
    match r {
        Some(k) => {
            &&& set.contains(k)
            &&& in_line(axis, key, k, after)
            &&& forall|q: CoordPair<K>| #[trigger] set.contains(q) && in_line(axis, key, q, after)
                ==> goes_first(axis, k, q, lowest)
        },
        None => forall|q: CoordPair<K>| #[trigger] set.contains(q) ==> !in_line(axis, key, q, after),
    }
}

/// The key of a neighbor entry is the neighbor point of the domain.
pub proof fn lemma_neighbor_point<K: Coord, V>(
    m: Map<CoordPair<K>, V>,
    axis: Axis,
    key: CoordPair<K>,
    after: bool,
    lowest: bool,
    r: Option<(CoordPair<K>, V)>,
)
    requires
        is_neighbor(m, axis, key, after, lowest, r),
    ensures
        is_point_neighbor(
            m.dom(),
            axis,
            key,
            after,
            lowest,
            match r {
                Some(e) => Some(e.0),
                None => None,
            },
        ),
{
}

impl<K: Coord, V> Default for CoordMap<K, V> {
    fn default() -> (r: Self)
        ensures
            r.wf(),
            r.view() == Map::<CoordPair<K>, V>::empty(),
    {
        CoordMap::new()
    }
}

} // verus!
