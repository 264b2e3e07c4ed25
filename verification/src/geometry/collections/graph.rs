//! Graphs whose nodes are points and whose edges run along straight lines.
//!
//! A node holds one flag per direction. A flag set in direction `d` stands for
//! an edge from the node to its nearest neighbor in direction `d`, so that a
//! path along a line is connected when every node on it, up to the last, has
//! the flag of the path's direction.
use vstd::prelude::*;
use crate::geometry::coord::Coord;
use crate::geometry::coords::{CoordPair, deref_pair};
use crate::geometry::axis::{Axis, Direction, DirectionMap, Order, dir_axis, dir_order, dir_opposite};
use crate::geometry::bounds::{CoordRange, Interval, Limit};
use crate::geometry::collections::map::{
    CoordMap,
    is_listing,
    is_key_listing,
    is_value_listing,
    every_key,
    key_lt,
    unref_entries,
    unref_keys,
};

verus! {

/// Why two nodes could not be related.
#[derive(Debug, Clone, Copy, PartialEq, Eq)]
pub enum ConnectError<C> {
    /// There is no node at the location.
    UnknownNode(CoordPair<C>),
    /// The two locations are on neither the same row nor the same column.
    NoStraightDirection(CoordPair<C>, CoordPair<C>),
}

/// A node of a graph: which of its four edges are present.
#[derive(Debug, Clone, Copy, PartialEq, Eq, PartialOrd, Ord, Hash, Default)]
pub struct Node {
    /// One flag per direction.
    pub edges: DirectionMap<bool>,
}

impl Node {
    /// A node without edges, in specifications.
    pub open spec fn empty() -> Node {
        Node { edges: DirectionMap { up: false, left: false, down: false, right: false } }
    }

    /// A node without edges.
    pub fn new() -> (r: Node)
        ensures
            r == Node::empty(),
            forall|d: Direction| !#[trigger] r.edges.at(d),
    {
        Node { edges: DirectionMap { up: false, left: false, down: false, right: false } }
    }

    /// Whether the edge in `direction` is present.
    pub fn connected(self, direction: Direction) -> (r: bool)
        ensures
            r == self.edges.at(direction),
    {
        *self.edges.get(direction)
    }

    /// Adds the edge in `direction`, returning whether it was absent.
    pub fn connect(&mut self, direction: Direction) -> (r: bool)
        ensures
            final(self).edges == old(self).edges.with(direction, true),
            r == !old(self).edges.at(direction),
    {
        !self.edges.replace(direction, true)
    }

    /// The node with the edge in `direction` added.
    pub fn with_connection(self, direction: Direction) -> (r: Node)
        ensures
            r.edges == self.edges.with(direction, true),
    {
        let mut n = self;
        n.connect(direction);
        n
    }

    /// Removes the edge in `direction`, returning whether it was present.
    pub fn disconnect(&mut self, direction: Direction) -> (r: bool)
        ensures
            final(self).edges == old(self).edges.with(direction, false),
            r == old(self).edges.at(direction),
    {
        self.edges.replace(direction, false)
    }
}

/// How far `k` is from `from` when moving in direction `d`; negative when it is
/// behind.
pub open spec fn ray_dist<C: Coord>(d: Direction, from: CoordPair<C>, k: CoordPair<C>) -> int {
    let a = dir_axis(d);
    match dir_order(d) {
        Order::Forwards => k.on(a).value() - from.on(a).value(),
        Order::Backwards => from.on(a).value() - k.on(a).value(),
    }
}

/// Whether `k` lies on the ray from `from` in direction `d` (`from` included).
pub open spec fn on_ray<C: Coord>(d: Direction, from: CoordPair<C>, k: CoordPair<C>) -> bool {
    &&& k.on(dir_axis(d).other_spec()).value() == from.on(dir_axis(d).other_spec()).value()
    &&& ray_dist(d, from, k) >= 0
}

/// Whether `k` lies on the ray from `from` in direction `d`, at a distance in `[lo, hi)`.
pub open spec fn in_band<C: Coord>(d: Direction, from: CoordPair<C>, k: CoordPair<C>, lo: int, hi: int) -> bool {
    on_ray(d, from, k) && lo <= ray_dist(d, from, k) < hi
}

/// Whether `s` lists the nodes of `m` on the ray from `from` in direction `d`
/// at distance at least `min`, nearest first.
pub open spec fn is_ray_listing<C: Coord>(
    s: Seq<(CoordPair<C>, Node)>,
    m: Map<CoordPair<C>, Node>,
    d: Direction,
    from: CoordPair<C>,
    min: int,
) -> bool {
    &&& forall|i: int, j: int| 0 <= i < j < s.len() ==> ray_dist(d, from, #[trigger] s[i].0) < ray_dist(
        d,
        from,
        #[trigger] s[j].0,
    )
    &&& forall|i: int| 0 <= i < s.len() ==> m.contains_key(#[trigger] s[i].0) && m[s[i].0] == s[i].1 && on_ray(
        d,
        from,
        s[i].0,
    ) && ray_dist(d, from, s[i].0) >= min
    &&& forall|k: CoordPair<C>| m.contains_key(k) && on_ray(d, from, k) && ray_dist(d, from, k) >= min ==> exists|i: int|
        0 <= i < s.len() && #[trigger] s[i].0 == k
}

/// The nodes behind a sequence of nodes at borrowed locations.
pub open spec fn unref_nodes<C>(s: Seq<(CoordPair<&C>, Node)>) -> Seq<(CoordPair<C>, Node)> {
    s.map_values(|e: (CoordPair<&C>, Node)| (deref_pair(e.0), e.1))
}

/// The direction in which `b` lies from `a` along a row or a column. Equal points
/// count as lying to the left.
pub open spec fn straight_direction<C: Coord>(a: CoordPair<C>, b: CoordPair<C>) -> Option<Direction> {
    if a.y.value() == b.y.value() {
        if a.x.value() < b.x.value() {
            Some(Direction::Right)
        } else {
            Some(Direction::Left)
        }
    } else if a.x.value() == b.x.value() {
        if a.y.value() < b.y.value() {
            Some(Direction::Down)
        } else {
            Some(Direction::Up)
        }
    } else {
        None
    }
}

/// The direction from `origin` to `destiny` when both are nodes of `m` on a
/// straight line, or the error that relating them gives.
pub open spec fn path_direction<C: Coord>(
    m: Map<CoordPair<C>, Node>,
    origin: CoordPair<C>,
    destiny: CoordPair<C>,
) -> Result<Direction, ConnectError<C>> {
    if !m.contains_key(origin) {
        Err(ConnectError::UnknownNode(origin))
    } else if !m.contains_key(destiny) {
        Err(ConnectError::UnknownNode(destiny))
    } else {
        match straight_direction(origin, destiny) {
            Some(d) => Ok(d),
            None => Err(ConnectError::NoStraightDirection(origin, destiny)),
        }
    }
}

/// Whether every node of `m` on the ray from `from` in `d`, at a distance in
/// `[lo, hi)`, has flag `e` equal to `v`.
pub open spec fn all_edges<C: Coord>(
    m: Map<CoordPair<C>, Node>,
    d: Direction,
    from: CoordPair<C>,
    lo: int,
    hi: int,
    e: Direction,
    v: bool,
) -> bool {
    forall|k: CoordPair<C>| #[trigger] m.contains_key(k) && in_band(d, from, k, lo, hi) ==> m[k].edges.at(e) == v
}

/// `m` with flag `e` set to `v` on every node on the ray from `from` in `d`, at
/// a distance in `[lo, hi)`.
pub open spec fn set_edges<C: Coord>(
    m: Map<CoordPair<C>, Node>,
    d: Direction,
    from: CoordPair<C>,
    lo: int,
    hi: int,
    e: Direction,
    v: bool,
) -> Map<CoordPair<C>, Node> {
    Map::new(
        |k: CoordPair<C>| m.contains_key(k),
        |k: CoordPair<C>|
            if in_band(d, from, k, lo, hi) {
                Node { edges: m[k].edges.with(e, v) }
            } else {
                m[k]
            },
    )
}

/// Whether the path from `origin` to `destiny` is connected in `m`: every node
/// on it before `destiny` has the edge of the path's direction.
pub open spec fn connected_spec<C: Coord>(
    m: Map<CoordPair<C>, Node>,
    origin: CoordPair<C>,
    destiny: CoordPair<C>,
) -> Result<bool, ConnectError<C>> {
    match path_direction(m, origin, destiny) {
        Ok(d) => Ok(all_edges(m, d, origin, 0, ray_dist(d, origin, destiny), d, true)),
        Err(e) => Err(e),
    }
}

/// Whether the path from `origin` to `destiny` is connected both ways in `m`:
/// every node before `destiny` has the edge forward, and every node after
/// `origin` has the edge backward.
pub open spec fn undirected_connected_spec<C: Coord>(
    m: Map<CoordPair<C>, Node>,
    origin: CoordPair<C>,
    destiny: CoordPair<C>,
) -> Result<bool, ConnectError<C>> {
    match path_direction(m, origin, destiny) {
        Ok(d) => Ok(
            all_edges(m, d, origin, 0, ray_dist(d, origin, destiny), d, true) && all_edges(
                m,
                d,
                origin,
                1,
                ray_dist(d, origin, destiny) + 1,
                dir_opposite(d),
                true,
            ),
        ),
        Err(e) => Err(e),
    }
}

/// `m` with the forward edges of the path from `origin` in `d`, up to distance
/// `hi`, set to `v`, and, when `both`, its backward edges as well.
pub open spec fn path_set<C: Coord>(
    m: Map<CoordPair<C>, Node>,
    d: Direction,
    origin: CoordPair<C>,
    hi: int,
    v: bool,
    both: bool,
) -> Map<CoordPair<C>, Node> {
    if both {
        set_edges(set_edges(m, d, origin, 0, hi, d, v), d, origin, 1, hi + 1, dir_opposite(d), v)
    } else {
        set_edges(m, d, origin, 0, hi, d, v)
    }
}

/// The state of a path being marked: forward flags set below `h1`, backward
/// flags set in `[1, h2)`.
pub open spec fn marking<C: Coord>(
    m: Map<CoordPair<C>, Node>,
    d: Direction,
    origin: CoordPair<C>,
    v: bool,
    h1: int,
    h2: int,
) -> Map<CoordPair<C>, Node> {
    Map::new(
        |k: CoordPair<C>| m.contains_key(k),
        |k: CoordPair<C>|
            {
                let n1 = if in_band(d, origin, k, 0, h1) {
                    m[k].edges.with(d, v)
                } else {
                    m[k].edges
                };
                let n2 = if in_band(d, origin, k, 1, h2) {
                    n1.with(dir_opposite(d), v)
                } else {
                    n1
                };
                Node { edges: n2 }
            },
    )
}

/// Two points on a ray at the same distance are the same point.
pub proof fn lemma_ray_unique<C: Coord>(d: Direction, from: CoordPair<C>, a: CoordPair<C>, b: CoordPair<C>)
    requires
        on_ray(d, from, a),
        on_ray(d, from, b),
        ray_dist(d, from, a) == ray_dist(d, from, b),
    ensures
        a == b,
{
    C::lemma_injective(a.y, b.y);
    C::lemma_injective(a.x, b.x);
}

/// Two listings of the same nodes on a ray, from the same distance on, are
/// the same listing.
pub proof fn lemma_ray_listings_equal<C: Coord>(
    s: Seq<(CoordPair<C>, Node)>,
    t: Seq<(CoordPair<C>, Node)>,
    m: Map<CoordPair<C>, Node>,
    d: Direction,
    from: CoordPair<C>,
    min: int,
)
    requires
        is_ray_listing(s, m, d, from, min),
        is_ray_listing(t, m, d, from, min),
    ensures
        s == t,
    decreases s.len(),
{
    if s.len() == 0 {
        if t.len() > 0 {
            assert(m.contains_key(t[0].0));
        }
        assert(s =~= t);
    } else {
        assert(m.contains_key(s[0].0));
        if t.len() == 0 {
            assert(false);
        }
        let j = choose|j: int| 0 <= j < t.len() && #[trigger] t[j].0 == s[0].0;
        assert(m.contains_key(t[0].0));
        let i = choose|i: int| 0 <= i < s.len() && #[trigger] s[i].0 == t[0].0;
        assert(ray_dist(d, from, t[0].0) <= ray_dist(d, from, t[j].0));
        assert(ray_dist(d, from, s[0].0) <= ray_dist(d, from, s[i].0));
        lemma_ray_unique(d, from, s[0].0, t[0].0);
        let next = ray_dist(d, from, s[0].0) + 1;
        let s2 = s.drop_first();
        let t2 = t.drop_first();
        assert(is_ray_listing(s2, m, d, from, next)) by {
            assert forall|k: CoordPair<C>| m.contains_key(k) && on_ray(d, from, k) && ray_dist(d, from, k) >= next implies exists|
                i: int,
            | 0 <= i < s2.len() && #[trigger] s2[i].0 == k by {
                let i = choose|i: int| 0 <= i < s.len() && #[trigger] s[i].0 == k;
                assert(i != 0);
                assert(s2[i - 1].0 == k);
            }
            assert forall|i: int| 0 <= i < s2.len() implies ray_dist(d, from, #[trigger] s2[i].0) >= next by {
                assert(ray_dist(d, from, s[0].0) < ray_dist(d, from, s[i + 1].0));
            }
        }
        assert(is_ray_listing(t2, m, d, from, next)) by {
            assert forall|k: CoordPair<C>| m.contains_key(k) && on_ray(d, from, k) && ray_dist(d, from, k) >= next implies exists|
                i: int,
            | 0 <= i < t2.len() && #[trigger] t2[i].0 == k by {
                let i = choose|i: int| 0 <= i < t.len() && #[trigger] t[i].0 == k;
                assert(i != 0);
                assert(t2[i - 1].0 == k);
            }
            assert forall|i: int| 0 <= i < t2.len() implies ray_dist(d, from, #[trigger] t2[i].0) >= next by {
                assert(ray_dist(d, from, t[0].0) < ray_dist(d, from, t[i + 1].0));
            }
        }
        lemma_ray_listings_equal(s2, t2, m, d, from, next);
        assert(s[0] == t[0]);
        assert(s =~= t) by {
            assert forall|i: int| 0 <= i < s.len() implies s[i] == t[i] by {
                if i > 0 {
                    assert(s[i] == s2[i - 1]);
                    assert(t[i] == t2[i - 1]);
                }
            }
        }
    }
}

/// The inclusive listing of a ray from a node is that node followed by the
/// listing of its neighbors: what `neighbors_inclusive` gives is the node at
/// `from` and then what `neighbors` gives.
pub proof fn law_ray_inclusive<C: Coord>(
    inclusive: Seq<(CoordPair<C>, Node)>,
    exclusive: Seq<(CoordPair<C>, Node)>,
    m: Map<CoordPair<C>, Node>,
    d: Direction,
    from: CoordPair<C>,
)
    requires
        m.contains_key(from),
        is_ray_listing(inclusive, m, d, from, 0),
        is_ray_listing(exclusive, m, d, from, 1),
    ensures
        inclusive == seq![(from, m[from])] + exclusive,
{
    let c = seq![(from, m[from])] + exclusive;
    assert(on_ray(d, from, from) && ray_dist(d, from, from) == 0);
    assert(is_ray_listing(c, m, d, from, 0)) by {
        assert forall|i: int, j: int| 0 <= i < j < c.len() implies ray_dist(d, from, #[trigger] c[i].0) < ray_dist(
            d,
            from,
            #[trigger] c[j].0,
        ) by {
            assert(c[j] == exclusive[j - 1]);
            if i > 0 {
                assert(c[i] == exclusive[i - 1]);
            }
        }
        assert forall|i: int| 0 <= i < c.len() implies m.contains_key(#[trigger] c[i].0) && m[c[i].0] == c[i].1 && on_ray(
            d,
            from,
            c[i].0,
        ) && ray_dist(d, from, c[i].0) >= 0 by {
            if i > 0 {
                assert(c[i] == exclusive[i - 1]);
            }
        }
        assert forall|k: CoordPair<C>| m.contains_key(k) && on_ray(d, from, k) && ray_dist(d, from, k) >= 0 implies exists|
            i: int,
        | 0 <= i < c.len() && #[trigger] c[i].0 == k by {
            if ray_dist(d, from, k) == 0 {
                lemma_ray_unique(d, from, k, from);
                assert(c[0].0 == k);
            } else {
                let i = choose|i: int| 0 <= i < exclusive.len() && #[trigger] exclusive[i].0 == k;
                assert(c[i + 1].0 == k);
            }
        }
    }
    lemma_ray_listings_equal(inclusive, c, m, d, from, 0);
}

/// Consecutive entries of a ray listing have no node of the map between them.
pub proof fn lemma_ray_gap<C: Coord>(
    s: Seq<(CoordPair<C>, Node)>,
    m: Map<CoordPair<C>, Node>,
    d: Direction,
    from: CoordPair<C>,
    min: int,
    i: int,
    k: CoordPair<C>,
)
    requires
        is_ray_listing(s, m, d, from, min),
        0 <= i,
        i + 1 < s.len(),
        m.contains_key(k),
        on_ray(d, from, k),
    ensures
        ray_dist(d, from, k) <= ray_dist(d, from, s[i].0) || ray_dist(d, from, s[i + 1].0) <= ray_dist(d, from, k),
{
    if ray_dist(d, from, k) < ray_dist(d, from, s[i].0) || ray_dist(d, from, s[i + 1].0) < ray_dist(d, from, k) {
        return;
    }
    let j = choose|j: int| 0 <= j < s.len() && #[trigger] s[j].0 == k;
    if j <= i {
        if j < i {
            assert(ray_dist(d, from, s[j].0) < ray_dist(d, from, s[i].0));
        }
    } else {
        if j > i + 1 {
            assert(ray_dist(d, from, s[i + 1].0) < ray_dist(d, from, s[j].0));
        }
    }
}

/// A marking that is complete matches the path's contract.
pub proof fn lemma_marking_done<C: Coord>(
    m: Map<CoordPair<C>, Node>,
    d: Direction,
    origin: CoordPair<C>,
    v: bool,
    hi: int,
    both: bool,
)
    requires
        hi >= 0,
    ensures
        marking(m, d, origin, v, hi, if both { hi + 1 } else { 1 }) == path_set(m, d, origin, hi, v, both),
{
    let h2 = if both { hi + 1 } else { 1 };
    let a = marking(m, d, origin, v, hi, h2);
    let b = path_set(m, d, origin, hi, v, both);
    assert forall|k: CoordPair<C>| #[trigger] a.contains_key(k) implies a[k] == b[k] by {
    }
    assert(a =~= b);
}

/// Whether `ks` lists the locations of the nodes of `m` on the ray from `from`
/// in direction `d` at distance at least `min`, nearest first.
pub open spec fn is_ray_keys<C: Coord>(
    ks: Seq<CoordPair<C>>,
    m: Map<CoordPair<C>, Node>,
    d: Direction,
    from: CoordPair<C>,
    min: int,
) -> bool {
    &&& forall|i: int, j: int| 0 <= i < j < ks.len() ==> ray_dist(d, from, #[trigger] ks[i]) < ray_dist(
        d,
        from,
        #[trigger] ks[j],
    )
    &&& forall|i: int| 0 <= i < ks.len() ==> m.contains_key(#[trigger] ks[i]) && on_ray(d, from, ks[i]) && ray_dist(
        d,
        from,
        ks[i],
    ) >= min
    &&& forall|k: CoordPair<C>| m.contains_key(k) && on_ray(d, from, k) && ray_dist(d, from, k) >= min ==> exists|i: int|
        0 <= i < ks.len() && #[trigger] ks[i] == k
}

/// No node of `m` on the ray lies strictly between two consecutive listed keys.
proof fn lemma_keys_gap<C: Coord>(
    ks: Seq<CoordPair<C>>,
    m: Map<CoordPair<C>, Node>,
    d: Direction,
    from: CoordPair<C>,
    min: int,
    i: int,
)
    requires
        is_ray_keys(ks, m, d, from, min),
        0 <= i,
        i + 1 < ks.len(),
    ensures
        forall|q: CoordPair<C>| #[trigger] m.contains_key(q) && on_ray(d, from, q) ==> ray_dist(d, from, q) <= ray_dist(
            d,
            from,
            ks[i],
        ) || ray_dist(d, from, ks[i + 1]) <= ray_dist(d, from, q) || ray_dist(d, from, q) < min,
{
    assert forall|q: CoordPair<C>| #[trigger] m.contains_key(q) && on_ray(d, from, q) implies ray_dist(d, from, q)
        <= ray_dist(d, from, ks[i]) || ray_dist(d, from, ks[i + 1]) <= ray_dist(d, from, q) || ray_dist(d, from, q)
        < min by {
        if ray_dist(d, from, q) >= min {
            let j = choose|j: int| 0 <= j < ks.len() && #[trigger] ks[j] == q;
            if j < i {
                assert(ray_dist(d, from, ks[j]) < ray_dist(d, from, ks[i]));
            } else if j > i + 1 {
                assert(ray_dist(d, from, ks[i + 1]) < ray_dist(d, from, ks[j]));
            }
        }
    }
}

/// Setting the forward flag of the node at distance `h1` extends the forward
/// band up to the next node.
proof fn lemma_mark_forward<C: Coord>(
    m: Map<CoordPair<C>, Node>,
    d: Direction,
    o: CoordPair<C>,
    v: bool,
    h1: int,
    h2: int,
    k: CoordPair<C>,
    h1n: int,
)
    requires
        m.contains_key(k),
        on_ray(d, o, k),
        ray_dist(d, o, k) == h1,
        h1 < h1n,
        forall|q: CoordPair<C>| #[trigger] m.contains_key(q) && on_ray(d, o, q) ==> ray_dist(d, o, q) <= h1
            || h1n <= ray_dist(d, o, q),
    ensures
        marking(m, d, o, v, h1, h2).insert(
            k,
            Node { edges: marking(m, d, o, v, h1, h2)[k].edges.with(d, v) },
        ) == marking(m, d, o, v, h1n, h2),
        marking(m, d, o, v, h1, h2)[k].edges.at(d) == m[k].edges.at(d),
        all_edges(m, d, o, 0, h1n, d, v) == (all_edges(m, d, o, 0, h1, d, v) && m[k].edges.at(d) == v),
{
    let a = marking(m, d, o, v, h1, h2);
    let lhs = a.insert(k, Node { edges: a[k].edges.with(d, v) });
    let rhs = marking(m, d, o, v, h1n, h2);
    assert forall|q: CoordPair<C>| #[trigger] rhs.contains_key(q) implies lhs[q] == rhs[q] by {
        if q != k && on_ray(d, o, q) && h1 <= ray_dist(d, o, q) < h1n {
            lemma_ray_unique(d, o, q, k);
        }
    }
    assert(lhs =~= rhs);
    if all_edges(m, d, o, 0, h1, d, v) && m[k].edges.at(d) == v {
        assert forall|q: CoordPair<C>| #[trigger] m.contains_key(q) && in_band(d, o, q, 0, h1n) implies m[q].edges.at(d)
            == v by {
            if ray_dist(d, o, q) == h1 {
                lemma_ray_unique(d, o, q, k);
            }
        }
    }
    if all_edges(m, d, o, 0, h1n, d, v) {
        assert(m.contains_key(k) && in_band(d, o, k, 0, h1n));
    }
}

/// Setting the backward flag of the node at distance `h2n - 1` extends the
/// backward band up to it.
proof fn lemma_mark_backward<C: Coord>(
    m: Map<CoordPair<C>, Node>,
    d: Direction,
    o: CoordPair<C>,
    v: bool,
    h1: int,
    h2: int,
    k: CoordPair<C>,
    h2n: int,
)
    requires
        m.contains_key(k),
        on_ray(d, o, k),
        ray_dist(d, o, k) == h2n - 1,
        1 <= h2 <= h2n - 1,
        forall|q: CoordPair<C>| #[trigger] m.contains_key(q) && on_ray(d, o, q) ==> ray_dist(d, o, q) < h2
            || h2n - 1 <= ray_dist(d, o, q),
    ensures
        marking(m, d, o, v, h1, h2).insert(
            k,
            Node { edges: marking(m, d, o, v, h1, h2)[k].edges.with(dir_opposite(d), v) },
        ) == marking(m, d, o, v, h1, h2n),
        marking(m, d, o, v, h1, h2)[k].edges.at(dir_opposite(d)) == m[k].edges.at(dir_opposite(d)),
        all_edges(m, d, o, 1, h2n, dir_opposite(d), v) == (all_edges(m, d, o, 1, h2, dir_opposite(d), v)
            && m[k].edges.at(dir_opposite(d)) == v),
{
    let a = marking(m, d, o, v, h1, h2);
    let lhs = a.insert(k, Node { edges: a[k].edges.with(dir_opposite(d), v) });
    let rhs = marking(m, d, o, v, h1, h2n);
    assert(lhs.dom() =~= rhs.dom());
    assert forall|q: CoordPair<C>| #[trigger] rhs.contains_key(q) implies lhs[q] == rhs[q] by {
        if q != k && on_ray(d, o, q) && h2 <= ray_dist(d, o, q) < h2n {
            lemma_ray_unique(d, o, q, k);
        }
        if q == k {
            assert(a[k].edges == (if in_band(d, o, k, 0, h1) {
                m[k].edges.with(d, v)
            } else {
                m[k].edges
            }));
        }
    }
    assert(lhs =~= rhs);
    if all_edges(m, d, o, 1, h2, dir_opposite(d), v) && m[k].edges.at(dir_opposite(d)) == v {
        assert forall|q: CoordPair<C>| #[trigger] m.contains_key(q) && in_band(d, o, q, 1, h2n) implies m[q].edges.at(
            dir_opposite(d),
        ) == v by {
            if ray_dist(d, o, q) == h2n - 1 {
                lemma_ray_unique(d, o, q, k);
            }
        }
    }
    if all_edges(m, d, o, 1, h2n, dir_opposite(d), v) {
        assert(m.contains_key(k) && in_band(d, o, k, 1, h2n));
    }
}

/// Extending a band over one more node, with nothing between it and the new
/// end, adds that node's flag to what the band holds.
proof fn lemma_all_edges_step<C: Coord>(
    m: Map<CoordPair<C>, Node>,
    d: Direction,
    o: CoordPair<C>,
    lo: int,
    h: int,
    hn: int,
    k: CoordPair<C>,
    e: Direction,
    v: bool,
)
    requires
        m.contains_key(k),
        on_ray(d, o, k),
        ray_dist(d, o, k) == h,
        lo <= h < hn,
        forall|q: CoordPair<C>| #[trigger] m.contains_key(q) && on_ray(d, o, q) ==> ray_dist(d, o, q) <= h
            || hn <= ray_dist(d, o, q),
    ensures
        all_edges(m, d, o, lo, hn, e, v) == (all_edges(m, d, o, lo, h, e, v) && m[k].edges.at(e) == v),
{
    if all_edges(m, d, o, lo, h, e, v) && m[k].edges.at(e) == v {
        assert forall|q: CoordPair<C>| #[trigger] m.contains_key(q) && in_band(d, o, q, lo, hn) implies m[q].edges.at(e)
            == v by {
            if ray_dist(d, o, q) == h {
                lemma_ray_unique(d, o, q, k);
            }
        }
    }
    if all_edges(m, d, o, lo, hn, e, v) {
        assert(m.contains_key(k) && in_band(d, o, k, lo, hn));
    }
}

/// Whether `k` is the node of `m` nearest to `from` on the ray in direction `d`,
/// `from` excluded.
pub open spec fn first_on_ray<C: Coord>(m: Map<CoordPair<C>, Node>, d: Direction, from: CoordPair<C>, k: CoordPair<C>) -> bool {
    &&& m.contains_key(k)
    &&& on_ray(d, from, k)
    &&& ray_dist(d, from, k) >= 1
    &&& forall|q: CoordPair<C>| #[trigger] m.contains_key(q) && on_ray(d, from, q) && ray_dist(d, from, q) >= 1
        ==> ray_dist(d, from, k) <= ray_dist(d, from, q)
}

/// One step of removing the node at `loc`, for direction `d`: the node loses its
/// edge in `d`; when nothing lies beyond it in `d` (or, when `undirected`, it had
/// no edge in `d`), the nearest node behind it loses its edge in `d` too.
pub open spec fn removal_step<C: Coord>(
    m: Map<CoordPair<C>, Node>,
    loc: CoordPair<C>,
    d: Direction,
    undirected: bool,
) -> Map<CoordPair<C>, Node> {
    let m1 = m.insert(loc, Node { edges: m[loc].edges.with(d, false) });
    let clear = (forall|q: CoordPair<C>| #[trigger] m.contains_key(q) && on_ray(d, loc, q) ==> ray_dist(d, loc, q) < 1)
        || (undirected && !m[loc].edges.at(d));
    if clear && exists|k: CoordPair<C>| first_on_ray(m, dir_opposite(d), loc, k) {
        let k = choose|k: CoordPair<C>| first_on_ray(m, dir_opposite(d), loc, k);
        m1.insert(k, Node { edges: m1[k].edges.with(d, false) })
    } else {
        m1
    }
}

/// The nodes of `m` after removing the node at `loc`: the steps for each
/// direction, in the order up, left, down, right, then the node itself.
pub open spec fn removal<C: Coord>(m: Map<CoordPair<C>, Node>, loc: CoordPair<C>, undirected: bool) -> Map<
    CoordPair<C>,
    Node,
> {
    removal_step(
        removal_step(
            removal_step(removal_step(m, loc, Direction::Up, undirected), loc, Direction::Left, undirected),
            loc,
            Direction::Down,
            undirected,
        ),
        loc,
        Direction::Right,
        undirected,
    ).remove(loc)
}

/// A path from a point to a point in its straight direction lies on the ray.
pub proof fn lemma_straight_on_ray<C: Coord>(a: CoordPair<C>, b: CoordPair<C>)
    requires
        straight_direction(a, b) is Some,
    ensures
        on_ray(straight_direction(a, b)->0, a, b),
{
}

/// On the same graph, location and direction, what `neighbors_inclusive` gives
/// is the node at the location followed by what `neighbors` gives.
pub proof fn law_neighbors_inclusive<C: Coord>(
    m: Map<CoordPair<C>, Node>,
    location: CoordPair<&C>,
    direction: Direction,
    inclusive: Neighbors<'_, C>,
    exclusive: Neighbors<'_, C>,
)
    requires
        m.contains_key(deref_pair(location)),
        is_ray_listing(unref_nodes(vstd::std_specs::vec::into_iter_elts(inclusive)), m, direction, deref_pair(location), 0),
        is_ray_listing(unref_nodes(vstd::std_specs::vec::into_iter_elts(exclusive)), m, direction, deref_pair(location), 1),
    ensures
        unref_nodes(vstd::std_specs::vec::into_iter_elts(inclusive)) == seq![(deref_pair(location), m[deref_pair(location)])]
            + unref_nodes(vstd::std_specs::vec::into_iter_elts(exclusive)),
{
    law_ray_inclusive(
        unref_nodes(vstd::std_specs::vec::into_iter_elts(inclusive)),
        unref_nodes(vstd::std_specs::vec::into_iter_elts(exclusive)),
        m,
        direction,
        deref_pair(location),
    );
}

/// Connecting two nodes joined by a straight path leaves them connected: the
/// nodes that a successful `connect` gives their edges make `connected` read
/// true.
pub proof fn law_connected_after_connect<C: Coord>(
    m: Map<CoordPair<C>, Node>,
    origin: CoordPair<C>,
    destiny: CoordPair<C>,
)
    requires
        path_direction(m, origin, destiny) is Ok,
    ensures
        ({
            let d = path_direction(m, origin, destiny)->Ok_0;
            connected_spec(set_edges(m, d, origin, 0, ray_dist(d, origin, destiny), d, true), origin, destiny)
                == Ok::<bool, ConnectError<C>>(true)
        }),
{
    let d = path_direction(m, origin, destiny)->Ok_0;
    let m2 = set_edges(m, d, origin, 0, ray_dist(d, origin, destiny), d, true);
    assert(m2.dom() =~= m.dom());
    assert(path_direction(m2, origin, destiny) == path_direction(m, origin, destiny));
}

/// Disconnecting two connected nodes at distinct points leaves them
/// disconnected: the nodes that a `disconnect` of a connected path strips of
/// their edges make `connected` read false.
pub proof fn law_disconnected_after_disconnect<C: Coord>(
    m: Map<CoordPair<C>, Node>,
    origin: CoordPair<C>,
    destiny: CoordPair<C>,
)
    requires
        path_direction(m, origin, destiny) is Ok,
        origin.y.value() != destiny.y.value() || origin.x.value() != destiny.x.value(),
    ensures
        ({
            let d = path_direction(m, origin, destiny)->Ok_0;
            connected_spec(set_edges(m, d, origin, 0, ray_dist(d, origin, destiny), d, false), origin, destiny)
                == Ok::<bool, ConnectError<C>>(false)
        }),
{
    let d = path_direction(m, origin, destiny)->Ok_0;
    let m2 = set_edges(m, d, origin, 0, ray_dist(d, origin, destiny), d, false);
    assert(m2.dom() =~= m.dom());
    assert(path_direction(m2, origin, destiny) == path_direction(m, origin, destiny));
    lemma_straight_on_ray(origin, destiny);
    assert(in_band(d, origin, origin, 0, ray_dist(d, origin, destiny)));
    assert(m2.contains_key(origin));
    assert(!m2[origin].edges.at(d));
}

/// A graph whose nodes are points, with directed edges along rows and columns.
#[derive(Debug, Clone)]
pub struct CoordDiGraph<C> {
    nodes: CoordMap<C, Node>,
}

impl<C: Coord> CoordDiGraph<C> {
    /// The well-formedness of the graph.
    pub closed spec fn wf(self) -> bool {
        self.nodes.wf()
    }

    /// The nodes of the graph, by location.
    pub closed spec fn view(self) -> Map<CoordPair<C>, Node> {
        self.nodes.view()
    }

    /// A graph without nodes.
    pub fn new() -> (r: Self)
        ensures
            r.wf(),
            r.view() == Map::<CoordPair<C>, Node>::empty(),
    {
        CoordDiGraph { nodes: CoordMap::new() }
    }

    /// Whether there is a node at `location`.
    pub fn contains_node(&self, location: CoordPair<&C>) -> (r: bool)
        requires
            self.wf(),
        ensures
            r == self.view().contains_key(deref_pair(location)),
    {
        self.nodes.contains_key(location)
    }

    /// The node at `location`, if any.
    pub fn node(&self, location: CoordPair<&C>) -> (r: Option<Node>)
        requires
            self.wf(),
        ensures
            match r {
                Some(n) => self.view().contains_key(deref_pair(location)) && n == self.view()[deref_pair(location)],
                None => !self.view().contains_key(deref_pair(location)),
            },
    {
        match self.nodes.get(location) {
            Some(n) => Some(*n),
            None => None,
        }
    }

    /// The stored location and the node at `location`, if any.
    pub fn node_with_location(&self, location: CoordPair<&C>) -> (r: Option<(CoordPair<&C>, Node)>)
        requires
            self.wf(),
        ensures
            match r {
                Some((k, n)) => self.view().contains_key(deref_pair(location)) && deref_pair(k) == deref_pair(
                    location,
                ) && n == self.view()[deref_pair(location)],
                None => !self.view().contains_key(deref_pair(location)),
            },
    {
        match self.nodes.get_key_value(location) {
            Some((k, n)) => Some((k, *n)),
            None => None,
        }
    }

    /// Adds a node without edges at `location`, returning whether there was none.
    pub fn insert_node(&mut self, location: CoordPair<C>) -> (r: bool)
        requires
            old(self).wf(),
        ensures
            final(self).wf(),
            r == !old(self).view().contains_key(location),
            final(self).view() == if r {
                old(self).view().insert(location, Node::empty())
            } else {
                old(self).view()
            },
    {
        match self.nodes.entry(location) {
            crate::geometry::collections::map::Entry::Occupied(_) => false,
            crate::geometry::collections::map::Entry::Vacant(e) => {
                e.insert(Node::new());
                true
            },
        }
    }

    /// Sets flag `e` of the node at `key` to `v`, returning whether it changed.
    fn set_edge(&mut self, key: CoordPair<C>, e: Direction, v: bool) -> (r: bool)
        requires
            old(self).wf(),
            old(self).view().contains_key(key),
        ensures
            final(self).wf(),
            final(self).view() == old(self).view().insert(key, Node { edges: old(self).view()[key].edges.with(e, v) }),
            r == (old(self).view()[key].edges.at(e) != v),
    {
        let mut n = *self.nodes.get(key.as_ref()).unwrap();
        let r = if v {
            n.connect(e)
        } else {
            n.disconnect(e)
        };
        self.nodes.insert(key, n);
        r
    }

    /// The nodes on the ray from `location` in `direction`, nearest first;
    /// `location` itself is included when `inclusive` holds.
    fn ray(&self, location: CoordPair<&C>, direction: Direction, inclusive: bool) -> (r: Vec<(CoordPair<&C>, Node)>)
        requires
            self.wf(),
        ensures
            is_ray_listing(unref_nodes(r@), self.view(), direction, deref_pair(location), if inclusive {
                0
            } else {
                1
            }),
    {
        let ghost from = deref_pair(location);
        let ghost min: int = if inclusive { 0 } else { 1 };
        let loc = location.copied();
        let axis = direction.axis();
        let forwards = match direction.order() {
            Order::Forwards => true,
            Order::Backwards => false,
        };
        let near = if inclusive {
            Limit::Included(*loc.get(axis))
        } else {
            Limit::Excluded(*loc.get(axis))
        };
        let along = if forwards {
            Interval { start: near, end: Limit::Unbounded }
        } else {
            Interval { start: Limit::Unbounded, end: near }
        };
        let c = *loc.get(axis.other());
        let across = Interval { start: Limit::Included(c), end: Limit::Included(c) };
        let range = match axis {
            Axis::Y => CoordRange { y: along, x: across },
            Axis::X => CoordRange { y: across, x: along },
        };
        let l = self.nodes.range_listing(axis, &range);
        let ghost pred = |k: CoordPair<C>| range.admits(k);
        let ghost s = unref_entries(l@);
        proof {
            assert forall|k: CoordPair<C>| #[trigger] pred(k) == (on_ray(direction, from, k) && ray_dist(direction, from, k) >= min) by {
            }
        }
        let mut out: Vec<(CoordPair<&C>, Node)> = Vec::new();
        let n = l.len();
        let mut i: usize = 0;
        while i < n
            invariant
                n == l@.len(),
                s == unref_entries(l@),
                i <= n,
                out@.len() == i,
                forall|a: int| 0 <= a < i ==> #[trigger] unref_nodes(out@)[a] == if forwards {
                    s[a]
                } else {
                    s[n - 1 - a]
                },
            decreases n - i,
        {
            let j = if forwards { i } else { n - 1 - i };
            let e = l[j];
            let ghost before = out@;
            out.push((e.0, *e.1));
            proof {
                assert(unref_nodes(out@) =~= unref_nodes(before).push((deref_pair(e.0), *e.1)));
                assert(unref_nodes(out@)[i as int] == s[j as int]);
            }
            i += 1;
        }
        proof {
            lemma_ray_of_listing(s, unref_nodes(out@), self.view(), direction, from, min, pred, forwards);
        }
        out
    }
}

/// A listing of the nodes within the bounds of a ray, read in the order of the
/// ray, is a ray listing.
proof fn lemma_ray_of_listing<C: Coord>(
    s: Seq<(CoordPair<C>, Node)>,
    out: Seq<(CoordPair<C>, Node)>,
    m: Map<CoordPair<C>, Node>,
    d: Direction,
    from: CoordPair<C>,
    min: int,
    pred: spec_fn(CoordPair<C>) -> bool,
    forwards: bool,
)
    requires
        is_listing(s, m, dir_axis(d), pred),
        forall|k: CoordPair<C>| #[trigger] pred(k) == (on_ray(d, from, k) && ray_dist(d, from, k) >= min),
        forwards == (dir_order(d) == Order::Forwards),
        out.len() == s.len(),
        forall|a: int| 0 <= a < out.len() ==> #[trigger] out[a] == if forwards {
            s[a]
        } else {
            s[s.len() - 1 - a]
        },
    ensures
        is_ray_listing(out, m, d, from, min),
{
    let n = s.len();
    assert forall|i: int, j: int| 0 <= i < j < out.len() implies ray_dist(d, from, #[trigger] out[i].0) < ray_dist(
        d,
        from,
        #[trigger] out[j].0,
    ) by {
        if forwards {
            assert(key_lt(dir_axis(d), s[i].0, s[j].0));
            assert(pred(s[i].0) && pred(s[j].0));
        } else {
            let i2 = n - 1 - j;
            let j2 = n - 1 - i;
            assert(key_lt(dir_axis(d), s[i2].0, s[j2].0));
            assert(pred(s[i2].0) && pred(s[j2].0));
        }
    }
    assert forall|i: int| 0 <= i < out.len() implies m.contains_key(#[trigger] out[i].0) && m[out[i].0] == out[i].1
        && on_ray(d, from, out[i].0) && ray_dist(d, from, out[i].0) >= min by {
        let i2 = if forwards { i } else { n - 1 - i };
        assert(out[i] == s[i2]);
        assert(pred(s[i2].0));
    }
    assert forall|k: CoordPair<C>| m.contains_key(k) && on_ray(d, from, k) && ray_dist(d, from, k) >= min implies exists|i: int|
        0 <= i < out.len() && #[trigger] out[i].0 == k by {
        assert(pred(k));
        let j = choose|j: int| 0 <= j < s.len() && #[trigger] s[j].0 == k;
        let i = if forwards { j } else { n - 1 - j };
        assert(out[i] == s[j]);
    }
}


/// The direction in which `b` lies from `a` along a row or a column, if any.
fn straight_dir<C: Coord>(a: &CoordPair<C>, b: &CoordPair<C>) -> (r: Option<Direction>)
    ensures
        r == straight_direction(*a, *b),
{
    if a.y.is_eq(&b.y) {
        if a.x.is_lt(&b.x) {
            Some(Direction::Right)
        } else {
            Some(Direction::Left)
        }
    } else if a.x.is_eq(&b.x) {
        if a.y.is_lt(&b.y) {
            Some(Direction::Down)
        } else {
            Some(Direction::Up)
        }
    } else {
        None
    }
}

impl<C: Coord> CoordDiGraph<C> {
    /// The direction of the path from `origin` to `destiny`, or why there is none.
    fn path_dir(&self, origin: &CoordPair<C>, destiny: &CoordPair<C>) -> (r: Result<Direction, ConnectError<C>>)
        requires
            self.wf(),
        ensures
            r == path_direction(self.view(), *origin, *destiny),
    {
        if !self.contains_node(origin.as_ref()) {
            return Err(ConnectError::UnknownNode(*origin));
        }
        if !self.contains_node(destiny.as_ref()) {
            return Err(ConnectError::UnknownNode(*destiny));
        }
        match straight_dir(origin, destiny) {
            Some(d) => Ok(d),
            None => Err(ConnectError::NoStraightDirection(*origin, *destiny)),
        }
    }

    /// The locations on the ray from `location` in `direction`, nearest first,
    /// `location` included.
    fn ray_keys(&self, location: CoordPair<&C>, direction: Direction) -> (r: Vec<CoordPair<C>>)
        requires
            self.wf(),
        ensures
            is_ray_keys(r@, self.view(), direction, deref_pair(location), 0),
    {
        let ray = self.ray(location, direction, true);
        let ghost s = unref_nodes(ray@);
        let mut out: Vec<CoordPair<C>> = Vec::new();
        let mut i: usize = 0;
        while i < ray.len()
            invariant
                s == unref_nodes(ray@),
                i <= ray@.len(),
                out@.len() == i,
                forall|a: int| 0 <= a < i ==> #[trigger] out@[a] == s[a].0,
            decreases ray@.len() - i,
        {
            out.push(ray[i].0.copied());
            i += 1;
        }
        proof {
            let from = deref_pair(location);
            assert forall|k: CoordPair<C>| self.view().contains_key(k) && on_ray(direction, from, k) && ray_dist(
                direction,
                from,
                k,
            ) >= 0 implies exists|a: int| 0 <= a < out@.len() && #[trigger] out@[a] == k by {
                let a = choose|a: int| 0 <= a < s.len() && #[trigger] s[a].0 == k;
                assert(out@[a] == k);
            }
            assert forall|a: int, b: int| 0 <= a < b < out@.len() implies ray_dist(direction, from, #[trigger] out@[a])
                < ray_dist(direction, from, #[trigger] out@[b]) by {
                assert(out@[a] == s[a].0 && out@[b] == s[b].0);
            }
            assert forall|a: int| 0 <= a < out@.len() implies self.view().contains_key(#[trigger] out@[a]) && on_ray(
                direction,
                from,
                out@[a],
            ) && ray_dist(direction, from, out@[a]) >= 0 by {
                assert(out@[a] == s[a].0);
            }
        }
        out
    }

    /// Sets flag `d` to `v` on every node of the path from `origin` to `destiny`
    /// before `destiny`, and, when `both`, flag `-d` on every node after
    /// `origin`; returns whether some flag changed on each side.
    fn mark_path(&mut self, origin: CoordPair<C>, destiny: CoordPair<C>, d: Direction, v: bool, both: bool) -> (r: (
        bool,
        bool,
    ))
        requires
            old(self).wf(),
            old(self).view().contains_key(origin),
            old(self).view().contains_key(destiny),
            on_ray(d, origin, destiny),
        ensures
            final(self).wf(),
            final(self).view() == path_set(old(self).view(), d, origin, ray_dist(d, origin, destiny), v, both),
            r.0 == !all_edges(old(self).view(), d, origin, 0, ray_dist(d, origin, destiny), d, v),
            both ==> r.1 == !all_edges(
                old(self).view(),
                d,
                origin,
                1,
                ray_dist(d, origin, destiny) + 1,
                dir_opposite(d),
                v,
            ),
    {
        let ghost m0 = self.view();
        let keys = self.ray_keys(origin.as_ref(), d);
        let ghost p = choose|p: int| 0 <= p < keys@.len() && #[trigger] keys@[p] == destiny;
        proof {
            assert(on_ray(d, origin, origin));
            let j = choose|j: int| 0 <= j < keys@.len() && #[trigger] keys@[j] == origin;
            if j > 0 {
                assert(ray_dist(d, origin, keys@[0]) < ray_dist(d, origin, keys@[j]));
            }
            lemma_ray_unique(d, origin, keys@[0], origin);
            assert(marking(m0, d, origin, v, 0, 1) =~= m0);
        }
        let opp = d.opposite();
        let n = keys.len();
        let mut i: usize = 0;
        let mut changed = false;
        let mut changed_rev = false;
        while !keys[i].coords_eq(&destiny)
            invariant
                self.wf(),
                is_ray_keys(keys@, m0, d, origin, 0),
                opp == dir_opposite(d),
                i <= p < keys@.len(),
                n == keys@.len(),
                keys@[p] == destiny,
                self.view() == marking(m0, d, origin, v, ray_dist(d, origin, keys@[i as int]), if both {
                    ray_dist(d, origin, keys@[i as int]) + 1
                } else {
                    1
                }),
                changed == !all_edges(m0, d, origin, 0, ray_dist(d, origin, keys@[i as int]), d, v),
                both ==> changed_rev == !all_edges(
                    m0,
                    d,
                    origin,
                    1,
                    ray_dist(d, origin, keys@[i as int]) + 1,
                    opp,
                    v,
                ),
            decreases p - i,
        {
            let ghost h1 = ray_dist(d, origin, keys@[i as int]);
            proof {
                assert(i < p);
                assert(ray_dist(d, origin, keys@[i as int]) < ray_dist(d, origin, keys@[i + 1]));
                lemma_keys_gap(keys@, m0, d, origin, 0, i as int);
            }
            let ghost h1n = ray_dist(d, origin, keys@[i + 1]);
            let ghost h2 = if both { h1 + 1 } else { 1 };
            let k = keys[i];
            proof {
                lemma_mark_forward(m0, d, origin, v, h1, h2, k, h1n);
            }
            let c = self.set_edge(k, d, v);
            changed = changed || c;
            if both {
                let k2 = keys[i + 1];
                proof {
                    lemma_mark_backward(m0, d, origin, v, h1n, h2, k2, h1n + 1);
                }
                let c2 = self.set_edge(k2, opp, v);
                changed_rev = changed_rev || c2;
            }
            i += 1;
        }
        proof {
            lemma_ray_unique(d, origin, keys@[i as int], destiny);
            lemma_marking_done(m0, d, origin, v, ray_dist(d, origin, destiny), both);
        }
        (changed, changed_rev)
    }
}


impl<C: Coord> CoordDiGraph<C> {
    /// Whether the path from `origin` to `destiny` is connected: every node on
    /// it before `destiny` has the edge towards `destiny`.
    pub fn connected(&self, origin: CoordPair<C>, destiny: CoordPair<C>) -> (r: Result<bool, ConnectError<C>>)
        requires
            self.wf(),
        ensures
            r == connected_spec(self.view(), origin, destiny),
    {
        let ghost m = self.view();
        let d = match self.path_dir(&origin, &destiny) {
            Ok(d) => d,
            Err(e) => return Err(e),
        };
        proof {
            lemma_straight_on_ray(origin, destiny);
        }
        let keys = self.ray_keys(origin.as_ref(), d);
        let ghost p = choose|p: int| 0 <= p < keys@.len() && #[trigger] keys@[p] == destiny;
        proof {
            assert(on_ray(d, origin, origin));
            let j = choose|j: int| 0 <= j < keys@.len() && #[trigger] keys@[j] == origin;
            if j > 0 {
                assert(ray_dist(d, origin, keys@[0]) < ray_dist(d, origin, keys@[j]));
            }
            lemma_ray_unique(d, origin, keys@[0], origin);
        }
        let n = keys.len();
        let mut i: usize = 0;
        while !keys[i].coords_eq(&destiny)
            invariant
                self.wf(),
                m == self.view(),
                path_direction(m, origin, destiny) == Ok::<Direction, ConnectError<C>>(d),
                is_ray_keys(keys@, m, d, origin, 0),
                i <= p < keys@.len(),
                n == keys@.len(),
                keys@[p] == destiny,
                all_edges(m, d, origin, 0, ray_dist(d, origin, keys@[i as int]), d, true),
            decreases p - i,
        {
            proof {
                assert(ray_dist(d, origin, keys@[i as int]) < ray_dist(d, origin, keys@[p]));
            }
            let node = self.node(keys[i].as_ref()).unwrap();
            if !node.connected(d) {
                proof {
                    let k = keys@[i as int];
                    assert(m.contains_key(k) && in_band(d, origin, k, 0, ray_dist(d, origin, destiny)));
                    assert(m[k].edges.at(d) != true);
                    assert(!all_edges(m, d, origin, 0, ray_dist(d, origin, destiny), d, true));
                }
                return Ok(false);
            }
            proof {
                assert(ray_dist(d, origin, keys@[i as int]) < ray_dist(d, origin, keys@[i + 1]));
                lemma_keys_gap(keys@, m, d, origin, 0, i as int);
                lemma_all_edges_step(m, d, origin, 0, ray_dist(d, origin, keys@[i as int]), ray_dist(d, origin, keys@[i + 1]), keys@[i as int], d, true);
            }
            i += 1;
        }
        proof {
            lemma_ray_unique(d, origin, keys@[i as int], destiny);
        }
        Ok(true)
    }

    /// Whether the path from `origin` to `destiny` is connected both ways.
    pub fn undirected_connected(&self, origin: CoordPair<C>, destiny: CoordPair<C>) -> (r: Result<
        bool,
        ConnectError<C>,
    >)
        requires
            self.wf(),
        ensures
            r == undirected_connected_spec(self.view(), origin, destiny),
    {
        let ghost m = self.view();
        let d = match self.path_dir(&origin, &destiny) {
            Ok(d) => d,
            Err(e) => return Err(e),
        };
        proof {
            lemma_straight_on_ray(origin, destiny);
        }
        let opp = d.opposite();
        let keys = self.ray_keys(origin.as_ref(), d);
        let ghost p = choose|p: int| 0 <= p < keys@.len() && #[trigger] keys@[p] == destiny;
        proof {
            assert(on_ray(d, origin, origin));
            let j = choose|j: int| 0 <= j < keys@.len() && #[trigger] keys@[j] == origin;
            if j > 0 {
                assert(ray_dist(d, origin, keys@[0]) < ray_dist(d, origin, keys@[j]));
            }
            lemma_ray_unique(d, origin, keys@[0], origin);
        }
        let n = keys.len();
        let mut i: usize = 0;
        loop
            invariant
                self.wf(),
                m == self.view(),
                path_direction(m, origin, destiny) == Ok::<Direction, ConnectError<C>>(d),
                opp == dir_opposite(d),
                is_ray_keys(keys@, m, d, origin, 0),
                keys@[0] == origin,
                i <= p < keys@.len(),
                n == keys@.len(),
                keys@[p] == destiny,
                all_edges(m, d, origin, 0, ray_dist(d, origin, keys@[i as int]), d, true),
                all_edges(m, d, origin, 1, ray_dist(d, origin, keys@[i as int]), opp, true),
            decreases p - i,
        {
            let ghost h = ray_dist(d, origin, keys@[i as int]);
            proof {
                if i > 0 {
                    assert(ray_dist(d, origin, keys@[0]) < ray_dist(d, origin, keys@[i as int]));
                }
                if i < p {
                    assert(ray_dist(d, origin, keys@[i as int]) < ray_dist(d, origin, keys@[p]));
                }
            }
            let node = self.node(keys[i].as_ref()).unwrap();
            if i > 0 && !node.connected(opp) {
                proof {
                    assert(m.contains_key(keys@[i as int]) && in_band(d, origin, keys@[i as int], 1, ray_dist(d, origin, destiny) + 1));
                }
                return Ok(false);
            }
            proof {
                if i > 0 {
                    assert forall|q: CoordPair<C>| #[trigger] m.contains_key(q) && in_band(d, origin, q, 1, h + 1) implies m[q].edges.at(opp) by {
                        if ray_dist(d, origin, q) == h {
                            lemma_ray_unique(d, origin, q, keys@[i as int]);
                        }
                    }
                } else {
                    assert(h == 0);
                }
            }
            if keys[i].coords_eq(&destiny) {
                return Ok(true);
            }
            if !node.connected(d) {
                proof {
                    assert(m.contains_key(keys@[i as int]) && in_band(d, origin, keys@[i as int], 0, ray_dist(d, origin, destiny)));
                }
                return Ok(false);
            }
            proof {
                assert(h < ray_dist(d, origin, keys@[i + 1]));
                lemma_keys_gap(keys@, m, d, origin, 0, i as int);
                lemma_all_edges_step(m, d, origin, 0, h, ray_dist(d, origin, keys@[i + 1]), keys@[i as int], d, true);
                assert forall|q: CoordPair<C>| #[trigger] m.contains_key(q) && in_band(d, origin, q, 1, ray_dist(d, origin, keys@[i + 1])) implies m[q].edges.at(opp) by {
                    assert(in_band(d, origin, q, 1, h + 1));
                }
            }
            i += 1;
        }
    }

    /// Adds the edges of the path from `origin` to `destiny`, returning whether
    /// some was new.
    pub fn connect(&mut self, origin: CoordPair<C>, destiny: CoordPair<C>) -> (r: Result<bool, ConnectError<C>>)
        requires
            old(self).wf(),
        ensures
            final(self).wf(),
            match path_direction(old(self).view(), origin, destiny) {
                Err(e) => r == Err::<bool, ConnectError<C>>(e) && final(self).view() == old(self).view(),
                Ok(d) => r == Ok::<bool, ConnectError<C>>(
                    !all_edges(old(self).view(), d, origin, 0, ray_dist(d, origin, destiny), d, true),
                ) && final(self).view() == set_edges(
                    old(self).view(),
                    d,
                    origin,
                    0,
                    ray_dist(d, origin, destiny),
                    d,
                    true,
                ),
            },
    {
        let d = match self.path_dir(&origin, &destiny) {
            Ok(d) => d,
            Err(e) => return Err(e),
        };
        proof {
            lemma_straight_on_ray(origin, destiny);
        }
        let (changed, _) = self.mark_path(origin, destiny, d, true, false);
        Ok(changed)
    }

    /// Adds the edges of the path from `origin` to `destiny` both ways,
    /// returning whether some was new forward and whether some was new backward.
    pub fn connect_undirected(&mut self, origin: CoordPair<C>, destiny: CoordPair<C>) -> (r: Result<
        (bool, bool),
        ConnectError<C>,
    >)
        requires
            old(self).wf(),
        ensures
            final(self).wf(),
            match path_direction(old(self).view(), origin, destiny) {
                Err(e) => r == Err::<(bool, bool), ConnectError<C>>(e) && final(self).view() == old(self).view(),
                Ok(d) => r == Ok::<(bool, bool), ConnectError<C>>(
                    (
                        !all_edges(old(self).view(), d, origin, 0, ray_dist(d, origin, destiny), d, true),
                        !all_edges(
                            old(self).view(),
                            d,
                            origin,
                            1,
                            ray_dist(d, origin, destiny) + 1,
                            dir_opposite(d),
                            true,
                        ),
                    ),
                ) && final(self).view() == path_set(old(self).view(), d, origin, ray_dist(d, origin, destiny), true, true),
            },
    {
        let d = match self.path_dir(&origin, &destiny) {
            Ok(d) => d,
            Err(e) => return Err(e),
        };
        proof {
            lemma_straight_on_ray(origin, destiny);
        }
        let r = self.mark_path(origin, destiny, d, true, true);
        Ok(r)
    }

    /// Removes the edges of the path from `origin` to `destiny` when the path is
    /// connected, returning whether it was.
    pub fn disconnect(&mut self, origin: CoordPair<C>, destiny: CoordPair<C>) -> (r: Result<bool, ConnectError<C>>)
        requires
            old(self).wf(),
        ensures
            final(self).wf(),
            match path_direction(old(self).view(), origin, destiny) {
                Err(e) => r == Err::<bool, ConnectError<C>>(e) && final(self).view() == old(self).view(),
                Ok(d) => if all_edges(old(self).view(), d, origin, 0, ray_dist(d, origin, destiny), d, true) {
                    r == Ok::<bool, ConnectError<C>>(true) && final(self).view() == set_edges(
                        old(self).view(),
                        d,
                        origin,
                        0,
                        ray_dist(d, origin, destiny),
                        d,
                        false,
                    )
                } else {
                    r == Ok::<bool, ConnectError<C>>(false) && final(self).view() == old(self).view()
                },
            },
    {
        match self.connected(origin, destiny) {
            Ok(true) => {},
            Ok(false) => return Ok(false),
            Err(e) => return Err(e),
        }
        let d = match self.path_dir(&origin, &destiny) {
            Ok(d) => d,
            Err(e) => return Err(e),
        };
        proof {
            lemma_straight_on_ray(origin, destiny);
        }
        self.mark_path(origin, destiny, d, false, false);
        Ok(true)
    }

    /// Removes the edges of the path from `origin` to `destiny` both ways when
    /// the path is connected one way or the other, returning whether some edge
    /// was removed forward and whether some was removed backward.
    pub fn disconnect_undirected(&mut self, origin: CoordPair<C>, destiny: CoordPair<C>) -> (r: Result<
        (bool, bool),
        ConnectError<C>,
    >)
        requires
            old(self).wf(),
        ensures
            final(self).wf(),
            match path_direction(old(self).view(), origin, destiny) {
                Err(e) => r == Err::<(bool, bool), ConnectError<C>>(e) && final(self).view() == old(self).view(),
                Ok(d) => if !all_edges(old(self).view(), d, origin, 0, ray_dist(d, origin, destiny), d, true)
                    && connected_spec(old(self).view(), destiny, origin) != Ok::<bool, ConnectError<C>>(true) {
                    r == Ok::<(bool, bool), ConnectError<C>>((false, false)) && final(self).view() == old(self).view()
                } else {
                    r == Ok::<(bool, bool), ConnectError<C>>(
                        (
                            !all_edges(old(self).view(), d, origin, 0, ray_dist(d, origin, destiny), d, false),
                            !all_edges(
                                old(self).view(),
                                d,
                                origin,
                                1,
                                ray_dist(d, origin, destiny) + 1,
                                dir_opposite(d),
                                false,
                            ),
                        ),
                    ) && final(self).view() == path_set(
                        old(self).view(),
                        d,
                        origin,
                        ray_dist(d, origin, destiny),
                        false,
                        true,
                    )
                },
            },
    {
        let forward = match self.connected(origin, destiny) {
            Ok(b) => b,
            Err(e) => return Err(e),
        };
        if !forward {
            let backward = match self.connected(destiny, origin) {
                Ok(b) => b,
                Err(e) => return Err(e),
            };
            if !backward {
                return Ok((false, false));
            }
        }
        let d = match self.path_dir(&origin, &destiny) {
            Ok(d) => d,
            Err(e) => return Err(e),
        };
        proof {
            lemma_straight_on_ray(origin, destiny);
        }
        let r = self.mark_path(origin, destiny, d, false, true);
        Ok(r)
    }

    /// One step of removing the node at `loc`, for direction `d`.
    fn remove_step(&mut self, loc: CoordPair<C>, d: Direction, undirected: bool)
        requires
            old(self).wf(),
            old(self).view().contains_key(loc),
        ensures
            final(self).wf(),
            final(self).view() == removal_step(old(self).view(), loc, d, undirected),
            final(self).view().dom() == old(self).view().dom(),
    {
        let ghost m = self.view();
        let was = self.set_edge(loc, d, false);
        let ghost m1 = self.view();
        proof {
            assert(m1.dom() =~= m.dom());
        }
        let ahead = self.ray(loc.as_ref(), d, false);
        let none_ahead = ahead.len() == 0;
        proof {
            let s = unref_nodes(ahead@);
            if none_ahead {
                assert forall|q: CoordPair<C>| #[trigger] m.contains_key(q) && on_ray(d, loc, q) implies ray_dist(d, loc, q) < 1 by {
                    if ray_dist(d, loc, q) >= 1 {
                        assert(m1.contains_key(q));
                        let i = choose|i: int| 0 <= i < s.len() && #[trigger] s[i].0 == q;
                    }
                }
            } else {
                let q = s[0].0;
                assert(m1.contains_key(q) && on_ray(d, loc, q) && ray_dist(d, loc, q) >= 1);
                assert(m.contains_key(q));
            }
        }
        if none_ahead || (undirected && !was) {
            let opp = d.opposite();
            let behind = self.ray(loc.as_ref(), opp, false);
            if behind.len() > 0 {
                let k = behind[0].0.copied();
                proof {
                    let s = unref_nodes(behind@);
                    assert(s[0].0 == k);
                    assert forall|q: CoordPair<C>| #[trigger] m.contains_key(q) && on_ray(opp, loc, q) && ray_dist(opp, loc, q) >= 1
                        implies ray_dist(opp, loc, k) <= ray_dist(opp, loc, q) by {
                        assert(m1.contains_key(q));
                        let i = choose|i: int| 0 <= i < s.len() && #[trigger] s[i].0 == q;
                        if i > 0 {
                            assert(ray_dist(opp, loc, s[0].0) < ray_dist(opp, loc, s[i].0));
                        }
                    }
                    assert(first_on_ray(m, opp, loc, k));
                    let c = choose|c: CoordPair<C>| first_on_ray(m, opp, loc, c);
                    lemma_ray_unique(opp, loc, c, k);
                }
                self.set_edge(k, d, false);
                proof {
                    assert(self.view().dom() =~= m.dom());
                }
            } else {
                proof {
                    let s = unref_nodes(behind@);
                    assert forall|c: CoordPair<C>| !first_on_ray(m, opp, loc, c) by {
                        if first_on_ray(m, opp, loc, c) {
                            assert(m1.contains_key(c));
                            let i = choose|i: int| 0 <= i < s.len() && #[trigger] s[i].0 == c;
                        }
                    }
                }
            }
        } else {
            proof {
                assert(!(none_ahead || (undirected && !m[loc].edges.at(d))));
            }
        }
    }

    /// Removes the node at `location` and its edges, keeping the edges that
    /// passed through it; returns whether there was a node.
    pub fn remove_node(&mut self, location: CoordPair<C>) -> (r: Result<bool, ConnectError<C>>)
        requires
            old(self).wf(),
        ensures
            final(self).wf(),
            if old(self).view().contains_key(location) {
                r == Ok::<bool, ConnectError<C>>(true) && final(self).view() == removal(old(self).view(), location, false)
            } else {
                r == Ok::<bool, ConnectError<C>>(false) && final(self).view() == old(self).view()
            },
    {
        self.remove_with(location, false)
    }

    /// Removes the node at `location` and its edges, keeping the edges that
    /// passed through it only where they went both ways; returns whether there
    /// was a node.
    pub fn remove_node_undirected(&mut self, location: CoordPair<C>) -> (r: Result<bool, ConnectError<C>>)
        requires
            old(self).wf(),
        ensures
            final(self).wf(),
            if old(self).view().contains_key(location) {
                r == Ok::<bool, ConnectError<C>>(true) && final(self).view() == removal(old(self).view(), location, true)
            } else {
                r == Ok::<bool, ConnectError<C>>(false) && final(self).view() == old(self).view()
            },
    {
        self.remove_with(location, true)
    }

    fn remove_with(&mut self, location: CoordPair<C>, undirected: bool) -> (r: Result<bool, ConnectError<C>>)
        requires
            old(self).wf(),
        ensures
            final(self).wf(),
            if old(self).view().contains_key(location) {
                r == Ok::<bool, ConnectError<C>>(true) && final(self).view() == removal(old(self).view(), location, undirected)
            } else {
                r == Ok::<bool, ConnectError<C>>(false) && final(self).view() == old(self).view()
            },
    {
        if !self.contains_node(location.as_ref()) {
            return Ok(false);
        }
        self.remove_step(location, Direction::Up, undirected);
        self.remove_step(location, Direction::Left, undirected);
        self.remove_step(location, Direction::Down, undirected);
        self.remove_step(location, Direction::Right, undirected);
        self.nodes.remove(location.as_ref());
        Ok(true)
    }

    /// The nodes after `location` in `direction`, nearest first.
    pub fn neighbors(&self, location: CoordPair<&C>, direction: Direction) -> (r: Neighbors<'_, C>)
        requires
            self.wf(),
        ensures
            is_ray_listing(
                unref_nodes(vstd::std_specs::vec::into_iter_elts(r)),
                self.view(),
                direction,
                deref_pair(location),
                1,
            ),
    {
        self.ray(location, direction, false).into_iter()
    }

    /// The nodes from `location` on in `direction`, nearest first, `location`
    /// included.
    pub fn neighbors_inclusive(&self, location: CoordPair<&C>, direction: Direction) -> (r: Neighbors<'_, C>)
        requires
            self.wf(),
        ensures
            is_ray_listing(
                unref_nodes(vstd::std_specs::vec::into_iter_elts(r)),
                self.view(),
                direction,
                deref_pair(location),
                0,
            ),
    {
        self.ray(location, direction, true).into_iter()
    }
}

/// Nodes on a ray, at borrowed locations, nearest first.
pub type Neighbors<'a, C> = std::vec::IntoIter<(CoordPair<&'a C>, Node)>;


/// Nodes at borrowed locations, listed in the order of some axis.
pub type Iter<'a, C> = std::vec::IntoIter<(CoordPair<&'a C>, Node)>;

/// Borrowed locations of nodes, listed in the order of some axis.
pub type Locations<'a, C> = std::vec::IntoIter<CoordPair<&'a C>>;

/// Nodes, listed in the order of their locations on some axis.
pub type Nodes = std::vec::IntoIter<Node>;

/// Nodes at owned locations, listed in the order of some axis.
pub type IntoIter<C> = std::vec::IntoIter<(CoordPair<C>, Node)>;

/// Owned locations of nodes, listed in the order of some axis.
pub type IntoLocations<C> = std::vec::IntoIter<CoordPair<C>>;

/// Nodes, owned, listed in the order of their locations on some axis.
pub type IntoNodes = std::vec::IntoIter<Node>;

impl<C: Coord> CoordDiGraph<C> {
    /// The nodes with their locations, with `higher_axis` as the primary order.
    pub fn iter(&self, higher_axis: Axis) -> (r: Iter<'_, C>)
        requires
            self.wf(),
        ensures
            is_listing(unref_nodes(vstd::std_specs::vec::into_iter_elts(r)), self.view(), higher_axis, every_key()),
    {
        let l = self.nodes.listing(higher_axis);
        let ghost s = unref_entries(l@);
        let mut out: Vec<(CoordPair<&C>, Node)> = Vec::new();
        let mut i: usize = 0;
        while i < l.len()
            invariant
                s == unref_entries(l@),
                i <= l@.len(),
                out@.len() == i,
                forall|a: int| 0 <= a < i ==> #[trigger] unref_nodes(out@)[a] == s[a],
            decreases l@.len() - i,
        {
            let e = l[i];
            let ghost before = out@;
            out.push((e.0, *e.1));
            proof {
                assert(unref_nodes(out@) =~= unref_nodes(before).push((deref_pair(e.0), *e.1)));
            }
            i += 1;
        }
        proof {
            assert(unref_nodes(out@) =~= s);
        }
        out.into_iter()
    }

    /// The nodes with their locations, row by row.
    pub fn rows(&self) -> (r: Iter<'_, C>)
        requires
            self.wf(),
        ensures
            is_listing(unref_nodes(vstd::std_specs::vec::into_iter_elts(r)), self.view(), Axis::Y, every_key()),
    {
        self.iter(Axis::Y)
    }

    /// The nodes with their locations, column by column.
    pub fn columns(&self) -> (r: Iter<'_, C>)
        requires
            self.wf(),
        ensures
            is_listing(unref_nodes(vstd::std_specs::vec::into_iter_elts(r)), self.view(), Axis::X, every_key()),
    {
        self.iter(Axis::X)
    }

    /// The locations, with `higher_axis` as the primary order.
    pub fn locations(&self, higher_axis: Axis) -> (r: Locations<'_, C>)
        requires
            self.wf(),
        ensures
            is_key_listing(unref_keys(vstd::std_specs::vec::into_iter_elts(r)), self.view(), higher_axis),
    {
        self.nodes.keys(higher_axis)
    }

    /// The locations, row by row.
    pub fn location_rows(&self) -> (r: Locations<'_, C>)
        requires
            self.wf(),
        ensures
            is_key_listing(unref_keys(vstd::std_specs::vec::into_iter_elts(r)), self.view(), Axis::Y),
    {
        self.locations(Axis::Y)
    }

    /// The locations, column by column.
    pub fn location_columns(&self) -> (r: Locations<'_, C>)
        requires
            self.wf(),
        ensures
            is_key_listing(unref_keys(vstd::std_specs::vec::into_iter_elts(r)), self.view(), Axis::X),
    {
        self.locations(Axis::X)
    }

    /// The nodes, in the order of their locations with `higher_axis` as the
    /// primary order.
    pub fn nodes(&self, higher_axis: Axis) -> (r: Nodes)
        requires
            self.wf(),
        ensures
            is_value_listing(vstd::std_specs::vec::into_iter_elts(r), self.view(), higher_axis),
    {
        let l = self.nodes.listing(higher_axis);
        let ghost s = unref_entries(l@);
        let mut out: Vec<Node> = Vec::new();
        let mut i: usize = 0;
        while i < l.len()
            invariant
                s == unref_entries(l@),
                i <= l@.len(),
                out@.len() == i,
                forall|a: int| 0 <= a < i ==> #[trigger] out@[a] == s[a].1,
            decreases l@.len() - i,
        {
            out.push(*l[i].1);
            i += 1;
        }
        proof {
            assert(out@ =~= s.map_values(|e: (CoordPair<C>, Node)| e.1));
            assert(is_listing(s, self.view(), higher_axis, every_key()));
        }
        out.into_iter()
    }

    /// The nodes, row by row.
    pub fn node_rows(&self) -> (r: Nodes)
        requires
            self.wf(),
        ensures
            is_value_listing(vstd::std_specs::vec::into_iter_elts(r), self.view(), Axis::Y),
    {
        self.nodes(Axis::Y)
    }

    /// The nodes, column by column.
    pub fn node_columns(&self) -> (r: Nodes)
        requires
            self.wf(),
        ensures
            is_value_listing(vstd::std_specs::vec::into_iter_elts(r), self.view(), Axis::X),
    {
        self.nodes(Axis::X)
    }

    /// The nodes with their locations, owned, with `higher_axis` as the primary order.
    pub fn into_iter_with(self, higher_axis: Axis) -> (r: IntoIter<C>)
        requires
            self.wf(),
        ensures
            is_listing(vstd::std_specs::vec::into_iter_elts(r), self.view(), higher_axis, every_key()),
    {
        self.nodes.into_iter_with(higher_axis)
    }

    /// The nodes with their locations, owned, row by row.
    pub fn into_rows(self) -> (r: IntoIter<C>)
        requires
            self.wf(),
        ensures
            is_listing(vstd::std_specs::vec::into_iter_elts(r), self.view(), Axis::Y, every_key()),
    {
        self.into_iter_with(Axis::Y)
    }

    /// The nodes with their locations, owned, column by column.
    pub fn into_columns(self) -> (r: IntoIter<C>)
        requires
            self.wf(),
        ensures
            is_listing(vstd::std_specs::vec::into_iter_elts(r), self.view(), Axis::X, every_key()),
    {
        self.into_iter_with(Axis::X)
    }

    /// The locations, owned, with `higher_axis` as the primary order.
    pub fn into_locations(self, higher_axis: Axis) -> (r: IntoLocations<C>)
        requires
            self.wf(),
        ensures
            is_key_listing(vstd::std_specs::vec::into_iter_elts(r), self.view(), higher_axis),
    {
        self.nodes.into_keys(higher_axis)
    }

    /// The locations, owned, row by row.
    pub fn into_location_rows(self) -> (r: IntoLocations<C>)
        requires
            self.wf(),
        ensures
            is_key_listing(vstd::std_specs::vec::into_iter_elts(r), self.view(), Axis::Y),
    {
        self.into_locations(Axis::Y)
    }

    /// The locations, owned, column by column.
    pub fn into_location_columns(self) -> (r: IntoLocations<C>)
        requires
            self.wf(),
        ensures
            is_key_listing(vstd::std_specs::vec::into_iter_elts(r), self.view(), Axis::X),
    {
        self.into_locations(Axis::X)
    }

    /// The nodes, owned, in the order of their locations with `higher_axis` as
    /// the primary order.
    pub fn into_nodes(self, higher_axis: Axis) -> (r: IntoNodes)
        requires
            self.wf(),
        ensures
            is_value_listing(vstd::std_specs::vec::into_iter_elts(r), self.view(), higher_axis),
    {
        self.nodes.into_values(higher_axis)
    }

    /// The nodes, owned, row by row.
    pub fn into_node_rows(self) -> (r: IntoNodes)
        requires
            self.wf(),
        ensures
            is_value_listing(vstd::std_specs::vec::into_iter_elts(r), self.view(), Axis::Y),
    {
        self.into_nodes(Axis::Y)
    }

    /// The nodes, owned, column by column.
    pub fn into_node_columns(self) -> (r: IntoNodes)
        requires
            self.wf(),
        ensures
            is_value_listing(vstd::std_specs::vec::into_iter_elts(r), self.view(), Axis::X),
    {
        self.into_nodes(Axis::X)
    }
}

impl<C: Coord> Default for CoordDiGraph<C> {
    fn default() -> (r: Self)
        ensures
            r.wf(),
            r.view() == Map::<CoordPair<C>, Node>::empty(),
    {
        CoordDiGraph::new()
    }
}


/// A graph whose nodes are points, with edges along rows and columns that go
/// both ways.
#[derive(Debug, Clone)]
pub struct CoordGraph<C> {
    inner: CoordDiGraph<C>,
}

impl<C: Coord> CoordGraph<C> {
    /// The well-formedness of the graph.
    pub closed spec fn wf(self) -> bool {
        self.inner.wf()
    }

    /// The nodes of the graph, by location.
    pub closed spec fn view(self) -> Map<CoordPair<C>, Node> {
        self.inner.view()
    }

    /// A graph without nodes.
    pub fn new() -> (r: Self)
        ensures
            r.wf(),
            r.view() == Map::<CoordPair<C>, Node>::empty(),
    {
        CoordGraph { inner: CoordDiGraph::new() }
    }

    /// Whether there is a node at `location`.
    pub fn contains_node(&self, location: CoordPair<&C>) -> (r: bool)
        requires
            self.wf(),
        ensures
            r == self.view().contains_key(deref_pair(location)),
    {
        self.inner.contains_node(location)
    }

    /// The node at `location`, if any.
    pub fn node(&self, location: CoordPair<&C>) -> (r: Option<Node>)
        requires
            self.wf(),
        ensures
            match r {
                Some(n) => self.view().contains_key(deref_pair(location)) && n == self.view()[deref_pair(location)],
                None => !self.view().contains_key(deref_pair(location)),
            },
    {
        self.inner.node(location)
    }

    /// The stored location and the node at `location`, if any.
    pub fn node_with_location(&self, location: CoordPair<&C>) -> (r: Option<(CoordPair<&C>, Node)>)
        requires
            self.wf(),
        ensures
            match r {
                Some((k, n)) => self.view().contains_key(deref_pair(location)) && deref_pair(k) == deref_pair(
                    location,
                ) && n == self.view()[deref_pair(location)],
                None => !self.view().contains_key(deref_pair(location)),
            },
    {
        self.inner.node_with_location(location)
    }

    /// Adds a node without edges at `location`, returning whether there was none.
    pub fn insert_node(&mut self, location: CoordPair<C>) -> (r: bool)
        requires
            old(self).wf(),
        ensures
            final(self).wf(),
            r == !old(self).view().contains_key(location),
            final(self).view() == if r {
                old(self).view().insert(location, Node::empty())
            } else {
                old(self).view()
            },
    {
        self.inner.insert_node(location)
    }

    /// Removes the node at `location` and its edges, keeping the edges that
    /// passed through it where they went both ways; returns whether there was a node.
    pub fn remove_node(&mut self, location: CoordPair<C>) -> (r: Result<bool, ConnectError<C>>)
        requires
            old(self).wf(),
        ensures
            final(self).wf(),
            if old(self).view().contains_key(location) {
                r == Ok::<bool, ConnectError<C>>(true) && final(self).view() == removal(old(self).view(), location, true)
            } else {
                r == Ok::<bool, ConnectError<C>>(false) && final(self).view() == old(self).view()
            },
    {
        self.inner.remove_node_undirected(location)
    }

    /// Whether the path from `origin` to `destiny` is connected.
    pub fn connected(&self, origin: CoordPair<C>, destiny: CoordPair<C>) -> (r: Result<bool, ConnectError<C>>)
        requires
            self.wf(),
        ensures
            r == connected_spec(self.view(), origin, destiny),
    {
        self.inner.connected(origin, destiny)
    }

    /// Adds the edges of the path from `origin` to `destiny` both ways,
    /// returning whether some was new.
    pub fn connect(&mut self, origin: CoordPair<C>, destiny: CoordPair<C>) -> (r: Result<bool, ConnectError<C>>)
        requires
            old(self).wf(),
        ensures
            final(self).wf(),
            match path_direction(old(self).view(), origin, destiny) {
                Err(e) => r == Err::<bool, ConnectError<C>>(e) && final(self).view() == old(self).view(),
                Ok(d) => r == Ok::<bool, ConnectError<C>>(
                    !all_edges(old(self).view(), d, origin, 0, ray_dist(d, origin, destiny), d, true) || !all_edges(
                        old(self).view(),
                        d,
                        origin,
                        1,
                        ray_dist(d, origin, destiny) + 1,
                        dir_opposite(d),
                        true,
                    ),
                ) && final(self).view() == path_set(old(self).view(), d, origin, ray_dist(d, origin, destiny), true, true),
            },
    {
        match self.inner.connect_undirected(origin, destiny) {
            Ok((a, b)) => Ok(a || b),
            Err(e) => Err(e),
        }
    }

    /// Removes the edges of the path from `origin` to `destiny` both ways when
    /// the path is connected one way or the other, returning whether some edge
    /// was removed.
    pub fn disconnect(&mut self, origin: CoordPair<C>, destiny: CoordPair<C>) -> (r: Result<bool, ConnectError<C>>)
        requires
            old(self).wf(),
        ensures
            final(self).wf(),
            match path_direction(old(self).view(), origin, destiny) {
                Err(e) => r == Err::<bool, ConnectError<C>>(e) && final(self).view() == old(self).view(),
                Ok(d) => if !all_edges(old(self).view(), d, origin, 0, ray_dist(d, origin, destiny), d, true)
                    && connected_spec(old(self).view(), destiny, origin) != Ok::<bool, ConnectError<C>>(true) {
                    r == Ok::<bool, ConnectError<C>>(false) && final(self).view() == old(self).view()
                } else {
                    r == Ok::<bool, ConnectError<C>>(
                        !all_edges(old(self).view(), d, origin, 0, ray_dist(d, origin, destiny), d, false)
                            || !all_edges(
                            old(self).view(),
                            d,
                            origin,
                            1,
                            ray_dist(d, origin, destiny) + 1,
                            dir_opposite(d),
                            false,
                        ),
                    ) && final(self).view() == path_set(
                        old(self).view(),
                        d,
                        origin,
                        ray_dist(d, origin, destiny),
                        false,
                        true,
                    )
                },
            },
    {
        match self.inner.disconnect_undirected(origin, destiny) {
            Ok((a, b)) => Ok(a || b),
            Err(e) => Err(e),
        }
    }

    /// The nodes after `location` in `direction`, nearest first.
    pub fn neighbors(&self, location: CoordPair<&C>, direction: Direction) -> (r: Neighbors<'_, C>)
        requires
            self.wf(),
        ensures
            is_ray_listing(
                unref_nodes(vstd::std_specs::vec::into_iter_elts(r)),
                self.view(),
                direction,
                deref_pair(location),
                1,
            ),
    {
        self.inner.neighbors(location, direction)
    }

    /// The nodes from `location` on in `direction`, nearest first, `location` included.
    pub fn neighbors_inclusive(&self, location: CoordPair<&C>, direction: Direction) -> (r: Neighbors<'_, C>)
        requires
            self.wf(),
        ensures
            is_ray_listing(
                unref_nodes(vstd::std_specs::vec::into_iter_elts(r)),
                self.view(),
                direction,
                deref_pair(location),
                0,
            ),
    {
        self.inner.neighbors_inclusive(location, direction)
    }

    /// The nodes with their locations, with `higher_axis` as the primary order.
    pub fn iter(&self, higher_axis: Axis) -> (r: Iter<'_, C>)
        requires
            self.wf(),
        ensures
            is_listing(unref_nodes(vstd::std_specs::vec::into_iter_elts(r)), self.view(), higher_axis, every_key()),
    {
        self.inner.iter(higher_axis)
    }

    /// The nodes with their locations, row by row.
    pub fn rows(&self) -> (r: Iter<'_, C>)
        requires
            self.wf(),
        ensures
            is_listing(unref_nodes(vstd::std_specs::vec::into_iter_elts(r)), self.view(), Axis::Y, every_key()),
    {
        self.inner.rows()
    }

    /// The nodes with their locations, column by column.
    pub fn columns(&self) -> (r: Iter<'_, C>)
        requires
            self.wf(),
        ensures
            is_listing(unref_nodes(vstd::std_specs::vec::into_iter_elts(r)), self.view(), Axis::X, every_key()),
    {
        self.inner.columns()
    }

    /// The locations, with `higher_axis` as the primary order.
    pub fn locations(&self, higher_axis: Axis) -> (r: Locations<'_, C>)
        requires
            self.wf(),
        ensures
            is_key_listing(unref_keys(vstd::std_specs::vec::into_iter_elts(r)), self.view(), higher_axis),
    {
        self.inner.locations(higher_axis)
    }

    /// The locations, row by row.
    pub fn location_rows(&self) -> (r: Locations<'_, C>)
        requires
            self.wf(),
        ensures
            is_key_listing(unref_keys(vstd::std_specs::vec::into_iter_elts(r)), self.view(), Axis::Y),
    {
        self.inner.location_rows()
    }

    /// The locations, column by column.
    pub fn location_columns(&self) -> (r: Locations<'_, C>)
        requires
            self.wf(),
        ensures
            is_key_listing(unref_keys(vstd::std_specs::vec::into_iter_elts(r)), self.view(), Axis::X),
    {
        self.inner.location_columns()
    }

    /// The nodes, in the order of their locations with `higher_axis` as the primary order.
    pub fn nodes(&self, higher_axis: Axis) -> (r: Nodes)
        requires
            self.wf(),
        ensures
            is_value_listing(vstd::std_specs::vec::into_iter_elts(r), self.view(), higher_axis),
    {
        self.inner.nodes(higher_axis)
    }

    /// The nodes, row by row.
    pub fn node_rows(&self) -> (r: Nodes)
        requires
            self.wf(),
        ensures
            is_value_listing(vstd::std_specs::vec::into_iter_elts(r), self.view(), Axis::Y),
    {
        self.inner.node_rows()
    }

    /// The nodes, column by column.
    pub fn node_columns(&self) -> (r: Nodes)
        requires
            self.wf(),
        ensures
            is_value_listing(vstd::std_specs::vec::into_iter_elts(r), self.view(), Axis::X),
    {
        self.inner.node_columns()
    }

    /// The nodes with their locations, owned, with `higher_axis` as the primary order.
    pub fn into_iter_with(self, higher_axis: Axis) -> (r: IntoIter<C>)
        requires
            self.wf(),
        ensures
            is_listing(vstd::std_specs::vec::into_iter_elts(r), self.view(), higher_axis, every_key()),
    {
        self.inner.into_iter_with(higher_axis)
    }

    /// The nodes with their locations, owned, row by row.
    pub fn into_rows(self) -> (r: IntoIter<C>)
        requires
            self.wf(),
        ensures
            is_listing(vstd::std_specs::vec::into_iter_elts(r), self.view(), Axis::Y, every_key()),
    {
        self.inner.into_rows()
    }

    /// The nodes with their locations, owned, column by column.
    pub fn into_columns(self) -> (r: IntoIter<C>)
        requires
            self.wf(),
        ensures
            is_listing(vstd::std_specs::vec::into_iter_elts(r), self.view(), Axis::X, every_key()),
    {
        self.inner.into_columns()
    }

    /// The locations, owned, with `higher_axis` as the primary order.
    pub fn into_locations(self, higher_axis: Axis) -> (r: IntoLocations<C>)
        requires
            self.wf(),
        ensures
            is_key_listing(vstd::std_specs::vec::into_iter_elts(r), self.view(), higher_axis),
    {
        self.inner.into_locations(higher_axis)
    }

    /// The locations, owned, row by row.
    pub fn into_location_rows(self) -> (r: IntoLocations<C>)
        requires
            self.wf(),
        ensures
            is_key_listing(vstd::std_specs::vec::into_iter_elts(r), self.view(), Axis::Y),
    {
        self.inner.into_location_rows()
    }

    /// The locations, owned, column by column.
    pub fn into_location_columns(self) -> (r: IntoLocations<C>)
        requires
            self.wf(),
        ensures
            is_key_listing(vstd::std_specs::vec::into_iter_elts(r), self.view(), Axis::X),
    {
        self.inner.into_location_columns()
    }

    /// The nodes, owned, in the order of their locations with `higher_axis` as the primary order.
    pub fn into_nodes(self, higher_axis: Axis) -> (r: IntoNodes)
        requires
            self.wf(),
        ensures
            is_value_listing(vstd::std_specs::vec::into_iter_elts(r), self.view(), higher_axis),
    {
        self.inner.into_nodes(higher_axis)
    }

    /// The nodes, owned, row by row.
    pub fn into_node_rows(self) -> (r: IntoNodes)
        requires
            self.wf(),
        ensures
            is_value_listing(vstd::std_specs::vec::into_iter_elts(r), self.view(), Axis::Y),
    {
        self.inner.into_node_rows()
    }

    /// The nodes, owned, column by column.
    pub fn into_node_columns(self) -> (r: IntoNodes)
        requires
            self.wf(),
        ensures
            is_value_listing(vstd::std_specs::vec::into_iter_elts(r), self.view(), Axis::X),
    {
        self.inner.into_node_columns()
    }
}

impl<C: Coord> Default for CoordGraph<C> {
    fn default() -> (r: Self)
        ensures
            r.wf(),
            r.view() == Map::<CoordPair<C>, Node>::empty(),
    {
        CoordGraph::new()
    }
}

} // verus!
