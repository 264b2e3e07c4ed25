//! A small undirected graph over points of the map: nodes with data, and
//! edges between them, each kept once with its lesser end first.
use vstd::prelude::*;
use crate::domain::geometry::CoordPair;

verus! {

/// Whether `a` comes no later than `b`: by row, then by column.
pub open spec fn point_le(a: CoordPair, b: CoordPair) -> bool {
    a.y < b.y || (a.y == b.y && a.x <= b.x)
}

/// The edge between `a` and `b`, its lesser end first.
pub open spec fn normalized(a: CoordPair, b: CoordPair) -> (CoordPair, CoordPair) {
    if point_le(a, b) {
        (a, b)
    } else {
        (b, a)
    }
}

/// The edges kept by a filter: those whose verdict is false, in order.
pub open spec fn kept(edges: Seq<(CoordPair, CoordPair)>, verdicts: Seq<bool>) -> Seq<(CoordPair, CoordPair)>
    decreases edges.len(),
{
    if edges.len() == 0 || verdicts.len() != edges.len() {
        Seq::empty()
    } else {
        let rest = kept(edges.drop_last(), verdicts.drop_last());
        if verdicts.last() {
            rest
        } else {
            rest.push(edges.last())
        }
    }
}

/// The number of edges a filter removes: those whose verdict is true.
pub open spec fn removed_count(verdicts: Seq<bool>) -> nat
    decreases verdicts.len(),
{
    if verdicts.len() == 0 {
        0
    } else {
        removed_count(verdicts.drop_last()) + if verdicts.last() {
            1nat
        } else {
            0nat
        }
    }
}

/// A node: its location and its data.
#[derive(Debug, Clone, PartialEq, Eq)]
pub struct SmallNode<T> {
    location: CoordPair,
    data: T,
}

impl<T> SmallNode<T> {
    /// The location.
    pub closed spec fn location_spec(self) -> CoordPair {
        self.location
    }

    /// The data.
    pub closed spec fn data_spec(self) -> T {
        self.data
    }

    /// A node at `location` holding `data`.
    fn new(location: CoordPair, data: T) -> (r: SmallNode<T>)
        ensures
            r.location_spec() == location,
            r.data_spec() == data,
    {
        SmallNode { location, data }
    }

    /// The location.
    pub fn location(&self) -> (r: CoordPair)
        ensures
            r == self.location_spec(),
    {
        self.location
    }

    /// The data.
    pub fn data(&self) -> (r: &T)
        ensures
            *r == self.data_spec(),
    {
        &self.data
    }

    /// The data, to change in place.
    pub fn data_mut(&mut self) -> (r: &mut T)
        ensures
            *r == old(self).data_spec(),
            final(self).data_spec() == *final(r),
            final(self).location_spec() == old(self).location_spec(),
    {
        &mut self.data
    }
}

/// A small graph: nodes at distinct locations, and edges between locations,
/// each stored once with its lesser end first.
#[derive(Debug, Clone)]
pub struct SmallGraph<T> {
    nodes: Vec<SmallNode<T>>,
    edges: Vec<(CoordPair, CoordPair)>,
}

/// Whether two points are the same, compared field by field.
fn same_point(a: CoordPair, b: CoordPair) -> (r: bool)
    ensures
        r == (a == b),
{
    a.y == b.y && a.x == b.x
}

/// The edge between two points, its lesser end first, in executable form.
fn normalize_edge(node_a: CoordPair, node_b: CoordPair) -> (r: (CoordPair, CoordPair))
    ensures
        r == normalized(node_a, node_b),
{
    if node_a.y < node_b.y || (node_a.y == node_b.y && node_a.x <= node_b.x) {
        (node_a, node_b)
    } else {
        (node_b, node_a)
    }
}

impl<T> SmallGraph<T> {
    /// The nodes, in the order of insertion.
    pub closed spec fn node_seq(self) -> Seq<SmallNode<T>> {
        self.nodes@
    }

    /// The edges, in the order of connection.
    pub closed spec fn edge_seq(self) -> Seq<(CoordPair, CoordPair)> {
        self.edges@
    }

    /// The place of the node at `location`, if there is one.
    pub open spec fn node_index(self, location: CoordPair) -> Option<int> {
        if exists|i: int| 0 <= i < self.node_seq().len() && self.node_seq()[i].location_spec() == location {
            Some(choose|i: int| 0 <= i < self.node_seq().len() && self.node_seq()[i].location_spec() == location)
        } else {
            None
        }
    }

    /// Whether a node is at `location`.
    pub open spec fn has_node(self, location: CoordPair) -> bool {
        exists|i: int| 0 <= i < self.node_seq().len() && self.node_seq()[i].location_spec() == location
    }

    /// The well-formedness of the graph: no two nodes at one location.
    pub open spec fn wf(self) -> bool {
        forall|i: int, j: int|
            0 <= i < j < self.node_seq().len() ==> self.node_seq()[i].location_spec() != self.node_seq()[j].location_spec()
    }

    /// The node at `i` is the one at its location.
    pub proof fn lemma_node_index(self, i: int)
        requires
            self.wf(),
            0 <= i < self.node_seq().len(),
        ensures
            self.node_index(self.node_seq()[i].location_spec()) == Some(i),
    {
        let l = self.node_seq()[i].location_spec();
        let j = choose|j: int| 0 <= j < self.node_seq().len() && self.node_seq()[j].location_spec() == l;
        if j != i {
            if j < i {
                assert(self.node_seq()[j].location_spec() != self.node_seq()[i].location_spec());
            } else {
                assert(self.node_seq()[i].location_spec() != self.node_seq()[j].location_spec());
            }
        }
    }

    /// An empty graph.
    pub fn new() -> (r: SmallGraph<T>)
        ensures
            r.wf(),
            r.node_seq() == Seq::<SmallNode<T>>::empty(),
            r.edge_seq() == Seq::<(CoordPair, CoordPair)>::empty(),
    {
        SmallGraph { nodes: Vec::new(), edges: Vec::new() }
    }

    /// An empty graph with room for `node_cap` nodes and half of
    /// `max_edge_per_node` edges each.
    pub fn with_capacity(node_cap: usize, max_edge_per_node: usize) -> (r: SmallGraph<T>)
        requires
            max_edge_per_node * node_cap <= usize::MAX,
        ensures
            r.wf(),
            r.node_seq() == Seq::<SmallNode<T>>::empty(),
            r.edge_seq() == Seq::<(CoordPair, CoordPair)>::empty(),
    {
        SmallGraph { nodes: Vec::with_capacity(node_cap), edges: Vec::with_capacity(max_edge_per_node * node_cap / 2) }
    }

    /// Reserves room for more nodes and their edges.
    pub fn reserve(&mut self, additional_nodes: usize, additional_edges_per_node: usize)
        requires
            additional_nodes * additional_edges_per_node <= usize::MAX,
        ensures
            final(self).node_seq() == old(self).node_seq(),
            final(self).edge_seq() == old(self).edge_seq(),
    {
        self.nodes.reserve(additional_nodes);
        self.edges.reserve(additional_nodes * additional_edges_per_node);
    }

    /// Removes every node and every edge.
    pub fn clear(&mut self)
        ensures
            final(self).wf(),
            final(self).node_seq() == Seq::<SmallNode<T>>::empty(),
            final(self).edge_seq() == Seq::<(CoordPair, CoordPair)>::empty(),
    {
        self.nodes.clear();
        self.edges.clear();
    }

    /// The place of the node at `location`.
    fn find(&self, location: CoordPair) -> (r: Option<usize>)
        requires
            self.wf(),
        ensures
            match r {
                Some(i) => self.node_index(location) == Some(i as int) && i < self.node_seq().len(),
                None => self.node_index(location) is None && !self.has_node(location),
            },
    {
        let mut i: usize = 0;
        while i < self.nodes.len()
            invariant
                self.wf(),
                i <= self.nodes@.len(),
                forall|j: int| 0 <= j < i ==> self.nodes@[j].location_spec() != location,
            decreases self.nodes@.len() - i,
        {
            if same_point(self.nodes[i].location, location) {
                proof {
                    self.lemma_node_index(i as int);
                }
                return Some(i);
            }
            i += 1;
        }
        None
    }

    /// The node at `location`.
    pub fn node(&self, location: CoordPair) -> (r: Option<&SmallNode<T>>)
        requires
            self.wf(),
        ensures
            match r {
                Some(n) => self.has_node(location) && *n == self.node_seq()[self.node_index(location)->0],
                None => !self.has_node(location),
            },
    {
        match self.find(location) {
            Some(i) => Some(&self.nodes[i]),
            None => None,
        }
    }

    /// The data of the node at `location`.
    pub fn node_data(&self, location: CoordPair) -> (r: Option<&T>)
        requires
            self.wf(),
        ensures
            match r {
                Some(d) => self.has_node(location) && *d == self.node_seq()[self.node_index(location)->0].data_spec(),
                None => !self.has_node(location),
            },
    {
        match self.node(location) {
            Some(n) => Some(n.data()),
            None => None,
        }
    }

    /// The data of the node at `location`, to change in place.
    pub fn node_data_mut(&mut self, location: CoordPair) -> (r: Option<&mut T>)
        requires
            old(self).wf(),
        ensures
            match r {
                Some(d) => {
                    let i = old(self).node_index(location)->0;
                    &&& old(self).has_node(location)
                    &&& *d == old(self).node_seq()[i].data_spec()
                    &&& final(self).node_seq().len() == old(self).node_seq().len()
                    &&& final(self).node_seq()[i].data_spec() == *final(d)
                    &&& final(self).node_seq()[i].location_spec() == location
                    &&& forall|j: int| 0 <= j < old(self).node_seq().len() && j != i ==> #[trigger] final(self).node_seq()[j]
                        == old(self).node_seq()[j]
                    &&& final(self).edge_seq() == old(self).edge_seq()
                },
                None => !old(self).has_node(location) && *final(self) == *old(self),
            },
    {
        match self.find(location) {
            Some(i) => {
                let node = &mut self.nodes[i];
                let d = node.data_mut();
                Some(d)
            },
            None => None,
        }
    }

    /// Whether a node is at `location`.
    pub fn contains_node(&self, location: CoordPair) -> (r: bool)
        requires
            self.wf(),
        ensures
            r == self.has_node(location),
    {
        self.find(location).is_some()
    }

    /// Puts `data` at `location`: in the node there, or in a new node at the end.
    pub fn insert_node(&mut self, location: CoordPair, data: T)
        requires
            old(self).wf(),
        ensures
            final(self).wf(),
            final(self).edge_seq() == old(self).edge_seq(),
            match old(self).node_index(location) {
                Some(i) => final(self).node_seq() == old(self).node_seq().update(i, SmallNode::new_spec(location, data)),
                None => final(self).node_seq() == old(self).node_seq().push(SmallNode::new_spec(location, data)),
            },
    {
        match self.find(location) {
            Some(i) => {
                let ghost s = self.nodes@;
                let _ = self.nodes.remove(i);
                self.nodes.insert(i, SmallNode::new(location, data));
                proof {
                    assert(self.nodes@ =~= s.update(i as int, SmallNode::new_spec(location, data)));
                    assert forall|a: int, b: int| 0 <= a < b < self.nodes@.len() implies self.nodes@[a].location_spec()
                        != self.nodes@[b].location_spec() by {
                        if a == i {
                            assert(s[i as int].location_spec() == location);
                        }
                        if b == i {
                            assert(s[i as int].location_spec() == location);
                        }
                    }
                }
            },
            None => {
                let ghost s = self.nodes@;
                let ghost before = self.node_seq();
                proof {
                    assert(!self.has_node(location));
                    assert forall|a: int| 0 <= a < s.len() implies s[a].location_spec() != location by {
                        assert(before[a] == s[a]);
                    }
                }
                self.nodes.push(SmallNode::new(location, data));
                proof {
                    assert forall|a: int, b: int| 0 <= a < b < self.nodes@.len() implies self.nodes@[a].location_spec()
                        != self.nodes@[b].location_spec() by {
                        if b == s.len() {
                            assert(s[a].location_spec() != location);
                        } else {
                            assert(s[a] == self.nodes@[a] && s[b] == self.nodes@[b]);
                        }
                    }
                }
            },
        }
    }

    /// Removes the node at `location`, and every edge at it first, giving
    /// back its data.
    pub fn remove_node(&mut self, location: CoordPair) -> (r: Option<T>)
        requires
            old(self).wf(),
        ensures
            final(self).wf(),
            final(self).edge_seq() == kept(
                old(self).edge_seq(),
                Seq::new(old(self).edge_seq().len(), |i: int| old(self).edge_seq()[i].0 == location || old(self).edge_seq()[i].1 == location),
            ),
            match old(self).node_index(location) {
                Some(i) => r == Some(old(self).node_seq()[i].data_spec()) && final(self).node_seq() == old(self).node_seq().remove(i),
                None => r is None && final(self).node_seq() == old(self).node_seq(),
            },
    {
        self.disconnect_node(location);
        match self.find(location) {
            Some(i) => {
                let ghost s = self.nodes@;
                let node = self.nodes.remove(i);
                proof {
                    assert forall|a: int, b: int| 0 <= a < b < self.nodes@.len() implies self.nodes@[a].location_spec()
                        != self.nodes@[b].location_spec() by {
                        let sa = if a < i { a } else { a + 1 };
                        let sb = if b < i { b } else { b + 1 };
                        assert(self.nodes@[a] == s[sa] && self.nodes@[b] == s[sb]);
                    }
                }
                Some(node.data)
            },
            None => None,
        }
    }

    /// Whether `node_a` and `node_b` are connected.
    pub fn connected(&self, node_a: CoordPair, node_b: CoordPair) -> (r: bool)
        ensures
            r == self.edge_seq().contains(normalized(node_a, node_b)),
    {
        let edge = normalize_edge(node_a, node_b);
        let mut i: usize = 0;
        while i < self.edges.len()
            invariant
                i <= self.edges@.len(),
                edge == normalized(node_a, node_b),
                forall|j: int| 0 <= j < i ==> self.edges@[j] != edge,
            decreases self.edges@.len() - i,
        {
            if same_point(self.edges[i].0, edge.0) && same_point(self.edges[i].1, edge.1) {
                assert(self.edges@[i as int] == edge);
                return true;
            }
            i += 1;
        }
        false
    }

    /// Connects `node_a` and `node_b`, unless they are connected already;
    /// gives back whether they were.
    pub fn connect(&mut self, node_a: CoordPair, node_b: CoordPair) -> (r: bool)
        ensures
            r == old(self).edge_seq().contains(normalized(node_a, node_b)),
            final(self).node_seq() == old(self).node_seq(),
            final(self).edge_seq() == if r {
                old(self).edge_seq()
            } else {
                old(self).edge_seq().push(normalized(node_a, node_b))
            },
    {
        let connected = self.connected(node_a, node_b);
        if !connected {
            let edge = normalize_edge(node_a, node_b);
            self.edges.push(edge);
        }
        connected
    }

    /// Removes the edges for which `filter_out` gives true, keeping the others
    /// in order; gives back how many it removed.
    pub fn remove_edges<F>(&mut self, filter_out: F) -> (r: usize) where F: Fn(CoordPair, CoordPair) -> bool
        requires
            forall|a: CoordPair, b: CoordPair| call_requires(filter_out, (a, b)),
        ensures
            final(self).node_seq() == old(self).node_seq(),
            exists|verdicts: Seq<bool>| {
                &&& verdicts.len() == old(self).edge_seq().len()
                &&& forall|i: int| 0 <= i < verdicts.len() ==> call_ensures(
                    filter_out,
                    (old(self).edge_seq()[i].0, old(self).edge_seq()[i].1),
                    #[trigger] verdicts[i],
                )
                &&& final(self).edge_seq() == kept(old(self).edge_seq(), verdicts)
                &&& r == removed_count(verdicts)
            },
    {
        let ghost old_edges = self.edges@;
        let mut kept_edges: Vec<(CoordPair, CoordPair)> = Vec::new();
        let mut count: usize = 0;
        let ghost mut verdicts: Seq<bool> = Seq::empty();
        let mut i: usize = 0;
        while i < self.edges.len()
            invariant
                i <= self.edges@.len(),
                self.edges@ == old_edges,
                forall|a: CoordPair, b: CoordPair| call_requires(filter_out, (a, b)),
                verdicts.len() == i,
                forall|j: int| 0 <= j < i ==> call_ensures(filter_out, (old_edges[j].0, old_edges[j].1), #[trigger] verdicts[j]),
                kept_edges@ == kept(old_edges.take(i as int), verdicts),
                count == removed_count(verdicts),
                count <= i,
            decreases self.edges@.len() - i,
        {
            let edge = self.edges[i];
            let out = filter_out(edge.0, edge.1);
            proof {
                let t = old_edges.take(i + 1);
                assert(t.drop_last() =~= old_edges.take(i as int));
                assert(verdicts.push(out).drop_last() =~= verdicts);
                verdicts = verdicts.push(out);
            }
            if out {
                count = count + 1;
            } else {
                kept_edges.push(edge);
            }
            i += 1;
        }
        proof {
            assert(old_edges.take(old_edges.len() as int) =~= old_edges);
        }
        self.edges = kept_edges;
        count
    }

    /// Disconnects `node_a` and `node_b`; gives back whether they were connected.
    pub fn disconnect(&mut self, node_a: CoordPair, node_b: CoordPair) -> (r: bool)
        ensures
            final(self).node_seq() == old(self).node_seq(),
            final(self).edge_seq() == kept(
                old(self).edge_seq(),
                Seq::new(old(self).edge_seq().len(), |i: int| old(self).edge_seq()[i] == normalized(node_a, node_b)),
            ),
            r == (removed_count(Seq::new(old(self).edge_seq().len(), |i: int| old(self).edge_seq()[i] == normalized(node_a, node_b))) > 0),
    {
        let (normalized_a, normalized_b) = normalize_edge(node_a, node_b);
        let filter_out = |edge_a: CoordPair, edge_b: CoordPair| -> (out: bool)
            ensures
                out == (normalized_a == edge_a && normalized_b == edge_b),
            { same_point(normalized_a, edge_a) && same_point(normalized_b, edge_b) };
        let ghost e = self.edge_seq();
        let count = self.remove_edges(filter_out);
        proof {
            let verdicts = choose|verdicts: Seq<bool>| {
                &&& verdicts.len() == e.len()
                &&& forall|i: int| 0 <= i < verdicts.len() ==> call_ensures(filter_out, (e[i].0, e[i].1), #[trigger] verdicts[i])
                &&& self.edge_seq() == kept(e, verdicts)
                &&& count == removed_count(verdicts)
            };
            assert(verdicts =~= Seq::new(e.len(), |i: int| e[i] == normalized(node_a, node_b))) by {
                assert forall|i: int| 0 <= i < e.len() implies verdicts[i] == (e[i] == normalized(node_a, node_b)) by {
                    assert(call_ensures(filter_out, (e[i].0, e[i].1), verdicts[i]));
                }
            }
        }
        count > 0
    }

    /// Removes every edge at `node`; gives back how many.
    pub fn disconnect_node(&mut self, node: CoordPair) -> (r: usize)
        ensures
            final(self).node_seq() == old(self).node_seq(),
            final(self).edge_seq() == kept(
                old(self).edge_seq(),
                Seq::new(old(self).edge_seq().len(), |i: int| old(self).edge_seq()[i].0 == node || old(self).edge_seq()[i].1 == node),
            ),
            r == removed_count(Seq::new(old(self).edge_seq().len(), |i: int| old(self).edge_seq()[i].0 == node || old(self).edge_seq()[i].1 == node)),
    {
        let filter_out = |node_a: CoordPair, node_b: CoordPair| -> (out: bool)
            ensures
                out == (node_a == node || node_b == node),
            { same_point(node_a, node) || same_point(node_b, node) };
        let ghost e = self.edge_seq();
        let count = self.remove_edges(filter_out);
        proof {
            let verdicts = choose|verdicts: Seq<bool>| {
                &&& verdicts.len() == e.len()
                &&& forall|i: int| 0 <= i < verdicts.len() ==> call_ensures(filter_out, (e[i].0, e[i].1), #[trigger] verdicts[i])
                &&& self.edge_seq() == kept(e, verdicts)
                &&& count == removed_count(verdicts)
            };
            assert(verdicts =~= Seq::new(e.len(), |i: int| e[i].0 == node || e[i].1 == node)) by {
                assert forall|i: int| 0 <= i < e.len() implies verdicts[i] == (e[i].0 == node || e[i].1 == node) by {
                    assert(call_ensures(filter_out, (e[i].0, e[i].1), verdicts[i]));
                }
            }
        }
        count
    }

    /// The nodes, in the order of insertion.
    pub fn nodes(&self) -> (r: &[SmallNode<T>])
        ensures
            r@ == self.node_seq(),
    {
        self.nodes.as_slice()
    }

    /// The edges, in the order of connection.
    pub fn edges(&self) -> (r: Vec<(CoordPair, CoordPair)>)
        ensures
            r@ == self.edge_seq(),
    {
        let mut r: Vec<(CoordPair, CoordPair)> = Vec::new();
        let mut i: usize = 0;
        while i < self.edges.len()
            invariant
                i <= self.edges@.len(),
                r@ == self.edges@.take(i as int),
            decreases self.edges@.len() - i,
        {
            r.push(self.edges[i]);
            assert(self.edges@.take(i + 1) =~= self.edges@.take(i as int).push(self.edges@[i as int]));
            i += 1;
        }
        assert(self.edges@.take(self.edges@.len() as int) =~= self.edges@);
        r
    }

    /// The other end of every edge at `location`, in the order of connection.
    pub fn node_edges(&self, location: CoordPair) -> (r: Vec<CoordPair>)
        ensures
            r@ == other_ends(self.edge_seq(), location),
    {
        let mut r: Vec<CoordPair> = Vec::new();
        let mut i: usize = 0;
        while i < self.edges.len()
            invariant
                i <= self.edges@.len(),
                r@ == other_ends(self.edges@.take(i as int), location),
            decreases self.edges@.len() - i,
        {
            let (node_a, node_b) = self.edges[i];
            proof {
                assert(self.edges@.take(i + 1).drop_last() =~= self.edges@.take(i as int));
            }
            if same_point(node_a, location) {
                r.push(node_b);
            } else if same_point(node_b, location) {
                r.push(node_a);
            }
            i += 1;
        }
        assert(self.edges@.take(self.edges@.len() as int) =~= self.edges@);
        r
    }
}

/// The other end of every edge of `edges` at `location`, in order.
pub open spec fn other_ends(edges: Seq<(CoordPair, CoordPair)>, location: CoordPair) -> Seq<CoordPair>
    decreases edges.len(),
{
    if edges.len() == 0 {
        Seq::empty()
    } else {
        let rest = other_ends(edges.drop_last(), location);
        let last = edges.last();
        if last.0 == location {
            rest.push(last.1)
        } else if last.1 == location {
            rest.push(last.0)
        } else {
            rest
        }
    }
}

impl<T> SmallNode<T> {
    /// A node at `location` holding `data`, in specifications.
    pub closed spec fn new_spec(location: CoordPair, data: T) -> SmallNode<T> {
        SmallNode { location, data }
    }
}

impl<T> Default for SmallGraph<T> {
    fn default() -> (r: SmallGraph<T>)
        ensures
            r.wf(),
            r.node_seq() == Seq::<SmallNode<T>>::empty(),
            r.edge_seq() == Seq::<(CoordPair, CoordPair)>::empty(),
    {
        SmallGraph::new()
    }
}

} // verus!
