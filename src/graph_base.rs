//! The graph contract: handles, edges, the directedness tag and the
//! operations that every graph representation offers.
use vstd::prelude::*;

verus! {

/// Handle of a node.
pub type NodeInd = usize;

/// Handle of an edge.
pub type EdgeInd = usize;

/// An edge record: its endpoints, its own handle and its payload.
#[derive(Clone, Debug, PartialEq)]
pub struct Edge<E> {
    pub start: NodeInd,
    pub end: NodeInd,
    pub index: EdgeInd,
    pub data: E,
}

/// The single failure of the graph operations: a handle names no live entry.
#[derive(Clone, Copy, Debug, PartialEq, Eq, Structural)]
pub enum GraphError {
    NotFound,
}

/// Type of graph.
pub trait GraphType {
    spec fn spec_is_directed() -> bool;

    /// Whether this type is directed or not.
    fn is_directed() -> (r: bool)
        ensures
            r == Self::spec_is_directed(),
    ;
}

/// A directed graph. The type is only a tag; its one value carries nothing.
#[derive(Clone, Copy, Debug, PartialEq, Eq)]
pub enum Directed {
    Tag,
}

impl GraphType for Directed {
    open spec fn spec_is_directed() -> bool {
        true
    }

    fn is_directed() -> (r: bool) {
        true
    }
}

/// An undirected graph. The type is only a tag; its one value carries nothing.
#[derive(Clone, Copy, Debug, PartialEq, Eq)]
pub enum Undirected {
    Tag,
}

impl GraphType for Undirected {
    open spec fn spec_is_directed() -> bool {
        false
    }

    fn is_directed() -> (r: bool) {
        false
    }
}

/// How many times `n` is an endpoint of `ed` (2 for a self-loop on `n`).
pub open spec fn ends_at<E>(ed: Edge<E>, n: NodeInd) -> nat {
    (if ed.start == n { 1nat } else { 0nat }) + (if ed.end == n { 1nat } else { 0nat })
}

/// How many times edge `e` is listed among the edges from `n`.
pub open spec fn from_count<E>(m: Map<EdgeInd, Edge<E>>, directed: bool, n: NodeInd, e: EdgeInd) -> nat {
    if !m.contains_key(e) {
        0
    } else if directed {
        if m[e].start == n { 1 } else { 0 }
    } else {
        ends_at(m[e], n)
    }
}

/// How many times edge `e` is listed among the edges to `n`.
pub open spec fn to_count<E>(m: Map<EdgeInd, Edge<E>>, directed: bool, n: NodeInd, e: EdgeInd) -> nat {
    if !m.contains_key(e) {
        0
    } else if directed {
        if m[e].end == n { 1 } else { 0 }
    } else {
        ends_at(m[e], n)
    }
}

/// How many times edge `e` is listed among the edges at `n`: once if it
/// touches `n` in a directed graph, once per endpoint in an undirected one.
pub open spec fn at_count<E>(m: Map<EdgeInd, Edge<E>>, directed: bool, n: NodeInd, e: EdgeInd) -> nat {
    if !m.contains_key(e) {
        0
    } else if directed {
        if m[e].start == n || m[e].end == n { 1 } else { 0 }
    } else {
        ends_at(m[e], n)
    }
}

/// The endpoint of `ed` seen from `n`: the end if `n` is the start, else the start.
pub open spec fn other_end<E>(ed: Edge<E>, n: NodeInd) -> NodeInd {
    if ed.start == n { ed.end } else { ed.start }
}

/// `r` lists the far endpoint of each edge of `s`, in order, and `s` lists the
/// edges from `n`, each as many times as `from_count` says.
pub open spec fn neighbors_via<E>(
    m: Map<EdgeInd, Edge<E>>,
    directed: bool,
    n: NodeInd,
    s: Seq<EdgeInd>,
    r: Seq<NodeInd>,
) -> bool {
    &&& forall|e: EdgeInd| s.to_multiset().count(e) == from_count(m, directed, n, e)
    &&& s.len() == r.len()
    &&& forall|i: int| 0 <= i < s.len() ==> m.contains_key(#[trigger] s[i]) && r[i] == other_end(m[s[i]], n)
}

/// `r` lists the far endpoint of each edge from `n`, one entry per listing
/// of the edge, in some order.
pub open spec fn is_neighbor_list<E>(m: Map<EdgeInd, Edge<E>>, directed: bool, n: NodeInd, r: Seq<NodeInd>) -> bool {
    exists|s: Seq<EdgeInd>| #[trigger] neighbors_via(m, directed, n, s, r)
}

/// A handle sequence that lists each key of `d` exactly once and nothing else.
pub open spec fn lists_once(r: Seq<usize>, d: Set<usize>) -> bool {
    &&& r.no_duplicates()
    &&& forall|k: usize| r.contains(k) <==> d.contains(k)
}

/// Graph base trait. N is the node data, E is the edge data. Ty is the type of graph.
pub trait GraphBase<N, E, Ty: GraphType> {
    /// The live nodes, by handle.
    spec fn node_map(&self) -> Map<NodeInd, N>;

    /// The live edges, by handle.
    spec fn edge_map(&self) -> Map<EdgeInd, Edge<E>>;

    /// The representation's internal consistency.
    spec fn well_formed(&self) -> bool;

    /// The handle that the next added edge gets. Edge handles come from this
    /// counter, which only grows, so a removed edge's handle never returns.
    spec fn next_edge(&self) -> nat;

    /// What holds of every well-formed graph: each live edge has a handle
    /// below the counter, knows its own handle, and joins two live nodes.
    proof fn lemma_edges_consistent(&self)
        requires
            self.well_formed(),
        ensures
            forall|e: EdgeInd| #[trigger] self.edge_map().contains_key(e) ==> {
                &&& e < self.next_edge()
                &&& self.edge_map()[e].index == e
                &&& self.node_map().contains_key(self.edge_map()[e].start)
                &&& self.node_map().contains_key(self.edge_map()[e].end)
            },
    ;

    /// Get the data for a specific node.
    fn node(&self, n: &NodeInd) -> (r: Result<&N, GraphError>)
        requires
            self.well_formed(),
        ensures
            match r {
                Ok(d) => self.node_map().contains_key(*n) && *d == self.node_map()[*n],
                Err(err) => !self.node_map().contains_key(*n) && err == GraphError::NotFound,
            },
    ;

    /// Get a specific edge.
    fn edge(&self, e: &EdgeInd) -> (r: Result<&Edge<E>, GraphError>)
        requires
            self.well_formed(),
        ensures
            match r {
                Ok(ed) => self.edge_map().contains_key(*e) && *ed == self.edge_map()[*e],
                Err(err) => !self.edge_map().contains_key(*e) && err == GraphError::NotFound,
            },
    ;

    /// Get the data for a specific node mutably. Whatever is written through
    /// the reference becomes the node's data; nothing else changes.
    fn node_mut(&mut self, n: &NodeInd) -> (r: Result<&mut N, GraphError>)
        requires
            old(self).well_formed(),
        ensures
            match r {
                Ok(d) => {
                    &&& old(self).node_map().contains_key(*n)
                    &&& *d == old(self).node_map()[*n]
                    &&& final(self).well_formed()
                    &&& final(self).node_map() == old(self).node_map().insert(*n, *final(d))
                    &&& final(self).edge_map() == old(self).edge_map()
                    &&& final(self).next_edge() == old(self).next_edge()
                },
                Err(err) => {
                    &&& !old(self).node_map().contains_key(*n)
                    &&& err == GraphError::NotFound
                    &&& final(self).well_formed()
                    &&& final(self).node_map() == old(self).node_map()
                    &&& final(self).edge_map() == old(self).edge_map()
                    &&& final(self).next_edge() == old(self).next_edge()
                },
            },
    ;

    /// Get the payload of a specific edge mutably. Whatever is written
    /// through the reference becomes the edge's data; its endpoints and
    /// handle cannot be changed this way.
    fn edge_mut(&mut self, e: &EdgeInd) -> (r: Result<&mut E, GraphError>)
        requires
            old(self).well_formed(),
        ensures
            match r {
                Ok(d) => {
                    &&& old(self).edge_map().contains_key(*e)
                    &&& *d == old(self).edge_map()[*e].data
                    &&& final(self).well_formed()
                    &&& final(self).node_map() == old(self).node_map()
                    &&& final(self).edge_map() == old(self).edge_map().insert(
                        *e,
                        (Edge { data: *final(d), ..old(self).edge_map()[*e] }),
                    )
                    &&& final(self).next_edge() == old(self).next_edge()
                },
                Err(err) => {
                    &&& !old(self).edge_map().contains_key(*e)
                    &&& err == GraphError::NotFound
                    &&& final(self).well_formed()
                    &&& final(self).node_map() == old(self).node_map()
                    &&& final(self).edge_map() == old(self).edge_map()
                    &&& final(self).next_edge() == old(self).next_edge()
                },
            },
    ;

    /// Add a node with given data. Returns the new handle.
    fn add_node(&mut self, data: N) -> (r: NodeInd)
        requires
            old(self).well_formed(),
        ensures
            final(self).well_formed(),
            !old(self).node_map().contains_key(r),
            final(self).node_map() == old(self).node_map().insert(r, data),
            final(self).edge_map() == old(self).edge_map(),
            final(self).next_edge() == old(self).next_edge(),
            r == old(self).node_map().dom().len(),
            forall|k: NodeInd| old(self).node_map().contains_key(k) <==> k < r,
    ;

    /// Adds an edge with the given data, connecting the two nodes. Returns the
    /// handle of that edge.
    fn add_edge(&mut self, start: &NodeInd, end: &NodeInd, data: E) -> (r: Result<EdgeInd, GraphError>)
        requires
            old(self).well_formed(),
        ensures
            final(self).well_formed(),
            final(self).node_map() == old(self).node_map(),
            match r {
                Ok(idx) => {
                    &&& old(self).node_map().contains_key(*start)
                    &&& old(self).node_map().contains_key(*end)
                    &&& !old(self).edge_map().contains_key(idx)
                    &&& idx == old(self).next_edge()
                    &&& final(self).next_edge() == idx + 1
                    &&& final(self).edge_map() == old(self).edge_map().insert(
                        idx,
                        (Edge { start: *start, end: *end, index: idx, data }),
                    )
                },
                Err(err) => {
                    &&& !(old(self).node_map().contains_key(*start) && old(self).node_map().contains_key(*end))
                    &&& err == GraphError::NotFound
                    &&& final(self).edge_map() == old(self).edge_map()
                    &&& final(self).next_edge() == old(self).next_edge()
                },
            },
    ;

    /// Removes the edge with the given handle, and returns it.
    fn remove_edge(&mut self, e: &EdgeInd) -> (r: Result<Edge<E>, GraphError>)
        requires
            old(self).well_formed(),
        ensures
            final(self).well_formed(),
            final(self).node_map() == old(self).node_map(),
            match r {
                Ok(ed) => {
                    &&& old(self).edge_map().contains_key(*e)
                    &&& ed == old(self).edge_map()[*e]
                    &&& final(self).edge_map() == old(self).edge_map().remove(*e)
                    &&& final(self).next_edge() == old(self).next_edge()
                },
                Err(err) => {
                    &&& !old(self).edge_map().contains_key(*e)
                    &&& err == GraphError::NotFound
                    &&& final(self).edge_map() == old(self).edge_map()
                    &&& final(self).next_edge() == old(self).next_edge()
                },
            },
    ;

    /// Gets all of the nodes.
    fn nodes(&self) -> (r: Vec<NodeInd>)
        requires
            self.well_formed(),
        ensures
            lists_once(r@, self.node_map().dom()),
    ;

    /// Gets all of the edges.
    fn edges(&self) -> (r: Vec<EdgeInd>)
        requires
            self.well_formed(),
        ensures
            lists_once(r@, self.edge_map().dom()),
    ;

    /// Gets the edges from a node: for undirected graphs all edges incident on
    /// the node, for directed graphs only those going out of it.
    fn edges_from(&self, n: &NodeInd) -> (r: Result<Vec<EdgeInd>, GraphError>)
        requires
            self.well_formed(),
        ensures
            match r {
                Ok(v) => self.node_map().contains_key(*n) && forall|e: EdgeInd|
                    #[trigger] v@.to_multiset().count(e) == from_count(self.edge_map(), Ty::spec_is_directed(), *n, e),
                Err(err) => !self.node_map().contains_key(*n) && err == GraphError::NotFound,
            },
    ;

    /// Gets the edges to a node: for undirected graphs all edges incident on
    /// the node, for directed graphs only those coming into it.
    fn edges_to(&self, n: &NodeInd) -> (r: Result<Vec<EdgeInd>, GraphError>)
        requires
            self.well_formed(),
        ensures
            match r {
                Ok(v) => self.node_map().contains_key(*n) && forall|e: EdgeInd|
                    #[trigger] v@.to_multiset().count(e) == to_count(self.edge_map(), Ty::spec_is_directed(), *n, e),
                Err(err) => !self.node_map().contains_key(*n) && err == GraphError::NotFound,
            },
    ;

    /// Gets the edges at a node: for undirected graphs all edges incident on
    /// the node, for directed graphs those going out of it or coming into it,
    /// each once.
    fn edges_at(&self, n: &NodeInd) -> (r: Result<Vec<EdgeInd>, GraphError>)
        requires
            self.well_formed(),
        ensures
            match r {
                Ok(v) => self.node_map().contains_key(*n) && forall|e: EdgeInd|
                    #[trigger] v@.to_multiset().count(e) == at_count(self.edge_map(), Ty::spec_is_directed(), *n, e),
                Err(err) => !self.node_map().contains_key(*n) && err == GraphError::NotFound,
            },
    ;

    /// Get the nodes connected by the edge as a tuple (start, end).
    fn edge_endpoints(&self, e: &EdgeInd) -> (r: Result<(NodeInd, NodeInd), GraphError>)
        requires
            self.well_formed(),
        ensures
            match r {
                Ok(p) => self.edge_map().contains_key(*e) && p == (self.edge_map()[*e].start, self.edge_map()[*e].end),
                Err(err) => !self.edge_map().contains_key(*e) && err == GraphError::NotFound,
            },
    ;

    /// Get the start of an edge.
    fn edge_start(&self, e: &EdgeInd) -> (r: Result<NodeInd, GraphError>)
        requires
            self.well_formed(),
        ensures
            match r {
                Ok(s) => self.edge_map().contains_key(*e) && s == self.edge_map()[*e].start,
                Err(err) => !self.edge_map().contains_key(*e) && err == GraphError::NotFound,
            },
    {
        match self.edge_endpoints(e) {
            Ok(p) => Ok(p.0),
            Err(err) => Err(err),
        }
    }

    /// Get the end of an edge.
    fn edge_end(&self, e: &EdgeInd) -> (r: Result<NodeInd, GraphError>)
        requires
            self.well_formed(),
        ensures
            match r {
                Ok(t) => self.edge_map().contains_key(*e) && t == self.edge_map()[*e].end,
                Err(err) => !self.edge_map().contains_key(*e) && err == GraphError::NotFound,
            },
    {
        match self.edge_endpoints(e) {
            Ok(p) => Ok(p.1),
            Err(err) => Err(err),
        }
    }

    /// Whether the graph is directed.
    fn is_directed(&self) -> (r: bool)
        ensures
            r == Ty::spec_is_directed(),
    {
        Ty::is_directed()
    }

    /// Gets the nodes that the given node has an edge going towards, if
    /// directed, or any node connected by an edge if undirected; one entry
    /// per edge (a self-loop on an undirected graph gives the node twice).
    fn neighbors(&self, n: &NodeInd) -> (r: Result<Vec<NodeInd>, GraphError>)
        requires
            self.well_formed(),
        ensures
            match r {
                Ok(v) => self.node_map().contains_key(*n) && is_neighbor_list(self.edge_map(), Ty::spec_is_directed(), *n, v@),
                Err(err) => !self.node_map().contains_key(*n) && err == GraphError::NotFound,
            },
    {
        broadcast use vstd::seq_lib::group_to_multiset_ensures;
        let es = match self.edges_from(n) {
            Ok(v) => v,
            Err(err) => { return Err(err); },
        };
        let mut out: Vec<NodeInd> = Vec::new();
        let mut i: usize = 0;
        while i < es.len()
            invariant
                self.well_formed(),
                self.node_map().contains_key(*n),
                i <= es@.len(),
                out@.len() == i,
                forall|e: EdgeInd|
                    #[trigger] es@.to_multiset().count(e) == from_count(self.edge_map(), Ty::spec_is_directed(), *n, e),
                forall|k: int| 0 <= k < i ==> self.edge_map().contains_key(#[trigger] es@[k])
                    && out@[k] == other_end(self.edge_map()[es@[k]], *n),
            decreases es@.len() - i,
        {
            let e = es[i];
            assert(es@[i as int] == e);
            proof {
                es@.to_multiset_ensures();
                assert(es@.contains(e));
                assert(es@.to_multiset().count(e) > 0);
                assert(from_count(self.edge_map(), Ty::spec_is_directed(), *n, e) > 0);
            }
            let p = match self.edge_endpoints(&e) {
                Ok(p) => p,
                Err(err) => { return Err(err); },
            };
            if p.0 == *n {
                out.push(p.1);
            } else {
                out.push(p.0);
            }
            i = i + 1;
        }
        assert(neighbors_via(self.edge_map(), Ty::spec_is_directed(), *n, es@, out@));
        Ok(out)
    }
}

} // verus!
