//! An adjacency list representation of a graph.
use std::marker::PhantomData;
use vstd::prelude::*;

use crate::graph_base::{
    at_count, from_count, to_count, Edge, EdgeInd, GraphBase, GraphError, GraphType, NodeInd,
};

verus! {

broadcast use vstd::seq_lib::group_to_multiset_ensures;

/// Adjacency list representation of a graph. N and E are the node and edge
/// payload types.
///
/// Node handles are the positions in `nodes`, edge handles the positions in
/// `edges`; a removed edge leaves `None` behind, so handles are never reused.
#[derive(Debug, PartialEq)]
pub struct ALGraph<N, E, Ty: GraphType> {
    /// The node data.
    nodes: Vec<N>,
    /// The edge records; `None` where an edge was removed.
    edges: Vec<Option<Edge<E>>>,
    /// For each node, the edges listed from it: those it starts, and for an
    /// undirected graph also those it ends.
    adj: Vec<Vec<EdgeInd>>,
    ty: PhantomData<Ty>,
}

/// The edges of a table, by handle.
pub open spec fn edge_table_map<E>(t: Seq<Option<Edge<E>>>) -> Map<EdgeInd, Edge<E>> {
    Map::new(|e: EdgeInd| e < t.len() && t[e as int] is Some, |e: EdgeInd| t[e as int]->0)
}

/// Copies a list of edge handles.
fn copy_list(v: &Vec<EdgeInd>) -> (r: Vec<EdgeInd>)
    ensures
        r@ == v@,
{
    let mut r: Vec<EdgeInd> = Vec::new();
    let mut i: usize = 0;
    while i < v.len()
        invariant
            i <= v@.len(),
            r@ == v@.subrange(0, i as int),
        decreases v@.len() - i,
    {
        r.push(v[i]);
        i = i + 1;
        assert(r@ =~= v@.subrange(0, i as int));
    }
    assert(r@ =~= v@);
    r
}

/// Finds a position of `x` in `v`.
fn position_of(v: &Vec<EdgeInd>, x: EdgeInd) -> (r: usize)
    requires
        v@.contains(x),
    ensures
        r < v@.len(),
        v@[r as int] == x,
{
    let mut i: usize = 0;
    while i < v.len()
        invariant
            i <= v@.len(),
            v@.contains(x),
            forall|k: int| 0 <= k < i ==> v@[k] != x,
        decreases v@.len() - i,
    {
        if v[i] == x {
            return i;
        }
        i = i + 1;
    }
    i
}

impl<N, E, Ty: GraphType> ALGraph<N, E, Ty> {
    /// An empty graph.
    pub fn new() -> (r: Self)
        ensures
            r.well_formed(),
            r.node_map() == Map::<NodeInd, N>::empty(),
            r.edge_map() == Map::<EdgeInd, Edge<E>>::empty(),
            r.next_edge() == 0,
    {
        let r = ALGraph { nodes: Vec::new(), edges: Vec::new(), adj: Vec::new(), ty: PhantomData };
        assert(r.node_map() =~= Map::<NodeInd, N>::empty());
        assert(r.edge_map() =~= Map::<EdgeInd, Edge<E>>::empty());
        r
    }

    /// The edges that touch `n` in the edge table (once each), or only those
    /// that end at `n` when `incoming` holds.
    fn scan_edges(&self, n: NodeInd, incoming: bool) -> (r: Vec<EdgeInd>)
        requires
            self.well_formed(),
        ensures
            forall|e: EdgeInd| #[trigger] r@.to_multiset().count(e) == (
                if incoming { to_count(self.edge_map(), true, n, e) }
                else { at_count(self.edge_map(), true, n, e) }),
    {
        let mut r: Vec<EdgeInd> = Vec::new();
        let mut i: usize = 0;
        while i < self.edges.len()
            invariant
                self.well_formed(),
                i <= self.edges@.len(),
                forall|e: EdgeInd| #[trigger] r@.to_multiset().count(e) == (
                    if e < i && (if incoming { to_count(self.edge_map(), true, n, e) }
                        else { at_count(self.edge_map(), true, n, e) }) == 1 { 1nat } else { 0nat }),
            decreases self.edges@.len() - i,
        {
            let ghost old_r = r@;
            match &self.edges[i] {
                Some(ed) => {
                    if ed.end == n || (!incoming && ed.start == n) {
                        r.push(i);
                    }
                }
                None => {}
            }
            i = i + 1;
            assert forall|e: EdgeInd| #[trigger] r@.to_multiset().count(e) == (
                if e < i && (if incoming { to_count(self.edge_map(), true, n, e) }
                    else { at_count(self.edge_map(), true, n, e) }) == 1 { 1nat } else { 0nat }) by {
                assert(old_r.to_multiset().count(e) == (
                    if e < i - 1 && (if incoming { to_count(self.edge_map(), true, n, e) }
                        else { at_count(self.edge_map(), true, n, e) }) == 1 { 1nat } else { 0nat }));
            }
        }
        r
    }
}

impl<N: Clone, E: Clone, Ty: GraphType> Clone for ALGraph<N, E, Ty> {
    fn clone(&self) -> (r: Self) {
        ALGraph {
            nodes: self.nodes.clone(),
            edges: self.edges.clone(),
            adj: self.adj.clone(),
            ty: PhantomData,
        }
    }
}

impl<N, E, Ty: GraphType> GraphBase<N, E, Ty> for ALGraph<N, E, Ty> {
    closed spec fn node_map(&self) -> Map<NodeInd, N> {
        Map::new(|n: NodeInd| n < self.nodes@.len(), |n: NodeInd| self.nodes@[n as int])
    }

    closed spec fn edge_map(&self) -> Map<EdgeInd, Edge<E>> {
        edge_table_map(self.edges@)
    }

    closed spec fn next_edge(&self) -> nat {
        self.edges@.len()
    }

    proof fn lemma_edges_consistent(&self) {
        assert forall|e: EdgeInd| #[trigger] self.edge_map().contains_key(e) implies {
            &&& e < self.next_edge()
            &&& self.edge_map()[e].index == e
            &&& self.node_map().contains_key(self.edge_map()[e].start)
            &&& self.node_map().contains_key(self.edge_map()[e].end)
        } by {
            assert(self.edges@[e as int] is Some);
        }
    }

    closed spec fn well_formed(&self) -> bool {
        &&& self.adj@.len() == self.nodes@.len()
        &&& self.node_map().dom().finite()
        &&& self.node_map().dom().len() == self.nodes@.len()
        &&& forall|e: int| 0 <= e < self.edges@.len() && #[trigger] self.edges@[e] is Some ==> {
            let ed = self.edges@[e]->0;
            &&& ed.index == e
            &&& ed.start < self.nodes@.len()
            &&& ed.end < self.nodes@.len()
        }
        &&& forall|n: int, e: EdgeInd| 0 <= n < self.adj@.len() ==>
            #[trigger] self.adj@[n]@.to_multiset().count(e)
                == from_count(self.edge_map(), Ty::spec_is_directed(), n as NodeInd, e)
    }

    fn node(&self, n: &NodeInd) -> (r: Result<&N, GraphError>) {
        if *n < self.nodes.len() {
            Ok(&self.nodes[*n])
        } else {
            Err(GraphError::NotFound)
        }
    }

    fn edge(&self, e: &EdgeInd) -> (r: Result<&Edge<E>, GraphError>) {
        if *e < self.edges.len() {
            match &self.edges[*e] {
                Some(ed) => Ok(ed),
                None => Err(GraphError::NotFound),
            }
        } else {
            Err(GraphError::NotFound)
        }
    }

    fn node_mut(&mut self, n: &NodeInd) -> (r: Result<&mut N, GraphError>) {
        if *n < self.nodes.len() {
            Ok(&mut self.nodes[*n])
        } else {
            Err(GraphError::NotFound)
        }
    }

    fn edge_mut(&mut self, e: &EdgeInd) -> (r: Result<&mut E, GraphError>) {
        if *e < self.edges.len() {
            match &mut self.edges[*e] {
                Some(ed) => Ok(&mut ed.data),
                None => Err(GraphError::NotFound),
            }
        } else {
            Err(GraphError::NotFound)
        }
    }

    fn edge_endpoints(&self, e: &EdgeInd) -> (r: Result<(NodeInd, NodeInd), GraphError>) {
        match self.edge(e) {
            Ok(ed) => Ok((ed.start, ed.end)),
            Err(err) => Err(err),
        }
    }

    fn add_node(&mut self, data: N) -> (r: NodeInd) {
        let idx = self.nodes.len();
        self.nodes.push(data);
        self.adj.push(Vec::new());
        proof {
            assert(self.node_map() =~= old(self).node_map().insert(idx, data));
            assert(self.edge_map() =~= old(self).edge_map());
            assert forall|n: int, e: EdgeInd| 0 <= n < self.adj@.len() implies
                #[trigger] self.adj@[n]@.to_multiset().count(e)
                    == from_count(self.edge_map(), Ty::spec_is_directed(), n as NodeInd, e) by {
                if n == idx {
                    assert(self.adj@[n]@ =~= Seq::<EdgeInd>::empty());
                    if self.edge_map().contains_key(e) {
                        assert(old(self).edges@[e as int] is Some);
                    }
                }
            }
        }
        idx
    }

    fn add_edge(&mut self, start: &NodeInd, end: &NodeInd, data: E) -> (r: Result<EdgeInd, GraphError>) {
        if *start >= self.nodes.len() || *end >= self.nodes.len() {
            return Err(GraphError::NotFound);
        }
        let idx = self.edges.len();
        let directed = Ty::is_directed();
        let ghost ed = Edge { start: *start, end: *end, index: idx, data };
        self.edges.push(Some(Edge { start: *start, end: *end, index: idx, data }));
        proof {
            assert(self.edge_map() =~= old(self).edge_map().insert(idx, ed));
        }
        self.adj[*start].push(idx);
        if !directed {
            self.adj[*end].push(idx);
        }
        proof {
            assert(self.node_map() =~= old(self).node_map());
            assert forall|n: int, e: EdgeInd| 0 <= n < self.adj@.len() implies
                #[trigger] self.adj@[n]@.to_multiset().count(e)
                    == from_count(self.edge_map(), Ty::spec_is_directed(), n as NodeInd, e) by {
                assert(old(self).adj@[n]@.to_multiset().count(e)
                    == from_count(old(self).edge_map(), Ty::spec_is_directed(), n as NodeInd, e));
                if e == idx {
                    assert(!old(self).edge_map().contains_key(e));
                }
            }
        }
        Ok(idx)
    }

    fn remove_edge(&mut self, e: &EdgeInd) -> (r: Result<Edge<E>, GraphError>) {
        if *e >= self.edges.len() {
            return Err(GraphError::NotFound);
        }
        if self.edges[*e].is_none() {
            return Err(GraphError::NotFound);
        }
        let directed = Ty::is_directed();
        let mut slot: Option<Edge<E>> = None;
        std::mem::swap(&mut self.edges[*e], &mut slot);
        let ed = match slot {
            Some(ed) => ed,
            None => { return Err(GraphError::NotFound); },
        };
        proof {
            assert(self.edge_map() =~= old(self).edge_map().remove(*e));
            assert(old(self).adj@[ed.start as int]@.to_multiset().count(*e) > 0);
        }
        let ghost a0 = self.adj@;
        let p = position_of(&self.adj[ed.start], *e);
        self.adj[ed.start].remove(p);
        let ghost a1 = self.adj@;
        proof {
            assert(forall|k: int| 0 <= k < a0.len() && k != ed.start as int ==> a1[k] == a0[k]);
            assert(a1[ed.start as int]@ == a0[ed.start as int]@.remove(p as int));
            assert(a1[ed.start as int]@.to_multiset() =~= a0[ed.start as int]@.to_multiset().remove(*e));
        }
        if !directed {
            proof {
                assert(old(self).adj@[ed.end as int]@.to_multiset().count(*e) > 0);
                assert(self.adj@[ed.end as int]@.to_multiset().count(*e) > 0);
            }
            let q = position_of(&self.adj[ed.end], *e);
            self.adj[ed.end].remove(q);
            proof {
                assert(forall|k: int| 0 <= k < a1.len() && k != ed.end as int ==> self.adj@[k] == a1[k]);
                assert(self.adj@[ed.end as int]@ == a1[ed.end as int]@.remove(q as int));
                assert(self.adj@[ed.end as int]@.to_multiset() =~= a1[ed.end as int]@.to_multiset().remove(*e));
            }
        }
        proof {
            assert(self.node_map() =~= old(self).node_map());
            assert forall|n: int, x: EdgeInd| 0 <= n < self.adj@.len() implies
                #[trigger] self.adj@[n]@.to_multiset().count(x)
                    == from_count(self.edge_map(), Ty::spec_is_directed(), n as NodeInd, x) by {
                assert(old(self).adj@[n]@.to_multiset().count(x)
                    == from_count(old(self).edge_map(), Ty::spec_is_directed(), n as NodeInd, x));
                assert(a0[n] == old(self).adj@[n]);
                if x == *e {
                    assert(old(self).edge_map()[x] == ed);
                }
                if directed {
                    assert(self.adj@ == a1);
                }
                if n != ed.start as int {
                    assert(a1[n] == a0[n]);
                }
                if directed || n != ed.end as int {
                    assert(self.adj@[n] == a1[n]);
                }
                assert(from_count(self.edge_map(), Ty::spec_is_directed(), n as NodeInd, x) == (
                    if x == *e { 0 } else { from_count(old(self).edge_map(), Ty::spec_is_directed(), n as NodeInd, x) }));
                let removed: nat = (if n == ed.start as int { 1nat } else { 0nat })
                    + (if !directed && n == ed.end as int { 1nat } else { 0nat });
                if x == *e {
                    assert(self.adj@.len() == self.adj.len());
                    assert(from_count(old(self).edge_map(), Ty::spec_is_directed(), n as NodeInd, x) == removed);
                }
                assert(self.adj@[n]@.to_multiset().count(x) == (
                    if x == *e { a0[n]@.to_multiset().count(x) - removed } else { a0[n]@.to_multiset().count(x) as int }));
            }
        }
        Ok(ed)
    }

    fn nodes(&self) -> (r: Vec<NodeInd>) {
        let mut r: Vec<NodeInd> = Vec::new();
        let mut i: usize = 0;
        while i < self.nodes.len()
            invariant
                i <= self.nodes@.len(),
                r@.len() == i,
                forall|k: int| 0 <= k < i ==> #[trigger] r@[k] == k,
            decreases self.nodes@.len() - i,
        {
            r.push(i);
            i = i + 1;
        }
        assert forall|k: usize| r@.contains(k) <==> self.node_map().dom().contains(k) by {
            if k < i {
                assert(r@[k as int] == k);
            }
        }
        r
    }

    fn edges(&self) -> (r: Vec<EdgeInd>) {
        let mut r: Vec<EdgeInd> = Vec::new();
        let mut i: usize = 0;
        while i < self.edges.len()
            invariant
                i <= self.edges@.len(),
                forall|k: int| 0 <= k < r@.len() ==> #[trigger] r@[k] < i && self.edges@[r@[k] as int] is Some,
                forall|a: int, b: int| 0 <= a < b < r@.len() ==> r@[a] < r@[b],
                forall|x: usize| x < i && self.edges@[x as int] is Some ==> r@.contains(x),
            decreases self.edges@.len() - i,
        {
            let ghost old_r = r@;
            if self.edges[i].is_some() {
                r.push(i);
                assert forall|x: usize| x <= i && self.edges@[x as int] is Some implies r@.contains(x) by {
                    if x < i {
                        assert(old_r.contains(x));
                        let j = choose|j: int| 0 <= j < old_r.len() && old_r[j] == x;
                        assert(r@[j] == x);
                    } else {
                        assert(r@[r@.len() - 1] == x);
                    }
                }
            }
            i = i + 1;
        }
        assert(r@.no_duplicates());
        assert forall|k: usize| r@.contains(k) <==> self.edge_map().dom().contains(k) by {
            if r@.contains(k) {
                let j = choose|j: int| 0 <= j < r@.len() && r@[j] == k;
                assert(self.edges@[r@[j] as int] is Some);
            }
        }
        r
    }

    fn edges_from(&self, n: &NodeInd) -> (r: Result<Vec<EdgeInd>, GraphError>) {
        if *n >= self.nodes.len() {
            return Err(GraphError::NotFound);
        }
        let v = copy_list(&self.adj[*n]);
        proof {
            assert forall|e: EdgeInd| #[trigger] v@.to_multiset().count(e)
                == from_count(self.edge_map(), Ty::spec_is_directed(), *n, e) by {
                assert(self.adj@[*n as int]@.to_multiset().count(e)
                    == from_count(self.edge_map(), Ty::spec_is_directed(), *n, e));
            }
        }
        Ok(v)
    }

    fn edges_to(&self, n: &NodeInd) -> (r: Result<Vec<EdgeInd>, GraphError>) {
        if *n >= self.nodes.len() {
            return Err(GraphError::NotFound);
        }
        if Ty::is_directed() {
            Ok(self.scan_edges(*n, true))
        } else {
            self.edges_from(n)
        }
    }

    fn edges_at(&self, n: &NodeInd) -> (r: Result<Vec<EdgeInd>, GraphError>) {
        if *n >= self.nodes.len() {
            return Err(GraphError::NotFound);
        }
        if Ty::is_directed() {
            Ok(self.scan_edges(*n, false))
        } else {
            self.edges_from(n)
        }
    }
}

} // verus!
