//! Laws that the graph operations obey, stated over the model that their
//! contracts use: the maps of live nodes and edges, and the listing counts.
use vstd::prelude::*;

use crate::graph_base::{
    at_count, from_count, lists_once, to_count, Edge, EdgeInd, GraphBase, GraphType, NodeInd,
};

verus! {

/// Handles handed out by successive `add_node` calls are pairwise distinct,
/// and each still reads back the data it was added with: `add_node` returns a
/// handle absent from the node map and inserts the data under it, and no
/// operation removes a node.
pub proof fn lemma_add_node_handles_distinct<N>(m: Map<NodeInd, N>, h1: NodeInd, d1: N, h2: NodeInd, d2: N)
    requires
        !m.contains_key(h1),
        !m.insert(h1, d1).contains_key(h2),
    ensures
        h1 != h2,
        m.insert(h1, d1).insert(h2, d2)[h1] == d1,
        m.insert(h1, d1).insert(h2, d2)[h2] == d2,
{
}

/// A handle that names no live node of a well-formed graph is an endpoint of
/// no edge, so no edge is listed from, to or at it. Since `add_node` returns
/// such a handle and leaves the edges alone, a new node has no edges.
pub proof fn lemma_dead_node_unlisted<N, E, Ty: GraphType, G: GraphBase<N, E, Ty>>(
    g: &G,
    n: NodeInd,
    directed: bool,
)
    requires
        g.well_formed(),
        !g.node_map().contains_key(n),
    ensures
        forall|e: EdgeInd| #[trigger] from_count(g.edge_map(), directed, n, e) == 0,
        forall|e: EdgeInd| #[trigger] to_count(g.edge_map(), directed, n, e) == 0,
        forall|e: EdgeInd| #[trigger] at_count(g.edge_map(), directed, n, e) == 0,
{
    g.lemma_edges_consistent();
}

/// On a directed graph, a new edge from `u` to `v` is listed from `u`, to
/// `v`, at both `u` and `v`, and not from `v` unless it is a self-loop.
pub proof fn lemma_directed_new_edge<E>(m: Map<EdgeInd, Edge<E>>, u: NodeInd, v: NodeInd, idx: EdgeInd, d: E)
    requires
        !m.contains_key(idx),
    ensures
        ({
            let m2 = m.insert(idx, Edge { start: u, end: v, index: idx, data: d });
            &&& from_count(m2, true, u, idx) == 1
            &&& to_count(m2, true, v, idx) == 1
            &&& at_count(m2, true, u, idx) == 1
            &&& at_count(m2, true, v, idx) == 1
            &&& u != v ==> from_count(m2, true, v, idx) == 0
        }),
{
}

/// On an undirected graph, a new edge between `u` and `v` is listed from and
/// to each of its endpoints.
pub proof fn lemma_undirected_new_edge<E>(m: Map<EdgeInd, Edge<E>>, u: NodeInd, v: NodeInd, idx: EdgeInd, d: E)
    requires
        !m.contains_key(idx),
    ensures
        ({
            let m2 = m.insert(idx, Edge { start: u, end: v, index: idx, data: d });
            &&& from_count(m2, false, u, idx) >= 1
            &&& from_count(m2, false, v, idx) >= 1
            &&& to_count(m2, false, u, idx) >= 1
            &&& to_count(m2, false, v, idx) >= 1
        }),
{
}

/// An undirected self-loop on `u` is listed twice among the edges from `u`.
pub proof fn lemma_undirected_self_loop<E>(m: Map<EdgeInd, Edge<E>>, u: NodeInd, idx: EdgeInd, d: E)
    requires
        !m.contains_key(idx),
    ensures
        from_count(m.insert(idx, Edge { start: u, end: u, index: idx, data: d }), false, u, idx) == 2,
{
}

/// Removing an edge right after adding it gives back the record that was
/// added, and leaves the handle neither among the edges nor in any listing,
/// whatever the directedness and the node asked about.
pub proof fn lemma_add_then_remove<E>(
    m: Map<EdgeInd, Edge<E>>,
    u: NodeInd,
    v: NodeInd,
    idx: EdgeInd,
    d: E,
    directed: bool,
    n: NodeInd,
)
    requires
        !m.contains_key(idx),
    ensures
        ({
            let ed = Edge { start: u, end: v, index: idx, data: d };
            let m2 = m.insert(idx, ed);
            let m3 = m2.remove(idx);
            &&& m2[idx] == ed
            &&& !m3.dom().contains(idx)
            &&& m3 == m
            &&& from_count(m3, directed, n, idx) == 0
            &&& to_count(m3, directed, n, idx) == 0
            &&& at_count(m3, directed, n, idx) == 0
        }),
{
    let ed = Edge { start: u, end: v, index: idx, data: d };
    assert(m.insert(idx, ed).remove(idx) =~= m);
}

/// Two listings of the same handle set, such as two calls of `nodes()` or of
/// `edges()` with no mutation between them, hold the same handles.
pub proof fn lemma_listings_agree(r1: Seq<usize>, r2: Seq<usize>, d: Set<usize>)
    requires
        lists_once(r1, d),
        lists_once(r2, d),
    ensures
        r1.to_set() == r2.to_set(),
        r1.len() == r2.len(),
{
    assert(r1.to_set() =~= d);
    assert(r2.to_set() =~= d);
    r1.unique_seq_to_set();
    r2.unique_seq_to_set();
}

} // verus!
