use algraph::adj_list_graph::ALGraph;
use algraph::graph_base::{Directed, Edge, GraphBase, GraphError, Undirected};

fn sorted(mut v: Vec<usize>) -> Vec<usize> {
    v.sort();
    v
}

#[test]
fn add_node_handles_distinct_and_readable() {
    let mut g: ALGraph<&str, &str, Directed> = ALGraph::new();
    let a = g.add_node("a");
    let b = g.add_node("b");
    let c = g.add_node("c");
    assert_ne!(a, b);
    assert_ne!(b, c);
    assert_ne!(a, c);
    assert_eq!(*g.node(&a).unwrap(), "a");
    assert_eq!(*g.node(&b).unwrap(), "b");
    assert_eq!(*g.node(&c).unwrap(), "c");
}

#[test]
fn add_edge_endpoints_and_data() {
    let mut g: ALGraph<u32, &str, Undirected> = ALGraph::new();
    let u = g.add_node(1);
    let v = g.add_node(2);
    let e = g.add_edge(&u, &v, "d").unwrap();
    assert_eq!(g.edge_endpoints(&e), Ok((u, v)));
    assert_eq!(g.edge_start(&e), Ok(u));
    assert_eq!(g.edge_end(&e), Ok(v));
    let ed = g.edge(&e).unwrap();
    assert_eq!(ed.data, "d");
    assert_eq!(ed.index, e);
}

#[test]
fn directed_membership() {
    let mut g: ALGraph<(), u8, Directed> = ALGraph::new();
    let u = g.add_node(());
    let v = g.add_node(());
    let e = g.add_edge(&u, &v, 7).unwrap();
    assert!(g.is_directed());
    assert!(g.edges_from(&u).unwrap().contains(&e));
    assert!(g.edges_to(&v).unwrap().contains(&e));
    assert!(g.edges_at(&u).unwrap().contains(&e));
    assert!(g.edges_at(&v).unwrap().contains(&e));
    assert!(!g.edges_from(&v).unwrap().contains(&e));
    assert!(!g.edges_to(&u).unwrap().contains(&e));
}

#[test]
fn directed_self_loop_listed_once_at_node() {
    let mut g: ALGraph<(), u8, Directed> = ALGraph::new();
    let u = g.add_node(());
    let e = g.add_edge(&u, &u, 1).unwrap();
    assert_eq!(g.edges_from(&u).unwrap(), vec![e]);
    assert_eq!(g.edges_to(&u).unwrap(), vec![e]);
    assert_eq!(g.edges_at(&u).unwrap(), vec![e]);
}

#[test]
fn undirected_membership() {
    let mut g: ALGraph<(), u8, Undirected> = ALGraph::new();
    let u = g.add_node(());
    let v = g.add_node(());
    let e = g.add_edge(&u, &v, 7).unwrap();
    assert!(!g.is_directed());
    assert!(g.edges_from(&u).unwrap().contains(&e));
    assert!(g.edges_from(&v).unwrap().contains(&e));
    assert!(g.edges_to(&u).unwrap().contains(&e));
    assert!(g.edges_to(&v).unwrap().contains(&e));
    assert!(g.edges_at(&v).unwrap().contains(&e));
}

#[test]
fn remove_edge_round_trip() {
    let mut g: ALGraph<(), &str, Undirected> = ALGraph::new();
    let u = g.add_node(());
    let v = g.add_node(());
    let e = g.add_edge(&u, &v, "d").unwrap();
    let ed = g.remove_edge(&e).unwrap();
    assert_eq!(ed, Edge { start: u, end: v, index: e, data: "d" });
    assert!(!g.edges().contains(&e));
    for n in [u, v] {
        assert!(!g.edges_from(&n).unwrap().contains(&e));
        assert!(!g.edges_to(&n).unwrap().contains(&e));
        assert!(!g.edges_at(&n).unwrap().contains(&e));
    }
}

#[test]
fn remove_edge_round_trip_directed() {
    let mut g: ALGraph<(), u8, Directed> = ALGraph::new();
    let u = g.add_node(());
    let v = g.add_node(());
    let e = g.add_edge(&u, &v, 3).unwrap();
    let ed = g.remove_edge(&e).unwrap();
    assert_eq!((ed.start, ed.end, ed.data), (u, v, 3));
    assert!(g.edges().is_empty());
    assert!(g.edges_from(&u).unwrap().is_empty());
    assert!(g.edges_to(&v).unwrap().is_empty());
    assert!(g.edges_at(&v).unwrap().is_empty());
}

#[test]
fn repeated_queries_agree() {
    let mut g: ALGraph<u8, u8, Directed> = ALGraph::new();
    let a = g.add_node(0);
    let b = g.add_node(1);
    let e1 = g.add_edge(&a, &b, 0).unwrap();
    let e2 = g.add_edge(&b, &a, 0).unwrap();
    assert_eq!(sorted(g.nodes()), sorted(g.nodes()));
    assert_eq!(sorted(g.nodes()), vec![a, b]);
    assert_eq!(sorted(g.edges()), sorted(g.edges()));
    assert_eq!(sorted(g.edges()), sorted(vec![e1, e2]));
}

#[test]
fn undirected_self_loop_listed_twice() {
    let mut g: ALGraph<(), u8, Undirected> = ALGraph::new();
    let u = g.add_node(());
    let e = g.add_edge(&u, &u, 0).unwrap();
    assert_eq!(g.edges_from(&u).unwrap(), vec![e, e]);
    assert_eq!(g.neighbors(&u).unwrap(), vec![u, u]);
    g.remove_edge(&e).unwrap();
    assert!(g.edges_from(&u).unwrap().is_empty());
    assert!(g.edges_at(&u).unwrap().is_empty());
}

#[test]
fn stale_handles_not_found() {
    let mut g: ALGraph<u8, u8, Undirected> = ALGraph::new();
    let a = g.add_node(0);
    let b = g.add_node(1);
    let e = g.add_edge(&a, &b, 5).unwrap();
    assert_eq!(g.node(&9).err(), Some(GraphError::NotFound));
    assert_eq!(g.edge(&9).err(), Some(GraphError::NotFound));
    assert_eq!(g.add_edge(&a, &9, 1), Err(GraphError::NotFound));
    assert_eq!(g.add_edge(&9, &b, 1), Err(GraphError::NotFound));
    assert_eq!(sorted(g.edges()), vec![e]);
    g.remove_edge(&e).unwrap();
    assert!(g.remove_edge(&e).is_err());
    assert!(g.edge(&e).is_err());
    assert_eq!(g.edge_endpoints(&e), Err(GraphError::NotFound));
    assert_eq!(g.edges_from(&9), Err(GraphError::NotFound));
    assert_eq!(g.edges_to(&9), Err(GraphError::NotFound));
    assert_eq!(g.edges_at(&9), Err(GraphError::NotFound));
    assert_eq!(g.neighbors(&9), Err(GraphError::NotFound));
    assert_eq!(sorted(g.nodes()), vec![a, b]);
    assert!(g.edges().is_empty());
}

#[test]
fn failed_add_edge_leaves_graph_unchanged() {
    let mut g: ALGraph<u8, u8, Directed> = ALGraph::new();
    let a = g.add_node(0);
    assert_eq!(g.add_edge(&a, &1, 1), Err(GraphError::NotFound));
    assert!(g.edges().is_empty());
    assert!(g.edges_from(&a).unwrap().is_empty());
    assert_eq!(g.nodes(), vec![a]);
}

#[test]
fn undirected_scenario() {
    let mut g: ALGraph<&str, &str, Undirected> = ALGraph::new();
    let a = g.add_node("A");
    let b = g.add_node("B");
    let c = g.add_node("C");
    assert_eq!((a, b, c), (0, 1, 2));
    let e1 = g.add_edge(&0, &1, "x").unwrap();
    let e2 = g.add_edge(&1, &2, "y").unwrap();
    assert_eq!(sorted(g.neighbors(&1).unwrap()), vec![0, 2]);
    g.remove_edge(&e1).unwrap();
    assert_eq!(g.neighbors(&1).unwrap(), vec![2]);
    assert_eq!(g.edges(), vec![e2]);
}

#[test]
fn directed_scenario() {
    let mut g: ALGraph<&str, &str, Directed> = ALGraph::new();
    let a = g.add_node("A");
    let b = g.add_node("B");
    assert_eq!((a, b), (0, 1));
    let e = g.add_edge(&0, &1, "z").unwrap();
    assert_eq!(g.edges_from(&0).unwrap(), vec![e]);
    assert!(g.edges_from(&1).unwrap().is_empty());
    assert_eq!(g.edges_to(&1).unwrap(), vec![e]);
    assert_eq!(g.neighbors(&0).unwrap(), vec![1]);
    assert!(g.neighbors(&1).unwrap().is_empty());
}

#[test]
fn edge_handles_not_reused() {
    let mut g: ALGraph<(), (), Directed> = ALGraph::new();
    let a = g.add_node(());
    let e1 = g.add_edge(&a, &a, ()).unwrap();
    g.remove_edge(&e1).unwrap();
    let e2 = g.add_edge(&a, &a, ()).unwrap();
    assert_ne!(e1, e2);
    assert!(g.edge(&e1).is_err());
}

#[test]
fn node_mut_writes_through() {
    let mut g: ALGraph<u32, u32, Undirected> = ALGraph::new();
    let a = g.add_node(1);
    *g.node_mut(&a).unwrap() = 42;
    assert_eq!(*g.node(&a).unwrap(), 42);
    assert_eq!(g.node_mut(&5).err(), Some(GraphError::NotFound));
}

#[test]
fn edge_mut_writes_through() {
    let mut g: ALGraph<u32, u32, Directed> = ALGraph::new();
    let a = g.add_node(1);
    let b = g.add_node(2);
    let e = g.add_edge(&a, &b, 10).unwrap();
    *g.edge_mut(&e).unwrap() = 11;
    let ed = g.edge(&e).unwrap();
    assert_eq!((ed.start, ed.end, ed.data), (a, b, 11));
    g.remove_edge(&e).unwrap();
    assert_eq!(g.edge_mut(&e).err(), Some(GraphError::NotFound));
}

#[test]
fn fresh_graph_numbers_nodes_from_zero() {
    let mut g: ALGraph<&str, (), Undirected> = ALGraph::new();
    assert_eq!(g.add_node("A"), 0);
    assert_eq!(g.add_node("B"), 1);
    assert_eq!(g.add_node("C"), 2);
}

#[test]
fn new_node_has_no_edges() {
    let mut g: ALGraph<(), (), Directed> = ALGraph::new();
    let a = g.add_node(());
    let b = g.add_node(());
    g.add_edge(&a, &b, ()).unwrap();
    let c = g.add_node(());
    assert!(g.edges_from(&c).unwrap().is_empty());
    assert!(g.edges_to(&c).unwrap().is_empty());
    assert!(g.edges_at(&c).unwrap().is_empty());
    assert!(g.neighbors(&c).unwrap().is_empty());
}

#[test]
fn cloned_graph_is_equal_and_independent() {
    let mut g: ALGraph<u8, u8, Directed> = ALGraph::new();
    let a = g.add_node(1);
    let e = g.add_edge(&a, &a, 2).unwrap();
    let h = g.clone();
    assert_eq!(g, h);
    g.remove_edge(&e).unwrap();
    assert_ne!(g, h);
    assert_eq!(*h.edge(&e).unwrap(), Edge { start: a, end: a, index: e, data: 2 });
}
