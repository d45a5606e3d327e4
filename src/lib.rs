//! A small in-memory graph library: node and edge payloads addressed by
//! stable integer handles, over directed or undirected graphs.
pub mod adj_list_graph;
pub mod graph_base;
pub mod laws;
