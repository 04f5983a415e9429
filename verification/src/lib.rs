//! A small in-memory graph: vertices are non-negative integers, edges carry a
//! signed 32-bit weight, and a graph is directed or undirected for its whole
//! life. Every operation is specified over [`model::GraphModel`] and proved.

pub mod adjacency;
pub mod error;
pub mod graph;
pub mod laws;
pub mod model;
pub mod text;

pub use error::GraphError;
pub use graph::Graph;
