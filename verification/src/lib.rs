//! Builders to generate and render graphs in a DOT-like textual format.
//!
//! The only way to create a graph is to obtain a `RootBuilder` with
//! `Graph::new_builder`. That type implements the `Builder` trait, which
//! creates the four kinds of graph entities: nodes, edges, subgraphs, and
//! clusters. A call to `RootBuilder::build` finalizes the build and yields
//! a `Graph`, which the rendering functions such as `render_digraph` turn
//! into text.

pub mod attributes;
pub mod model;
pub mod graph;
pub mod builder;
pub mod render;
pub mod laws;

pub use graph::{Kind, Entity, Attributes, Defaults, Graph};
pub use builder::{Builder, RootBuilder, SubgraphBuilder};
pub use render::{render_graph, render_digraph, render_strict_graph, render_strict_digraph};
