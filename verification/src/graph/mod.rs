//! Graphs built by the analysis.

pub mod call_graph;
pub mod func_pag;
