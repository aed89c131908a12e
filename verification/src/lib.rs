//! Data structures and algorithms of a points-to analysis for Rust MIR:
//! growable bit vectors, hybrid points-to sets, points-to maps, index trees,
//! calling contexts and reachability relations.

pub mod builder;
pub mod cargo_pta;
pub mod graph;
pub mod info_collector;
pub mod mir;
pub mod pta;
pub mod pts_set;
pub mod rta;
pub mod ssa_mir;
pub mod util;
