//! Pieces of an SSA form of MIR: blocks and the values of variables.

pub mod path;
pub mod phi;
