//! Blocks of the SSA form.

use vstd::prelude::*;

verus! {

/// A block, known by its predecessors.
#[derive(Debug, PartialEq, Eq, Hash)]
pub struct Block {
    pub preds: Vec<Block>,
}

} // verus!
