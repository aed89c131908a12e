//! Identifiers of the functions that the analysis meets.

use vstd::prelude::*;
use crate::mir::context::ContextId;
use crate::util::SameValue;

verus! {

/// The unique identifier of a function instance known to the analysis.
#[derive(Clone, Copy, PartialEq, Eq, Hash, Debug, Structural)]
pub struct FuncId {
    pub index: u32,
}

impl FuncId {
    /// The function id with the given number.
    pub fn new(index: u32) -> (r: Self)
        ensures
            r.index == index,
    {
        FuncId { index }
    }
}

/// The unique identifier of an item of a crate: the crate's number and the item's
/// number in it.
#[derive(Clone, Copy, PartialEq, Eq, Hash, Debug, PartialOrd, Ord, Structural)]
pub struct DefId {
    pub krate: u32,
    pub index: u32,
}

/// A function instance in a calling context.
#[derive(Clone, Copy, PartialEq, Eq, Hash, Debug, Structural)]
pub struct CSFuncId {
    pub cid: ContextId,
    pub func_id: FuncId,
}

impl CSFuncId {
    pub fn new(cid: ContextId, func_id: FuncId) -> (r: Self)
        ensures
            r.cid == cid,
            r.func_id == func_id,
    {
        CSFuncId { cid, func_id }
    }
}

impl SameValue for FuncId {
    type Model = FuncId;

    open spec fn model(&self) -> FuncId {
        *self
    }

    fn same_value(&self, other: &Self) -> (r: bool) {
        *self == *other
    }
}

impl SameValue for DefId {
    type Model = DefId;

    open spec fn model(&self) -> DefId {
        *self
    }

    fn same_value(&self, other: &Self) -> (r: bool) {
        *self == *other
    }
}

impl SameValue for CSFuncId {
    type Model = CSFuncId;

    open spec fn model(&self) -> CSFuncId {
        *self
    }

    fn same_value(&self, other: &Self) -> (r: bool) {
        *self == *other
    }
}

} // verus!
