//! Pointer analysis: the kinds of analysis, context and flow strategies, and the
//! stack filtering of points-to results by function reachability.

pub mod context_strategy;
pub mod flow_strategy;
pub mod propagator;
pub mod strategies;

use vstd::prelude::*;

verus! {

/// The kinds of pointer analysis.
#[derive(Clone, Copy, Debug, PartialEq, Eq, Structural)]
pub enum PTAType {
    Andersen,
    CallSiteSensitive,
}

} // verus!
