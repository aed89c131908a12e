//! The values that variables of the SSA form take.

use vstd::prelude::*;

verus! {

/// A value of a variable.
#[derive(Clone, PartialEq, Eq, Hash, Debug, Structural)]
pub struct Path {
    pub value: PathEnum,
}

impl Path {
    /// The undefined value.
    pub fn undef() -> (r: Self)
        ensures
            r.value == PathEnum::Undef,
    {
        Path { value: PathEnum::Undef }
    }
}

/// The kinds of values.
#[derive(Clone, PartialEq, Eq, Hash, Debug, Structural)]
pub enum PathEnum {
    Value(i32),
    Undef,
}

/// The undefined value, as a marker.
#[derive(Debug, Clone)]
pub struct Undef;

impl Undef {
    pub fn new() -> (r: Self) {
        Undef
    }
}

} // verus!
