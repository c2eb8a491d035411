use vstd::prelude::*;

use crate::ir::types::MirType;

verus! {

/// The integer types of the IR. `Bool` is the one-bit integer used by
/// comparisons and conditional branches.
#[derive(Debug, Clone, Copy, PartialEq, Eq, Hash, Structural)]
pub enum IntType {
    I8,
    I16,
    I32,
    I64,
    U8,
    U16,
    U32,
    U64,
    Bool,
}

impl IntType {
    /// Turns the integer type into the IR type that holds it.
    pub fn into_mir(self) -> (r: MirType)
        ensures
            r == MirType::Int(self),
    {
        MirType::Int(self)
    }
}

impl From<IntType> for MirType {
    /// The IR type `MirType::Int` holding `v`.
    fn from(v: IntType) -> (r: MirType) {
        MirType::Int(v)
    }
}

impl vstd::std_specs::convert::FromSpecImpl<IntType> for MirType {
    open spec fn obeys_from_spec() -> bool {
        true
    }

    open spec fn from_spec(v: IntType) -> MirType {
        MirType::Int(v)
    }
}

} // verus!
