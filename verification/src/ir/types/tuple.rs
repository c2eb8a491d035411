use vstd::prelude::*;

use crate::ir::types::MirType;

verus! {

/// The type of tuples whose elements have the types `tys`, in order.
#[derive(Debug, Clone, PartialEq, Eq, Hash)]
pub struct TupleType {
    pub tys: Vec<MirType>,
}

impl TupleType {
    /// The tuple type of the given element types.
    pub fn new(tys: Vec<MirType>) -> (r: Self)
        ensures
            r.tys == tys,
    {
        Self { tys }
    }

    /// Turns the tuple type into an IR type.
    pub fn into_mir(self) -> (r: MirType)
        ensures
            r == MirType::Tuple(self),
    {
        MirType::Tuple(self)
    }

    /// The element types.
    pub fn fields(&self) -> (r: &Vec<MirType>)
        ensures
            *r == self.tys,
    {
        &self.tys
    }
}

impl From<TupleType> for MirType {
    /// The IR type `MirType::Tuple` holding `v`.
    fn from(v: TupleType) -> (r: MirType) {
        MirType::Tuple(v)
    }
}

impl vstd::std_specs::convert::FromSpecImpl<TupleType> for MirType {
    open spec fn obeys_from_spec() -> bool {
        true
    }

    open spec fn from_spec(v: TupleType) -> MirType {
        MirType::Tuple(v)
    }
}

} // verus!
