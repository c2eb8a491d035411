use vstd::prelude::*;

use crate::ir::types::MirType;

verus! {

/// The type of pointers to `pointee`.
#[derive(Debug, Clone, PartialEq, Eq, Hash)]
pub struct PtrType {
    pub pointee: Box<MirType>,
}

impl PtrType {
    /// The pointer type to `pointee`.
    pub fn new(pointee: MirType) -> (r: Self)
        ensures
            *r.pointee == pointee,
    {
        Self { pointee: Box::new(pointee) }
    }

    /// Turns the pointer type into an IR type.
    pub fn into_mir(self) -> (r: MirType)
        ensures
            r == MirType::Ptr(self),
    {
        MirType::Ptr(self)
    }

    /// The type pointed to.
    pub fn pointee(&self) -> (r: &MirType)
        ensures
            *r == *self.pointee,
    {
        &self.pointee
    }
}

impl From<PtrType> for MirType {
    /// The IR type `MirType::Ptr` holding `v`.
    fn from(v: PtrType) -> (r: MirType) {
        MirType::Ptr(v)
    }
}

impl vstd::std_specs::convert::FromSpecImpl<PtrType> for MirType {
    open spec fn obeys_from_spec() -> bool {
        true
    }

    open spec fn from_spec(v: PtrType) -> MirType {
        MirType::Ptr(v)
    }
}

} // verus!
