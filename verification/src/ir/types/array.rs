use vstd::prelude::*;

use crate::ir::types::MirType;

verus! {

/// The type of arrays of `length` elements of type `ty`.
#[derive(Debug, Clone, PartialEq, Eq, Hash)]
pub struct ArrayType {
    pub ty: Box<MirType>,
    pub length: u32,
}

impl ArrayType {
    /// The array type of `length` elements of type `ty`.
    pub fn new(ty: MirType, length: u32) -> (r: Self)
        ensures
            *r.ty == ty,
            r.length == length,
    {
        Self { ty: Box::new(ty), length }
    }

    /// Turns the array type into an IR type.
    pub fn into_mir(self) -> (r: MirType)
        ensures
            r == MirType::Array(self),
    {
        MirType::Array(self)
    }

    /// The element type.
    pub fn pointee(&self) -> (r: &MirType)
        ensures
            *r == *self.ty,
    {
        &self.ty
    }

    /// The element type.
    pub fn element(&self) -> (r: &MirType)
        ensures
            *r == *self.ty,
    {
        &self.ty
    }

    /// The number of elements.
    pub fn length(&self) -> (r: u32)
        ensures
            r == self.length,
    {
        self.length
    }
}

} // verus!
