use vstd::prelude::*;

use crate::ir::types::MirType;

verus! {

/// Identifier of a struct declared in a `Context`.
pub type StructId = u32;

/// A struct declaration: its name and its named, typed fields in order.
pub struct Struct {
    pub name: String,
    pub fields: Vec<(String, MirType)>,
    pub packed: bool,
    pub align: u32,
}

} // verus!
