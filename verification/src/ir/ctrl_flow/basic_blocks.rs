use vstd::prelude::*;

use crate::ir::ctrl_flow::{BlockId, LocalId, Operand, Place, RValue};

verus! {

/// How a basic block ends.
pub enum Terminator {
    Return(Option<Operand>),
    Goto(BlockId),
    Iff { discriminant: Operand, then_dst: BlockId, else_dst: BlockId },
}

/// A straight-line sequence of statements closed by a terminator.
pub struct BasicBlock {
    pub statements: Vec<Statement>,
    pub terminator: Terminator,
}

/// A statement of a basic block.
pub enum Statement {
    Assign(Place, RValue),
    StorageLive(LocalId),
    StorageDead(LocalId),
    Nop,
}

/// The blocks a terminator may transfer control to.
pub open spec fn terminator_targets(t: Terminator) -> Set<BlockId> {
    match t {
        Terminator::Return(_) => Set::empty(),
        Terminator::Goto(d) => set![d],
        Terminator::Iff { then_dst, else_dst, .. } => set![then_dst, else_dst],
    }
}

} // verus!
