use vstd::prelude::*;

use crate::ir::{
    ctrl_flow::function::MirFunId,
    types::MirType,
};

pub mod basic_blocks;
pub mod function;

pub use basic_blocks::{BasicBlock, Statement, Terminator};
pub use function::{FunExtern, FunStatic, Function, FunctionLinkage};

verus! {

/// Identifier of a local (an SSA value) of a function.
pub type LocalId = u32;

/// Identifier of a basic block of a function.
pub type BlockId = u32;

/// The result of a computation.
pub enum RValue {
    Use(Operand),
    BinOp(BinOp, Operand, Operand),
    UnOp(UnOp, Operand),
    Cast(CastKind, Operand, MirType),
    Ref(Place),
    Len(Place),
    Aggregate(Vec<Operand>),
}

/// How a cast reinterprets its operand.
pub enum CastKind {
    PtrToInt,
    IntToPtr,
    Reinterpret,
}

/// Binary operators.
#[derive(Clone, Copy, Debug, PartialEq, Eq, Structural)]
pub enum BinOp {
    Add,
    Sub,
    Mul,
    Div,
    Mod,
    ShiftRight,
    ShiftLeft,
    And,
    Or,
    Eq,
    Neq,
    Lt,
    Leq,
}

/// Unary operators.
pub enum UnOp {
    Minus,
    Not,
}

/// A memory location: a local, or a projection out of another place.
#[derive(Debug, PartialEq, Eq)]
pub enum Place {
    Local(LocalId),
    Projection(Box<Place>, ProjectionKind),
}

/// How a projection reaches into the place it starts from.
#[derive(Clone, Copy, Debug, PartialEq, Eq, Structural)]
pub enum ProjectionKind {
    Deref,
    Field(u32),
    Index(LocalId),
}

/// An operand of a computation.
#[derive(Debug)]
pub enum Operand {
    Copy(Place),
    Move(Place),
    Constant(Constant),
    Call { func: MirFunId, args: Vec<Operand> },
}

/// A constant value.
#[derive(Debug)]
pub enum Constant {
    Int(i64, MirType),
    Bool(bool),
    Str(String),
    Null,
}

impl Clone for Place {
    /// A copy of the place.
    fn clone(&self) -> (r: Self)
        ensures
            r == *self,
        decreases self,
    {
        match self {
            Place::Local(id) => Place::Local(*id),
            Place::Projection(inner, kind) => Place::Projection(
                Box::new((**inner).clone()),
                *kind,
            ),
        }
    }
}

/// Two constants denote the same value: integers equal in value and type,
/// equal booleans, strings of the same text, or both null.
pub open spec fn same_constant(a: Constant, b: Constant) -> bool {
    match (a, b) {
        (Constant::Int(x, t), Constant::Int(y, u)) => x == y && t@ == u@,
        (Constant::Bool(x), Constant::Bool(y)) => x == y,
        (Constant::Str(x), Constant::Str(y)) => x@ == y@,
        (Constant::Null, Constant::Null) => true,
        _ => false,
    }
}

/// Two operands are the same: the same places read, the same constants, or
/// calls of the same function with the same arguments.
pub open spec fn same_operand(a: Operand, b: Operand) -> bool
    decreases a,
{
    match a {
        Operand::Copy(p) => b == Operand::Copy(p),
        Operand::Move(p) => b == Operand::Move(p),
        Operand::Constant(c) => b matches Operand::Constant(d) && same_constant(c, d),
        Operand::Call { func, args } => {
            proof {
                broadcast use vstd::std_specs::vec::axiom_vec_decreases_to_view;

                assert(decreases_to!(args => args@));
            }
            b matches Operand::Call { func: g, args: bargs } && g == func && same_operands(
                args@,
                bargs@,
            )
        },
    }
}

/// Two sequences of operands are the same element by element.
pub open spec fn same_operands(s: Seq<Operand>, t: Seq<Operand>) -> bool
    decreases s,
{
    &&& s.len() == t.len()
    &&& s.len() > 0 ==> same_operands(s.drop_last(), t.drop_last()) && same_operand(
        s.last(),
        t.last(),
    )
}

impl Clone for Constant {
    /// A copy of the constant: the same value of the same type.
    fn clone(&self) -> (r: Self)
        ensures
            same_constant(*self, r),
    {
        match self {
            Constant::Int(v, t) => Constant::Int(*v, t.clone()),
            Constant::Bool(b) => Constant::Bool(*b),
            Constant::Str(s) => Constant::Str(s.clone()),
            Constant::Null => Constant::Null,
        }
    }
}

impl Clone for Operand {
    /// A deep copy of the operand.
    fn clone(&self) -> (r: Self)
        ensures
            same_operand(*self, r),
        decreases self,
    {
        match self {
            Operand::Copy(p) => Operand::Copy(p.clone()),
            Operand::Move(p) => Operand::Move(p.clone()),
            Operand::Constant(c) => Operand::Constant(c.clone()),
            Operand::Call { func, args } => {
                proof {
                    broadcast use vstd::std_specs::vec::axiom_vec_decreases_to_view;
                }
                assert(decreases_to!(*self => *args));
                let copied = clone_operands_in(self, args);
                Operand::Call { func: *func, args: copied }
            },
        }
    }
}

/// Copies the operands of a vector held inside `owner`; a step of the deep
/// copy of `owner`.
fn clone_operands_in(owner: &Operand, v: &Vec<Operand>) -> (r: Vec<Operand>)
    requires
        decreases_to!(*owner => *v),
    ensures
        same_operands(v@, r@),
    decreases owner, 0nat,
{
    let mut out: Vec<Operand> = Vec::new();
    let mut i: usize = 0;
    assert(v@.take(0) =~= Seq::<Operand>::empty());
    while i < v.len()
        invariant
            i <= v@.len(),
            decreases_to!(*owner => *v),
            same_operands(v@.take(i as int), out@),
        decreases v.len() - i,
    {
        proof {
            broadcast use vstd::std_specs::vec::axiom_vec_index_decreases;

            assert(decreases_to!(*v => v[i as int]));
        }
        let ghost before = out@;
        let c = v[i].clone();
        out.push(c);
        assert(v@.take(i + 1).drop_last() =~= v@.take(i as int));
        assert(out@.drop_last() =~= before);
        assert(v@.take(i + 1).last() == v@[i as int]);
        i += 1;
    }
    assert(v@.take(v@.len() as int) =~= v@);
    out
}

} // verus!
