use std::collections::HashMap;

use vstd::prelude::*;

use crate::ir::{
    ctrl_flow::function::MirFunId,
    types::{
        int_ty::IntType,
        struct_ty::{Struct, StructId},
    },
};

pub mod builder;
pub mod ctrl_flow;
pub mod types;

pub use ctrl_flow::{
    BasicBlock, BinOp, BlockId, CastKind, Constant, FunExtern, FunStatic, Function,
    FunctionLinkage, LocalId, Operand, Place, ProjectionKind, RValue, Statement, Terminator, UnOp,
};


verus! {

/// The width of pointers on the target.
#[derive(Clone, Copy, Debug, PartialEq, Eq, Structural)]
pub enum PtrSize {
    _8Bit,
    _16Bit,
    _32Bit,
    _64Bit,
}

/// The unsigned integer type as wide as a pointer of the given size.
pub open spec fn ptr_int(p: PtrSize) -> IntType {
    match p {
        PtrSize::_8Bit => IntType::U8,
        PtrSize::_16Bit => IntType::U16,
        PtrSize::_32Bit => IntType::U32,
        PtrSize::_64Bit => IntType::U64,
    }
}

impl PtrSize {
    /// The unsigned integer type as wide as a pointer.
    pub fn corresponding_int(&self) -> (r: IntType)
        ensures
            r == ptr_int(*self),
    {
        match self {
            PtrSize::_8Bit => IntType::U8,
            PtrSize::_16Bit => IntType::U16,
            PtrSize::_32Bit => IntType::U32,
            PtrSize::_64Bit => IntType::U64,
        }
    }
}

/// A compilation unit: its functions and structs, the function where
/// execution starts, and the pointer width of the target.
pub struct Context {
    pub functions: HashMap<MirFunId, Function>,
    pub structs: HashMap<StructId, Struct>,
    pub entry_point: Option<MirFunId>,
    pub ptr_size: PtrSize,
}

impl Context {
    /// An empty unit for a target with the given pointer width.
    pub fn new(ptr_size: PtrSize) -> (r: Self)
        ensures
            r.functions@ == Map::<MirFunId, Function>::empty(),
            r.structs@ == Map::<StructId, Struct>::empty(),
            r.entry_point is None,
            r.ptr_size == ptr_size,
    {
        Self {
            functions: HashMap::new(),
            structs: HashMap::new(),
            entry_point: None,
            ptr_size,
        }
    }

    /// Adds `fun` under the identifier one above the largest in use (0 for
    /// the first function) and returns that identifier. When the largest
    /// identifier is `u32::MAX`, the smallest identifier not in use is taken
    /// instead.
    pub fn add_function(&mut self, fun: Function) -> (r: MirFunId)
        requires
            old(self).functions@.len() < u32::MAX,
        ensures
            !old(self).functions@.contains_key(r),
            old(self).functions@.dom().is_empty() ==> r == 0,
            (forall|k: MirFunId| #[trigger] old(self).functions@.contains_key(k) ==> k < u32::MAX)
                ==> {
                &&& !old(self).functions@.dom().is_empty() ==> old(self).functions@.contains_key(
                    (r - 1) as MirFunId,
                )
                &&& forall|k: MirFunId| #[trigger] old(self).functions@.contains_key(k) ==> k < r
            },
            old(self).functions@.contains_key(u32::MAX) ==> forall|k: MirFunId|
                k < r ==> #[trigger] old(self).functions@.contains_key(k),
            final(self).functions@ == old(self).functions@.insert(r, fun),
            final(self).structs == old(self).structs,
            final(self).entry_point == old(self).entry_point,
            final(self).ptr_size == old(self).ptr_size,
    {
        let mut best: Option<MirFunId> = None;
        for k in it: self.functions.keys()
            invariant
                it.seq().unref().to_set() == self.functions@.dom(),
                best is None <==> it.index() == 0,
                best matches Some(b) ==> self.functions@.contains_key(b) && forall|j: int|
                    0 <= j < it.index() ==> *#[trigger] it.seq()[j] <= b,
        {
            let kk = *k;
            proof {
                assert(it.seq().unref().to_set().contains(kk));
            }
            best = match best {
                None => Some(kk),
                Some(b) => if kk > b {
                    Some(kk)
                } else {
                    Some(b)
                },
            };
        }
        let id = match best {
            None => 0,
            Some(b) => if b < u32::MAX {
                b + 1
            } else {
                least_free_id(&self.functions)
            },
        };
        self.functions.insert(id, fun);
        id
    }
}

/// The smallest identifier that `m` does not use.
fn least_free_id(m: &HashMap<MirFunId, Function>) -> (r: MirFunId)
    requires
        m@.len() < u32::MAX,
    ensures
        !m@.contains_key(r),
        forall|k: MirFunId| k < r ==> #[trigger] m@.contains_key(k),
{
    let mut i: MirFunId = 0;
    while m.contains_key(&i)
        invariant
            m@.dom().finite(),
            m@.len() < u32::MAX,
            forall|k: MirFunId| k < i ==> #[trigger] m@.contains_key(k),
        decreases u32::MAX - i,
    {
        proof {
            lemma_prefix_in_set(m@.dom(), (i + 1) as nat);
        }
        i = i + 1;
    }
    i
}

/// A finite set of identifiers that holds every identifier below `n` has
/// at least `n` members.
proof fn lemma_prefix_in_set(s: Set<MirFunId>, n: nat)
    requires
        s.finite(),
        n <= u32::MAX + 1,
        forall|k: MirFunId| k < n ==> #[trigger] s.contains(k),
    ensures
        n <= s.len(),
    decreases n,
{
    if n > 0 {
        let last = (n - 1) as MirFunId;
        assert(s.contains(last));
        lemma_prefix_in_set(s.remove(last), (n - 1) as nat);
    }
}

} // verus!
