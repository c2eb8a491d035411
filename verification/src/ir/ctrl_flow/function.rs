use std::collections::{HashMap, HashSet};

use vstd::prelude::*;

use crate::ir::{
    ctrl_flow::{BlockId, LocalId, basic_blocks::BasicBlock},
    types::{MirType, function::FunctionType},
};

verus! {

broadcast use vstd::std_specs::hash::group_hash_axioms;

/// Identifier of a function of a `Context`.
pub type MirFunId = u32;

/// The linkage of a function declared elsewhere: it has no body.
pub struct FunExtern;

/// The body of a function defined in this unit.
///
/// `blocks` holds the blocks built so far; `reserved` the identifiers handed
/// out for blocks, built or not; `last_reserved` the next identifier to hand
/// out; `locals` the locals with their types.
pub struct FunStatic {
    pub params: Vec<LocalId>,
    pub blocks: HashMap<BlockId, BasicBlock>,
    pub entry_block: Option<BlockId>,
    pub reserved: HashSet<BlockId>,
    pub last_reserved: BlockId,
    pub locals: Vec<(LocalId, MirType)>,
}

/// Whether a function is declared elsewhere or defined here with a body.
pub enum FunctionLinkage {
    Extern(FunExtern),
    Static(FunStatic),
}

/// A function: its name, its signature and its linkage.
pub struct Function {
    pub name: String,
    pub ty: FunctionType,
    pub linkage: FunctionLinkage,
}

impl FunStatic {
    /// Every block the body knows, reserved or built, lies below
    /// `last_reserved`, so the next identifier handed out is fresh.
    pub open spec fn wf(&self) -> bool {
        forall|b: BlockId| #[trigger] self.known(b) ==> b < self.last_reserved
    }

    /// The identifiers the body knows: those reserved and those built.
    pub open spec fn known_set(&self) -> Set<BlockId> {
        self.reserved@.union(self.blocks@.dom())
    }

    /// The blocks known to the function: those reserved and those built.
    pub open spec fn known(&self, b: BlockId) -> bool {
        self.reserved@.contains(b) || self.blocks@.contains_key(b)
    }
}

/// The largest identifier among `locals`, or 0 when there is none.
pub open spec fn max_local_id(locals: Seq<(LocalId, MirType)>) -> nat
    decreases locals.len(),
{
    if locals.len() == 0 {
        0
    } else {
        let m = max_local_id(locals.drop_last());
        if locals.last().0 > m {
            locals.last().0 as nat
        } else {
            m
        }
    }
}

/// Every local identifier is at most `max_local_id`.
pub proof fn lemma_max_local_id(locals: Seq<(LocalId, MirType)>)
    ensures
        forall|i: int| 0 <= i < locals.len() ==> (#[trigger] locals[i]).0 <= max_local_id(locals),
    decreases locals.len(),
{
    if locals.len() > 0 {
        lemma_max_local_id(locals.drop_last());
        assert forall|i: int| 0 <= i < locals.len() implies (#[trigger] locals[i]).0
            <= max_local_id(locals) by {
            if i < locals.len() - 1 {
                assert(locals.drop_last()[i] == locals[i]);
            }
        }
    }
}

impl FunctionLinkage {
    /// The body, for a function defined here.
    pub fn get_linkage(&self) -> (r: Option<&FunStatic>)
        ensures
            r is Some <==> *self is Static,
            r matches Some(s) ==> *self == FunctionLinkage::Static(*s),
    {
        match self {
            FunctionLinkage::Extern(_) => None,
            FunctionLinkage::Static(s) => Some(s),
        }
    }

    /// The body, mutably, for a function defined here.
    pub fn get_linkage_mut(&mut self) -> (r: Option<&mut FunStatic>)
        ensures
            r is Some <==> *old(self) is Static,
            r matches Some(s) ==> *old(self) == FunctionLinkage::Static(*s)
                && *final(self) == FunctionLinkage::Static(*final(s)),
            r is None ==> *final(self) == *old(self),
    {
        match self {
            FunctionLinkage::Extern(_) => None,
            FunctionLinkage::Static(s) => Some(s),
        }
    }
}

/// `t` is `s` after one step of building it: the parameters and the entry
/// block stay, locals are only appended, reserved blocks stay reserved and
/// every known block stays known.
pub open spec fn body_grows(s: FunStatic, t: FunStatic) -> bool {
    &&& t.params == s.params
    &&& t.entry_block == s.entry_block
    &&& s.locals@.is_prefix_of(t.locals@)
    &&& s.reserved@.subset_of(t.reserved@)
    &&& forall|k: BlockId| #[trigger] s.known(k) ==> t.known(k)
}

/// The locals are numbered 0, 1, 2, ... in order.
pub open spec fn dense_locals(locals: Seq<(LocalId, MirType)>) -> bool {
    forall|i: int| 0 <= i < locals.len() ==> (#[trigger] locals[i]).0 == i
}

/// Law: a run of building steps, one after another, is itself a building
/// step: parameters and entry block stay, earlier locals stay in place, and
/// every reserved or built block stays so.
pub proof fn lemma_body_grows_chain(bodies: Seq<FunStatic>)
    requires
        bodies.len() > 0,
        forall|i: int| 0 <= i < bodies.len() - 1 ==> #[trigger] body_grows(bodies[i], bodies[i + 1]),
    ensures
        body_grows(bodies[0], bodies.last()),
    decreases bodies.len(),
{
    if bodies.len() == 1 {
        assert(bodies[0].locals@ =~= bodies[0].locals@.subrange(0, bodies[0].locals@.len() as int));
    } else {
        let d = bodies.drop_last();
        assert forall|i: int| 0 <= i < d.len() - 1 implies #[trigger] body_grows(d[i], d[i + 1]) by {
            assert(body_grows(bodies[i], bodies[i + 1]));
        }
        lemma_body_grows_chain(d);
        let a = bodies[0];
        let m = d.last();
        let z = bodies.last();
        let k = bodies.len() - 2;
        assert(body_grows(bodies[k], bodies[k + 1]));
        assert(bodies[k] == m && bodies[k + 1] == z);
        assert forall|b: BlockId| #[trigger] a.known(b) implies z.known(b) by {
            assert(m.known(b));
        }
        assert(a.locals@ =~= z.locals@.subrange(0, a.locals@.len() as int)) by {
            assert forall|j: int| 0 <= j < a.locals@.len() implies a.locals@[j] == z.locals@[j] by {
                assert(a.locals@[j] == m.locals@.subrange(0, a.locals@.len() as int)[j]);
                assert(m.locals@[j] == z.locals@.subrange(0, m.locals@.len() as int)[j]);
            }
        }
    }
}

/// Law: whatever building steps follow the definition of a body (entry
/// block 0 reserved, parameters `0..n` held in locals `0..n` of the
/// parameter types, as `FunctionBuilder::define` makes it) — adding
/// locals, reserving blocks and closing blocks are each such a step by
/// their contracts, and `lemma_body_grows_chain` joins any run of them
/// into one — the entry block is still block 0 and known, the
/// parameters are still locals `0..n`, and each parameter's local keeps
/// its identifier and type.
pub proof fn lemma_defined_body_keeps_frame(
    first: FunStatic,
    last: FunStatic,
    param_tys: Seq<MirType>,
)
    requires
        first.entry_block == Some(0u32),
        first.reserved@.contains(0u32),
        first.params@ == Seq::new(param_tys.len(), |i: int| i as LocalId),
        first.locals@.len() == param_tys.len(),
        forall|i: int|
            0 <= i < param_tys.len() ==> (#[trigger] first.locals@[i]).0 == i && first.locals@[i].1@
                == param_tys[i]@,
        body_grows(first, last),
    ensures
        last.entry_block == Some(0u32),
        last.known(0),
        last.params@ == Seq::new(param_tys.len(), |i: int| i as LocalId),
        forall|i: int|
            0 <= i < param_tys.len() ==> (#[trigger] last.locals@[i]).0 == i && last.locals@[i].1@
                == param_tys[i]@,
{
    assert forall|i: int| 0 <= i < param_tys.len() implies (#[trigger] last.locals@[i]).0 == i
        && last.locals@[i].1@ == param_tys[i]@ by {
        assert(first.locals@[i] == last.locals@.subrange(0, first.locals@.len() as int)[i]);
    }
}

/// `g` is `f` after handing out block `r` (see `Function::reserve_new_block`).
pub open spec fn reserve_step(f: Function, g: Function, r: Option<BlockId>) -> bool {
    &&& g.name == f.name
    &&& g.ty == f.ty
    &&& f.body() is None ==> r is None && g == f
    &&& f.body() matches Some(s) ==> {
        &&& r == Some(s.last_reserved)
        &&& g.body() matches Some(t) && {
            &&& t.last_reserved == s.last_reserved + 1
            &&& t.reserved@ == s.reserved@.insert(s.last_reserved)
            &&& t.blocks == s.blocks
            &&& t.entry_block == s.entry_block
            &&& t.params == s.params
            &&& t.locals == s.locals
            &&& body_grows(s, t)
        }
    }
}

/// `t` is `s` after reserving block `r` by count (see
/// `DefinedFunctionBuilder::reserve_block`): `r` becomes reserved, a block
/// built under `r` gives way to the reservation, and the counter of
/// `reserve_new_block` moves above `r` if it was not already.
pub open spec fn reserve_count_step(s: FunStatic, t: FunStatic, r: BlockId) -> bool {
    &&& t.reserved@ == s.reserved@.insert(r)
    &&& t.blocks@ == s.blocks@.remove(r)
    &&& t.last_reserved == (if s.last_reserved > r {
        s.last_reserved
    } else {
        (r + 1) as BlockId
    })
    &&& t.entry_block == s.entry_block
    &&& t.params == s.params
    &&& t.locals == s.locals
    &&& body_grows(s, t)
}

/// Law: when the blocks a body knows are exactly `0..n`, reserving by
/// count hands out `n`, which it did not know, keeps every block, and the
/// known blocks are then exactly `0..=n`; a well-formed body stays well
/// formed.
pub proof fn lemma_count_reserve_fresh(s: FunStatic, t: FunStatic, r: BlockId)
    requires
        reserve_count_step(s, t, r),
        r < u32::MAX,
        forall|k: BlockId| #[trigger] s.known(k) <==> k < r,
    ensures
        !s.known(r),
        t.blocks@ == s.blocks@,
        forall|k: BlockId| #[trigger] t.known(k) <==> k <= r,
        s.wf() ==> t.wf(),
{
    assert(!s.known(r));
    assert(!s.blocks@.contains_key(r));
    assert(t.blocks@ =~= s.blocks@);
    assert forall|k: BlockId| #[trigger] t.known(k) implies k <= r by {
        if k != r {
            assert(s.known(k));
        }
    }
    assert forall|k: BlockId| k <= r implies #[trigger] t.known(k) by {
        if k != r {
            assert(s.known(k));
        }
    }
    if s.wf() {
        assert forall|k: BlockId| #[trigger] t.known(k) implies k < t.last_reserved by {
            assert(k <= r);
        }
    }
}

/// `g` is `f` after adding local `r` of a type whose value is `ty`
/// (see `Function::new_local`).
pub open spec fn new_local_step(f: Function, g: Function, ty: MirType, r: Option<LocalId>) -> bool {
    &&& g.name == f.name
    &&& g.ty == f.ty
    &&& f.body() is None ==> r is None && g == f
    &&& f.body() matches Some(s) ==> {
        &&& r == Some((max_local_id(s.locals@) + 1) as LocalId)
        &&& forall|i: int| 0 <= i < s.locals@.len() ==> (#[trigger] s.locals@[i]).0 < r->0
        &&& g.body() matches Some(t) && {
            &&& t.locals@ == s.locals@.push((r->0, ty))
            &&& t.blocks == s.blocks
            &&& t.reserved == s.reserved
            &&& t.last_reserved == s.last_reserved
            &&& t.entry_block == s.entry_block
            &&& t.params == s.params
            &&& body_grows(s, t)
        }
    }
}

/// Law: in a well-formed body (every known block below the counter),
/// reserving a block hands out an identifier that the body knows neither
/// as reserved nor as built, reserves it, and leaves the body well formed,
/// so that successive reservations never collide.
pub proof fn lemma_reserve_fresh(f: Function, g: Function, r: Option<BlockId>)
    requires
        f.body() matches Some(s) && s.wf(),
        reserve_step(f, g, r),
    ensures
        r matches Some(id) && {
            &&& !f.body()->0.known(id)
            &&& g.body()->0.reserved@.contains(id)
            &&& g.body()->0.wf()
        },
{
    let s = f.body()->0;
    let t = g.body()->0;
    assert forall|b: BlockId| #[trigger] t.known(b) implies b < t.last_reserved by {
        if b != s.last_reserved {
            assert(s.known(b));
        }
    }
}

/// Law: two reservations in a row hand out two consecutive, hence
/// different, identifiers.
pub proof fn lemma_reserve_twice(
    f: Function,
    g: Function,
    h: Function,
    r1: Option<BlockId>,
    r2: Option<BlockId>,
)
    requires
        f.body() is Some,
        reserve_step(f, g, r1),
        reserve_step(g, h, r2),
    ensures
        r1 matches Some(a) && r2 matches Some(b) && b == a + 1,
{
}

/// Law: a new local gets an identifier that no earlier local has.
pub proof fn lemma_new_local_fresh(f: Function, g: Function, ty: MirType, r: Option<LocalId>)
    requires
        f.body() is Some,
        new_local_step(f, g, ty, r),
    ensures
        r matches Some(id) && forall|i: int|
            0 <= i < f.body()->0.locals@.len() ==> (#[trigger] f.body()->0.locals@[i]).0 != id,
{
}

/// The function's body can take one more block identifier.
pub open spec fn can_reserve(f: Function) -> bool {
    f.body() matches Some(s) ==> s.last_reserved < u32::MAX
}

/// The function's body can take one more local.
pub open spec fn can_add_local(f: Function) -> bool {
    f.body() matches Some(s) ==> max_local_id(s.locals@) < u32::MAX
}

impl Function {
    /// The body of the function, if it is defined here.
    pub open spec fn body(&self) -> Option<FunStatic> {
        match self.linkage {
            FunctionLinkage::Static(s) => Some(s),
            FunctionLinkage::Extern(_) => None,
        }
    }

    /// The body of a function defined here; `None` for one declared
    /// elsewhere.
    pub fn get_function_data(&self) -> (r: Option<&FunStatic>)
        ensures
            r is None <==> self.body() is None,
            r matches Some(s) ==> self.body() == Some(*s),
    {
        self.linkage.get_linkage()
    }

    /// The body of a function that is defined here.
    pub fn get_function_data_unchecked(&self) -> (r: &FunStatic)
        requires
            self.body() is Some,
        ensures
            self.body() == Some(*r),
    {
        match &self.linkage {
            FunctionLinkage::Static(s) => s,
            FunctionLinkage::Extern(_) => vstd::pervasive::unreached(),
        }
    }

    /// The body of a function defined here, to change in place; `None` for
    /// one declared elsewhere.
    pub fn get_function_data_mut(&mut self) -> (r: Option<&mut FunStatic>)
        ensures
            r is None <==> old(self).body() is None,
            r is None ==> *final(self) == *old(self),
            r matches Some(s) ==> {
                &&& old(self).body() == Some(*s)
                &&& final(self).body() == Some(*final(s))
                &&& final(self).name == old(self).name
                &&& final(self).ty == old(self).ty
            },
    {
        self.linkage.get_linkage_mut()
    }

    /// The body of a function that is defined here, to change in place.
    pub fn get_function_data_mut_unchecked(&mut self) -> (r: &mut FunStatic)
        requires
            old(self).body() is Some,
        ensures
            old(self).body() == Some(*r),
            final(self).body() == Some(*final(r)),
            final(self).name == old(self).name,
            final(self).ty == old(self).ty,
    {
        match &mut self.linkage {
            FunctionLinkage::Static(s) => s,
            FunctionLinkage::Extern(_) => vstd::pervasive::unreached(),
        }
    }

    /// Hands out the next block identifier of a function defined here (the
    /// counter `last_reserved`, which then moves on) and records it as
    /// reserved; `None` for a function declared elsewhere. The identifier
    /// is fresh when the body is well formed (see `lemma_reserve_fresh`).
    pub fn reserve_new_block(&mut self) -> (r: Option<BlockId>)
        requires
            can_reserve(*old(self)),
        ensures
            reserve_step(*old(self), *final(self), r),
    {
        match &mut self.linkage {
            FunctionLinkage::Extern(_) => None,
            FunctionLinkage::Static(linkage) => {
                let ghost s = *linkage;
                let res = linkage.last_reserved;
                linkage.last_reserved = res + 1;
                linkage.reserved.insert(res);
                proof {
                    assert(s.locals@ =~= linkage.locals@.subrange(0, s.locals@.len() as int));
                }
                Some(res)
            },
        }
    }

    /// Adds a local of type `ty` to a function defined here, under the
    /// identifier one above the largest in use (1 when there is none), and
    /// returns it; `None` for a function declared elsewhere.
    pub fn new_local(&mut self, ty: MirType) -> (r: Option<LocalId>)
        requires
            can_add_local(*old(self)),
        ensures
            new_local_step(*old(self), *final(self), ty, r),
    {
        match &mut self.linkage {
            FunctionLinkage::Extern(_) => None,
            FunctionLinkage::Static(linkage) => {
                let mut max: LocalId = 0;
                let mut i: usize = 0;
                while i < linkage.locals.len()
                    invariant
                        i <= linkage.locals@.len(),
                        max == max_local_id(linkage.locals@.take(i as int)),
                    decreases linkage.locals.len() - i,
                {
                    assert(linkage.locals@.take(i + 1).drop_last() == linkage.locals@.take(
                        i as int,
                    ));
                    if linkage.locals[i].0 > max {
                        max = linkage.locals[i].0;
                    }
                    i += 1;
                }
                assert(linkage.locals@.take(i as int) == linkage.locals@);
                proof {
                    lemma_max_local_id(linkage.locals@);
                }
                let res = max + 1;
                linkage.locals.push((res, ty));
                Some(res)
            },
        }
    }
}

} // verus!
