use std::collections::{HashMap, HashSet};

use vstd::prelude::*;

use crate::builder::{Builder, fun_replaced};
use crate::iter_lemmas::{lemma_empty_prefix, lemma_full_prefix, lemma_prefix_to_set};
use crate::mir_verifier::copy_set;
use crate::ir::{
    Context,
    ctrl_flow::{
        BlockId, LocalId,
        function::{
            FunExtern, FunStatic, Function, FunctionLinkage, MirFunId, body_grows, dense_locals,
            reserve_count_step,
        },
    },
    types::{MirType, clone_types, function::FunctionType, lemma_types_model, tuple::TupleType},
};

verus! {

broadcast use vstd::std_specs::hash::group_hash_axioms;

/// Collects the signature of a function before adding it to a `Context`,
/// either as declared elsewhere (`build`) or with a body (`define`).
pub struct FunctionBuilder {
    pub ret_ty: MirType,
    pub params: Vec<MirType>,
    pub name: String,
    pub variadic: bool,
}

/// The signature a builder describes.
pub open spec fn builder_sig(b: FunctionBuilder) -> FunctionType {
    FunctionType { params: b.params, ret_ty: Box::new(b.ret_ty), variadic: b.variadic }
}

impl FunctionBuilder {
    /// A function named `name`, returning `void`, with no parameters.
    pub fn new(name: &str) -> (r: Self)
        ensures
            r.name@ == name@,
            r.ret_ty == MirType::Void,
            r.params@ == Seq::<MirType>::empty(),
            !r.variadic,
    {
        Self { name: String::from_str(name), ret_ty: MirType::Void, params: Vec::new(), variadic: false }
    }

    /// Sets whether further arguments may follow the parameters.
    pub fn variadic(self, v: bool) -> (r: Self)
        ensures
            r.variadic == v,
            r.params == self.params,
            r.ret_ty == self.ret_ty,
            r.name == self.name,
    {
        let mut b = self;
        b.variadic = v;
        b
    }

    /// Appends a parameter of type `ty`.
    pub fn param(self, ty: MirType) -> (r: Self)
        ensures
            r.params@ == self.params@.push(ty),
            r.variadic == self.variadic,
            r.ret_ty == self.ret_ty,
            r.name == self.name,
    {
        let mut b = self;
        b.params.push(ty);
        b
    }

    /// Sets the return type.
    pub fn ret_ty(self, ty: MirType) -> (r: Self)
        ensures
            r.ret_ty == ty,
            r.params == self.params,
            r.variadic == self.variadic,
            r.name == self.name,
    {
        let mut b = self;
        b.ret_ty = ty;
        b
    }

    /// Adds the function to `ctx` as declared elsewhere and returns its
    /// identifier (see `Context::add_function`).
    pub fn build(self, ctx: &mut Context) -> (r: MirFunId)
        requires
            old(ctx).functions@.len() < u32::MAX,
        ensures
            !old(ctx).functions@.contains_key(r),
            final(ctx).functions@.contains_key(r),
            final(ctx).functions@ == old(ctx).functions@.insert(r, final(ctx).functions@[r]),
            final(ctx).functions@[r].name == self.name,
            final(ctx).functions@[r].ty == builder_sig(self),
            final(ctx).functions@[r].body() is None,
            final(ctx).structs == old(ctx).structs,
            final(ctx).entry_point == old(ctx).entry_point,
            final(ctx).ptr_size == old(ctx).ptr_size,
    {
        let sig = FunctionType::new(self.params, self.ret_ty, self.variadic);
        let fun = Function { name: self.name, ty: sig, linkage: FunctionLinkage::Extern(FunExtern) };
        ctx.add_function(fun)
    }

    /// Adds the function to `ctx` with a body: its parameters become locals
    /// `0..n` of their types, and block 0, reserved, is its entry block.
    /// Returns a builder for the body.
    pub fn define(self, ctx: &mut Context) -> (r: DefinedFunctionBuilder)
        requires
            old(ctx).functions@.len() < u32::MAX,
            self.params@.len() <= u32::MAX,
        ensures
            !old(ctx).functions@.contains_key(r.id),
            final(ctx).functions@.contains_key(r.id),
            final(ctx).functions@ == old(ctx).functions@.insert(r.id, final(ctx).functions@[r.id]),
            final(ctx).functions@[r.id].name == self.name,
            final(ctx).functions@[r.id].ty == builder_sig(self),
            final(ctx).functions@[r.id].body() matches Some(s) && {
                &&& s.params@ == Seq::new(self.params@.len(), |i: int| i as LocalId)
                &&& s.locals@.len() == self.params@.len()
                &&& forall|i: int| 0 <= i < s.locals@.len() ==> (#[trigger] s.locals@[i]).0 == i
                    && s.locals@[i].1@ == self.params@[i]@
                &&& s.blocks@ == Map::<BlockId, crate::ir::ctrl_flow::BasicBlock>::empty()
                &&& s.entry_block == Some(0u32)
                &&& s.reserved@ == set![0u32]
                &&& s.last_reserved == 1
                &&& dense_locals(s.locals@)
                &&& s.wf()
            },
            final(ctx).structs == old(ctx).structs,
            final(ctx).entry_point == old(ctx).entry_point,
            final(ctx).ptr_size == old(ctx).ptr_size,
    {
        let ghost tt = TupleType { tys: self.params };
        let ghost owner = MirType::Tuple(tt);
        assert(decreases_to!(owner => owner->Tuple_0));
        assert(owner->Tuple_0 == tt);
        assert(decreases_to!(tt => tt.tys));
        assert(decreases_to!(owner => self.params));
        let param_tys = clone_types(Ghost(owner), &self.params);
        let sig = FunctionType::new(self.params, self.ret_ty, self.variadic);
        let mut params: Vec<LocalId> = Vec::new();
        let mut locals: Vec<(LocalId, MirType)> = Vec::new();
        let mut i: usize = 0;
        while i < param_tys.len()
            invariant
                i <= param_tys@.len(),
                param_tys@.len() == sig.params@.len(),
                sig.params@.len() <= u32::MAX,
                forall|j: int| 0 <= j < param_tys@.len() ==> (#[trigger] param_tys@[j])@ == sig.params@[j]@,
                params@ == Seq::new(i as nat, |j: int| j as LocalId),
                locals@.len() == i,
                forall|j: int| 0 <= j < i ==> (#[trigger] locals@[j]).0 == j && locals@[j].1@
                    == sig.params@[j]@,
            decreases param_tys.len() - i,
        {
            let id = i as LocalId;
            params.push(id);
            let t = param_tys[i].clone();
            locals.push((id, t));
            i += 1;
            assert(params@ =~= Seq::new(i as nat, |j: int| j as LocalId));
        }
        let mut reserved: HashSet<BlockId> = HashSet::new();
        reserved.insert(0);
        let data = FunStatic {
            params,
            locals,
            blocks: HashMap::new(),
            entry_block: Some(0),
            reserved,
            last_reserved: 1,
        };
        assert(data.reserved@ =~= set![0u32]);
        let fun = Function { name: self.name, ty: sig, linkage: FunctionLinkage::Static(data) };
        let id = ctx.add_function(fun);
        DefinedFunctionBuilder::new(id)
    }
}

/// Adds locals and blocks to the body of function `id`, and builds its
/// blocks.
pub struct DefinedFunctionBuilder {
    pub id: MirFunId,
}

impl DefinedFunctionBuilder {
    /// The builder for the body of function `id`.
    pub fn new(id: MirFunId) -> (r: Self)
        ensures
            r.id == id,
    {
        Self { id }
    }

    /// The function being defined.
    pub fn id(&self) -> (r: MirFunId)
        ensures
            r == self.id,
    {
        self.id
    }

    /// Adds a local of type `ty`, named by the number of locals so far.
    pub fn add_local(&self, ty: MirType, ctx: &mut Context) -> (r: LocalId)
        requires
            old(ctx).functions@.contains_key(self.id),
            old(ctx).functions@[self.id].body() matches Some(s) && s.locals@.len() < u32::MAX,
        ensures
            ({
                let f = old(ctx).functions@[self.id];
                let s = f.body()->0;
                &&& r == s.locals@.len()
                &&& exists|g: Function|
                    #[trigger] fun_replaced(*old(ctx), *final(ctx), self.id, g) && g.name == f.name
                        && g.ty == f.ty && (g.body() matches Some(t) && t.locals@ == s.locals@.push(
                        (r, ty),
                    ) && t.blocks == s.blocks && t.reserved == s.reserved && t.last_reserved
                        == s.last_reserved && t.entry_block == s.entry_block && t.params == s.params
                        && body_grows(s, t) && (dense_locals(s.locals@) ==> dense_locals(
                        t.locals@,
                    )))
                &&& dense_locals(s.locals@) ==> forall|i: int|
                    0 <= i < s.locals@.len() ==> (#[trigger] s.locals@[i]).0 != r
            }),
    {
        let mut f = ctx.functions.remove(&self.id).unwrap();
        let ghost old_ctx = *old(ctx);
        let next_id: LocalId;
        match &mut f.linkage {
            FunctionLinkage::Static(data) => {
                next_id = data.locals.len() as LocalId;
                data.locals.push((next_id, ty));
            },
            FunctionLinkage::Extern(_) => {
                next_id = 0;
                assert(false);
            },
        }
        ctx.functions.insert(self.id, f);
        assert(ctx.functions@ =~= old_ctx.functions@.insert(self.id, f));
        assert(fun_replaced(old_ctx, *ctx, self.id, f));
        proof {
            let s = old_ctx.functions@[self.id].body()->0;
            let t = f.body()->0;
            assert(s.locals@ =~= t.locals@.subrange(0, s.locals@.len() as int));
            assert(body_grows(s, t));
        }
        next_id
    }

    /// Reserves, and returns, the block whose identifier is the number of
    /// blocks the function knows, reserved or built; right after `define`
    /// successive calls give 1, 2, 3, .... A block already built under
    /// that identifier gives way to the reservation.
    pub fn reserve_block(&self, ctx: &mut Context) -> (r: BlockId)
        requires
            old(ctx).functions@.contains_key(self.id),
            old(ctx).functions@[self.id].body() matches Some(s) && s.known_set().len()
                < u32::MAX,
        ensures
            ({
                let f = old(ctx).functions@[self.id];
                let s = f.body()->0;
                &&& r == s.known_set().len()
                &&& exists|g: Function|
                    #[trigger] fun_replaced(*old(ctx), *final(ctx), self.id, g) && g.name == f.name
                        && g.ty == f.ty && (g.body() matches Some(t) && reserve_count_step(s, t, r))
            }),
    {
        let mut f = ctx.functions.remove(&self.id).unwrap();
        let ghost old_ctx = *old(ctx);
        let ghost s0 = old_ctx.functions@[self.id].body()->0;
        let next_id: BlockId;
        match &mut f.linkage {
            FunctionLinkage::Static(data) => {
                let mut all = copy_set(&data.reserved);
                proof {
                    assert forall|q: Seq<&BlockId>| #[trigger] q.take(0).unref().to_set()
                        == Set::<BlockId>::empty() by {
                        lemma_empty_prefix(q);
                    }
                    assert(all@ =~= data.reserved@.union(Set::<BlockId>::empty()));
                }
                for k in it: data.blocks.keys()
                    invariant
                        it.seq().unref().to_set() == data.blocks@.dom(),
                        all@ == data.reserved@.union(
                            it.seq().take(it.index() as int).unref().to_set(),
                        ),
                        it.index() == it.seq().len() ==> all@ == data.known_set(),
                {
                    proof {
                        lemma_prefix_to_set(it.seq(), it.index() as int);
                        lemma_full_prefix(it.seq());
                    }
                    all.insert(*k);
                    assert(all@ =~= data.reserved@.union(
                        it.seq().take(it.index() + 1).unref().to_set(),
                    ));
                }
                next_id = all.len() as BlockId;
                let ghost before = *data;
                data.reserved.insert(next_id);
                data.blocks.remove(&next_id);
                if data.last_reserved <= next_id {
                    data.last_reserved = next_id + 1;
                }
                proof {
                    assert(before.locals@ =~= data.locals@.subrange(0, before.locals@.len() as int));
                    assert forall|k: BlockId| #[trigger] before.known(k) implies data.known(k) by {}
                }
            },
            FunctionLinkage::Extern(_) => {
                next_id = 0;
                assert(false);
            },
        }
        ctx.functions.insert(self.id, f);
        assert(ctx.functions@ =~= old_ctx.functions@.insert(self.id, f));
        assert(fun_replaced(old_ctx, *ctx, self.id, f));
        next_id
    }

    /// A builder for block `block_id` of the function, cursor at 0.
    pub fn build_block<'a>(&self, block_id: BlockId, ctx: &'a mut Context) -> (r: Builder<'a>)
        requires
            old(ctx).functions@.contains_key(self.id),
            old(ctx).functions@[self.id].body() is Some,
        ensures
            r.wf(),
            r.fun == self.id,
            r.current_block == block_id,
            r.statements@.len() == 0,
            r.position == 0,
            *r.ctx == *old(ctx),
            *final(r.ctx) == *final(ctx),
    {
        Builder::new(self.id, block_id, 0, ctx)
    }

    /// The entry block of the function.
    pub fn entry_block(&self, ctx: &Context) -> (r: BlockId)
        requires
            ctx.functions@.contains_key(self.id),
            ctx.functions@[self.id].body() matches Some(s) && s.entry_block is Some,
        ensures
            Some(r) == ctx.functions@[self.id].body()->0.entry_block,
    {
        let f = ctx.functions.get(&self.id).unwrap();
        f.linkage.get_linkage().unwrap().entry_block.unwrap()
    }

    /// Ends the definition and returns the function's identifier.
    pub fn finish(self) -> (r: MirFunId)
        ensures
            r == self.id,
    {
        self.id
    }

    /// The number of parameters of the function's body.
    pub fn param_count(&self, ctx: &Context) -> (r: usize)
        requires
            ctx.functions@.contains_key(self.id),
            ctx.functions@[self.id].body() is Some,
        ensures
            r == ctx.functions@[self.id].body()->0.params@.len(),
    {
        let f = ctx.functions.get(&self.id).unwrap();
        f.linkage.get_linkage().unwrap().params.len()
    }

    /// The local holding parameter `i`, if there is one.
    pub fn param(&self, i: usize, ctx: &Context) -> (r: Option<LocalId>)
        requires
            ctx.functions@.contains_key(self.id),
            ctx.functions@[self.id].body() is Some,
        ensures
            ({
                let ps = ctx.functions@[self.id].body()->0.params@;
                &&& i < ps.len() ==> r == Some(ps[i as int])
                &&& i >= ps.len() ==> r is None
            }),
    {
        let f = ctx.functions.get(&self.id).unwrap();
        let params = &f.linkage.get_linkage().unwrap().params;
        if i < params.len() {
            Some(params[i])
        } else {
            None
        }
    }
}

} // verus!
