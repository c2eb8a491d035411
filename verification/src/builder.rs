use vstd::prelude::*;

use crate::ir::{
    Context,
    ctrl_flow::{
        BasicBlock, BinOp, BlockId, LocalId, Operand, Place, RValue, Statement, Terminator,
        function::{
            Function, FunStatic, FunctionLinkage, MirFunId, can_add_local, can_reserve,
            max_local_id, new_local_step, reserve_step, body_grows,
        },
    },
    types::{MirType, opt_model},
};
use crate::typer::{place_type, rvalue_type};

verus! {

broadcast use vstd::std_specs::hash::group_hash_axioms;

/// Why building a block failed.
#[derive(Debug)]
pub enum BuildError {
    /// A jump names a block the function does not know; carries the block
    /// being built and the function.
    NoBlockInFun(BlockId, MirFunId),
    /// A cursor position past the statements of the block.
    InvalidInstructionIndex(usize),
    /// The operands of a binary operation do not type together, or the
    /// result does not fit the destination.
    MismatchedBinOp { op: BinOp, lhs: Operand, rhs: Operand },
}

/// `new` is `old` with function `fun` replaced by `g`; nothing else changes.
pub open spec fn fun_replaced(old: Context, new: Context, fun: MirFunId, g: Function) -> bool {
    &&& new.functions@ == old.functions@.insert(fun, g)
    &&& new.structs == old.structs
    &&& new.entry_point == old.entry_point
    &&& new.ptr_size == old.ptr_size
}

/// `new` is `old` with block `blk` of function `fun` set to `bb`.
pub open spec fn block_stored(
    old: Context,
    new: Context,
    fun: MirFunId,
    blk: BlockId,
    bb: BasicBlock,
) -> bool {
    &&& old.functions@.contains_key(fun)
    &&& old.functions@[fun].body() matches Some(s) && (exists|g: Function|
        {
            &&& #[trigger] fun_replaced(old, new, fun, g)
            &&& g.name == old.functions@[fun].name
            &&& g.ty == old.functions@[fun].ty
            &&& g.body() matches Some(t) && {
                &&& t.blocks@ == s.blocks@.insert(blk, bb)
                &&& t.reserved == s.reserved
                &&& t.last_reserved == s.last_reserved
                &&& t.entry_block == s.entry_block
                &&& t.params == s.params
                &&& t.locals == s.locals
                &&& body_grows(s, t)
            }
        })
}

impl Context {
    /// Hands out the next block identifier of function `fun` (see
    /// `Function::reserve_new_block`); `None` when `fun` is unknown or
    /// declared elsewhere.
    pub fn reserve_new_block(&mut self, fun: MirFunId) -> (r: Option<BlockId>)
        requires
            old(self).functions@.contains_key(fun) ==> can_reserve(old(self).functions@[fun]),
        ensures
            !old(self).functions@.contains_key(fun) ==> r is None && *final(self) == *old(self),
            old(self).functions@.contains_key(fun) ==> exists|g: Function|
                #[trigger] fun_replaced(*old(self), *final(self), fun, g) && reserve_step(
                    old(self).functions@[fun],
                    g,
                    r,
                ),
    {
        if !self.functions.contains_key(&fun) {
            return None;
        }
        let mut f = self.functions.remove(&fun).unwrap();
        let r = f.reserve_new_block();
        self.functions.insert(fun, f);
        assert(self.functions@ =~= old(self).functions@.insert(fun, f));
        assert(fun_replaced(*old(self), *self, fun, f));
        r
    }

    /// Adds a local of type `ty` to function `fun` (see `Function::new_local`);
    /// `None` when `fun` is unknown or declared elsewhere.
    pub fn new_local(&mut self, fun: MirFunId, ty: MirType) -> (r: Option<LocalId>)
        requires
            old(self).functions@.contains_key(fun) ==> can_add_local(old(self).functions@[fun]),
        ensures
            !old(self).functions@.contains_key(fun) ==> r is None && *final(self) == *old(self),
            old(self).functions@.contains_key(fun) ==> exists|g: Function|
                #[trigger] fun_replaced(*old(self), *final(self), fun, g) && new_local_step(
                    old(self).functions@[fun],
                    g,
                    ty,
                    r,
                ),
    {
        if !self.functions.contains_key(&fun) {
            return None;
        }
        let mut f = self.functions.remove(&fun).unwrap();
        let r = f.new_local(ty);
        self.functions.insert(fun, f);
        assert(self.functions@ =~= old(self).functions@.insert(fun, f));
        assert(fun_replaced(*old(self), *self, fun, f));
        r
    }
}

/// Builds the statements and the terminator of one block of one function.
///
/// Statements go in at a cursor, which then moves past them; a cursor
/// beyond the end stands for the end. Closing the block with a terminator
/// stores it in the function, replacing what was there.
pub struct Builder<'a> {
    pub fun: MirFunId,
    pub current_block: BlockId,
    pub statements: Vec<Statement>,
    pub position: usize,
    pub ctx: &'a mut Context,
}

/// Where the next statement goes: at the cursor, or at the end when the
/// cursor lies beyond it.
pub open spec fn insert_at(position: usize, len: nat) -> int {
    if position <= len {
        position as int
    } else {
        len as int
    }
}

impl<'a> Builder<'a> {
    /// The function is known to the context and has a body.
    pub open spec fn wf(&self) -> bool {
        &&& self.ctx.functions@.contains_key(self.fun)
        &&& self.ctx.functions@[self.fun].body() is Some
    }

    /// The function being built.
    pub open spec fn function(&self) -> Function {
        self.ctx.functions@[self.fun]
    }

    /// The body of the function being built.
    pub open spec fn body(&self) -> FunStatic {
        self.ctx.functions@[self.fun].body()->0
    }

    /// A builder for block `current_block` of function `fun`, with no
    /// statements yet and the cursor at `instr_idx`.
    pub fn new(fun: MirFunId, current_block: BlockId, instr_idx: usize, ctx: &'a mut Context) -> (r:
        Builder<'a>)
        ensures
            r.fun == fun,
            r.current_block == current_block,
            r.statements@ == Seq::<Statement>::empty(),
            r.position == instr_idx,
            *r.ctx == *old(ctx),
            *final(r.ctx) == *final(ctx),
    {
        Self { current_block, statements: Vec::new(), position: instr_idx, fun, ctx }
    }

    /// The block being built.
    pub fn current_block(&self) -> (r: BlockId)
        ensures
            r == self.current_block,
    {
        self.current_block
    }

    /// The function being built.
    pub fn current_fun(&self) -> (r: MirFunId)
        ensures
            r == self.fun,
    {
        self.fun
    }

    /// Moves the cursor to `idx`, which must not lie beyond the statements
    /// built so far.
    pub fn position_at(&mut self, idx: usize) -> (r: Result<(), BuildError>)
        ensures
            final(self).fun == old(self).fun,
            final(self).current_block == old(self).current_block,
            final(self).statements == old(self).statements,
            *final(self).ctx == *old(self).ctx,
            *final(final(self).ctx) == *final(old(self).ctx),
            idx <= old(self).statements@.len() ==> r is Ok && final(self).position == idx,
            idx > old(self).statements@.len() ==> (r matches Err(
                BuildError::InvalidInstructionIndex(i),
            ) && i == idx) && final(self).position == old(self).position,
    {
        if idx > self.statements.len() {
            return Err(BuildError::InvalidInstructionIndex(idx));
        }
        self.position = idx;
        Ok(())
    }

    /// Inserts `stmt` at the cursor and moves the cursor past it.
    pub fn push_stmt(&mut self, stmt: Statement)
        ensures
            final(self).fun == old(self).fun,
            final(self).current_block == old(self).current_block,
            final(self).statements@ == old(self).statements@.insert(
                insert_at(old(self).position, old(self).statements@.len()),
                stmt,
            ),
            final(self).position == insert_at(old(self).position, old(self).statements@.len()) + 1,
            *final(self).ctx == *old(self).ctx,
            *final(final(self).ctx) == *final(old(self).ctx),
    {
        let at = if self.position <= self.statements.len() {
            self.position
        } else {
            self.statements.len()
        };
        self.statements.insert(at, stmt);
        assert(at < self.statements.len());
        self.position = at + 1;
    }

    /// Appends `stmt` to the statements built so far, leaving the cursor
    /// where it is; returns the builder for further calls.
    pub fn stmt(&mut self, stmt: Statement) -> (r: &mut Self)
        ensures
            r.fun == old(self).fun,
            r.current_block == old(self).current_block,
            r.statements@ == old(self).statements@.push(stmt),
            r.position == old(self).position,
            *r.ctx == *old(self).ctx,
            *final(self) == *final(r),
            *final(r.ctx) == *final(old(self).ctx),
    {
        self.statements.push(stmt);
        self
    }

    /// Appends the assignment of `rvalue` to `place` when both have a type
    /// and the types are the same, and returns the builder for further
    /// calls; `None`, with nothing changed, otherwise (always for a
    /// function declared elsewhere, whose places have no type).
    pub fn assign(&mut self, place: Place, rvalue: RValue) -> (r: Option<&mut Self>)
        requires
            old(self).ctx.functions@.contains_key(old(self).fun),
        ensures
            ({
                let f = old(self).function();
                let pt = place_type(place, f, *old(self).ctx);
                let ok = pt is Some && pt == rvalue_type(rvalue, f, *old(self).ctx);
                &&& ok ==> (r matches Some(b) && {
                    &&& b.fun == old(self).fun
                    &&& b.current_block == old(self).current_block
                    &&& b.statements@ == old(self).statements@.push(Statement::Assign(place, rvalue))
                    &&& b.position == old(self).position
                    &&& *b.ctx == *old(self).ctx
                    &&& *final(self) == *final(b)
                    &&& *final(b.ctx) == *final(old(self).ctx)
                })
                &&& !ok ==> r is None && *final(self) == *old(self)
            }),
    {
        let dest = Some(place);
        if !self.rval_fits(&rvalue, &dest) {
            return None;
        }
        let place = dest.unwrap();
        Some(self.stmt(Statement::Assign(place, rvalue)))
    }

    /// Appends the assignment of `lhs op rhs` to `place` (see `assign`) and
    /// returns the builder for further calls; on a type mismatch returns
    /// `MismatchedBinOp` holding the operator and the operands, with nothing
    /// changed.
    pub fn binop(&mut self, op: BinOp, lhs: Operand, rhs: Operand, place: Place) -> (r: Result<
        &mut Self,
        BuildError,
    >)
        requires
            old(self).ctx.functions@.contains_key(old(self).fun),
        ensures
            ({
                let rval = RValue::BinOp(op, lhs, rhs);
                let f = old(self).function();
                let pt = place_type(place, f, *old(self).ctx);
                let ok = pt is Some && pt == rvalue_type(rval, f, *old(self).ctx);
                &&& ok ==> (r matches Ok(b) && {
                    &&& b.fun == old(self).fun
                    &&& b.current_block == old(self).current_block
                    &&& b.statements@ == old(self).statements@.push(Statement::Assign(place, rval))
                    &&& b.position == old(self).position
                    &&& *b.ctx == *old(self).ctx
                    &&& *final(self) == *final(b)
                    &&& *final(b.ctx) == *final(old(self).ctx)
                })
                &&& !ok ==> (r matches Err(e) && e == BuildError::MismatchedBinOp { op, lhs, rhs }
                    && *final(self) == *old(self))
            }),
    {
        let rval = RValue::BinOp(op, lhs, rhs);
        let dest = Some(place);
        if !self.rval_fits(&rval, &dest) {
            match rval {
                RValue::BinOp(op, lhs, rhs) => {
                    return Err(BuildError::MismatchedBinOp { op, lhs, rhs });
                },
                _ => {
                    assert(false);
                    return Err(BuildError::InvalidInstructionIndex(0));
                },
            }
        }
        let place = dest.unwrap();
        Ok(self.stmt(Statement::Assign(place, rval)))
    }

    /// Whether assigning `rval` to `dest` type-checks in the function being
    /// built: the rvalue has a type, and the destination, if given, has
    /// that same type.
    fn rval_fits(&self, rval: &RValue, dest: &Option<Place>) -> (r: bool)
        requires
            self.ctx.functions@.contains_key(self.fun),
        ensures
            r == (rvalue_type(*rval, self.function(), *old(self.ctx)) is Some && (*dest matches Some(p)
                ==> place_type(p, self.function(), *old(self.ctx)) == rvalue_type(
                *rval,
                self.function(),
                *old(self.ctx),
            ))),
    {
        let fun = self.ctx.functions.get(&self.fun).unwrap();
        let ty = match rval.get_type(fun, self.ctx) {
            Some(t) => t,
            None => return false,
        };
        match dest {
            None => true,
            Some(p) => match p.get_type(fun, self.ctx) {
                Some(pt) => pt.same_as(&ty),
                None => false,
            },
        }
    }

    /// Assigns `rval` to `dest`, or to a new local of the rvalue's type when
    /// no destination is given, inserting the assignment at the cursor;
    /// returns the place assigned. `None`, with nothing changed, when the
    /// rvalue has no type or the destination's type differs from it.
    pub fn build_rval(&mut self, rval: RValue, dest: Option<Place>) -> (r: Option<Place>)
        requires
            old(self).wf(),
            dest is None ==> can_add_local(old(self).function()),
        ensures
            final(self).wf(),
            final(self).fun == old(self).fun,
            final(self).current_block == old(self).current_block,
            *final(final(self).ctx) == *final(old(self).ctx),
            ({
                let f = old(self).function();
                let ty = rvalue_type(rval, f, *old(self).ctx);
                let at = insert_at(old(self).position, old(self).statements@.len());
                &&& (ty is None || (dest matches Some(p) && place_type(p, f, *old(self).ctx) != ty))
                    ==> {
                    &&& r is None
                    &&& final(self).statements == old(self).statements
                    &&& final(self).position == old(self).position
                    &&& *final(self).ctx == *old(self).ctx
                }
                &&& (ty is Some && (dest matches Some(p) ==> place_type(p, f, *old(self).ctx) == ty))
                    ==> {
                    &&& r is Some
                    &&& final(self).statements@ == old(self).statements@.insert(
                        at,
                        Statement::Assign(r->0, rval),
                    )
                    &&& final(self).position == at + 1
                    &&& dest matches Some(p) ==> r == Some(p) && *final(self).ctx == *old(self).ctx
                    &&& dest is None ==> {
                        let s = f.body()->0;
                        let id = (max_local_id(s.locals@) + 1) as LocalId;
                        &&& r == Some(Place::Local(id))
                        &&& forall|i: int| 0 <= i < s.locals@.len() ==> (#[trigger] s.locals@[i]).0 < id
                        &&& exists|g: Function, t: MirType|
                            fun_replaced(*old(self).ctx, *final(self).ctx, old(self).fun, g)
                                && #[trigger] new_local_step(f, g, t, Some(id)) && Some(t@) == ty
                    }
                }
            }),
    {
        if !self.rval_fits(&rval, &dest) {
            return None;
        }
        let place = match dest {
            Some(p) => p,
            None => {
                let fun = self.ctx.functions.get(&self.fun).unwrap();
                let ty = rval.get_type(fun, self.ctx).unwrap();
                let ghost t = ty;
                let id = self.ctx.new_local(self.fun, ty).unwrap();
                assert(exists|g: Function, t2: MirType|
                    fun_replaced(*old(self).ctx, *self.ctx, old(self).fun, g)
                        && #[trigger] new_local_step(old(self).function(), g, t2, Some(id)) && Some(t2@)
                        == rvalue_type(rval, old(self).function(), *old(self).ctx));
                Place::Local(id)
            },
        };
        let result = place.clone();
        self.push_stmt(Statement::Assign(place, rval));
        Some(result)
    }

    /// Assigns `lhs op rhs` to `dest`, or to a new local when no destination
    /// is given (see `build_rval`), and returns the place assigned; on a
    /// type mismatch returns `MismatchedBinOp` holding the operator and the
    /// operands, with nothing changed.
    pub fn build_binop(&mut self, op: BinOp, lhs: Operand, rhs: Operand, dest: Option<Place>) -> (r:
        Result<Place, BuildError>)
        requires
            old(self).wf(),
            dest is None ==> can_add_local(old(self).function()),
        ensures
            final(self).wf(),
            final(self).fun == old(self).fun,
            final(self).current_block == old(self).current_block,
            *final(final(self).ctx) == *final(old(self).ctx),
            ({
                let rval = RValue::BinOp(op, lhs, rhs);
                let f = old(self).function();
                let ty = rvalue_type(rval, f, *old(self).ctx);
                let at = insert_at(old(self).position, old(self).statements@.len());
                &&& (ty is None || (dest matches Some(p) && place_type(p, f, *old(self).ctx) != ty))
                    ==> {
                    &&& r == Err::<Place, BuildError>(
                        BuildError::MismatchedBinOp { op, lhs, rhs },
                    )
                    &&& final(self).statements == old(self).statements
                    &&& final(self).position == old(self).position
                    &&& *final(self).ctx == *old(self).ctx
                }
                &&& (ty is Some && (dest matches Some(p) ==> place_type(p, f, *old(self).ctx) == ty))
                    ==> {
                    &&& r is Ok
                    &&& final(self).statements@ == old(self).statements@.insert(
                        at,
                        Statement::Assign(r->Ok_0, rval),
                    )
                    &&& final(self).position == at + 1
                    &&& dest matches Some(p) ==> r == Ok::<Place, BuildError>(p)
                        && *final(self).ctx == *old(self).ctx
                    &&& dest is None ==> {
                        let s = f.body()->0;
                        let id = (max_local_id(s.locals@) + 1) as LocalId;
                        &&& r == Ok::<Place, BuildError>(Place::Local(id))
                        &&& exists|g: Function, t: MirType|
                            fun_replaced(*old(self).ctx, *final(self).ctx, old(self).fun, g)
                                && #[trigger] new_local_step(f, g, t, Some(id)) && Some(t@) == ty
                    }
                }
            }),
    {
        let rval = RValue::BinOp(op, lhs, rhs);
        if !self.rval_fits(&rval, &dest) {
            match rval {
                RValue::BinOp(op, lhs, rhs) => {
                    return Err(BuildError::MismatchedBinOp { op, lhs, rhs });
                },
                _ => {
                    assert(false);
                    return Err(BuildError::InvalidInstructionIndex(0));
                },
            }
        }
        let r = self.build_rval(rval, dest);
        Ok(r.unwrap())
    }

    /// Whether the function knows block `destination`.
    fn check_destination(&self, destination: BlockId) -> (r: Result<(), BuildError>)
        requires
            self.wf(),
        ensures
            r is Ok <==> self.body().known(destination),
            r matches Err(e) ==> e == BuildError::NoBlockInFun(self.current_block, self.fun),
    {
        let fun = self.ctx.functions.get(&self.fun).unwrap();
        let data = fun.linkage.get_linkage().unwrap();
        if data.reserved.contains(&destination) || data.blocks.contains_key(&destination) {
            Ok(())
        } else {
            Err(BuildError::NoBlockInFun(self.current_block, self.fun))
        }
    }

    /// Closes the block with `terminator`, stores it in the function and
    /// returns its identifier.
    fn finish(self, terminator: Terminator) -> (r: BlockId)
        requires
            self.wf(),
        ensures
            r == self.current_block,
            block_stored(
                *old(self.ctx),
                *final(self.ctx),
                self.fun,
                self.current_block,
                BasicBlock { statements: self.statements, terminator },
            ),
    {
        let Builder { fun, current_block, statements, position: _, ctx } = self;
        let bl = BasicBlock { statements, terminator };
        let ghost old_ctx = *ctx;
        let mut f = ctx.functions.remove(&fun).unwrap();
        let ghost old_f = f;
        match &mut f.linkage {
            FunctionLinkage::Static(data) => {
                data.blocks.insert(current_block, bl);
            },
            FunctionLinkage::Extern(_) => {},
        }
        ctx.functions.insert(fun, f);
        assert(ctx.functions@ =~= old_ctx.functions@.insert(fun, f));
        assert(fun_replaced(old_ctx, *ctx, fun, f));
        proof {
            let s = old_f.body()->0;
            let t = f.body()->0;
            assert(s.locals@ =~= t.locals@.subrange(0, s.locals@.len() as int));
            assert(body_grows(s, t));
        }
        current_block
    }

    /// Closes the block with a jump to `destination`, which the function must
    /// know; returns the block's identifier, or `NoBlockInFun` with nothing
    /// stored.
    pub fn build_goto(self, destination: BlockId) -> (r: Result<BlockId, BuildError>)
        requires
            self.wf(),
        ensures
            self.body().known(destination) ==> r == Ok::<BlockId, BuildError>(self.current_block)
                && block_stored(
                *old(self.ctx),
                *final(self.ctx),
                self.fun,
                self.current_block,
                BasicBlock { statements: self.statements, terminator: Terminator::Goto(destination) },
            ),
            !self.body().known(destination) ==> r == Err::<BlockId, BuildError>(
                BuildError::NoBlockInFun(self.current_block, self.fun),
            ) && *final(self.ctx) == *old(self.ctx),
    {
        self.check_destination(destination)?;
        Ok(self.finish(Terminator::Goto(destination)))
    }

    /// Closes the block with a branch on `discriminant` to `then_dst` or
    /// `else_dst`, which the function must both know; returns the block's
    /// identifier, or `NoBlockInFun` with nothing stored.
    pub fn build_iff(self, discriminant: Operand, then_dst: BlockId, else_dst: BlockId) -> (r:
        Result<BlockId, BuildError>)
        requires
            self.wf(),
        ensures
            self.body().known(then_dst) && self.body().known(else_dst) ==> r == Ok::<
                BlockId,
                BuildError,
            >(self.current_block) && block_stored(
                *old(self.ctx),
                *final(self.ctx),
                self.fun,
                self.current_block,
                BasicBlock {
                    statements: self.statements,
                    terminator: Terminator::Iff { discriminant, then_dst, else_dst },
                },
            ),
            !(self.body().known(then_dst) && self.body().known(else_dst)) ==> r == Err::<
                BlockId,
                BuildError,
            >(BuildError::NoBlockInFun(self.current_block, self.fun)) && *final(self.ctx)
                == *old(self.ctx),
    {
        self.check_destination(then_dst)?;
        self.check_destination(else_dst)?;
        Ok(self.finish(Terminator::Iff { discriminant, then_dst, else_dst }))
    }

    /// Closes the block with a jump to `destination`, exactly as
    /// `build_goto` does.
    pub fn goto(self, destination: BlockId) -> (r: Result<BlockId, BuildError>)
        requires
            self.wf(),
        ensures
            self.body().known(destination) ==> r == Ok::<BlockId, BuildError>(self.current_block)
                && block_stored(
                *old(self.ctx),
                *final(self.ctx),
                self.fun,
                self.current_block,
                BasicBlock { statements: self.statements, terminator: Terminator::Goto(destination) },
            ),
            !self.body().known(destination) ==> r == Err::<BlockId, BuildError>(
                BuildError::NoBlockInFun(self.current_block, self.fun),
            ) && *final(self.ctx) == *old(self.ctx),
    {
        self.build_goto(destination)
    }

    /// Closes the block with a conditional branch, exactly as `build_iff`
    /// does.
    pub fn br(self, discriminant: Operand, then_dst: BlockId, else_dst: BlockId) -> (r: Result<
        BlockId,
        BuildError,
    >)
        requires
            self.wf(),
        ensures
            self.body().known(then_dst) && self.body().known(else_dst) ==> r == Ok::<
                BlockId,
                BuildError,
            >(self.current_block) && block_stored(
                *old(self.ctx),
                *final(self.ctx),
                self.fun,
                self.current_block,
                BasicBlock {
                    statements: self.statements,
                    terminator: Terminator::Iff { discriminant, then_dst, else_dst },
                },
            ),
            !(self.body().known(then_dst) && self.body().known(else_dst)) ==> r == Err::<
                BlockId,
                BuildError,
            >(BuildError::NoBlockInFun(self.current_block, self.fun)) && *final(self.ctx)
                == *old(self.ctx),
    {
        self.build_iff(discriminant, then_dst, else_dst)
    }

    /// Closes the block with a return of `op`, exactly as `build_return`
    /// does.
    pub fn ret(self, op: Option<Operand>) -> (r: BlockId)
        requires
            self.wf(),
        ensures
            r == self.current_block,
            block_stored(
                *old(self.ctx),
                *final(self.ctx),
                self.fun,
                self.current_block,
                BasicBlock { statements: self.statements, terminator: Terminator::Return(op) },
            ),
    {
        self.build_return(op)
    }

    /// Closes the block with a return of `op`, stores it in the function and
    /// returns its identifier.
    pub fn build_return(self, op: Option<Operand>) -> (r: BlockId)
        requires
            self.wf(),
        ensures
            r == self.current_block,
            block_stored(
                *old(self.ctx),
                *final(self.ctx),
                self.fun,
                self.current_block,
                BasicBlock { statements: self.statements, terminator: Terminator::Return(op) },
            ),
    {
        self.finish(Terminator::Return(op))
    }
}

} // verus!
