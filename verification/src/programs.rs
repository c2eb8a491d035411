use vstd::prelude::*;

use crate::builder::{block_stored, fun_replaced};
use crate::ir::{
    Context,
    builder::function_builder::FunctionBuilder,
    ctrl_flow::{
        BasicBlock, BinOp, BlockId, Constant, LocalId, Operand, Place, ProjectionKind, RValue,
        Statement, Terminator,
        function::{Function, FunStatic, MirFunId, reserve_count_step},
    },
    types::{MirType, TypeModel, int_ty::IntType, type_model},
};
use crate::typer::{fun_locals, local_type, place_type, rvalue_type};

verus! {

broadcast use vstd::std_specs::hash::group_hash_axioms;

/// The model of `*u8`.
pub open spec fn ptr_u8() -> TypeModel {
    TypeModel::Ptr(Box::new(TypeModel::Int(IntType::U8)))
}

/// The body of the greeting's `main`: parameters 0 (`i64`) and 1 (`*u8`),
/// local 2 (`i64`), and one block, the entry block 0, that stores into
/// local 2 what `printf` (function `printf_id`) returns for the text
/// `Hello, World !\n`, then returns the `i64` constant 0.
pub open spec fn hello_body(s: FunStatic, printf_id: MirFunId) -> bool {
    &&& s.params@ == seq![0 as LocalId, 1 as LocalId]
    &&& s.locals@.len() == 3
    &&& forall|i: int| 0 <= i < 3 ==> (#[trigger] s.locals@[i]).0 == i
    &&& s.locals@[0].1@ == TypeModel::Int(IntType::I64)
    &&& s.locals@[1].1@ == ptr_u8()
    &&& s.locals@[2].1@ == TypeModel::Int(IntType::I64)
    &&& s.entry_block == Some(0u32)
    &&& s.reserved@ == set![0u32]
    &&& s.last_reserved == 1
    &&& s.blocks@.dom() == set![0u32]
    &&& s.blocks@[0].statements@.len() == 1
    &&& s.blocks@[0].statements@[0] matches Statement::Assign(
        Place::Local(2),
        RValue::Use(Operand::Call { func, args }),
    ) && func == printf_id && args@.len() == 1 && (args@[0] matches Operand::Constant(
        Constant::Str(t),
    ) && t@ == "Hello, World !\n"@)
    &&& s.blocks@[0].terminator == Terminator::Return(
        Some(Operand::Constant(Constant::Int(0, MirType::Int(IntType::I64)))),
    )
}

/// `after` is `before` with two new functions: `printf`, declared
/// elsewhere with signature `(*u8, ...) -> i64`, and `main`, with signature
/// `(i64, *u8) -> i64` and the body `hello_body`.
pub open spec fn hello_program(before: Context, after: Context, printf_id: MirFunId, main_id: MirFunId) -> bool {
    let p = after.functions@[printf_id];
    let m = after.functions@[main_id];
    &&& !before.functions@.contains_key(printf_id)
    &&& !before.functions@.contains_key(main_id)
    &&& printf_id != main_id
    &&& after.functions@ == before.functions@.insert(printf_id, p).insert(main_id, m)
    &&& p.name@ == "printf"@
    &&& p.body() is None
    &&& p.ty.params@.len() == 1
    &&& p.ty.params@[0]@ == ptr_u8()
    &&& p.ty.variadic
    &&& (*p.ty.ret_ty)@ == TypeModel::Int(IntType::I64)
    &&& m.name@ == "main"@
    &&& m.ty.params@.len() == 2
    &&& m.ty.params@[0]@ == TypeModel::Int(IntType::I64)
    &&& m.ty.params@[1]@ == ptr_u8()
    &&& !m.ty.variadic
    &&& (*m.ty.ret_ty)@ == TypeModel::Int(IntType::I64)
    &&& m.body() matches Some(s) && hello_body(s, printf_id)
    &&& after.structs == before.structs
    &&& after.entry_point == before.entry_point
    &&& after.ptr_size == before.ptr_size
}

/// Builds the greeting program in `ctx` (see `hello_program`) and returns
/// the identifiers of `printf` and `main`.
pub fn build_hello(ctx: &mut Context) -> (r: (MirFunId, MirFunId))
    requires
        old(ctx).functions@.len() + 2 < u32::MAX,
    ensures
        hello_program(*old(ctx), *final(ctx), r.0, r.1),
{
    let ghost c0 = *ctx;
    let int_type = IntType::I64.into_mir();
    let printf_fun = FunctionBuilder::new("printf")
        .param(IntType::U8.into_mir().wrap_ptr().into_mir())
        .variadic(true)
        .ret_ty(IntType::I64.into_mir())
        .build(ctx);
    let ghost c1 = *ctx;
    assert(c1.functions@.len() == c0.functions@.len() + 1);
    let builder = FunctionBuilder::new("main")
        .param(IntType::I64.into_mir())
        .param(IntType::U8.into_mir().wrap_ptr().into_mir())
        .ret_ty(IntType::I64.into_mir())
        .define(ctx);
    let main_id = builder.id();
    let ghost c2 = *ctx;
    let call_ret = builder.add_local(IntType::I64.into_mir(), ctx);
    let ghost c3 = *ctx;
    proof {
        let g = choose|g: Function| #[trigger] fun_replaced(c2, c3, main_id, g) && g.name
            == c2.functions@[main_id].name && g.ty == c2.functions@[main_id].ty && (g.body() matches Some(t)
            && t.locals@ == c2.functions@[main_id].body()->0.locals@.push((call_ret, int_type))
            && t.blocks == c2.functions@[main_id].body()->0.blocks
            && t.reserved == c2.functions@[main_id].body()->0.reserved
            && t.last_reserved == c2.functions@[main_id].body()->0.last_reserved
            && t.entry_block == c2.functions@[main_id].body()->0.entry_block
            && t.params == c2.functions@[main_id].body()->0.params);
        assert(c3.functions@[main_id] == g);
        let locals = fun_locals(g);
        assert(locals[2].0 == 2);
        assert(local_type(locals, 2) == local_type(locals.drop_first(), 2));
        assert(local_type(locals.drop_first(), 2) == local_type(locals.drop_first().drop_first(), 2));
        assert(local_type(locals, 2) == Some(int_type));
    }
    let entry = builder.entry_block(ctx);
    let mut block = builder.build_block(entry, ctx);
    let mut args: Vec<Operand> = Vec::new();
    args.push(Operand::Constant(Constant::Str(String::from_str("Hello, World !\n"))));
    let ghost argv = args;
    let rv = RValue::Use(Operand::Call { func: printf_fun, args });
    proof {
        let f = c3.functions@[main_id];
        assert(c3.functions@.contains_key(printf_fun));
        assert(c3.functions@[printf_fun] == c1.functions@[printf_fun]);
        assert(crate::typer::place_type(Place::Local(call_ret), f, c3) == Some(
            TypeModel::Int(IntType::I64),
        ));
        assert(crate::typer::rvalue_type(rv, f, c3) == Some(TypeModel::Int(IntType::I64)));
    }
    let ghost stmts_before = block.statements@;
    let assigned = block.assign(Place::Local(call_ret), rv);
    assert(assigned is Some);
    let ghost stmts = block.statements;
    assert(stmts@ == seq![
        Statement::Assign(
            Place::Local(2),
            RValue::Use(Operand::Call { func: printf_fun, args: argv }),
        ),
    ]);
    assert(*block.ctx == c3);
    block.ret(Some(Operand::Constant(Constant::Int(0, int_type))));
    proof {
        let bb = BasicBlock {
            statements: stmts,
            terminator: Terminator::Return(
                Some(Operand::Constant(Constant::Int(0, MirType::Int(IntType::I64)))),
            ),
        };
        assert(crate::builder::block_stored(c3, *ctx, main_id, 0, bb));
        let s3 = c3.functions@[main_id].body()->0;
        let g = choose|g: Function|
            {
                &&& #[trigger] fun_replaced(c3, *ctx, main_id, g)
                &&& g.name == c3.functions@[main_id].name
                &&& g.ty == c3.functions@[main_id].ty
                &&& g.body() matches Some(t) && {
                    &&& t.blocks@ == s3.blocks@.insert(0, bb)
                    &&& t.reserved == s3.reserved
                    &&& t.last_reserved == s3.last_reserved
                    &&& t.entry_block == s3.entry_block
                    &&& t.params == s3.params
                    &&& t.locals == s3.locals
                    &&& crate::ir::ctrl_flow::function::body_grows(s3, t)
                }
            };
        let after = *ctx;
        assert(after.functions@[main_id] == g);
        assert(after.functions@[printf_fun] == c1.functions@[printf_fun]);
        assert(after.functions@ =~= c0.functions@.insert(printf_fun, after.functions@[printf_fun]).insert(main_id, g));
        let t = g.body()->0;
        assert(t.blocks@.dom() =~= set![0u32]);
        assert(t.params@ =~= seq![0 as LocalId, 1 as LocalId]);
        assert(hello_body(t, printf_fun));
    }
    (printf_fun, main_id)
}

/// The place that local `l`, a pointer, points to.
pub open spec fn deref(l: LocalId) -> Place {
    Place::Projection(Box::new(Place::Local(l)), ProjectionKind::Deref)
}

/// The `i64` constant `v` as an operand.
pub open spec fn i64_const(v: i64) -> Operand {
    Operand::Constant(Constant::Int(v, MirType::Int(IntType::I64)))
}

/// The locals of `fib`: parameter `n` (0, `i64`), pointers to the counter,
/// to `a` and to `b` (1, 2, 3, `*i64`) and the loop condition (4, `bool`).
pub open spec fn fib_locals(l: Seq<(LocalId, MirType)>) -> bool {
    &&& l.len() == 5
    &&& forall|i: int| 0 <= i < 5 ==> (#[trigger] l[i]).0 == i
    &&& l[0].1@ == TypeModel::Int(IntType::I64)
    &&& l[1].1@ == TypeModel::Ptr(Box::new(TypeModel::Int(IntType::I64)))
    &&& l[2].1@ == TypeModel::Ptr(Box::new(TypeModel::Int(IntType::I64)))
    &&& l[3].1@ == TypeModel::Ptr(Box::new(TypeModel::Int(IntType::I64)))
    &&& l[4].1@ == TypeModel::Int(IntType::Bool)
}

/// The body of `fib`, with blocks 0 (entry), 1 (loop test), 2 (loop body)
/// and 3 (exit):
/// - 0: `*%2 = 1; *%3 = 1; *%1 = 2; goto bb1`
/// - 1: `%4 = (copy(*%1) < copy(%0)); br copy(%4) bb2 bb3`
/// - 2: `*%2 = (copy(*%2) + copy(*%3)); *%3 = (copy(*%2) - copy(*%3));
///   *%1 = (copy(*%1) + 1); goto bb1`
/// - 3: `ret copy(*%2)`
pub open spec fn fib_body(s: FunStatic) -> bool {
    &&& s.params@ == seq![0 as LocalId]
    &&& fib_locals(s.locals@)
    &&& s.entry_block == Some(0u32)
    &&& s.reserved@ == set![0u32, 1u32, 2u32, 3u32]
    &&& s.last_reserved == 4
    &&& s.blocks@.dom() == set![0u32, 1u32, 2u32, 3u32]
    &&& s.blocks@[0].statements@ == seq![
        Statement::Assign(deref(2), RValue::Use(i64_const(1))),
        Statement::Assign(deref(3), RValue::Use(i64_const(1))),
        Statement::Assign(deref(1), RValue::Use(i64_const(2))),
    ]
    &&& s.blocks@[0].terminator == Terminator::Goto(1)
    &&& s.blocks@[1].statements@ == seq![
        Statement::Assign(
            Place::Local(4),
            RValue::BinOp(BinOp::Lt, Operand::Copy(deref(1)), Operand::Copy(Place::Local(0))),
        ),
    ]
    &&& s.blocks@[1].terminator == Terminator::Iff {
        discriminant: Operand::Copy(Place::Local(4)),
        then_dst: 2,
        else_dst: 3,
    }
    &&& s.blocks@[2].statements@ == seq![
        Statement::Assign(
            deref(2),
            RValue::BinOp(BinOp::Add, Operand::Copy(deref(2)), Operand::Copy(deref(3))),
        ),
        Statement::Assign(
            deref(3),
            RValue::BinOp(BinOp::Sub, Operand::Copy(deref(2)), Operand::Copy(deref(3))),
        ),
        Statement::Assign(
            deref(1),
            RValue::BinOp(BinOp::Add, Operand::Copy(deref(1)), i64_const(1)),
        ),
    ]
    &&& s.blocks@[2].terminator == Terminator::Goto(1)
    &&& s.blocks@[3].statements@.len() == 0
    &&& s.blocks@[3].terminator == Terminator::Return(Some(Operand::Copy(deref(2))))
}

/// `after` is `before` with one new function `fib`, of signature
/// `(i64) -> i64` and body `fib_body`.
pub open spec fn fib_program(before: Context, after: Context, fib_id: MirFunId) -> bool {
    let f = after.functions@[fib_id];
    &&& !before.functions@.contains_key(fib_id)
    &&& after.functions@ == before.functions@.insert(fib_id, f)
    &&& f.name@ == "fib"@
    &&& f.ty.params@.len() == 1
    &&& f.ty.params@[0]@ == TypeModel::Int(IntType::I64)
    &&& !f.ty.variadic
    &&& (*f.ty.ret_ty)@ == TypeModel::Int(IntType::I64)
    &&& f.body() matches Some(s) && fib_body(s)
    &&& after.structs == before.structs
    &&& after.entry_point == before.entry_point
    &&& after.ptr_size == before.ptr_size
}

/// The type of a local that `locals` lists once, with no other entry of
/// that identifier before it.
proof fn lemma_local_type_at(locals: Seq<(LocalId, MirType)>, id: LocalId, j: int)
    requires
        0 <= j < locals.len(),
        locals[j].0 == id,
        forall|i: int| 0 <= i < j ==> (#[trigger] locals[i]).0 != id,
    ensures
        local_type(locals, id) == Some(locals[j].1),
    decreases j,
{
    if j > 0 {
        let rest = locals.drop_first();
        assert forall|i: int| 0 <= i < j - 1 implies (#[trigger] rest[i]).0 != id by {
            assert(rest[i] == locals[i + 1]);
        }
        assert(rest[j - 1] == locals[j]);
        lemma_local_type_at(rest, id, j - 1);
    }
}

/// The places and rvalues of `fib` have the types its assignments need.
proof fn lemma_fib_types(f: Function, ctx: Context)
    requires
        fib_locals(fun_locals(f)),
    ensures
        place_type(Place::Local(0), f, ctx) == Some(TypeModel::Int(IntType::I64)),
        place_type(Place::Local(4), f, ctx) == Some(TypeModel::Int(IntType::Bool)),
        place_type(deref(1), f, ctx) == Some(TypeModel::Int(IntType::I64)),
        place_type(deref(2), f, ctx) == Some(TypeModel::Int(IntType::I64)),
        place_type(deref(3), f, ctx) == Some(TypeModel::Int(IntType::I64)),
        rvalue_type(RValue::Use(i64_const(1)), f, ctx) == Some(TypeModel::Int(IntType::I64)),
        rvalue_type(RValue::Use(i64_const(2)), f, ctx) == Some(TypeModel::Int(IntType::I64)),
        rvalue_type(
            RValue::BinOp(BinOp::Lt, Operand::Copy(deref(1)), Operand::Copy(Place::Local(0))),
            f,
            ctx,
        ) == Some(TypeModel::Int(IntType::Bool)),
        rvalue_type(
            RValue::BinOp(BinOp::Add, Operand::Copy(deref(2)), Operand::Copy(deref(3))),
            f,
            ctx,
        ) == Some(TypeModel::Int(IntType::I64)),
        rvalue_type(
            RValue::BinOp(BinOp::Sub, Operand::Copy(deref(2)), Operand::Copy(deref(3))),
            f,
            ctx,
        ) == Some(TypeModel::Int(IntType::I64)),
        rvalue_type(
            RValue::BinOp(BinOp::Add, Operand::Copy(deref(1)), i64_const(1)),
            f,
            ctx,
        ) == Some(TypeModel::Int(IntType::I64)),
{
    let l = fun_locals(f);
    assert forall|id: int| 0 <= id < 5 implies local_type(l, id as LocalId) == Some(l[id].1) by {
        assert forall|i: int| 0 <= i < id implies (#[trigger] l[i]).0 != id as LocalId by {}
        lemma_local_type_at(l, id as LocalId, id);
    }
    assert(local_type(l, 0) == Some(l[0].1));
    assert(local_type(l, 1) == Some(l[1].1));
    assert(local_type(l, 2) == Some(l[2].1));
    assert(local_type(l, 3) == Some(l[3].1));
    assert(local_type(l, 4) == Some(l[4].1));
    assert(place_type(Place::Local(1), f, ctx) == Some(l[1].1@));
    assert(place_type(Place::Local(2), f, ctx) == Some(l[2].1@));
    assert(place_type(Place::Local(3), f, ctx) == Some(l[3].1@));
    assert(place_type(deref(1), f, ctx) == Some(TypeModel::Int(IntType::I64)));
    assert(place_type(deref(2), f, ctx) == Some(TypeModel::Int(IntType::I64)));
    assert(place_type(deref(3), f, ctx) == Some(TypeModel::Int(IntType::I64)));
}

/// The parts of a body that building one block leaves alone: all of it
/// but the block map.
spec fn same_frame(s: FunStatic, t: FunStatic) -> bool {
    &&& t.reserved == s.reserved
    &&& t.last_reserved == s.last_reserved
    &&& t.entry_block == s.entry_block
    &&& t.params == s.params
    &&& t.locals == s.locals
}

/// What storing block `blk` of function `fun` does to a context.
proof fn lemma_block_stored(before: Context, after: Context, fun: MirFunId, blk: BlockId, bb: BasicBlock)
    requires
        block_stored(before, after, fun, blk, bb),
    ensures
        after.functions@ == before.functions@.insert(fun, after.functions@[fun]),
        after.functions@[fun].name == before.functions@[fun].name,
        after.functions@[fun].ty == before.functions@[fun].ty,
        after.functions@[fun].body() matches Some(t) && {
            &&& t.blocks@ == before.functions@[fun].body()->0.blocks@.insert(blk, bb)
            &&& same_frame(before.functions@[fun].body()->0, t)
        },
        after.structs == before.structs,
        after.entry_point == before.entry_point,
        after.ptr_size == before.ptr_size,
{
    let s = before.functions@[fun].body()->0;
    let g = choose|g: Function|
        {
            &&& #[trigger] fun_replaced(before, after, fun, g)
            &&& g.name == before.functions@[fun].name
            &&& g.ty == before.functions@[fun].ty
            &&& g.body() matches Some(t) && {
                &&& t.blocks@ == s.blocks@.insert(blk, bb)
                &&& t.reserved == s.reserved
                &&& t.last_reserved == s.last_reserved
                &&& t.entry_block == s.entry_block
                &&& t.params == s.params
                &&& t.locals == s.locals
                &&& crate::ir::ctrl_flow::function::body_grows(s, t)
            }
        };
    assert(after.functions@[fun] == g);
}

/// What reserving block `r` of function `fun` by count does to a context.
proof fn lemma_reserved(before: Context, after: Context, fun: MirFunId, r: BlockId)
    requires
        before.functions@.contains_key(fun),
        before.functions@[fun].body() is Some,
        exists|g: Function|
            #[trigger] fun_replaced(before, after, fun, g) && g.name == before.functions@[fun].name
                && g.ty == before.functions@[fun].ty && (g.body() matches Some(t)
                && reserve_count_step(before.functions@[fun].body()->0, t, r)),
    ensures
        after.functions@ == before.functions@.insert(fun, after.functions@[fun]),
        after.functions@[fun].name == before.functions@[fun].name,
        after.functions@[fun].ty == before.functions@[fun].ty,
        after.functions@[fun].body() matches Some(t) && reserve_count_step(
            before.functions@[fun].body()->0,
            t,
            r,
        ),
        after.structs == before.structs,
        after.entry_point == before.entry_point,
        after.ptr_size == before.ptr_size,
{
    let g = choose|g: Function|
        #[trigger] fun_replaced(before, after, fun, g) && g.name == before.functions@[fun].name
            && g.ty == before.functions@[fun].ty && (g.body() matches Some(t)
            && reserve_count_step(before.functions@[fun].body()->0, t, r));
    assert(after.functions@[fun] == g);
}

/// What adding local `r` of type `ty` to function `fun` does to a context.
proof fn lemma_local_added(before: Context, after: Context, fun: MirFunId, ty: MirType, r: LocalId)
    requires
        before.functions@.contains_key(fun),
        before.functions@[fun].body() is Some,
        exists|g: Function|
            #[trigger] fun_replaced(before, after, fun, g) && g.name == before.functions@[fun].name
                && g.ty == before.functions@[fun].ty && (g.body() matches Some(t) && t.locals@
                == before.functions@[fun].body()->0.locals@.push((r, ty)) && t.blocks
                == before.functions@[fun].body()->0.blocks && t.reserved
                == before.functions@[fun].body()->0.reserved && t.last_reserved
                == before.functions@[fun].body()->0.last_reserved && t.entry_block
                == before.functions@[fun].body()->0.entry_block && t.params
                == before.functions@[fun].body()->0.params && crate::ir::ctrl_flow::function::body_grows(
                before.functions@[fun].body()->0,
                t,
            ) && (crate::ir::ctrl_flow::function::dense_locals(
                before.functions@[fun].body()->0.locals@,
            ) ==> crate::ir::ctrl_flow::function::dense_locals(t.locals@))),
    ensures
        after.functions@ == before.functions@.insert(fun, after.functions@[fun]),
        after.functions@[fun].name == before.functions@[fun].name,
        after.functions@[fun].ty == before.functions@[fun].ty,
        after.functions@[fun].body() matches Some(t) && {
            &&& t.locals@ == before.functions@[fun].body()->0.locals@.push((r, ty))
            &&& t.blocks == before.functions@[fun].body()->0.blocks
            &&& t.reserved == before.functions@[fun].body()->0.reserved
            &&& t.last_reserved == before.functions@[fun].body()->0.last_reserved
            &&& t.entry_block == before.functions@[fun].body()->0.entry_block
            &&& t.params == before.functions@[fun].body()->0.params
        },
        after.structs == before.structs,
        after.entry_point == before.entry_point,
        after.ptr_size == before.ptr_size,
{
    let g = choose|g: Function|
        #[trigger] fun_replaced(before, after, fun, g) && g.name == before.functions@[fun].name
            && g.ty == before.functions@[fun].ty && (g.body() matches Some(t) && t.locals@
            == before.functions@[fun].body()->0.locals@.push((r, ty)) && t.blocks
            == before.functions@[fun].body()->0.blocks && t.reserved
            == before.functions@[fun].body()->0.reserved && t.last_reserved
            == before.functions@[fun].body()->0.last_reserved && t.entry_block
            == before.functions@[fun].body()->0.entry_block && t.params
            == before.functions@[fun].body()->0.params && crate::ir::ctrl_flow::function::body_grows(
            before.functions@[fun].body()->0,
            t,
        ) && (crate::ir::ctrl_flow::function::dense_locals(
            before.functions@[fun].body()->0.locals@,
        ) ==> crate::ir::ctrl_flow::function::dense_locals(t.locals@)));
    assert(after.functions@[fun] == g);
}

/// Builds an iterative Fibonacci function in `ctx` (see `fib_program`) and
/// returns its identifier.
pub fn build_fib(ctx: &mut Context) -> (r: MirFunId)
    requires
        old(ctx).functions@.len() + 1 < u32::MAX,
    ensures
        fib_program(*old(ctx), *final(ctx), r),
{
    let ghost c0 = *ctx;
    let int_type = IntType::I64;
    let builder = FunctionBuilder::new("fib")
        .param(int_type.into_mir())
        .ret_ty(int_type.into_mir())
        .define(ctx);
    let id = builder.id();
    let ghost cd = *ctx;
    let t1 = int_type.into_mir().wrap_ptr().into_mir();
    let ghost g1 = t1;
    let n_ptr = builder.add_local(t1, ctx);
    let ghost ca = *ctx;
    proof {
        lemma_local_added(cd, ca, id, g1, n_ptr);
    }
    let t2 = int_type.into_mir().wrap_ptr().into_mir();
    let ghost g2 = t2;
    let a_ptr = builder.add_local(t2, ctx);
    let ghost cb = *ctx;
    proof {
        lemma_local_added(ca, cb, id, g2, a_ptr);
    }
    let t3 = int_type.into_mir().wrap_ptr().into_mir();
    let ghost g3 = t3;
    let b_ptr = builder.add_local(t3, ctx);
    let ghost cc = *ctx;
    proof {
        lemma_local_added(cb, cc, id, g3, b_ptr);
    }
    let t4 = IntType::Bool.into_mir();
    let ghost g4 = t4;
    let cond = builder.add_local(t4, ctx);
    let ghost c1 = *ctx;
    proof {
        lemma_local_added(cc, c1, id, g4, cond);
        let l = c1.functions@[id].body()->0.locals@;
        assert(l =~= cd.functions@[id].body()->0.locals@.push((1, g1)).push((2, g2)).push((3, g3)).push(
            (4, g4),
        ));
        assert(fib_locals(l));
    }
    let ghost locals = c1.functions@[id].body()->0.locals;
    let entry_id = builder.entry_block(ctx);
    proof {
        let s = c1.functions@[id].body()->0;
        assert(s.known_set() =~= set![0u32]);
    }
    let cond_id = builder.reserve_block(ctx);
    let ghost c2 = *ctx;
    proof {
        lemma_reserved(c1, c2, id, cond_id);
        let s = c2.functions@[id].body()->0;
        assert(cond_id == 1);
        assert(s.known_set() =~= set![0u32, 1u32]);
        assert(set![0u32].insert(1u32).len() == 2);
    }
    let body_id = builder.reserve_block(ctx);
    let ghost c3 = *ctx;
    proof {
        lemma_reserved(c2, c3, id, body_id);
        let s = c3.functions@[id].body()->0;
        assert(body_id == 2);
        assert(s.known_set() =~= set![0u32, 1u32, 2u32]);
        assert(set![0u32, 1u32].insert(2u32).len() == 3);
    }
    let end_id = builder.reserve_block(ctx);
    let ghost c4 = *ctx;
    proof {
        lemma_reserved(c3, c4, id, end_id);
        assert(end_id == 3);
        assert(fun_locals(c4.functions@[id]) == locals@);
    }
    let deref_n = Place::Projection(Box::new(Place::Local(n_ptr)), ProjectionKind::Deref);
    let deref_a = Place::Projection(Box::new(Place::Local(a_ptr)), ProjectionKind::Deref);
    let deref_b = Place::Projection(Box::new(Place::Local(b_ptr)), ProjectionKind::Deref);
    let param = Place::Local(builder.param(0, ctx).unwrap());
    assert(param == Place::Local(0));

    let mut block = builder.build_block(entry_id, ctx);
    proof {
        lemma_fib_types(c4.functions@[id], c4);
    }
    let r = block.assign(deref_a.clone(), RValue::Use(Operand::Constant(Constant::Int(1, int_type.into_mir()))));
    assert(r is Some);
    let r = block.assign(deref_b.clone(), RValue::Use(Operand::Constant(Constant::Int(1, int_type.into_mir()))));
    assert(r is Some);
    let r = block.assign(deref_n.clone(), RValue::Use(Operand::Constant(Constant::Int(2, int_type.into_mir()))));
    assert(r is Some);
    let ghost st0 = block.statements;
    assert(*block.ctx == c4);
    let done = block.goto(cond_id);
    assert(done is Ok);
    let ghost c5 = *ctx;
    let ghost bb0 = BasicBlock { statements: st0, terminator: Terminator::Goto(1) };
    proof {
        lemma_block_stored(c4, c5, id, 0, bb0);
        assert(fun_locals(c5.functions@[id]) == locals@);
        lemma_fib_types(c5.functions@[id], c5);
    }

    let mut block = builder.build_block(cond_id, ctx);
    let r = block.binop(
        BinOp::Lt,
        Operand::Copy(deref_n.clone()),
        Operand::Copy(param.clone()),
        Place::Local(cond),
    );
    assert(r is Ok);
    let ghost st1 = block.statements;
    assert(*block.ctx == c5);
    let done = block.br(Operand::Copy(Place::Local(cond)), body_id, end_id);
    assert(done is Ok);
    let ghost c6 = *ctx;
    let ghost bb1 = BasicBlock {
        statements: st1,
        terminator: Terminator::Iff { discriminant: Operand::Copy(Place::Local(4)), then_dst: 2, else_dst: 3 },
    };
    proof {
        lemma_block_stored(c5, c6, id, 1, bb1);
        assert(fun_locals(c6.functions@[id]) == locals@);
        lemma_fib_types(c6.functions@[id], c6);
    }

    let mut block = builder.build_block(body_id, ctx);
    let r = block.binop(
        BinOp::Add,
        Operand::Copy(deref_a.clone()),
        Operand::Copy(deref_b.clone()),
        deref_a.clone(),
    );
    assert(r is Ok);
    let r = block.binop(
        BinOp::Sub,
        Operand::Copy(deref_a.clone()),
        Operand::Copy(deref_b.clone()),
        deref_b.clone(),
    );
    assert(r is Ok);
    let r = block.binop(
        BinOp::Add,
        Operand::Copy(deref_n.clone()),
        Operand::Constant(Constant::Int(1, int_type.into_mir())),
        deref_n.clone(),
    );
    assert(r is Ok);
    let ghost st2 = block.statements;
    assert(*block.ctx == c6);
    let done = block.goto(cond_id);
    assert(done is Ok);
    let ghost c7 = *ctx;
    let ghost bb2 = BasicBlock { statements: st2, terminator: Terminator::Goto(1) };
    proof {
        lemma_block_stored(c6, c7, id, 2, bb2);
    }

    let block = builder.build_block(end_id, ctx);
    let ghost st3 = block.statements;
    block.ret(Some(Operand::Copy(deref_a)));
    let ghost c8 = *ctx;
    let ghost bb3 = BasicBlock { statements: st3, terminator: Terminator::Return(Some(Operand::Copy(deref(2)))) };
    proof {
        lemma_block_stored(c7, c8, id, 3, bb3);
        let t = c8.functions@[id].body()->0;
        assert(c8.functions@ =~= c0.functions@.insert(id, c8.functions@[id]));
        assert(t.blocks@.dom() =~= set![0u32, 1u32, 2u32, 3u32]);
        assert(t.reserved@ =~= set![0u32, 1u32, 2u32, 3u32]);
        assert(t.params@ =~= seq![0 as LocalId]);
        assert(t.last_reserved == 4);
        assert(t.entry_block == Some(0u32));
        assert(fib_locals(t.locals@));
        assert(t.blocks@[0] == bb0);
        assert(t.blocks@[1] == bb1);
        assert(t.blocks@[2] == bb2);
        assert(t.blocks@[3] == bb3);
        assert(st0@ == seq![
            Statement::Assign(deref(2), RValue::Use(i64_const(1))),
            Statement::Assign(deref(3), RValue::Use(i64_const(1))),
            Statement::Assign(deref(1), RValue::Use(i64_const(2))),
        ]);
        assert(st1@ == seq![
            Statement::Assign(
                Place::Local(4),
                RValue::BinOp(BinOp::Lt, Operand::Copy(deref(1)), Operand::Copy(Place::Local(0))),
            ),
        ]);
        assert(st2@ == seq![
            Statement::Assign(
                deref(2),
                RValue::BinOp(BinOp::Add, Operand::Copy(deref(2)), Operand::Copy(deref(3))),
            ),
            Statement::Assign(
                deref(3),
                RValue::BinOp(BinOp::Sub, Operand::Copy(deref(2)), Operand::Copy(deref(3))),
            ),
            Statement::Assign(
                deref(1),
                RValue::BinOp(BinOp::Add, Operand::Copy(deref(1)), i64_const(1)),
            ),
        ]);
        assert(st3@.len() == 0);
        assert(fib_body(t));
    }
    id
}
} // verus!
