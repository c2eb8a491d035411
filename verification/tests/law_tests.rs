use std::collections::{HashMap, HashSet};

use ul_mir::{
    builder::Builder,
    ir::{
        BasicBlock, BinOp, Constant, Context, FunStatic, Function, FunctionLinkage, Operand,
        Place, ProjectionKind, PtrSize, RValue, Statement, Terminator,
        types::{MirType, function::FunctionType, int_ty::IntType},
    },
};

fn function_with(locals: Vec<(u32, MirType)>, blocks: HashMap<u32, BasicBlock>) -> Function {
    let reserved: HashSet<u32> = blocks.keys().copied().collect();
    Function {
        name: "law".to_string(),
        ty: FunctionType::new(vec![], MirType::Void, false),
        linkage: FunctionLinkage::Static(FunStatic {
            params: vec![],
            blocks,
            entry_block: Some(0),
            reserved,
            last_reserved: 10,
            locals,
        }),
    }
}

fn empty_body_function() -> Function {
    function_with(vec![], HashMap::new())
}

#[test]
fn test_law_comparisons_on_pointers_give_bool() {
    let ptr = MirType::Int(IntType::U8).wrap_ptr().into_mir();
    let fun = function_with(vec![(0, ptr.clone()), (1, ptr.clone())], HashMap::new());
    let ctx = Context::new(PtrSize::_64Bit);
    for op in [BinOp::Eq, BinOp::Neq, BinOp::Lt, BinOp::Leq, BinOp::And, BinOp::Or] {
        let rv = RValue::BinOp(op, Operand::Copy(Place::Local(0)), Operand::Copy(Place::Local(1)));
        assert_eq!(rv.get_type(&fun, &ctx), Some(MirType::Int(IntType::Bool)));
    }
    let sum = RValue::BinOp(BinOp::Add, Operand::Copy(Place::Local(0)), Operand::Copy(Place::Local(1)));
    assert_eq!(sum.get_type(&fun, &ctx), Some(ptr));
}

#[test]
fn test_law_bool_arithmetic_untyped() {
    let fun = function_with(
        vec![(0, MirType::Int(IntType::Bool)), (1, MirType::Int(IntType::Bool))],
        HashMap::new(),
    );
    let ctx = Context::new(PtrSize::_64Bit);
    let rv = RValue::BinOp(BinOp::Mul, Operand::Copy(Place::Local(0)), Operand::Copy(Place::Local(1)));
    assert_eq!(rv.get_type(&fun, &ctx), None);
    let void = RValue::BinOp(
        BinOp::Eq,
        Operand::Constant(Constant::Int(0, MirType::Void)),
        Operand::Constant(Constant::Int(0, MirType::Void)),
    );
    assert_eq!(void.get_type(&fun, &ctx), None);
}

#[test]
fn test_law_ref_then_deref() {
    let ptr = MirType::Int(IntType::I16).wrap_ptr().into_mir();
    let fun = function_with(vec![(0, MirType::Int(IntType::I16)), (1, ptr.clone())], HashMap::new());
    let ctx = Context::new(PtrSize::_64Bit);
    assert_eq!(RValue::Ref(Place::Local(0)).get_type(&fun, &ctx), Some(ptr));
    let deref = Place::Projection(Box::new(Place::Local(1)), ProjectionKind::Deref);
    assert_eq!(deref.get_type(&fun, &ctx), Some(MirType::Int(IntType::I16)));
}

#[test]
fn test_law_reserve_twice_consecutive() {
    let mut fun = empty_body_function();
    let a = fun.reserve_new_block().unwrap();
    let b = fun.reserve_new_block().unwrap();
    assert_eq!(a, 10);
    assert_eq!(b, a + 1);
    let body = fun.get_function_data().unwrap();
    assert!(body.reserved.contains(&a) && body.reserved.contains(&b));
    assert_eq!(body.last_reserved, 12);
}

#[test]
fn test_law_new_local_fresh_and_typed() {
    let mut fun = function_with(
        vec![(4, MirType::Int(IntType::I8)), (2, MirType::Int(IntType::U8))],
        HashMap::new(),
    );
    let id = fun.new_local(MirType::Int(IntType::U64)).unwrap();
    assert_eq!(id, 5);
    assert_eq!(fun.type_of_local(id), Some(MirType::Int(IntType::U64)));
    assert_eq!(fun.type_of_local(4), Some(MirType::Int(IntType::I8)));
    let mut empty = empty_body_function();
    assert_eq!(empty.new_local(MirType::Void), Some(1));
}

#[test]
fn test_law_reachable_closed_under_jumps() {
    let mut blocks = HashMap::new();
    blocks.insert(0, BasicBlock { statements: vec![], terminator: Terminator::Goto(3) });
    blocks.insert(
        3,
        BasicBlock {
            statements: vec![],
            terminator: Terminator::Iff {
                discriminant: Operand::Constant(Constant::Bool(false)),
                then_dst: 0,
                else_dst: 5,
            },
        },
    );
    blocks.insert(5, BasicBlock { statements: vec![], terminator: Terminator::Return(None) });
    blocks.insert(7, BasicBlock { statements: vec![], terminator: Terminator::Goto(5) });
    let fun = function_with(vec![], blocks);
    let reach = fun.get_reachable_blocks().unwrap();
    assert!(reach.contains(&0));
    let expected: HashSet<u32> = [0, 3, 5].into_iter().collect();
    assert_eq!(reach, expected);
    let preds = fun.get_predecessors();
    assert_eq!(preds[&5], [3, 7].into_iter().collect::<HashSet<u32>>());
    assert_eq!(preds[&0], [3].into_iter().collect::<HashSet<u32>>());
    assert!(preds[&7].is_empty());
}

#[test]
fn test_law_nop_and_assign_do_not_change_survivors() {
    let plain = BasicBlock {
        statements: vec![Statement::StorageLive(1), Statement::StorageDead(2)],
        terminator: Terminator::Return(None),
    };
    let padded = BasicBlock {
        statements: vec![
            Statement::Nop,
            Statement::StorageLive(1),
            Statement::Assign(Place::Local(1), RValue::Use(Operand::Constant(Constant::Null))),
            Statement::StorageDead(2),
            Statement::Nop,
        ],
        terminator: Terminator::Return(None),
    };
    let start: HashSet<u32> = [2, 9].into_iter().collect();
    let mut a = start.clone();
    let mut b = start.clone();
    plain.get_surviving_vars(&mut a);
    padded.get_surviving_vars(&mut b);
    assert_eq!(a, b);
    assert_eq!(a, [1, 9].into_iter().collect::<HashSet<u32>>());
}

#[test]
fn test_law_lifetime_map_only_made_live_locals() {
    let mut blocks = HashMap::new();
    blocks.insert(
        0,
        BasicBlock { statements: vec![Statement::StorageLive(4)], terminator: Terminator::Goto(1) },
    );
    blocks.insert(
        1,
        BasicBlock { statements: vec![Statement::StorageDead(4)], terminator: Terminator::Return(None) },
    );
    blocks.insert(
        2,
        BasicBlock { statements: vec![Statement::StorageLive(8)], terminator: Terminator::Goto(1) },
    );
    let fun = function_with(vec![], blocks);
    let map = fun.build_lifetime_map();
    let keys: HashSet<u32> = map.keys().copied().collect();
    assert_eq!(keys, [0, 1].into_iter().collect::<HashSet<u32>>());
    assert!(map[&0].is_empty());
    assert_eq!(map[&1], [4].into_iter().collect::<HashSet<u32>>());
}

#[test]
fn test_law_built_jumps_stay_known() {
    let mut ctx = Context::new(PtrSize::_64Bit);
    ctx.functions.insert(0, empty_body_function());
    let a = ctx.reserve_new_block(0).unwrap();
    let b = ctx.reserve_new_block(0).unwrap();
    Builder::new(0, a, 0, &mut ctx).build_goto(b).unwrap();
    assert!(Builder::new(0, b, 0, &mut ctx).build_goto(99).is_err());
    Builder::new(0, b, 0, &mut ctx).build_return(None);
    let preds = ctx.functions[&0].get_predecessors();
    assert_eq!(preds[&b], [a].into_iter().collect::<HashSet<u32>>());
    assert!(preds[&a].is_empty());
}
