use vstd::prelude::*;

use crate::ir::{
    Context, PtrSize, ptr_int,
    ctrl_flow::{
        BinOp, Constant, LocalId, Operand, Place, ProjectionKind, RValue, UnOp,
        function::{Function, FunStatic, new_local_step},
    },
    types::{
        MirType, TypeModel, fields_model, lemma_types_model, opt_model, type_model, types_model,
        int_ty::IntType, tuple::TupleType,
    },
};

verus! {

broadcast use vstd::std_specs::hash::group_hash_axioms;

/// The locals of a function with their types: those of its body, none for
/// a function declared elsewhere.
pub open spec fn fun_locals(f: Function) -> Seq<(LocalId, MirType)> {
    match f.body() {
        Some(s) => s.locals@,
        None => Seq::empty(),
    }
}

/// The type recorded for the first local named `id`, if any.
pub open spec fn local_type(locals: Seq<(LocalId, MirType)>, id: LocalId) -> Option<MirType>
    decreases locals.len(),
{
    if locals.len() == 0 {
        None
    } else if locals[0].0 == id {
        Some(locals[0].1)
    } else {
        local_type(locals.drop_first(), id)
    }
}

/// The type of a constant.
pub open spec fn constant_type(c: Constant) -> TypeModel {
    match c {
        Constant::Int(_, t) => type_model(t),
        Constant::Bool(_) => TypeModel::Int(IntType::Bool),
        Constant::Str(_) => TypeModel::Ptr(Box::new(TypeModel::Int(IntType::U8))),
        Constant::Null => TypeModel::Ptr(Box::new(TypeModel::Void)),
    }
}

/// The type of a place in function `f` of `ctx`, if it has one.
///
/// A local has the type it is declared with. Dereferencing needs a pointer
/// and gives its pointee; a field needs a struct or tuple with that many
/// fields; indexing needs an integer index local and an array (giving its
/// element type) or a pointer (giving its pointee).
pub open spec fn place_type(p: Place, f: Function, ctx: Context) -> Option<TypeModel>
    decreases p,
{
    match p {
        Place::Local(id) => opt_model(local_type(fun_locals(f), id)),
        Place::Projection(inner, kind) => match place_type(*inner, f, ctx) {
            None => None,
            Some(t) => match kind {
                ProjectionKind::Deref => match t {
                    TypeModel::Ptr(b) => Some(*b),
                    _ => None,
                },
                ProjectionKind::Field(i) => match fields_model(t, ctx.structs@) {
                    Some(fs) => if i < fs.len() {
                        Some(fs[i as int])
                    } else {
                        None
                    },
                    None => None,
                },
                ProjectionKind::Index(l) => match local_type(fun_locals(f), l) {
                    Some(MirType::Int(_)) => match t {
                        TypeModel::Array(e, _) => Some(*e),
                        TypeModel::Ptr(b) => Some(*b),
                        _ => None,
                    },
                    _ => None,
                },
            },
        },
    }
}

/// The type of an operand in function `f` of `ctx`, if it has one.
///
/// A call has the return type of its callee, provided it passes at least as
/// many arguments as the callee declares parameters, and exactly as many
/// unless the callee is variadic.
pub open spec fn operand_type(o: Operand, f: Function, ctx: Context) -> Option<TypeModel> {
    match o {
        Operand::Copy(p) => place_type(p, f, ctx),
        Operand::Move(p) => place_type(p, f, ctx),
        Operand::Constant(c) => Some(constant_type(c)),
        Operand::Call { func, args } => if ctx.functions@.contains_key(func) {
            let ft = ctx.functions@[func].ty;
            if args@.len() < ft.params@.len() {
                None
            } else if !ft.variadic && args@.len() != ft.params@.len() {
                None
            } else {
                Some(type_model(*ft.ret_ty))
            }
        } else {
            None
        },
    }
}

/// The types of a sequence of operands, if every one has a type.
pub open spec fn operands_types(s: Seq<Operand>, f: Function, ctx: Context) -> Option<
    Seq<TypeModel>,
>
    decreases s.len(),
{
    if s.len() == 0 {
        Some(Seq::empty())
    } else {
        match (operands_types(s.drop_last(), f, ctx), operand_type(s.last(), f, ctx)) {
            (Some(ts), Some(t)) => Some(ts.push(t)),
            _ => None,
        }
    }
}

/// Whether a binary operator computes a number of its operands' type
/// (the others compute a `Bool`).
pub open spec fn is_arithmetic(op: BinOp) -> bool {
    match op {
        BinOp::Add | BinOp::Sub | BinOp::Mul | BinOp::Div | BinOp::Mod | BinOp::ShiftRight
        | BinOp::ShiftLeft => true,
        _ => false,
    }
}

/// The type of `lhs op rhs` given the operand types: both must be the same
/// integer or pointer type; arithmetic keeps that type (and refuses `Bool`),
/// logic and comparisons give `Bool`.
pub open spec fn binop_type(op: BinOp, lhs: TypeModel, rhs: TypeModel) -> Option<TypeModel> {
    if lhs != rhs || !(lhs is Int || lhs is Ptr) {
        None
    } else if is_arithmetic(op) {
        if lhs == TypeModel::Int(IntType::Bool) {
            None
        } else {
            Some(lhs)
        }
    } else {
        Some(TypeModel::Int(IntType::Bool))
    }
}

/// The type of an rvalue in function `f` of `ctx`, if it has one.
pub open spec fn rvalue_type(rv: RValue, f: Function, ctx: Context) -> Option<TypeModel> {
    match rv {
        RValue::Use(o) => operand_type(o, f, ctx),
        RValue::BinOp(op, l, r) => match (operand_type(l, f, ctx), operand_type(r, f, ctx)) {
            (Some(a), Some(b)) => binop_type(op, a, b),
            _ => None,
        },
        RValue::UnOp(_, o) => match operand_type(o, f, ctx) {
            Some(TypeModel::Int(i)) => Some(TypeModel::Int(i)),
            Some(TypeModel::Ptr(b)) => Some(TypeModel::Ptr(b)),
            _ => None,
        },
        RValue::Cast(_, _, t) => Some(type_model(t)),
        RValue::Ref(p) => match place_type(p, f, ctx) {
            Some(t) => Some(TypeModel::Ptr(Box::new(t))),
            None => None,
        },
        RValue::Len(p) => match place_type(p, f, ctx) {
            Some(TypeModel::Array(_, _)) => Some(TypeModel::Int(ptr_int(ctx.ptr_size))),
            _ => None,
        },
        RValue::Aggregate(ops) => match operands_types(ops@, f, ctx) {
            Some(ts) => Some(TypeModel::Tuple(ts)),
            None => None,
        },
    }
}

/// Law: comparisons and logical operations on two operands of one integer
/// or pointer type have type `bool`.
pub proof fn lemma_comparison_is_bool(
    op: BinOp,
    lhs: Operand,
    rhs: Operand,
    f: Function,
    ctx: Context,
    t: TypeModel,
)
    requires
        !is_arithmetic(op),
        operand_type(lhs, f, ctx) == Some(t),
        operand_type(rhs, f, ctx) == Some(t),
        t is Int || t is Ptr,
    ensures
        rvalue_type(RValue::BinOp(op, lhs, rhs), f, ctx) == Some(TypeModel::Int(IntType::Bool)),
{
}

/// Law: arithmetic on two operands of one integer type other than `bool`,
/// or of one pointer type, has that same type.
pub proof fn lemma_arithmetic_keeps_type(
    op: BinOp,
    lhs: Operand,
    rhs: Operand,
    f: Function,
    ctx: Context,
    t: TypeModel,
)
    requires
        is_arithmetic(op),
        operand_type(lhs, f, ctx) == Some(t),
        operand_type(rhs, f, ctx) == Some(t),
        t is Int || t is Ptr,
        t != TypeModel::Int(IntType::Bool),
    ensures
        rvalue_type(RValue::BinOp(op, lhs, rhs), f, ctx) == Some(t),
{
}

/// Law: a binary operation whose operands have different types, or whose
/// operand type is neither an integer nor a pointer, or that does
/// arithmetic on `bool`, has no type.
pub proof fn lemma_binop_untyped(
    op: BinOp,
    lhs: Operand,
    rhs: Operand,
    f: Function,
    ctx: Context,
    a: TypeModel,
    b: TypeModel,
)
    requires
        operand_type(lhs, f, ctx) == Some(a),
        operand_type(rhs, f, ctx) == Some(b),
        a != b || !(a is Int || a is Ptr) || (is_arithmetic(op) && a == TypeModel::Int(
            IntType::Bool,
        )),
    ensures
        rvalue_type(RValue::BinOp(op, lhs, rhs), f, ctx) is None,
{
}

/// Law: taking a reference to a place of type `t` gives a `*t`, and
/// dereferencing a place of type `*t` gives a `t`.
pub proof fn lemma_ref_deref(p: Place, q: Place, f: Function, ctx: Context, t: TypeModel)
    requires
        place_type(p, f, ctx) == Some(t),
        place_type(q, f, ctx) == Some(TypeModel::Ptr(Box::new(t))),
    ensures
        rvalue_type(RValue::Ref(p), f, ctx) == Some(TypeModel::Ptr(Box::new(t))),
        place_type(Place::Projection(Box::new(q), ProjectionKind::Deref), f, ctx) == Some(t),
{
}

/// Law: the length of an array has the unsigned integer type as wide as a
/// pointer of the target (`u8`, `u16`, `u32`, `u64` for 8, 16, 32, 64-bit
/// pointers), whatever the array's element type and length; a place that
/// is not an array has no length.
pub proof fn lemma_len_type(p: Place, f: Function, ctx: Context)
    ensures
        (place_type(p, f, ctx) matches Some(TypeModel::Array(_, _))) ==> rvalue_type(
            RValue::Len(p),
            f,
            ctx,
        ) == Some(
            TypeModel::Int(
                match ctx.ptr_size {
                    PtrSize::_8Bit => IntType::U8,
                    PtrSize::_16Bit => IntType::U16,
                    PtrSize::_32Bit => IntType::U32,
                    PtrSize::_64Bit => IntType::U64,
                },
            ),
        ),
        !(place_type(p, f, ctx) matches Some(TypeModel::Array(_, _))) ==> rvalue_type(
            RValue::Len(p),
            f,
            ctx,
        ) is None,
{
}

/// Law: indexing a place of array type `[e; n]` with a local of integer
/// type gives a place of the element type `e`.
pub proof fn lemma_index_array(
    q: Place,
    l: LocalId,
    f: Function,
    ctx: Context,
    e: TypeModel,
    n: u32,
)
    requires
        place_type(q, f, ctx) == Some(TypeModel::Array(Box::new(e), n)),
        local_type(fun_locals(f), l) matches Some(MirType::Int(_)),
    ensures
        place_type(Place::Projection(Box::new(q), ProjectionKind::Index(l)), f, ctx) == Some(e),
{
}

/// Law: indexing a place of pointer type `*e` with a local of integer type
/// gives a place of the pointee type `e`.
pub proof fn lemma_index_pointer(q: Place, l: LocalId, f: Function, ctx: Context, e: TypeModel)
    requires
        place_type(q, f, ctx) == Some(TypeModel::Ptr(Box::new(e))),
        local_type(fun_locals(f), l) matches Some(MirType::Int(_)),
    ensures
        place_type(Place::Projection(Box::new(q), ProjectionKind::Index(l)), f, ctx) == Some(e),
{
}

/// Law: indexing needs an index local of integer type and a place of array
/// or pointer type; otherwise the projection has no type.
pub proof fn lemma_index_untyped(q: Place, l: LocalId, f: Function, ctx: Context)
    requires
        !(local_type(fun_locals(f), l) matches Some(MirType::Int(_))) || !((place_type(
            q,
            f,
            ctx,
        ) matches Some(TypeModel::Array(_, _))) || (place_type(q, f, ctx) matches Some(
            TypeModel::Ptr(_),
        ))),
    ensures
        place_type(Place::Projection(Box::new(q), ProjectionKind::Index(l)), f, ctx) is None,
{
}

/// Law: in a function declared elsewhere no place has a type, so no
/// assignment there type-checks.
pub proof fn lemma_extern_places_untyped(p: Place, f: Function, ctx: Context)
    requires
        f.body() is None,
    ensures
        place_type(p, f, ctx) is None,
    decreases p,
{
    if let Place::Projection(inner, _) = p {
        lemma_extern_places_untyped(*inner, f, ctx);
    }
}

/// Law: once `new_local` has added a local of type `ty`, the local has
/// that type.
pub proof fn lemma_new_local_typed(f: Function, g: Function, ty: MirType, r: Option<LocalId>)
    requires
        f.body() is Some,
        new_local_step(f, g, ty, r),
    ensures
        r matches Some(id) && local_type(fun_locals(g), id) == Some(ty),
{
    let old_locals = fun_locals(f);
    let id = r->0;
    lemma_local_type_absent_push(old_locals, id, ty);
}

/// Looking up an identifier absent from `locals` after pushing it finds the
/// pushed type.
proof fn lemma_local_type_absent_push(
    locals: Seq<(LocalId, MirType)>,
    id: LocalId,
    ty: MirType,
)
    requires
        forall|i: int| 0 <= i < locals.len() ==> (#[trigger] locals[i]).0 != id,
    ensures
        local_type(locals.push((id, ty)), id) == Some(ty),
    decreases locals.len(),
{
    if locals.len() > 0 {
        let rest = locals.drop_first();
        assert(locals.push((id, ty)).drop_first() =~= rest.push((id, ty)));
        assert forall|i: int| 0 <= i < rest.len() implies (#[trigger] rest[i]).0 != id by {
            assert(rest[i] == locals[i + 1]);
        }
        lemma_local_type_absent_push(rest, id, ty);
    }
}

/// If a sequence of operands all have types, so does each of its prefixes.
pub proof fn lemma_operands_types_prefix(s: Seq<Operand>, k: int, f: Function, ctx: Context)
    requires
        0 <= k <= s.len(),
        operands_types(s, f, ctx) is Some,
    ensures
        operands_types(s.take(k), f, ctx) is Some,
    decreases s.len(),
{
    if k < s.len() {
        assert(s.drop_last().take(k) == s.take(k));
        lemma_operands_types_prefix(s.drop_last(), k, f, ctx);
    } else {
        assert(s.take(k) == s);
    }
}

/// Looking for a local past a prefix that does not name it.
proof fn lemma_local_type_skip(locals: Seq<(LocalId, MirType)>, id: LocalId, i: int)
    requires
        0 <= i < locals.len(),
        locals[i].0 != id,
    ensures
        local_type(locals.skip(i), id) == local_type(locals.skip(i + 1), id),
{
    assert(locals.skip(i).drop_first() == locals.skip(i + 1));
}

impl Function {
    /// The type of the first local named `local`; `None` when there is no
    /// such local or the function has no body.
    pub fn type_of_local(&self, local: LocalId) -> (r: Option<MirType>)
        ensures
            opt_model(r) == opt_model(local_type(fun_locals(*self), local)),
            r is Some <==> local_type(fun_locals(*self), local) is Some,
    {
        let linkage: &FunStatic = match self.linkage.get_linkage() {
            Some(l) => l,
            None => return None,
        };
        let mut i: usize = 0;
        assert(linkage.locals@.skip(0) == linkage.locals@);
        while i < linkage.locals.len()
            invariant
                i <= linkage.locals@.len(),
                fun_locals(*self) == linkage.locals@,
                local_type(linkage.locals@, local) == local_type(linkage.locals@.skip(i as int), local),
            decreases linkage.locals.len() - i,
        {
            if linkage.locals[i].0 == local {
                return Some(linkage.locals[i].1.clone());
            }
            proof {
                lemma_local_type_skip(linkage.locals@, local, i as int);
            }
            i += 1;
        }
        None
    }
}

impl Constant {
    /// The type of the constant: its declared type for an integer, `Bool`
    /// for a boolean, `*u8` for a string, `*void` for null.
    pub fn get_type(&self) -> (r: MirType)
        ensures
            r@ == constant_type(*self),
    {
        match self {
            Constant::Int(_, ty) => ty.clone(),
            Constant::Bool(_) => IntType::Bool.into_mir(),
            Constant::Str(_) => IntType::U8.into_mir().wrap_ptr().into_mir(),
            Constant::Null => MirType::Void.wrap_ptr().into_mir(),
        }
    }
}

impl Place {
    /// The type of the place in function `fun` of `ctx`, if it has one.
    pub fn get_type(&self, fun: &Function, ctx: &Context) -> (r: Option<MirType>)
        ensures
            opt_model(r) == place_type(*self, *fun, *ctx),
        decreases self,
    {
        match self {
            Place::Local(id) => fun.type_of_local(*id),
            Place::Projection(place, projection_kind) => {
                let place_ty = place.get_type(fun, ctx)?;
                match projection_kind {
                    ProjectionKind::Deref => match place_ty.as_ptr() {
                        Some(x) => Some(x.pointee().clone()),
                        None => None,
                    },
                    ProjectionKind::Field(index) => {
                        let fields = place_ty.fields(ctx)?;
                        proof {
                            lemma_types_model(fields@);
                        }
                        if (*index as usize) < fields.len() {
                            Some(fields[*index as usize].clone())
                        } else {
                            None
                        }
                    },
                    ProjectionKind::Index(local) => {
                        let local_ty = fun.type_of_local(*local)?;
                        local_ty.as_integer()?;
                        match place_ty.as_array() {
                            Some(x) => Some(x.pointee().clone()),
                            None => match place_ty.as_ptr() {
                                Some(x) => Some(x.pointee().clone()),
                                None => None,
                            },
                        }
                    },
                }
            },
        }
    }
}

impl Operand {
    /// The type of the operand in function `fun` of `ctx`, if it has one.
    pub fn get_type(&self, fun: &Function, ctx: &Context) -> (r: Option<MirType>)
        ensures
            opt_model(r) == operand_type(*self, *fun, *ctx),
    {
        match self {
            Operand::Copy(place) | Operand::Move(place) => place.get_type(fun, ctx),
            Operand::Constant(constant) => Some(constant.get_type()),
            Operand::Call { func, args } => {
                let fun = &ctx.functions.get(func)?.ty;
                if args.len() < fun.params().len() {
                    return None;
                }
                if !fun.variadic() && args.len() != fun.params().len() {
                    return None;
                }
                Some(fun.ret_ty().clone())
            },
        }
    }
}

impl RValue {
    /// The type of the rvalue in function `fun` of `ctx`, if it has one.
    pub fn get_type(&self, fun: &Function, ctx: &Context) -> (r: Option<MirType>)
        ensures
            opt_model(r) == rvalue_type(*self, *fun, *ctx),
    {
        match self {
            RValue::Use(operand) => operand.get_type(fun, ctx),
            RValue::BinOp(bin_op, lhs, rhs) => {
                let lhs_t = lhs.get_type(fun, ctx)?;
                let rhs_t = rhs.get_type(fun, ctx)?;
                if !lhs_t.same_as(&rhs_t) || (lhs_t.as_integer().is_none()
                    && lhs_t.as_ptr().is_none()) {
                    return None;
                }
                match bin_op {
                    BinOp::Add | BinOp::Sub | BinOp::Mul | BinOp::Div | BinOp::Mod
                    | BinOp::ShiftRight | BinOp::ShiftLeft => {
                        if lhs_t.same_as(&MirType::Int(IntType::Bool)) {
                            return None;
                        }
                        Some(lhs_t)
                    },
                    BinOp::And | BinOp::Or | BinOp::Eq | BinOp::Neq | BinOp::Lt | BinOp::Leq => {
                        Some(MirType::Int(IntType::Bool))
                    },
                }
            },
            RValue::UnOp(_, operand) => {
                let operand_ty = operand.get_type(fun, ctx)?;
                match operand_ty.as_integer() {
                    Some(x) => Some(x.into_mir()),
                    None => match operand_ty.as_ptr() {
                        Some(p) => Some(p.pointee().clone().wrap_ptr().into_mir()),
                        None => None,
                    },
                }
            },
            RValue::Cast(_, _, mir_type) => Some(mir_type.clone()),
            RValue::Ref(place) => Some(place.get_type(fun, ctx)?.wrap_ptr().into_mir()),
            RValue::Len(place) => {
                if !place.get_type(fun, ctx)?.has_len() {
                    return None;
                }
                Some(ctx.ptr_size.corresponding_int().into_mir())
            },
            RValue::Aggregate(operands) => {
                let mut tys: Vec<MirType> = Vec::new();
                let mut i: usize = 0;
                assert(operands@.take(0) == Seq::<Operand>::empty());
                while i < operands.len()
                    invariant
                        i <= operands@.len(),
                        *self == RValue::Aggregate(*operands),
                        operands_types(operands@.take(i as int), *fun, *ctx) == Some(
                            types_model(tys@),
                        ),
                    decreases operands.len() - i,
                {
                    assert(operands@.take(i + 1).drop_last() == operands@.take(i as int));
                    assert(operands@.take(i + 1).last() == operands@[i as int]);
                    let ghost old_tys = tys@;
                    let t = match operands[i].get_type(fun, ctx) {
                        Some(t) => t,
                        None => {
                            proof {
                                assert(operands_types(operands@.take(i + 1), *fun, *ctx) is None);
                                if operands_types(operands@, *fun, *ctx) is Some {
                                    lemma_operands_types_prefix(
                                        operands@,
                                        i + 1,
                                        *fun,
                                        *ctx,
                                    );
                                }
                            }
                            return None;
                        },
                    };
                    tys.push(t);
                    assert(tys@.drop_last() == old_tys);
                    i += 1;
                }
                assert(operands@.take(i as int) == operands@);
                Some(TupleType::new(tys).into_mir())
            },
        }
    }
}

} // verus!
