use vstd::prelude::*;

use crate::ir::{
    Context,
    types::{
        MirType, TypeModel, lemma_types_model, type_model, types_model, array::ArrayType,
        function::FunctionType, int_ty::IntType, ptr::PtrType, struct_ty::{Struct, StructId},
        tuple::TupleType,
    },
};
use crate::output::text::{dec_text, write_u64};

verus! {

broadcast use vstd::std_specs::hash::group_hash_axioms;

/// The name of an integer type.
pub open spec fn int_type_text(i: IntType) -> Seq<char> {
    match i {
        IntType::I8 => "i8"@,
        IntType::I16 => "i16"@,
        IntType::I32 => "i32"@,
        IntType::I64 => "i64"@,
        IntType::U8 => "u8"@,
        IntType::U16 => "u16"@,
        IntType::U32 => "u32"@,
        IntType::U64 => "u64"@,
        IntType::Bool => "bool"@,
    }
}

/// How a type is written: `void`, an integer type's name, `*T`, `[T; n]`,
/// `(P, ...) -> R` for a function, `(T, ...)` for a tuple and
/// `struct Name` for a struct, whose name `structs` gives.
pub open spec fn type_text(t: TypeModel, structs: Map<StructId, Struct>) -> Seq<char>
    decreases t,
{
    match t {
        TypeModel::Void => "void"@,
        TypeModel::Int(i) => int_type_text(i),
        TypeModel::Ptr(p) => "*"@ + type_text(*p, structs),
        TypeModel::Array(e, n) => "["@ + type_text(*e, structs) + "; "@ + dec_text(n as nat)
            + "]"@,
        TypeModel::Function(ps, r, _) => "("@ + list_text(ps, structs) + ") -> "@ + type_text(
            *r,
            structs,
        ),
        TypeModel::Tuple(ts) => "("@ + list_text(ts, structs) + ")"@,
        TypeModel::Struct(id) => "struct "@ + structs[id].name@,
    }
}

/// The types of `s` written one after the other, separated by `, `.
pub open spec fn list_text(s: Seq<TypeModel>, structs: Map<StructId, Struct>) -> Seq<char>
    decreases s,
{
    if s.len() == 0 {
        Seq::empty()
    } else if s.len() == 1 {
        type_text(s[0], structs)
    } else {
        list_text(s.drop_last(), structs) + ", "@ + type_text(s.last(), structs)
    }
}

/// Every struct that the type mentions is declared in `structs`.
pub open spec fn structs_declared(t: TypeModel, structs: Map<StructId, Struct>) -> bool
    decreases t,
{
    match t {
        TypeModel::Void => true,
        TypeModel::Int(_) => true,
        TypeModel::Ptr(p) => structs_declared(*p, structs),
        TypeModel::Array(e, _) => structs_declared(*e, structs),
        TypeModel::Function(ps, r, _) => list_declared(ps, structs) && structs_declared(
            *r,
            structs,
        ),
        TypeModel::Tuple(ts) => list_declared(ts, structs),
        TypeModel::Struct(id) => structs.contains_key(id),
    }
}

/// Every struct that a type of `s` mentions is declared in `structs`.
pub open spec fn list_declared(s: Seq<TypeModel>, structs: Map<StructId, Struct>) -> bool
    decreases s,
{
    if s.len() == 0 {
        true
    } else {
        list_declared(s.drop_last(), structs) && structs_declared(s.last(), structs)
    }
}

/// `list_declared` holds exactly when every element is declared.
pub proof fn lemma_list_declared(s: Seq<TypeModel>, structs: Map<StructId, Struct>)
    ensures
        list_declared(s, structs) <==> forall|i: int|
            0 <= i < s.len() ==> structs_declared(#[trigger] s[i], structs),
    decreases s.len(),
{
    if s.len() > 0 {
        let d = s.drop_last();
        lemma_list_declared(d, structs);
        if list_declared(s, structs) {
            assert forall|i: int| 0 <= i < s.len() implies structs_declared(
                #[trigger] s[i],
                structs,
            ) by {
                if i < s.len() - 1 {
                    assert(d[i] == s[i]);
                }
            }
        }
        if forall|i: int| 0 <= i < s.len() ==> structs_declared(#[trigger] s[i], structs) {
            assert forall|i: int| 0 <= i < d.len() implies structs_declared(
                #[trigger] d[i],
                structs,
            ) by {
                assert(s[i] == d[i]);
            }
            assert(structs_declared(s[s.len() - 1], structs));
        }
    }
}

impl IntType {
    /// The name of the integer type (`i8`, ..., `u64`, `bool`).
    pub fn to_string(&self) -> (r: String)
        ensures
            r@ == int_type_text(*self),
    {
        let mut out = String::new();
        write_int_type(&mut out, *self);
        out
    }
}

/// Appends the name of an integer type.
fn write_int_type(out: &mut String, i: IntType)
    ensures
        final(out)@ == old(out)@ + int_type_text(i),
{
    match i {
        IntType::I8 => out.append("i8"),
        IntType::I16 => out.append("i16"),
        IntType::I32 => out.append("i32"),
        IntType::I64 => out.append("i64"),
        IntType::U8 => out.append("u8"),
        IntType::U16 => out.append("u16"),
        IntType::U32 => out.append("u32"),
        IntType::U64 => out.append("u64"),
        IntType::Bool => out.append("bool"),
    }
}

/// Appends how `ty` is written.
pub fn write_type(out: &mut String, ty: &MirType, ctx: &Context)
    requires
        structs_declared(ty@, ctx.structs@),
    ensures
        final(out)@ == old(out)@ + type_text(ty@, ctx.structs@),
    decreases ty,
{
    match ty {
        MirType::Void => out.append("void"),
        MirType::Int(i) => write_int_type(out, *i),
        MirType::Ptr(p) => {
            out.append("*");
            write_type(out, &p.pointee, ctx);
        },
        MirType::Array(a) => {
            out.append("[");
            write_type(out, &a.ty, ctx);
            out.append("; ");
            write_u64(out, a.length as u64);
            out.append("]");
        },
        MirType::Function(f) => {
            assert(decreases_to!(*ty => f.params));
            out.append("(");
            write_types(out, Ghost(*ty), &f.params, ctx);
            out.append(") -> ");
            write_type(out, &f.ret_ty, ctx);
        },
        MirType::Tuple(t) => {
            assert(decreases_to!(*ty => t.tys));
            out.append("(");
            write_types(out, Ghost(*ty), &t.tys, ctx);
            out.append(")");
        },
        MirType::Struct(id) => {
            out.append("struct ");
            match ctx.structs.get(id) {
                Some(s) => out.append(s.name.as_str()),
                None => {},
            }
        },
    }
}

/// Appends the types of `v` separated by `, `; `owner` is a type that
/// holds `v`, needed only for the proof that writing types terminates.
fn write_types(out: &mut String, Ghost(owner): Ghost<MirType>, v: &Vec<MirType>, ctx: &Context)
    requires
        decreases_to!(owner => *v),
        list_declared(types_model(v@), ctx.structs@),
    ensures
        final(out)@ == old(out)@ + list_text(types_model(v@), ctx.structs@),
    decreases owner, 0nat,
{
    proof {
        lemma_types_model(v@);
        lemma_list_declared(types_model(v@), ctx.structs@);
    }
    let ghost start = out@;
    let mut i: usize = 0;
    while i < v.len()
        invariant
            i <= v@.len(),
            decreases_to!(owner => *v),
            types_model(v@).len() == v@.len(),
            forall|j: int| 0 <= j < v@.len() ==> #[trigger] types_model(v@)[j] == type_model(v@[j]),
            forall|j: int|
                0 <= j < v@.len() ==> structs_declared(#[trigger] types_model(v@)[j], ctx.structs@),
            out@ == start + list_text(types_model(v@).take(i as int), ctx.structs@),
        decreases v.len() - i,
    {
        proof {
            broadcast use vstd::std_specs::vec::axiom_vec_index_decreases;

            assert(decreases_to!(*v => v[i as int]));
        }
        let ghost pre = types_model(v@).take(i as int);
        let ghost next = types_model(v@).take(i + 1);
        assert(next.drop_last() =~= pre);
        assert(next.last() == type_model(v@[i as int]));
        if i > 0 {
            out.append(", ");
        }
        assert(structs_declared(types_model(v@)[i as int], ctx.structs@));
        write_type(out, &v[i], ctx);
        i += 1;
    }
    assert(types_model(v@).take(v@.len() as int) =~= types_model(v@));
}

/// Shows a tuple type.
pub struct TupleTypeDisplayer<'a> {
    pub ty: &'a TupleType,
    pub ctx: &'a Context,
}

impl<'a> TupleTypeDisplayer<'a> {
    /// A displayer of `ty` with the structs of `ctx`.
    pub fn new(ty: &'a TupleType, ctx: &'a Context) -> (r: Self)
        ensures
            r.ty == ty,
            r.ctx == ctx,
    {
        TupleTypeDisplayer { ty, ctx }
    }

    /// The tuple type written out: `(T, ...)`.
    pub fn to_string(&self) -> (r: String)
        requires
            structs_declared(MirType::Tuple(*self.ty)@, self.ctx.structs@),
        ensures
            r@ == type_text(MirType::Tuple(*self.ty)@, self.ctx.structs@),
    {
        let mut out = String::new();
        out.append("(");
        let ghost owner = MirType::Tuple(*self.ty);
        assert(decreases_to!(owner => owner->Tuple_0));
        assert(decreases_to!(*self.ty => self.ty.tys));
        write_types(&mut out, Ghost(owner), &self.ty.tys, self.ctx);
        out.append(")");
        out
    }
}

impl TupleType {
    /// A displayer of the tuple type with the structs of `ctx`.
    pub fn display<'a>(&'a self, ctx: &'a Context) -> (r: TupleTypeDisplayer<'a>)
        ensures
            r.ty == self,
            r.ctx == ctx,
    {
        TupleTypeDisplayer { ty: self, ctx }
    }
}

/// Shows a pointer type.
pub struct PtrTypeDisplayer<'a> {
    pub ty: &'a PtrType,
    pub ctx: &'a Context,
}

impl<'a> PtrTypeDisplayer<'a> {
    /// A displayer of `ty` with the structs of `ctx`.
    pub fn new(ty: &'a PtrType, ctx: &'a Context) -> (r: Self)
        ensures
            r.ty == ty,
            r.ctx == ctx,
    {
        PtrTypeDisplayer { ty, ctx }
    }

    /// The pointer type written out: `*T`.
    pub fn to_string(&self) -> (r: String)
        requires
            structs_declared(MirType::Ptr(*self.ty)@, self.ctx.structs@),
        ensures
            r@ == type_text(MirType::Ptr(*self.ty)@, self.ctx.structs@),
    {
        let mut out = String::new();
        out.append("*");
        write_type(&mut out, self.ty.pointee(), self.ctx);
        out
    }
}

impl PtrType {
    /// A displayer of the pointer type with the structs of `ctx`.
    pub fn display<'a>(&'a self, ctx: &'a Context) -> (r: PtrTypeDisplayer<'a>)
        ensures
            r.ty == self,
            r.ctx == ctx,
    {
        PtrTypeDisplayer { ty: self, ctx }
    }
}

/// Shows an array type.
pub struct ArrayTypeDisplayer<'a> {
    pub ty: &'a ArrayType,
    pub ctx: &'a Context,
}

impl<'a> ArrayTypeDisplayer<'a> {
    /// A displayer of `ty` with the structs of `ctx`.
    pub fn new(ty: &'a ArrayType, ctx: &'a Context) -> (r: Self)
        ensures
            r.ty == ty,
            r.ctx == ctx,
    {
        Self { ty, ctx }
    }

    /// The array type written out: `[T; n]`.
    pub fn to_string(&self) -> (r: String)
        requires
            structs_declared(MirType::Array(*self.ty)@, self.ctx.structs@),
        ensures
            r@ == type_text(MirType::Array(*self.ty)@, self.ctx.structs@),
    {
        let mut out = String::new();
        out.append("[");
        write_type(&mut out, self.ty.pointee(), self.ctx);
        out.append("; ");
        write_u64(&mut out, self.ty.length() as u64);
        out.append("]");
        out
    }
}

impl ArrayType {
    /// A displayer of the array type with the structs of `ctx`.
    pub fn display<'a>(&'a self, ctx: &'a Context) -> (r: ArrayTypeDisplayer<'a>)
        ensures
            r.ty == self,
            r.ctx == ctx,
    {
        ArrayTypeDisplayer { ty: self, ctx }
    }
}

/// Shows a function type.
pub struct FunTypeDisplayer<'a> {
    pub ty: &'a FunctionType,
    pub ctx: &'a Context,
}

impl<'a> FunTypeDisplayer<'a> {
    /// A displayer of `ty` with the structs of `ctx`.
    pub fn new(ty: &'a FunctionType, ctx: &'a Context) -> (r: Self)
        ensures
            r.ty == ty,
            r.ctx == ctx,
    {
        Self { ty, ctx }
    }

    /// The function type written out: `(P, ...) -> R`.
    pub fn to_string(&self) -> (r: String)
        requires
            structs_declared(MirType::Function(*self.ty)@, self.ctx.structs@),
        ensures
            r@ == type_text(MirType::Function(*self.ty)@, self.ctx.structs@),
    {
        let mut out = String::new();
        out.append("(");
        let ghost owner = MirType::Function(*self.ty);
        assert(decreases_to!(owner => owner->Function_0));
        assert(decreases_to!(*self.ty => self.ty.params));
        write_types(&mut out, Ghost(owner), &self.ty.params, self.ctx);
        out.append(") -> ");
        write_type(&mut out, self.ty.ret_ty(), self.ctx);
        out
    }
}

impl FunctionType {
    /// A displayer of the function type with the structs of `ctx`.
    pub fn display<'a>(&'a self, ctx: &'a Context) -> (r: FunTypeDisplayer<'a>)
        ensures
            r.ty == self,
            r.ctx == ctx,
    {
        FunTypeDisplayer { ty: self, ctx }
    }
}

/// Shows a type.
pub struct TypeDisplayer<'a> {
    pub ty: &'a MirType,
    pub ctx: &'a Context,
}

impl MirType {
    /// A displayer of the type with the structs of `ctx`.
    pub fn display<'a>(&'a self, ctx: &'a Context) -> (r: TypeDisplayer<'a>)
        ensures
            r.ty == self,
            r.ctx == ctx,
    {
        TypeDisplayer { ty: self, ctx }
    }
}

impl<'a> TypeDisplayer<'a> {
    /// The type written out; a struct by its name in `ctx`.
    pub fn to_string(&self) -> (r: String)
        requires
            structs_declared(self.ty@, self.ctx.structs@),
        ensures
            r@ == type_text(self.ty@, self.ctx.structs@),
    {
        let mut out = String::new();
        write_type(&mut out, self.ty, self.ctx);
        out
    }
}

} // verus!
