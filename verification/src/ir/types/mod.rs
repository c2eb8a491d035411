use vstd::prelude::*;

use crate::ir::{
    Context,
    types::{
        array::ArrayType, function::FunctionType, int_ty::IntType, ptr::PtrType, struct_ty::Struct,
        struct_ty::StructId, tuple::TupleType,
    },
};

pub mod array;
pub mod function;
pub mod int_ty;
pub mod ptr;
pub mod struct_ty;
pub mod tuple;

verus! {

broadcast use vstd::std_specs::hash::group_hash_axioms;

/// A type of the IR.
#[derive(Debug, PartialEq, Eq, Hash)]
pub enum MirType {
    Void,
    Int(IntType),
    Ptr(PtrType),
    Array(ArrayType),
    Function(FunctionType),
    Tuple(TupleType),
    Struct(StructId),
}

/// The mathematical value of an IR type: the same tree, with sequences in
/// place of vectors. Two `MirType` values denote the same type exactly when
/// their models are equal.
pub enum TypeModel {
    Void,
    Int(IntType),
    Ptr(Box<TypeModel>),
    Array(Box<TypeModel>, u32),
    Function(Seq<TypeModel>, Box<TypeModel>, bool),
    Tuple(Seq<TypeModel>),
    Struct(StructId),
}

/// The model of a type.
pub open spec fn type_model(t: MirType) -> TypeModel
    decreases t,
{
    match t {
        MirType::Void => TypeModel::Void,
        MirType::Int(i) => TypeModel::Int(i),
        MirType::Ptr(p) => TypeModel::Ptr(Box::new(type_model(*p.pointee))),
        MirType::Array(a) => TypeModel::Array(Box::new(type_model(*a.ty)), a.length),
        MirType::Function(f) => {
            proof {
                broadcast use vstd::std_specs::vec::axiom_vec_decreases_to_view;

                assert(decreases_to!(f.params => f.params@));
            }
            TypeModel::Function(
                types_model(f.params@),
                Box::new(type_model(*f.ret_ty)),
                f.variadic,
            )
        },
        MirType::Tuple(tt) => {
            proof {
                broadcast use vstd::std_specs::vec::axiom_vec_decreases_to_view;

                assert(decreases_to!(tt.tys => tt.tys@));
            }
            TypeModel::Tuple(types_model(tt.tys@))
        },
        MirType::Struct(id) => TypeModel::Struct(id),
    }
}

/// The models of a sequence of types, element by element.
pub open spec fn types_model(s: Seq<MirType>) -> Seq<TypeModel>
    decreases s,
{
    if s.len() == 0 {
        Seq::empty()
    } else {
        types_model(s.drop_last()).push(type_model(s.last()))
    }
}

impl View for MirType {
    type V = TypeModel;

    open spec fn view(&self) -> TypeModel {
        type_model(*self)
    }
}

/// The model of an optional type.
pub open spec fn opt_model(t: Option<MirType>) -> Option<TypeModel> {
    match t {
        Some(t) => Some(type_model(t)),
        None => None,
    }
}

/// The types of a struct's fields, in declaration order.
pub open spec fn struct_field_types(s: Struct) -> Seq<MirType> {
    s.fields@.map_values(|f: (String, MirType)| f.1)
}

/// The field types of a type that has fields: the declared fields of a
/// struct known to `structs`, or the elements of a tuple.
pub open spec fn fields_model(t: TypeModel, structs: Map<StructId, Struct>) -> Option<
    Seq<TypeModel>,
> {
    match t {
        TypeModel::Struct(id) => if structs.contains_key(id) {
            Some(types_model(struct_field_types(structs[id])))
        } else {
            None
        },
        TypeModel::Tuple(s) => Some(s),
        _ => None,
    }
}

/// `types_model` keeps the length and maps each element by `type_model`.
pub proof fn lemma_types_model(s: Seq<MirType>)
    ensures
        types_model(s).len() == s.len(),
        forall|i: int| 0 <= i < s.len() ==> #[trigger] types_model(s)[i] == type_model(s[i]),
    decreases s.len(),
{
    if s.len() > 0 {
        lemma_types_model(s.drop_last());
        assert forall|i: int| 0 <= i < s.len() implies #[trigger] types_model(s)[i] == type_model(
            s[i],
        ) by {
            if i < s.len() - 1 {
                assert(s.drop_last()[i] == s[i]);
            }
        }
    }
}

/// Two sequences of types with element-wise equal models have equal models.
pub proof fn lemma_types_model_ext(a: Seq<MirType>, b: Seq<MirType>)
    requires
        a.len() == b.len(),
        forall|i: int| 0 <= i < a.len() ==> type_model(#[trigger] a[i]) == type_model(b[i]),
    ensures
        types_model(a) == types_model(b),
{
    lemma_types_model(a);
    lemma_types_model(b);
    assert(types_model(a) =~= types_model(b));
}

impl Clone for MirType {
    /// A deep copy: the copy denotes the same type.
    fn clone(&self) -> (r: Self)
        ensures
            r@ == self@,
        decreases self,
    {
        match self {
            MirType::Void => MirType::Void,
            MirType::Int(i) => MirType::Int(*i),
            MirType::Ptr(p) => MirType::Ptr(PtrType { pointee: Box::new((*p.pointee).clone()) }),
            MirType::Array(a) => MirType::Array(
                ArrayType { ty: Box::new((*a.ty).clone()), length: a.length },
            ),
            MirType::Function(f) => {
                assert(decreases_to!(*self => f.params));
                let params = clone_types(Ghost(*self), &f.params);
                let ret = (*f.ret_ty).clone();
                MirType::Function(
                    FunctionType { params, ret_ty: Box::new(ret), variadic: f.variadic },
                )
            },
            MirType::Tuple(t) => {
                assert(decreases_to!(*self => t.tys));
                let tys = clone_types(Ghost(*self), &t.tys);
                MirType::Tuple(TupleType { tys })
            },
            MirType::Struct(id) => MirType::Struct(*id),
        }
    }
}

/// Copies the types of a vector held inside `owner` (a type of which it
/// is a part, needed only for the proof of termination of deep copies).
pub(crate) fn clone_types(Ghost(owner): Ghost<MirType>, v: &Vec<MirType>) -> (r: Vec<MirType>)
    requires
        decreases_to!(owner => *v),
    ensures
        types_model(r@) == types_model(v@),
        r@.len() == v@.len(),
        forall|i: int| 0 <= i < v@.len() ==> (#[trigger] r@[i])@ == v@[i]@,
    decreases owner, 0nat,
{
    let mut out: Vec<MirType> = Vec::new();
    let mut i: usize = 0;
    while i < v.len()
        invariant
            i <= v.len(),
            out@.len() == i,
            forall|j: int| 0 <= j < i ==> (#[trigger] out@[j])@ == v@[j]@,
            decreases_to!(owner => *v),
        decreases v.len() - i,
    {
        proof {
            broadcast use vstd::std_specs::vec::axiom_vec_index_decreases;

            assert(decreases_to!(*v => v[i as int]));
        }
        let c = v[i].clone();
        out.push(c);
        i += 1;
    }
    proof {
        lemma_types_model_ext(out@, v@);
    }
    out
}

impl MirType {
    /// Decides whether `self` and `other` denote the same type.
    pub fn same_as(&self, other: &MirType) -> (r: bool)
        ensures
            r == (self@ == other@),
        decreases self,
    {
        match (self, other) {
            (MirType::Void, MirType::Void) => true,
            (MirType::Int(a), MirType::Int(b)) => *a == *b,
            (MirType::Ptr(a), MirType::Ptr(b)) => (*a.pointee).same_as(&b.pointee),
            (MirType::Array(a), MirType::Array(b)) => a.length == b.length && (*a.ty).same_as(
                &b.ty,
            ),
            (MirType::Function(a), MirType::Function(b)) => {
                assert(decreases_to!(*self => a.params));
                a.variadic == b.variadic && same_vec_in(self, &a.params, &b.params)
                    && (*a.ret_ty).same_as(&b.ret_ty)
            },
            (MirType::Tuple(a), MirType::Tuple(b)) => {
                assert(decreases_to!(*self => a.tys));
                same_vec_in(self, &a.tys, &b.tys)
            },
            (MirType::Struct(a), MirType::Struct(b)) => *a == *b,
            _ => false,
        }
    }

    /// The pointer type behind `self`, if `self` is a pointer.
    pub fn as_ptr(&self) -> (r: Option<&PtrType>)
        ensures
            r is Some <==> *self is Ptr,
            r matches Some(p) ==> *self == MirType::Ptr(*p),
    {
        match self {
            MirType::Ptr(inner) => Some(inner),
            _ => None,
        }
    }

    /// The integer type behind `self`, if `self` is an integer.
    pub fn as_integer(&self) -> (r: Option<IntType>)
        ensures
            r is Some <==> *self is Int,
            r matches Some(i) ==> *self == MirType::Int(i),
    {
        match self {
            MirType::Int(x) => Some(*x),
            _ => None,
        }
    }

    /// The field types of a struct or tuple type, copied out. `None` for
    /// any other type, and for a struct that `ctx` does not declare.
    pub fn fields(&self, ctx: &Context) -> (r: Option<Vec<MirType>>)
        ensures
            r is Some <==> fields_model(self@, ctx.structs@) is Some,
            r matches Some(v) ==> Some(types_model(v@)) == fields_model(self@, ctx.structs@),
    {
        match self {
            MirType::Struct(struct_id) => {
                let as_struct = ctx.structs.get(struct_id)?;
                let mut out: Vec<MirType> = Vec::new();
                let mut i: usize = 0;
                let ghost ft = struct_field_types(*as_struct);
                while i < as_struct.fields.len()
                    invariant
                        i <= as_struct.fields@.len(),
                        ft == struct_field_types(*as_struct),
                        out@.len() == i,
                        forall|j: int| 0 <= j < i ==> (#[trigger] out@[j])@ == ft[j]@,
                    decreases as_struct.fields.len() - i,
                {
                    let c = as_struct.fields[i].1.clone();
                    out.push(c);
                    i += 1;
                }
                proof {
                    lemma_types_model_ext(out@, ft);
                }
                Some(out)
            },
            MirType::Tuple(tuple) => {
                assert(decreases_to!(*self => tuple.tys));
                Some(clone_types(Ghost(*self), tuple.fields()))
            },
            _ => None,
        }
    }

    /// The array type behind `self`, if `self` is an array.
    pub fn as_array(&self) -> (r: Option<&ArrayType>)
        ensures
            r is Some <==> *self is Array,
            r matches Some(a) ==> *self == MirType::Array(*a),
    {
        match self {
            MirType::Array(arr_ty) => Some(arr_ty),
            _ => None,
        }
    }

    /// Whether values of this type have a length (arrays do).
    pub fn has_len(&self) -> (r: bool)
        ensures
            r == (*self is Array),
    {
        match self {
            MirType::Array(_) => true,
            _ => false,
        }
    }

    /// The type of pointers to `self`.
    pub fn wrap_ptr(&self) -> (r: PtrType)
        ensures
            (*r.pointee)@ == self@,
    {
        PtrType::new(self.clone())
    }
}

/// Decides whether two vectors of types held inside `owner` are equal; a
/// step of the comparison of `owner`.
fn same_vec_in(owner: &MirType, a: &Vec<MirType>, b: &Vec<MirType>) -> (r: bool)
    requires
        decreases_to!(*owner => *a),
    ensures
        r == (types_model(a@) == types_model(b@)),
    decreases owner, 0nat,
{
    proof {
        lemma_types_model(a@);
        lemma_types_model(b@);
    }
    if a.len() != b.len() {
        return false;
    }
    let mut i: usize = 0;
    while i < a.len()
        invariant
            i <= a.len(),
            a.len() == b.len(),
            decreases_to!(*owner => *a),
            types_model(a@).len() == a@.len(),
            types_model(b@).len() == b@.len(),
            forall|j: int| 0 <= j < a@.len() ==> #[trigger] types_model(a@)[j] == type_model(a@[j]),
            forall|j: int| 0 <= j < b@.len() ==> #[trigger] types_model(b@)[j] == type_model(b@[j]),
            forall|j: int| 0 <= j < i ==> (#[trigger] a@[j])@ == b@[j]@,
        decreases a.len() - i,
    {
        proof {
            broadcast use vstd::std_specs::vec::axiom_vec_index_decreases;

            assert(decreases_to!(*a => a[i as int]));
        }
        if !a[i].same_as(&b[i]) {
            assert(types_model(a@)[i as int] != types_model(b@)[i as int]);
            return false;
        }
        i += 1;
    }
    proof {
        lemma_types_model_ext(a@, b@);
    }
    true
}

} // verus!
