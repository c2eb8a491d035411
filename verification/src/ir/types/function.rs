use vstd::prelude::*;

use crate::ir::types::MirType;

verus! {

/// The signature of a function: parameter types, return type, and whether
/// further arguments may follow the declared parameters.
#[derive(Debug, Clone, PartialEq, Eq, Hash)]
pub struct FunctionType {
    pub params: Vec<MirType>,
    pub ret_ty: Box<MirType>,
    pub variadic: bool,
}

impl FunctionType {
    /// Turns the signature into an IR type.
    pub fn into_mir(self) -> (r: MirType)
        ensures
            r == MirType::Function(self),
    {
        MirType::Function(self)
    }

    /// The signature with the given parameters, return type and variadicity.
    pub fn new(params: Vec<MirType>, ret_ty: MirType, variadic: bool) -> (r: Self)
        ensures
            r.params == params,
            *r.ret_ty == ret_ty,
            r.variadic == variadic,
    {
        Self { params, ret_ty: Box::new(ret_ty), variadic }
    }

    /// The parameter types.
    pub fn params(&self) -> (r: &[MirType])
        ensures
            r@ == self.params@,
    {
        self.params.as_slice()
    }

    /// The return type.
    pub fn ret_ty(&self) -> (r: &MirType)
        ensures
            *r == *self.ret_ty,
    {
        &self.ret_ty
    }

    /// Whether further arguments may follow the declared parameters.
    pub fn variadic(&self) -> (r: bool)
        ensures
            r == self.variadic,
    {
        self.variadic
    }

    /// Sets whether further arguments may follow the parameters.
    pub fn set_variadic(&mut self, v: bool)
        ensures
            final(self).variadic == v,
            final(self).params == old(self).params,
            final(self).ret_ty == old(self).ret_ty,
    {
        self.variadic = v;
    }

    /// Sets the return type.
    pub fn set_return_ty(&mut self, ty: MirType)
        ensures
            *final(self).ret_ty == ty,
            final(self).params == old(self).params,
            final(self).variadic == old(self).variadic,
    {
        self.ret_ty = Box::new(ty);
    }

    /// Sets the parameter types.
    pub fn set_params(&mut self, params: Vec<MirType>)
        ensures
            final(self).params == params,
            final(self).ret_ty == old(self).ret_ty,
            final(self).variadic == old(self).variadic,
    {
        self.params = params
    }
}

} // verus!
