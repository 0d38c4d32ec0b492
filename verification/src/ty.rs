//! Type descriptors: primitive types, named types, function types, and the
//! mutability classes carried by bindings.

use vstd::prelude::*;

verus! {

/// An interned source identifier.  The front end interns every identifier of
/// the compilation unit to a number before handing the tree over.
pub type NameId = u64;

/// A first-order type: a primitive, a declared named type (struct, interface
/// or variant), or the opaque error sentinel used for best-effort recovery
/// after a diagnostic.
#[derive(Clone, Copy, PartialEq, Eq, Structural, Debug)]
pub enum Base {
    Int,
    Bool,
    Str,
    Void,
    /// A declared struct, interface or variant, by its name id.
    Named(NameId),
    /// Sentinel for a type that failed to resolve; it suppresses cascading
    /// diagnostics against the same expression.
    Error,
}

/// The type of a function value: the remaining (not yet curried) parameter
/// types in declaration order, the named return binding types in order, and
/// the number of leading parameters already bound by curry application.
pub struct FnTy {
    pub params: Vec<Base>,
    pub rets: Vec<Base>,
    pub curried: usize,
}

/// The static type of a binding or expression: either a first-order type or
/// a function type.
pub enum Ty {
    Plain(Base),
    Func(FnTy),
}

/// Mutability class of a binding.  `MutableReference` marks a parameter or
/// named return binding that aliases caller-owned storage; it is the subject
/// of the aliasing checker.
#[derive(Clone, Copy, PartialEq, Eq, Structural, Debug)]
pub enum BindClass {
    ImmutableValue,
    MutableLocal,
    MutableReference,
}

/// Structural equality of function types.
pub open spec fn fnty_eq_spec(a: FnTy, b: FnTy) -> bool {
    a.params@ == b.params@ && a.rets@ == b.rets@ && a.curried == b.curried
}

/// Structural equality of types.
pub open spec fn ty_eq_spec(a: Ty, b: Ty) -> bool {
    match (a, b) {
        (Ty::Plain(x), Ty::Plain(y)) => x == y,
        (Ty::Func(f), Ty::Func(g)) => fnty_eq_spec(f, g),
        _ => false,
    }
}

/// Decides equality of two vectors of first-order types.
pub fn base_vec_eq(a: &Vec<Base>, b: &Vec<Base>) -> (r: bool)
    ensures
        r == (a@ == b@),
{
    if a.len() != b.len() {
        assert(a@ != b@);
        return false;
    }
    let mut i: usize = 0;
    while i < a.len()
        invariant
            i <= a.len(),
            a@.len() == b@.len(),
            forall|j: int| 0 <= j < i ==> a@[j] == b@[j],
        decreases a.len() - i,
    {
        if a[i] != b[i] {
            assert(a@ != b@);
            return false;
        }
        i += 1;
    }
    proof {
        assert(a@ =~= b@);
    }
    true
}

/// Decides structural equality of function types.
pub fn fnty_eq(a: &FnTy, b: &FnTy) -> (r: bool)
    ensures
        r == fnty_eq_spec(*a, *b),
{
    base_vec_eq(&a.params, &b.params) && base_vec_eq(&a.rets, &b.rets) && a.curried == b.curried
}

/// Decides structural equality of types.
pub fn ty_eq(a: &Ty, b: &Ty) -> (r: bool)
    ensures
        r == ty_eq_spec(*a, *b),
{
    match (a, b) {
        (Ty::Plain(x), Ty::Plain(y)) => x == y,
        (Ty::Func(f), Ty::Func(g)) => fnty_eq(f, g),
        _ => false,
    }
}

} // verus!
