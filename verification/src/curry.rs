//! The curry engine: applying a positional prefix of arguments to a
//! function value yields a new, lower-arity function value whose type drops
//! the bound leading parameters, and whose runtime shape carries the fixed
//! argument values.  Arguments are evaluated eagerly by the caller, at the
//! point of currying.

use vstd::prelude::*;
use crate::ty::{Base, FnTy};
use crate::decl::Program;
use crate::diag::{Diagnostic, DiagKind, RegionKind};
use crate::eval::{Value, spec_call, eval_call};

verus! {

/// The runtime shape of a (possibly curried) function value: the function
/// it will enter, and the already-fixed leading argument values.
pub struct FnVal {
    pub func: usize,
    pub fixed: Vec<Value>,
}

/// The result of calling a function value with the remaining arguments:
/// the underlying function is entered on the fixed prefix followed by the
/// supplied rest.
pub open spec fn spec_call_value(p: Program, func: int, fixed: Seq<Value>, rest: Seq<Value>) -> Value {
    spec_call(p, func, fixed + rest)
}

/// Computes the type of a function value after a curry application: the
/// first `arg_tys.len()` parameters are consumed (each must match exactly)
/// and the curried-prefix length grows by as much.  Applying more arguments
/// than parameters remain is `CurryArityExceeded`; a positional type
/// mismatch is `CurryTypeMismatch`.
pub fn apply_prefix(ft: &FnTy, arg_tys: &Vec<Base>, n: crate::ty::NameId) -> (r: Result<
    FnTy,
    Diagnostic,
>)
    requires
        ft.curried + arg_tys@.len() <= usize::MAX,
    ensures
        match r {
            Ok(nt) => arg_tys@.len() <= ft.params@.len() && arg_tys@ == ft.params@.take(
                arg_tys@.len() as int,
            ) && nt.params@ == ft.params@.skip(arg_tys@.len() as int) && nt.rets@ == ft.rets@
                && nt.curried == ft.curried + arg_tys@.len(),
            Err(d) => d.subject == n && (arg_tys@.len() > ft.params@.len() && d.kind
                == DiagKind::CurryArityExceeded || arg_tys@.len() <= ft.params@.len() && arg_tys@
                != ft.params@.take(arg_tys@.len() as int) && d.kind == DiagKind::CurryTypeMismatch),
        },
{
    let k = arg_tys.len();
    if k > ft.params.len() {
        return Err(
            Diagnostic {
                kind: DiagKind::CurryArityExceeded,
                subject: n,
                context: n,
                region: RegionKind::Straight,
            },
        );
    }
    let mut i: usize = 0;
    while i < k
        invariant
            i <= k,
            k == arg_tys@.len(),
            k <= ft.params@.len(),
            forall|j: int| 0 <= j < i ==> arg_tys@[j] == ft.params@.take(k as int)[j],
        decreases k - i,
    {
        if arg_tys[i] != ft.params[i] {
            proof {
                assert(arg_tys@[i as int] != ft.params@.take(k as int)[i as int]);
                assert(arg_tys@ != ft.params@.take(k as int));
            }
            return Err(
                Diagnostic {
                    kind: DiagKind::CurryTypeMismatch,
                    subject: n,
                    context: n,
                    region: RegionKind::Straight,
                },
            );
        }
        i += 1;
    }
    proof {
        assert(arg_tys@ =~= ft.params@.take(k as int));
    }
    let mut rest: Vec<Base> = Vec::new();
    let mut j: usize = k;
    while j < ft.params.len()
        invariant
            k <= j <= ft.params@.len(),
            rest@ =~= ft.params@.subrange(k as int, j as int),
        decreases ft.params@.len() - j,
    {
        rest.push(ft.params[j]);
        proof {
            assert(rest@ =~= ft.params@.subrange(k as int, j as int + 1));
        }
        j += 1;
    }
    let mut rets: Vec<Base> = Vec::new();
    let mut m: usize = 0;
    while m < ft.rets.len()
        invariant
            m <= ft.rets@.len(),
            rets@ =~= ft.rets@.take(m as int),
        decreases ft.rets@.len() - m,
    {
        rets.push(ft.rets[m]);
        proof {
            assert(rets@ =~= ft.rets@.take(m as int + 1));
        }
        m += 1;
    }
    proof {
        assert(ft.params@.subrange(k as int, ft.params@.len() as int) =~= ft.params@.skip(
            k as int,
        ));
        assert(ft.rets@.take(ft.rets@.len() as int) =~= ft.rets@);
    }
    Ok(FnTy { params: rest, rets, curried: ft.curried + k })
}

/// Applies a further prefix of argument values to a function value: the new
/// shape fixes the old prefix followed by the new arguments.
pub fn curry_value(v: FnVal, args: Vec<Value>) -> (r: FnVal)
    ensures
        r.func == v.func,
        r.fixed@ == v.fixed@ + args@,
{
    let mut fixed = v.fixed;
    let mut args = args;
    fixed.append(&mut args);
    FnVal { func: v.func, fixed }
}

/// Calls a function value on the remaining arguments.
pub fn call_value(p: &Program, v: FnVal, rest: Vec<Value>) -> (r: Value)
    ensures
        r == spec_call_value(*p, v.func as int, v.fixed@, rest@),
{
    let func = v.func;
    let mut args = v.fixed;
    let mut rest = rest;
    args.append(&mut rest);
    eval_call(p, func, args)
}

/// Prefix-binding associativity at the type level: consuming `k1`
/// parameters and then `k2` more drops the same leading parameters as
/// consuming `k1 + k2` at once.
pub proof fn lemma_curry_type_assoc(params: Seq<Base>, k1: int, k2: int)
    requires
        0 <= k1,
        0 <= k2,
        k1 + k2 <= params.len(),
    ensures
        params.skip(k1).skip(k2) == params.skip(k1 + k2),
{
    assert(params.skip(k1).skip(k2) =~= params.skip(k1 + k2));
}

/// Prefix-binding associativity at the value level: chained curry
/// applications fix the same argument sequence as a single application of
/// the concatenation, so the eventual calls are equal.
pub proof fn lemma_curry_chain(fixed: Seq<Value>, a: Seq<Value>, b: Seq<Value>)
    ensures
        (fixed + a) + b == fixed + (a + b),
{
    assert((fixed + a) + b =~= fixed + (a + b));
}

/// Chained curry applications enter the function exactly as the single
/// application of the concatenated prefix does.
pub proof fn lemma_chained_call_eq(
    p: Program,
    func: int,
    fixed: Seq<Value>,
    a: Seq<Value>,
    b: Seq<Value>,
    rest: Seq<Value>,
)
    ensures
        spec_call_value(p, func, (fixed + a) + b, rest) == spec_call_value(
            p,
            func,
            fixed + (a + b),
            rest,
        ),
{
    lemma_curry_chain(fixed, a, b);
}

/// A fully curried value invoked with an empty argument list enters the
/// function on exactly the fixed arguments: full curry application equals
/// the direct call.
pub proof fn lemma_full_curry_eq_direct(p: Program, func: int, args: Seq<Value>)
    ensures
        spec_call_value(p, func, args, Seq::empty()) == spec_call(p, func, args),
{
    assert(args + Seq::<Value>::empty() =~= args);
}

} // verus!
