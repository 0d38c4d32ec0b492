//! Call-site resolution over function bodies: every direct call, method
//! call, cast, membership test and curry application in a body is resolved
//! against the dispatch machinery, diagnostics are accumulated, and each
//! resolved call site's target declaration is recorded in walk order.
//!
//! Expressions carry first-order static types; a function value lives in a
//! declared binding, whose declared type governs calls through it.  The
//! error sentinel suppresses cascading diagnostics: a site whose receiver
//! or arguments already failed is not reported again.  Binding names are
//! hoisted: a declaration anywhere in the body is visible throughout (the
//! front end guarantees unique names per function).

use vstd::prelude::*;
use crate::ty::{NameId, Base, Ty, ty_eq_spec, ty_eq, base_vec_eq};
use crate::ast::{Expr, Args, Stmt};
use crate::decl::{
    Binding, FlatField, Member, FunctionDecl, Program, prog_wf, struct_idx, iface_idx,
    find_struct, find_iface,
};
use crate::flatten::{flat_of, flatten_fields};
use crate::iface::plain_of;
use crate::dispatch::{
    match_count, mmatch_count, first_sig_match, first_mmatch, resolve_overload, resolve_method,
    check_upcast, check_variant_test, upcast_ok, variant_test_ok,
};
use crate::resolve::{resolve_ref, resolve_bare, ov_set, resolve_ref_exec, resolve_bare_exec, ov_set_exec};
use crate::diag::{Diagnostic, DiagKind, RegionKind};

verus! {

/// The declared type of the first binding of the name, front to back.
pub open spec fn bindings_find(bs: Seq<Binding>, n: NameId) -> Option<Ty>
    decreases bs.len(),
{
    if bs.len() == 0 {
        None
    } else if bs[0].name == n {
        Some(bs[0].ty)
    } else {
        bindings_find(bs.skip(1), n)
    }
}

proof fn lemma_bindings_find_skip(bs: Seq<Binding>, n: NameId, i: int)
    requires
        0 <= i <= bs.len(),
        forall|j: int| 0 <= j < i ==> (#[trigger] bs[j]).name != n,
    ensures
        bindings_find(bs, n) == bindings_find(bs.skip(i), n),
    decreases i,
{
    if i > 0 {
        lemma_bindings_find_skip(bs.skip(1), n, i - 1);
        assert(bs.skip(1).skip(i - 1) =~= bs.skip(i));
    } else {
        assert(bs.skip(0) =~= bs);
    }
}

/// The declared type of a local, in textual order.
pub open spec fn local_find(s: Stmt, n: NameId) -> Option<Ty>
    decreases s,
{
    match s {
        Stmt::Local { name, class: _, ty } => if name == n {
            Some(ty)
        } else {
            None
        },
        Stmt::Chain(a, b) => match local_find(*a, n) {
            Some(t) => Some(t),
            None => local_find(*b, n),
        },
        Stmt::If { cond: _, then_s, else_s } => match local_find(*then_s, n) {
            Some(t) => Some(t),
            None => local_find(*else_s, n),
        },
        Stmt::While { cond: _, body } => local_find(*body, n),
        _ => None,
    }
}

/// The declared type a name denotes inside a function: a parameter, a
/// named return binding, or a hoisted local, in that order.
pub open spec fn find_bind(f: FunctionDecl, n: NameId) -> Option<Ty> {
    match bindings_find(f.params@, n) {
        Some(t) => Some(t),
        None => match bindings_find(f.rets@, n) {
            Some(t) => Some(t),
            None => local_find(f.body, n),
        },
    }
}

/// Looks a binding list up, borrowing the declared type.
fn bindings_find_exec<'a>(bs: &'a Vec<Binding>, n: NameId) -> (r: Option<&'a Ty>)
    ensures
        match r {
            Some(t) => bindings_find(bs@, n) == Some(*t),
            None => bindings_find(bs@, n) is None,
        },
{
    let mut i: usize = 0;
    while i < bs.len()
        invariant
            i <= bs@.len(),
            forall|j: int| 0 <= j < i ==> (#[trigger] bs@[j]).name != n,
        decreases bs@.len() - i,
    {
        if bs[i].name == n {
            proof {
                lemma_bindings_find_skip(bs@, n, i as int);
                assert(bs@.skip(i as int)[0] == bs@[i as int]);
            }
            return Some(&bs[i].ty);
        }
        i += 1;
    }
    proof {
        lemma_bindings_find_skip(bs@, n, bs@.len() as int);
        assert(bs@.skip(bs@.len() as int) =~= Seq::<Binding>::empty());
    }
    None
}

/// Searches a body for a local declaration, borrowing its declared type.
fn local_find_exec<'a>(s: &'a Stmt, n: NameId) -> (r: Option<&'a Ty>)
    ensures
        match r {
            Some(t) => local_find(*s, n) == Some(*t),
            None => local_find(*s, n) is None,
        },
    decreases *s,
{
    match s {
        Stmt::Local { name, class: _, ty } => {
            if *name == n {
                Some(ty)
            } else {
                None
            }
        },
        Stmt::Chain(a, b) => {
            match local_find_exec(a, n) {
                Some(t) => Some(t),
                None => local_find_exec(b, n),
            }
        },
        Stmt::If { cond: _, then_s, else_s } => {
            match local_find_exec(then_s, n) {
                Some(t) => Some(t),
                None => local_find_exec(else_s, n),
            }
        },
        Stmt::While { cond: _, body } => local_find_exec(body, n),
        _ => None,
    }
}

/// Looks a name up among a function's bindings.
pub fn find_bind_exec<'a>(f: &'a FunctionDecl, n: NameId) -> (r: Option<&'a Ty>)
    ensures
        match r {
            Some(t) => find_bind(*f, n) == Some(*t),
            None => find_bind(*f, n) is None,
        },
{
    match bindings_find_exec(&f.params, n) {
        Some(t) => Some(t),
        None => match bindings_find_exec(&f.rets, n) {
            Some(t) => Some(t),
            None => local_find_exec(&f.body, n),
        },
    }
}

/// The type of the first flattened field of the name.
pub open spec fn flat_member_ty(fl: Seq<FlatField>, n: NameId) -> Option<Base>
    decreases fl.len(),
{
    if fl.len() == 0 {
        None
    } else if fl[0].name == n {
        Some(fl[0].ty)
    } else {
        flat_member_ty(fl.skip(1), n)
    }
}

proof fn lemma_flat_member_ty_skip(fl: Seq<FlatField>, n: NameId, i: int)
    requires
        0 <= i <= fl.len(),
        forall|j: int| 0 <= j < i ==> (#[trigger] fl[j]).name != n,
    ensures
        flat_member_ty(fl, n) == flat_member_ty(fl.skip(i), n),
    decreases i,
{
    if i > 0 {
        lemma_flat_member_ty_skip(fl.skip(1), n, i - 1);
        assert(fl.skip(1).skip(i - 1) =~= fl.skip(i));
    } else {
        assert(fl.skip(0) =~= fl);
    }
}

/// The first-order type of the first required interface member of the name.
pub open spec fn iface_member_ty(ms: Seq<Member>, n: NameId) -> Option<Base>
    decreases ms.len(),
{
    if ms.len() == 0 {
        None
    } else if ms[0].name == n {
        Some(plain_of(ms[0].ty))
    } else {
        iface_member_ty(ms.skip(1), n)
    }
}

proof fn lemma_iface_member_ty_skip(ms: Seq<Member>, n: NameId, i: int)
    requires
        0 <= i <= ms.len(),
        forall|j: int| 0 <= j < i ==> (#[trigger] ms[j]).name != n,
    ensures
        iface_member_ty(ms, n) == iface_member_ty(ms.skip(i), n),
    decreases i,
{
    if i > 0 {
        lemma_iface_member_ty_skip(ms.skip(1), n, i - 1);
        assert(ms.skip(1).skip(i - 1) =~= ms.skip(i));
    } else {
        assert(ms.skip(0) =~= ms);
    }
}

/// The type of the member `n` on the named type `t`: a flattened field of a
/// struct, or a required member of an interface.
pub open spec fn named_member_ty(p: Program, t: NameId, n: NameId) -> Option<Base> {
    match struct_idx(p, t) {
        Some(si) => match flat_of(p, si) {
            Some(fl) => flat_member_ty(fl, n),
            None => None,
        },
        None => match iface_idx(p, t) {
            Some(ii) => iface_member_ty(p.interfaces@[ii].members@, n),
            None => None,
        },
    }
}

/// Looks a member up on a named type.
pub fn named_member_ty_exec(p: &Program, t: NameId, n: NameId) -> (r: Option<Base>)
    requires
        prog_wf(*p),
    ensures
        r == named_member_ty(*p, t, n),
{
    match find_struct(p, t) {
        Some(si) => {
            let nstructs = p.structs.len();
            match flatten_fields(p, &p.structs[si].fields, nstructs as u64) {
                Some(fl) => {
                    let mut k: usize = 0;
                    while k < fl.len()
                        invariant
                            k <= fl@.len(),
                            si < p.structs@.len(),
                            struct_idx(*p, t) == Some(si as int),
                            flat_of(*p, si as int) == Some(fl@),
                            forall|j: int| 0 <= j < k ==> (#[trigger] fl@[j]).name != n,
                        decreases fl@.len() - k,
                    {
                        if fl[k].name == n {
                            proof {
                                lemma_flat_member_ty_skip(fl@, n, k as int);
                                assert(fl@.skip(k as int)[0] == fl@[k as int]);
                                assert(flat_member_ty(fl@.skip(k as int), n) == Some(
                                    fl@[k as int].ty,
                                ));
                            }
                            return Some(fl[k].ty);
                        }
                        k += 1;
                    }
                    proof {
                        lemma_flat_member_ty_skip(fl@, n, fl@.len() as int);
                        assert(fl@.skip(fl@.len() as int) =~= Seq::<FlatField>::empty());
                    }
                    None
                },
                None => None,
            }
        },
        None => {
            match find_iface(p, t) {
                Some(ii) => {
                    let ms = &p.interfaces[ii].members;
                    let mut k: usize = 0;
                    while k < ms.len()
                        invariant
                            ii < p.interfaces@.len(),
                            ms == &p.interfaces@[ii as int].members,
                            k <= ms@.len(),
                            struct_idx(*p, t) is None,
                            iface_idx(*p, t) == Some(ii as int),
                            forall|j: int| 0 <= j < k ==> (#[trigger] ms@[j]).name != n,
                        decreases ms@.len() - k,
                    {
                        if ms[k].name == n {
                            proof {
                                lemma_iface_member_ty_skip(ms@, n, k as int);
                                assert(ms@.skip(k as int)[0] == ms@[k as int]);
                                assert(iface_member_ty(ms@.skip(k as int), n) == Some(
                                    plain_of(ms@[k as int].ty),
                                ));
                            }
                            let r = match &ms[k].ty {
                                Ty::Plain(b) => Some(*b),
                                Ty::Func(_) => Some(Base::Error),
                            };
                            return r;
                        }
                        k += 1;
                    }
                    proof {
                        lemma_iface_member_ty_skip(ms@, n, ms@.len() as int);
                        assert(ms@.skip(ms@.len() as int) =~= Seq::<Member>::empty());
                    }
                    None
                },
                None => None,
            }
        },
    }
}

/// First-order argument types wrapped for the exact-match machinery.
pub open spec fn as_tys(bs: Seq<Base>) -> Seq<Ty> {
    bs.map_values(|b: Base| Ty::Plain(b))
}

/// Wraps first-order types for the exact-match machinery.
fn wrap_tys(bs: &Vec<Base>) -> (r: Vec<Ty>)
    ensures
        r@ == as_tys(bs@),
{
    let mut out: Vec<Ty> = Vec::new();
    let mut i: usize = 0;
    while i < bs.len()
        invariant
            i <= bs@.len(),
            out@.len() == i,
            forall|j: int| 0 <= j < i ==> out@[j] == Ty::Plain(bs@[j]),
        decreases bs@.len() - i,
    {
        out.push(Ty::Plain(bs[i]));
        i += 1;
    }
    proof {
        assert(out@ =~= as_tys(bs@));
    }
    out
}

/// The first-order type of a declared function's first named return
/// binding, or void with none.
pub open spec fn ret_base_of(fd: FunctionDecl) -> Base {
    if fd.rets@.len() == 0 {
        Base::Void
    } else {
        plain_of(fd.rets@[0].ty)
    }
}

/// The first return type of a function type, or void.
pub open spec fn fnty_ret(ft: crate::ty::FnTy) -> Base {
    if ft.rets@.len() == 0 {
        Base::Void
    } else {
        ft.rets@[0]
    }
}

/// The result type of a direct call site: through a function-valued
/// binding where the single-segment path names one, else through module
/// resolution and unique exact-match overload selection.
pub open spec fn call_ret(p: Program, m: int, f: FunctionDecl, path: Seq<NameId>, at: Seq<Base>) -> Base {
    if path.len() == 1 && find_bind(f, path[0]) is Some {
        match find_bind(f, path[0]) {
            Some(Ty::Func(ft)) => if ft.params@ == at {
                fnty_ret(ft)
            } else {
                Base::Error
            },
            _ => Base::Error,
        }
    } else {
        match resolve_ref(p, m, path) {
            Some(md) => {
                let cands = ov_set(p, md, path.last());
                if match_count(p, cands, as_tys(at), cands.len() as int) == 1 {
                    match first_sig_match(p, cands, as_tys(at)) {
                        Some(fi) => if fi < p.funcs@.len() {
                            ret_base_of(p.funcs@[fi as int])
                        } else {
                            Base::Error
                        },
                        None => Base::Error,
                    }
                } else {
                    Base::Error
                }
            },
            None => Base::Error,
        }
    }
}

/// Validity of a direct call site.
pub open spec fn call_site_ok(
    p: Program,
    m: int,
    f: FunctionDecl,
    path: Seq<NameId>,
    at: Seq<Base>,
) -> bool {
    if path.len() == 1 && find_bind(f, path[0]) is Some {
        match find_bind(f, path[0]) {
            Some(Ty::Func(ft)) => ft.params@ == at,
            _ => false,
        }
    } else {
        match resolve_ref(p, m, path) {
            Some(md) => match_count(
                p,
                ov_set(p, md, path.last()),
                as_tys(at),
                ov_set(p, md, path.last()).len() as int,
            ) == 1,
            None => false,
        }
    }
}

/// The result type of a method call site, from the receiver's static type.
pub open spec fn method_ret(p: Program, m: int, recv: Base, name: NameId, at: Seq<Base>) -> Base {
    match resolve_bare(p, m, name) {
        Some(md) => {
            let cands = ov_set(p, md, name);
            if mmatch_count(p, cands, Ty::Plain(recv), as_tys(at), cands.len() as int) == 1 {
                match first_mmatch(p, cands, Ty::Plain(recv), as_tys(at)) {
                    Some(fi) => if fi < p.funcs@.len() {
                        ret_base_of(p.funcs@[fi as int])
                    } else {
                        Base::Error
                    },
                    None => Base::Error,
                }
            } else {
                Base::Error
            }
        },
        None => Base::Error,
    }
}

/// Validity of a method call site.
pub open spec fn method_site_ok(p: Program, m: int, recv: Base, name: NameId, at: Seq<Base>) -> bool {
    match resolve_bare(p, m, name) {
        Some(md) => mmatch_count(
            p,
            ov_set(p, md, name),
            Ty::Plain(recv),
            as_tys(at),
            ov_set(p, md, name).len() as int,
        ) == 1,
        None => false,
    }
}

/// Validity of a curry site: the path names exactly one declaration, and
/// the argument prefix matches its leading parameters.
pub open spec fn curry_site_ok(p: Program, m: int, path: Seq<NameId>, at: Seq<Base>) -> bool {
    match resolve_ref(p, m, path) {
        Some(md) => {
            let c = ov_set(p, md, path.last());
            &&& c.len() == 1
            &&& c[0] < p.funcs@.len()
            &&& at.len() <= p.funcs@[c[0] as int].params@.len()
            &&& forall|k: int|
                0 <= k < at.len() ==> ty_eq_spec(
                    (#[trigger] p.funcs@[c[0] as int].params@[k]).ty,
                    Ty::Plain(at[k]),
                )
        },
        None => false,
    }
}

/// Some argument type already failed.
pub open spec fn has_err(at: Seq<Base>) -> bool {
    exists|k: int| 0 <= k < at.len() && at[k] == Base::Error
}

/// The first-order static type of an expression inside function `f`,
/// checked from module `m`.  A failure anywhere yields the error sentinel,
/// which propagates.
pub open spec fn ety(p: Program, m: int, f: FunctionDecl, e: Expr) -> Base
    decreases e,
{
    match e {
        Expr::IntLit(_) => Base::Int,
        Expr::BoolLit(_) => Base::Bool,
        Expr::StrLit(_) => Base::Str,
        Expr::Var(n) => match find_bind(f, n) {
            Some(t) => plain_of(t),
            None => Base::Error,
        },
        Expr::FieldAcc(b, n) => match ety(p, m, f, *b) {
            Base::Named(t) => match named_member_ty(p, t, n) {
                Some(bb) => bb,
                None => Base::Error,
            },
            _ => Base::Error,
        },
        Expr::Add(_, _) => Base::Int,
        Expr::EqOp(_, _) => Base::Bool,
        Expr::AndOp(_, _) => Base::Bool,
        Expr::IsTest { recv: _, variant: _ } => Base::Bool,
        Expr::Cast { recv, target } => {
            if upcast_ok(p, Ty::Plain(ety(p, m, f, *recv)), target) {
                Base::Named(target)
            } else {
                Base::Error
            }
        },
        Expr::CallE { path, args } => {
            if has_err(etys(p, m, f, *args)) {
                Base::Error
            } else {
                call_ret(p, m, f, path@, etys(p, m, f, *args))
            }
        },
        Expr::MethodCall { recv, name, args } => {
            if ety(p, m, f, *recv) == Base::Error || has_err(etys(p, m, f, *args)) {
                Base::Error
            } else {
                method_ret(p, m, ety(p, m, f, *recv), name, etys(p, m, f, *args))
            }
        },
        Expr::CurryE { path: _, args: _ } => Base::Error,
    }
}

/// The argument types, in order.
pub open spec fn etys(p: Program, m: int, f: FunctionDecl, a: Args) -> Seq<Base>
    decreases a,
{
    match a {
        Args::ANil => Seq::empty(),
        Args::ACons(e, rest) => seq![ety(p, m, f, *e)] + etys(p, m, f, *rest),
    }
}

/// No diagnostic arises anywhere in the expression: every name resolves,
/// every call site selects a unique overload, every cast and membership
/// test is valid.  A site whose receiver or arguments already failed is
/// suppressed, not re-reported.
pub open spec fn expr_clean(p: Program, m: int, f: FunctionDecl, e: Expr) -> bool
    decreases e,
{
    match e {
        Expr::IntLit(_) => true,
        Expr::BoolLit(_) => true,
        Expr::StrLit(_) => true,
        Expr::Var(n) => find_bind(f, n) is Some,
        Expr::FieldAcc(b, n) => expr_clean(p, m, f, *b) && match ety(p, m, f, *b) {
            Base::Error => true,
            Base::Named(t) => named_member_ty(p, t, n) is Some,
            _ => false,
        },
        Expr::Add(a, b) => expr_clean(p, m, f, *a) && expr_clean(p, m, f, *b),
        Expr::EqOp(a, b) => expr_clean(p, m, f, *a) && expr_clean(p, m, f, *b),
        Expr::AndOp(a, b) => expr_clean(p, m, f, *a) && expr_clean(p, m, f, *b),
        Expr::IsTest { recv, variant } => expr_clean(p, m, f, *recv) && (ety(p, m, f, *recv)
            == Base::Error || variant_test_ok(p, Ty::Plain(ety(p, m, f, *recv)), variant)),
        Expr::Cast { recv, target } => expr_clean(p, m, f, *recv) && (ety(p, m, f, *recv)
            == Base::Error || upcast_ok(p, Ty::Plain(ety(p, m, f, *recv)), target)),
        Expr::CallE { path, args } => args_clean(p, m, f, *args) && (has_err(etys(p, m, f, *args))
            || call_site_ok(p, m, f, path@, etys(p, m, f, *args))),
        Expr::MethodCall { recv, name, args } => expr_clean(p, m, f, *recv) && args_clean(
            p,
            m,
            f,
            *args,
        ) && (ety(p, m, f, *recv) == Base::Error || has_err(etys(p, m, f, *args))
            || method_site_ok(p, m, ety(p, m, f, *recv), name, etys(p, m, f, *args))),
        Expr::CurryE { path, args } => args_clean(p, m, f, *args) && (has_err(etys(p, m, f, *args))
            || curry_site_ok(p, m, path@, etys(p, m, f, *args))),
    }
}

pub open spec fn args_clean(p: Program, m: int, f: FunctionDecl, a: Args) -> bool
    decreases a,
{
    match a {
        Args::ANil => true,
        Args::ACons(e, rest) => expr_clean(p, m, f, *e) && args_clean(p, m, f, *rest),
    }
}

/// No diagnostic arises anywhere in the statement.
pub open spec fn stmt_clean(p: Program, m: int, f: FunctionDecl, s: Stmt) -> bool
    decreases s,
{
    match s {
        Stmt::Skip => true,
        Stmt::Ret => true,
        Stmt::Local { name: _, class: _, ty: _ } => true,
        Stmt::Chain(a, b) => stmt_clean(p, m, f, *a) && stmt_clean(p, m, f, *b),
        Stmt::Assign { target, expr } => expr_clean(p, m, f, expr) && find_bind(f, target) is Some,
        Stmt::If { cond, then_s, else_s } => expr_clean(p, m, f, cond) && stmt_clean(
            p,
            m,
            f,
            *then_s,
        ) && stmt_clean(p, m, f, *else_s),
        Stmt::While { cond, body } => expr_clean(p, m, f, cond) && stmt_clean(p, m, f, *body),
        Stmt::CallStmt { path, args } => args_clean(p, m, f, args) && (has_err(
            etys(p, m, f, args),
        ) || call_site_ok(p, m, f, path@, etys(p, m, f, args))),
    }
}

/// The whole body resolves cleanly.
pub open spec fn body_clean(p: Program, m: int, f: FunctionDecl) -> bool {
    stmt_clean(p, m, f, f.body)
}

/// Decides `has_err`.
fn has_err_exec(at: &Vec<Base>) -> (r: bool)
    ensures
        r == has_err(at@),
{
    let mut i: usize = 0;
    while i < at.len()
        invariant
            i <= at@.len(),
            forall|j: int| 0 <= j < i ==> at@[j] != Base::Error,
        decreases at@.len() - i,
    {
        if at[i] == Base::Error {
            return true;
        }
        i += 1;
    }
    false
}

/// Resolves one direct call site, reporting its failure or recording its
/// resolved target, and computing its result type.
fn check_call_site(
    p: &Program,
    m: usize,
    f: &FunctionDecl,
    path: &Vec<NameId>,
    ab: &Vec<Base>,
    out: &mut Vec<Diagnostic>,
    targets: &mut Vec<usize>,
) -> (r: Base)
    requires
        prog_wf(*p),
        m < p.modules@.len(),
        forall|k: int| 0 <= k < targets@.len() ==> (#[trigger] targets@[k]) < p.funcs@.len(),
    ensures
        r == call_ret(*p, m as int, *f, path@, ab@),
        (final(out)@.len() == old(out)@.len()) <==> call_site_ok(*p, m as int, *f, path@, ab@),
        final(out)@.len() >= old(out)@.len(),
        forall|k: int|
            0 <= k < final(targets)@.len() ==> (#[trigger] final(targets)@[k]) < p.funcs@.len(),
{
    if path.len() == 1 {
        match find_bind_exec(f, path[0]) {
            Some(t) => {
                match t {
                    Ty::Func(ft) => {
                        if base_vec_eq(&ft.params, ab) {
                            let r = if ft.rets.len() == 0 {
                                Base::Void
                            } else {
                                ft.rets[0]
                            };
                            return r;
                        }
                        out.push(
                            Diagnostic {
                                kind: DiagKind::NoMatchingOverload,
                                subject: path[0],
                                context: path[0],
                                region: RegionKind::Straight,
                            },
                        );
                        return Base::Error;
                    },
                    Ty::Plain(_) => {
                        out.push(
                            Diagnostic {
                                kind: DiagKind::NoMatchingOverload,
                                subject: path[0],
                                context: path[0],
                                region: RegionKind::Straight,
                            },
                        );
                        return Base::Error;
                    },
                }
            },
            None => {},
        }
    }
    match resolve_ref_exec(p, m, path) {
        None => {
            let subj = if path.len() >= 1 {
                path[path.len() - 1]
            } else {
                0
            };
            out.push(
                Diagnostic {
                    kind: DiagKind::UnresolvedName,
                    subject: subj,
                    context: subj,
                    region: RegionKind::Straight,
                },
            );
            Base::Error
        },
        Some(md) => {
            proof {
                assert(path@.len() >= 1);
                assert(path@.last() == path@[path@.len() - 1]);
            }
            let last = path[path.len() - 1];
            let cands = ov_set_exec(p, md, last);
            let atv = wrap_tys(ab);
            match resolve_overload(p, &cands, &atv, last) {
                Ok(fi) => {
                    targets.push(fi);
                    let fd = &p.funcs[fi];
                    if fd.rets.len() == 0 {
                        Base::Void
                    } else {
                        match &fd.rets[0].ty {
                            Ty::Plain(b) => *b,
                            Ty::Func(_) => Base::Error,
                        }
                    }
                },
                Err(d) => {
                    out.push(d);
                    Base::Error
                },
            }
        },
    }
}

/// Resolves one expression: computes its static type, reports every
/// diagnostic of it and its subexpressions, and records resolved call
/// targets in walk order.
pub fn check_expr(
    p: &Program,
    m: usize,
    f: &FunctionDecl,
    e: &Expr,
    out: &mut Vec<Diagnostic>,
    targets: &mut Vec<usize>,
) -> (r: Base)
    requires
        prog_wf(*p),
        m < p.modules@.len(),
        forall|k: int| 0 <= k < targets@.len() ==> (#[trigger] targets@[k]) < p.funcs@.len(),
    ensures
        r == ety(*p, m as int, *f, *e),
        (final(out)@.len() == old(out)@.len()) <==> expr_clean(*p, m as int, *f, *e),
        final(out)@.len() >= old(out)@.len(),
        forall|k: int|
            0 <= k < final(targets)@.len() ==> (#[trigger] final(targets)@[k]) < p.funcs@.len(),
    decreases *e,
{
    match e {
        Expr::IntLit(_) => Base::Int,
        Expr::BoolLit(_) => Base::Bool,
        Expr::StrLit(_) => Base::Str,
        Expr::Var(n) => {
            match find_bind_exec(f, *n) {
                Some(t) => match t {
                    Ty::Plain(b) => *b,
                    Ty::Func(_) => Base::Error,
                },
                None => {
                    out.push(
                        Diagnostic {
                            kind: DiagKind::UnresolvedName,
                            subject: *n,
                            context: *n,
                            region: RegionKind::Straight,
                        },
                    );
                    Base::Error
                },
            }
        },
        Expr::FieldAcc(b, n) => {
            let rb = check_expr(p, m, f, b, out, targets);
            match rb {
                Base::Error => Base::Error,
                Base::Named(t) => {
                    match named_member_ty_exec(p, t, *n) {
                        Some(bb) => bb,
                        None => {
                            out.push(
                                Diagnostic {
                                    kind: DiagKind::UnresolvedName,
                                    subject: *n,
                                    context: t,
                                    region: RegionKind::Straight,
                                },
                            );
                            Base::Error
                        },
                    }
                },
                _ => {
                    out.push(
                        Diagnostic {
                            kind: DiagKind::UnresolvedName,
                            subject: *n,
                            context: *n,
                            region: RegionKind::Straight,
                        },
                    );
                    Base::Error
                },
            }
        },
        Expr::Add(a, b) => {
            check_expr(p, m, f, a, out, targets);
            check_expr(p, m, f, b, out, targets);
            Base::Int
        },
        Expr::EqOp(a, b) => {
            check_expr(p, m, f, a, out, targets);
            check_expr(p, m, f, b, out, targets);
            Base::Bool
        },
        Expr::AndOp(a, b) => {
            check_expr(p, m, f, a, out, targets);
            check_expr(p, m, f, b, out, targets);
            Base::Bool
        },
        Expr::IsTest { recv, variant } => {
            let rb = check_expr(p, m, f, recv, out, targets);
            if rb != Base::Error {
                match check_variant_test(p, &Ty::Plain(rb), *variant) {
                    Some(d) => {
                        out.push(d);
                    },
                    None => {},
                }
            }
            Base::Bool
        },
        Expr::Cast { recv, target } => {
            let rb = check_expr(p, m, f, recv, out, targets);
            if rb == Base::Error {
                proof {
                    assert(!upcast_ok(*p, Ty::Plain(Base::Error), *target));
                }
                return Base::Error;
            }
            match check_upcast(p, &Ty::Plain(rb), *target) {
                Ok(_) => Base::Named(*target),
                Err(d) => {
                    out.push(d);
                    Base::Error
                },
            }
        },
        Expr::CallE { path, args } => {
            let ab = check_args(p, m, f, args, out, targets);
            if has_err_exec(&ab) {
                return Base::Error;
            }
            check_call_site(p, m, f, path, &ab, out, targets)
        },
        Expr::MethodCall { recv, name, args } => {
            let rb = check_expr(p, m, f, recv, out, targets);
            let ab = check_args(p, m, f, args, out, targets);
            if rb == Base::Error || has_err_exec(&ab) {
                return Base::Error;
            }
            match resolve_bare_exec(p, m, *name) {
                None => {
                    out.push(
                        Diagnostic {
                            kind: DiagKind::UnresolvedName,
                            subject: *name,
                            context: *name,
                            region: RegionKind::Straight,
                        },
                    );
                    Base::Error
                },
                Some(md) => {
                    let cands = ov_set_exec(p, md, *name);
                    let atv = wrap_tys(&ab);
                    match resolve_method(p, &cands, &Ty::Plain(rb), &atv, *name) {
                        Ok(fi) => {
                            targets.push(fi);
                            let fd = &p.funcs[fi];
                            if fd.rets.len() == 0 {
                                Base::Void
                            } else {
                                match &fd.rets[0].ty {
                                    Ty::Plain(b) => *b,
                                    Ty::Func(_) => Base::Error,
                                }
                            }
                        },
                        Err(d) => {
                            out.push(d);
                            Base::Error
                        },
                    }
                },
            }
        },
        Expr::CurryE { path, args } => {
            let ab = check_args(p, m, f, args, out, targets);
            if has_err_exec(&ab) {
                return Base::Error;
            }
            match resolve_ref_exec(p, m, path) {
                None => {
                    let subj = if path.len() >= 1 {
                        path[path.len() - 1]
                    } else {
                        0
                    };
                    out.push(
                        Diagnostic {
                            kind: DiagKind::UnresolvedName,
                            subject: subj,
                            context: subj,
                            region: RegionKind::Straight,
                        },
                    );
                    Base::Error
                },
                Some(md) => {
                    proof {
                        assert(path@.len() >= 1);
                        assert(path@.last() == path@[path@.len() - 1]);
                    }
                    let last = path[path.len() - 1];
                    let cands = ov_set_exec(p, md, last);
                    if cands.len() != 1 {
                        out.push(
                            Diagnostic {
                                kind: DiagKind::AmbiguousOverload,
                                subject: last,
                                context: last,
                                region: RegionKind::Straight,
                            },
                        );
                        return Base::Error;
                    }
                    let fd = &p.funcs[cands[0]];
                    if ab.len() > fd.params.len() {
                        out.push(
                            Diagnostic {
                                kind: DiagKind::CurryArityExceeded,
                                subject: last,
                                context: last,
                                region: RegionKind::Straight,
                            },
                        );
                        return Base::Error;
                    }
                    let mut k: usize = 0;
                    let mut all_ok: bool = true;
                    while k < ab.len()
                        invariant
                            k <= ab@.len(),
                            ab@.len() <= fd.params@.len(),
                            fd == &p.funcs@[cands@[0] as int],
                            cands@[0] < p.funcs@.len(),
                            all_ok == (forall|j: int|
                                0 <= j < k ==> ty_eq_spec(
                                    (#[trigger] fd.params@[j]).ty,
                                    Ty::Plain(ab@[j]),
                                )),
                        decreases ab@.len() - k,
                    {
                        if !ty_eq(&fd.params[k].ty, &Ty::Plain(ab[k])) {
                            all_ok = false;
                        }
                        k += 1;
                    }
                    if !all_ok {
                        out.push(
                            Diagnostic {
                                kind: DiagKind::CurryTypeMismatch,
                                subject: last,
                                context: last,
                                region: RegionKind::Straight,
                            },
                        );
                    }
                    Base::Error
                },
            }
        },
    }
}

/// Resolves an argument list, giving the argument types in order.
pub fn check_args(
    p: &Program,
    m: usize,
    f: &FunctionDecl,
    a: &Args,
    out: &mut Vec<Diagnostic>,
    targets: &mut Vec<usize>,
) -> (r: Vec<Base>)
    requires
        prog_wf(*p),
        m < p.modules@.len(),
        forall|k: int| 0 <= k < targets@.len() ==> (#[trigger] targets@[k]) < p.funcs@.len(),
    ensures
        r@ == etys(*p, m as int, *f, *a),
        (final(out)@.len() == old(out)@.len()) <==> args_clean(*p, m as int, *f, *a),
        final(out)@.len() >= old(out)@.len(),
        forall|k: int|
            0 <= k < final(targets)@.len() ==> (#[trigger] final(targets)@[k]) < p.funcs@.len(),
    decreases *a,
{
    match a {
        Args::ANil => {
            let r: Vec<Base> = Vec::new();
            proof {
                assert(r@ =~= etys(*p, m as int, *f, *a));
            }
            r
        },
        Args::ACons(e, rest) => {
            let b = check_expr(p, m, f, e, out, targets);
            let mut r = check_args(p, m, f, rest, out, targets);
            r.insert(0, b);
            proof {
                assert(r@ =~= seq![b] + etys(*p, m as int, *f, *(*rest)));
            }
            r
        },
    }
}

/// Resolves every call, cast, membership-test and curry site of a
/// statement, and checks every assignment target.
pub fn check_stmt(
    p: &Program,
    m: usize,
    f: &FunctionDecl,
    s: &Stmt,
    out: &mut Vec<Diagnostic>,
    targets: &mut Vec<usize>,
)
    requires
        prog_wf(*p),
        m < p.modules@.len(),
        forall|k: int| 0 <= k < targets@.len() ==> (#[trigger] targets@[k]) < p.funcs@.len(),
    ensures
        (final(out)@.len() == old(out)@.len()) <==> stmt_clean(*p, m as int, *f, *s),
        final(out)@.len() >= old(out)@.len(),
        forall|k: int|
            0 <= k < final(targets)@.len() ==> (#[trigger] final(targets)@[k]) < p.funcs@.len(),
    decreases *s,
{
    match s {
        Stmt::Skip => {},
        Stmt::Ret => {},
        Stmt::Local { name: _, class: _, ty: _ } => {},
        Stmt::Chain(a, b) => {
            check_stmt(p, m, f, a, out, targets);
            check_stmt(p, m, f, b, out, targets);
        },
        Stmt::Assign { target, expr } => {
            check_expr(p, m, f, expr, out, targets);
            match find_bind_exec(f, *target) {
                Some(_) => {},
                None => {
                    out.push(
                        Diagnostic {
                            kind: DiagKind::UnresolvedName,
                            subject: *target,
                            context: *target,
                            region: RegionKind::Straight,
                        },
                    );
                },
            }
        },
        Stmt::If { cond, then_s, else_s } => {
            check_expr(p, m, f, cond, out, targets);
            check_stmt(p, m, f, then_s, out, targets);
            check_stmt(p, m, f, else_s, out, targets);
        },
        Stmt::While { cond, body } => {
            check_expr(p, m, f, cond, out, targets);
            check_stmt(p, m, f, body, out, targets);
        },
        Stmt::CallStmt { path, args } => {
            let ab = check_args(p, m, f, args, out, targets);
            if !has_err_exec(&ab) {
                check_call_site(p, m, f, path, &ab, out, targets);
            }
        },
    }
}

/// Resolves every call site of a function's body, from its declaring
/// module.
pub fn check_body(
    p: &Program,
    m: usize,
    f: &FunctionDecl,
    out: &mut Vec<Diagnostic>,
    targets: &mut Vec<usize>,
)
    requires
        prog_wf(*p),
        m < p.modules@.len(),
        forall|k: int| 0 <= k < targets@.len() ==> (#[trigger] targets@[k]) < p.funcs@.len(),
    ensures
        (final(out)@.len() == old(out)@.len()) <==> body_clean(*p, m as int, *f),
        final(out)@.len() >= old(out)@.len(),
        forall|k: int|
            0 <= k < final(targets)@.len() ==> (#[trigger] final(targets)@[k]) < p.funcs@.len(),
{
    check_stmt(p, m, f, &f.body, out, targets);
}

} // verus!
