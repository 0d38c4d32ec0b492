//! Semantic-analysis core for a small statically typed language with
//! first-class functions, structural interfaces, nominal variants, struct
//! embedding, and an explicit mutable-reference binding discipline.
//!
//! The front end hands this crate a fully formed abstract syntax tree in
//! which every identifier has been interned to a numeric name id.  The crate
//! resolves names, validates type declarations, resolves call dispatch,
//! models curried function values, and statically checks that every
//! mutable-reference binding is written at most once per invocation.
//! Diagnostics are accumulated; a failure in one declaration never stops the
//! analysis of its siblings.

use vstd::prelude::*;

pub mod alias;
pub mod ast;
pub mod dispatch;
pub mod eval;
pub mod flatten;
pub mod iface;
pub mod resolve;
pub mod curry;
pub mod decl;
pub mod diag;
pub mod samples;
pub mod ty;
pub mod typecheck;

use crate::alias::{Mult, binds_of, check_function, immut_diags, viols};
use crate::decl::{Program, iface_idx, prog_wf, struct_idx, find_iface, find_struct};
use crate::diag::{Diagnostic, DiagKind, RegionKind};
use crate::flatten::{check_struct_fields, fields_ok};
use crate::ty::{Base, Ty};
use crate::iface::satisfies;

verus! {

/// One declared conformance holds: the interface name resolves and the
/// struct structurally satisfies it.
pub open spec fn conf_ok(p: Program, si: int, ci: int) -> bool {
    match iface_idx(p, p.structs@[si].conforms@[ci]) {
        Some(ii) => satisfies(p, si, ii),
        None => false,
    }
}

/// A struct declaration is clean: its flattened field namespace resolves
/// without collision, and every declared conformance is satisfied.
pub open spec fn struct_clean(p: Program, si: int) -> bool {
    fields_ok(p, si) && forall|ci: int|
        0 <= ci < p.structs@[si].conforms@.len() ==> #[trigger] conf_ok(p, si, ci)
}

/// A variant declaration is clean: its base names a declared struct, and
/// its predicate takes exactly one parameter of the base type and yields
/// exactly one boolean return binding.
pub open spec fn variant_ok(p: Program, vi: int) -> bool {
    let v = p.variants@[vi];
    &&& struct_idx(p, v.base) is Some
    &&& v.predicate.params@.len() == 1
    &&& v.predicate.params@[0].ty == Ty::Plain(Base::Named(v.base))
    &&& v.predicate.rets@.len() == 1
    &&& v.predicate.rets@[0].ty == Ty::Plain(Base::Bool)
}

/// A function is clean under the aliasing rules: no mutable-reference
/// write in an unbounded region and no reassigned immutable binding.
pub open spec fn fn_clean(p: Program, fi: int) -> bool {
    let f = p.funcs@[fi];
    viols(binds_of(f), f.body, Mult::AtMostOnce, RegionKind::Straight, f.name) == Seq::<
        Diagnostic,
    >::empty() && immut_diags(binds_of(f), f.body, f.name) == Seq::<Diagnostic>::empty()
}

/// Every call, cast, membership-test and curry site of the `k`-th function
/// declared in module `mi` resolves cleanly.
pub open spec fn unit_body_clean(p: Program, mi: int, k: int) -> bool {
    crate::typecheck::body_clean(p, mi, p.funcs@[p.modules@[mi].funcs@[k] as int])
}

/// The whole compilation unit is free of diagnostics: every declaration is
/// valid and every body's call sites resolve.
pub open spec fn analysis_clean(p: Program) -> bool {
    &&& forall|si: int| 0 <= si < p.structs@.len() ==> #[trigger] struct_clean(p, si)
    &&& forall|vi: int| 0 <= vi < p.variants@.len() ==> #[trigger] variant_ok(p, vi)
    &&& forall|fi: int| 0 <= fi < p.funcs@.len() ==> #[trigger] fn_clean(p, fi)
    &&& forall|mi: int, k: int|
        0 <= mi < p.modules@.len() && 0 <= k < p.modules@[mi].funcs@.len()
            ==> #[trigger] unit_body_clean(p, mi, k)
}

/// Validates one struct declaration: its field namespace and then each of
/// its declared conformances.  The result is empty exactly when the struct
/// is clean.
pub fn check_struct(p: &Program, si: usize) -> (r: Vec<Diagnostic>)
    requires
        prog_wf(*p),
        si < p.structs@.len(),
    ensures
        (r@.len() == 0) <==> struct_clean(*p, si as int),
        forall|d: Diagnostic|
            r@.contains(d) ==> d.subject == p.structs@[si as int].name && (d.kind
                == DiagKind::DuplicateFieldName || d.kind == DiagKind::UnresolvedName || d.kind
                == DiagKind::InterfaceMismatch),
{
    match check_struct_fields(p, si) {
        Some(d) => {
            let mut out: Vec<Diagnostic> = Vec::new();
            out.push(d);
            proof {
                assert(!struct_clean(*p, si as int));
                assert forall|x: Diagnostic| out@.contains(x) implies x == d by {
                    let ix = choose|ix: int| 0 <= ix < out@.len() && out@[ix] == x;
                }
            }
            out
        },
        None => {
            let mut out: Vec<Diagnostic> = Vec::new();
            let mut ci: usize = 0;
            while ci < p.structs[si].conforms.len()
                invariant
                    prog_wf(*p),
                    si < p.structs@.len(),
                    ci <= p.structs@[si as int].conforms@.len(),
                    fields_ok(*p, si as int),
                    (out@.len() == 0) <==> (forall|b: int|
                        0 <= b < ci ==> #[trigger] conf_ok(*p, si as int, b)),
                    forall|d: Diagnostic|
                        out@.contains(d) ==> d.subject == p.structs@[si as int].name && (d.kind
                            == DiagKind::InterfaceMismatch || d.kind == DiagKind::UnresolvedName),
                decreases p.structs@[si as int].conforms@.len() - ci,
            {
                let iname = p.structs[si].conforms[ci];
                let ghost out_was = out@;
                match find_iface(p, iname) {
                    Some(ii) => {
                        if !crate::dispatch::satisfies_exec(p, si, ii) {
                            let nd = Diagnostic {
                                kind: DiagKind::InterfaceMismatch,
                                subject: p.structs[si].name,
                                context: iname,
                                region: RegionKind::Straight,
                            };
                            out.push(nd);
                            proof {
                                assert(!conf_ok(*p, si as int, ci as int));
                                assert forall|d: Diagnostic| out@.contains(d) implies d.subject
                                    == p.structs@[si as int].name && (d.kind
                                    == DiagKind::InterfaceMismatch || d.kind
                                    == DiagKind::UnresolvedName) by {
                                    let ix = choose|ix: int|
                                        0 <= ix < out@.len() && out@[ix] == d;
                                    if ix < out_was.len() {
                                        assert(out_was[ix] == d);
                                        assert(out_was.contains(d));
                                    } else {
                                        assert(d == nd);
                                    }
                                }
                            }
                        } else {
                            proof {
                                assert(conf_ok(*p, si as int, ci as int));
                            }
                        }
                    },
                    None => {
                        let nd = Diagnostic {
                            kind: DiagKind::UnresolvedName,
                            subject: p.structs[si].name,
                            context: iname,
                            region: RegionKind::Straight,
                        };
                        out.push(nd);
                        proof {
                            assert(!conf_ok(*p, si as int, ci as int));
                            assert forall|d: Diagnostic| out@.contains(d) implies d.subject
                                == p.structs@[si as int].name && (d.kind
                                == DiagKind::InterfaceMismatch || d.kind
                                == DiagKind::UnresolvedName) by {
                                let ix = choose|ix: int| 0 <= ix < out@.len() && out@[ix] == d;
                                if ix < out_was.len() {
                                    assert(out_was[ix] == d);
                                    assert(out_was.contains(d));
                                } else {
                                    assert(d == nd);
                                }
                            }
                        }
                    },
                }
                proof {
                    if out@.len() == 0 {
                        assert forall|b: int| 0 <= b < ci + 1 implies #[trigger] conf_ok(
                            *p,
                            si as int,
                            b,
                        ) by {
                            if b == ci as int {
                                assert(conf_ok(*p, si as int, b));
                            }
                        }
                    }
                }
                ci += 1;
            }
            proof {
                if out@.len() == 0 {
                    assert(struct_clean(*p, si as int));
                } else {
                    assert(!struct_clean(*p, si as int));
                }
            }
            out
        },
    }
}

/// Checks one variant declaration: its base and its predicate's shape.
pub fn check_variant(p: &Program, vi: usize) -> (r: Vec<Diagnostic>)
    requires
        prog_wf(*p),
        vi < p.variants@.len(),
    ensures
        (r@.len() == 0) <==> variant_ok(*p, vi as int),
        forall|k: int| 0 <= k < r@.len() ==> (#[trigger] r@[k]).kind == DiagKind::InvalidVariantBase,
{
    let v = &p.variants[vi];
    let base_ok = match find_struct(p, v.base) {
        Some(_) => true,
        None => false,
    };
    let pred_ok = v.predicate.params.len() == 1 && crate::ty::ty_eq(
        &v.predicate.params[0].ty,
        &Ty::Plain(Base::Named(v.base)),
    ) && v.predicate.rets.len() == 1 && crate::ty::ty_eq(
        &v.predicate.rets[0].ty,
        &Ty::Plain(Base::Bool),
    );
    let mut out: Vec<Diagnostic> = Vec::new();
    if !(base_ok && pred_ok) {
        out.push(
            Diagnostic {
                kind: DiagKind::InvalidVariantBase,
                subject: v.name,
                context: v.base,
                region: RegionKind::Straight,
            },
        );
    }
    out
}

/// Analyzes one compilation unit: validates every struct's flattened
/// namespace and declared conformances, every variant's base, every
/// function under the aliasing rules, and every call, cast,
/// membership-test and curry site of every body against the dispatch
/// machinery, accumulating diagnostics throughout.  A failure in one
/// declaration never stops the analysis of its siblings; the diagnostic
/// list is empty exactly when the unit is clean, and the second component
/// carries the resolved target declaration of each call site, in walk
/// order.  A unit with any diagnostic present must not proceed to code
/// generation.
pub fn analyze(p: &Program) -> (r: (Vec<Diagnostic>, Vec<usize>))
    requires
        prog_wf(*p),
    ensures
        (r.0@.len() == 0) <==> analysis_clean(*p),
        forall|k: int| 0 <= k < r.1@.len() ==> (#[trigger] r.1@[k]) < p.funcs@.len(),
{
    let mut out: Vec<Diagnostic> = Vec::new();
    let mut si: usize = 0;
    while si < p.structs.len()
        invariant
            prog_wf(*p),
            si <= p.structs@.len(),
            (out@.len() == 0) <==> (forall|a: int| 0 <= a < si ==> #[trigger] struct_clean(*p, a)),
        decreases p.structs@.len() - si,
    {
        let mut sd = check_struct(p, si);
        let ghost out0 = out@;
        let ghost sd0 = sd@;
        out.append(&mut sd);
        proof {
            if out0.len() == 0 && sd0.len() == 0 {
                assert forall|a: int| 0 <= a < si + 1 implies #[trigger] struct_clean(*p, a) by {
                    if a == si as int {
                        assert(struct_clean(*p, a));
                    }
                }
            }
        }
        si += 1;
    }
    let mut vi: usize = 0;
    while vi < p.variants.len()
        invariant
            prog_wf(*p),
            vi <= p.variants@.len(),
            (out@.len() == 0) <==> ((forall|a: int|
                0 <= a < p.structs@.len() ==> #[trigger] struct_clean(*p, a)) && (forall|b: int|
                0 <= b < vi ==> #[trigger] variant_ok(*p, b))),
        decreases p.variants@.len() - vi,
    {
        let mut vd = check_variant(p, vi);
        let ghost out0 = out@;
        let ghost vd0 = vd@;
        out.append(&mut vd);
        proof {
            if out0.len() == 0 && vd0.len() == 0 {
                assert forall|b: int| 0 <= b < vi + 1 implies #[trigger] variant_ok(*p, b) by {
                    if b == vi as int {
                        assert(variant_ok(*p, b));
                    }
                }
            }
        }
        vi += 1;
    }
    let mut fi: usize = 0;
    while fi < p.funcs.len()
        invariant
            prog_wf(*p),
            fi <= p.funcs@.len(),
            (out@.len() == 0) <==> ((forall|a: int|
                0 <= a < p.structs@.len() ==> #[trigger] struct_clean(*p, a)) && (forall|b: int|
                0 <= b < p.variants@.len() ==> #[trigger] variant_ok(*p, b)) && (forall|c: int|
                0 <= c < fi ==> #[trigger] fn_clean(*p, c))),
        decreases p.funcs@.len() - fi,
    {
        let mut fr = check_function(&p.funcs[fi]);
        let ghost out0 = out@;
        let ghost fr0 = fr@;
        out.append(&mut fr);
        proof {
            if fr0.len() == 0 {
                assert(viols(
                    binds_of(p.funcs@[fi as int]),
                    p.funcs@[fi as int].body,
                    Mult::AtMostOnce,
                    RegionKind::Straight,
                    p.funcs@[fi as int].name,
                ) =~= Seq::<Diagnostic>::empty());
                assert(immut_diags(
                    binds_of(p.funcs@[fi as int]),
                    p.funcs@[fi as int].body,
                    p.funcs@[fi as int].name,
                ) =~= Seq::<Diagnostic>::empty());
                assert(fn_clean(*p, fi as int));
            } else {
                assert(!fn_clean(*p, fi as int));
            }
            if out0.len() == 0 && fr0.len() == 0 {
                assert forall|c: int| 0 <= c < fi + 1 implies #[trigger] fn_clean(*p, c) by {
                    if c == fi as int {
                        assert(fn_clean(*p, c));
                    }
                }
            }
        }
        fi += 1;
    }
    let mut targets: Vec<usize> = Vec::new();
    let mut mi: usize = 0;
    while mi < p.modules.len()
        invariant
            prog_wf(*p),
            mi <= p.modules@.len(),
            (out@.len() == 0) <==> ((forall|a: int|
                0 <= a < p.structs@.len() ==> #[trigger] struct_clean(*p, a)) && (forall|b: int|
                0 <= b < p.variants@.len() ==> #[trigger] variant_ok(*p, b)) && (forall|c: int|
                0 <= c < p.funcs@.len() ==> #[trigger] fn_clean(*p, c)) && (forall|a: int, b: int|
                0 <= a < mi && 0 <= b < p.modules@[a].funcs@.len() ==> #[trigger] unit_body_clean(
                    *p,
                    a,
                    b,
                ))),
            forall|k: int| 0 <= k < targets@.len() ==> (#[trigger] targets@[k]) < p.funcs@.len(),
        decreases p.modules@.len() - mi,
    {
        let mut k: usize = 0;
        while k < p.modules[mi].funcs.len()
            invariant
                prog_wf(*p),
                mi < p.modules@.len(),
                k <= p.modules@[mi as int].funcs@.len(),
                (out@.len() == 0) <==> ((forall|a: int|
                    0 <= a < p.structs@.len() ==> #[trigger] struct_clean(*p, a)) && (forall|
                    b: int,
                |
                    0 <= b < p.variants@.len() ==> #[trigger] variant_ok(*p, b)) && (forall|c: int|
                    0 <= c < p.funcs@.len() ==> #[trigger] fn_clean(*p, c)) && (forall|
                    a: int,
                    b: int,
                |
                    0 <= a < mi && 0 <= b < p.modules@[a].funcs@.len()
                        ==> #[trigger] unit_body_clean(*p, a, b)) && (forall|b: int|
                    0 <= b < k ==> #[trigger] unit_body_clean(*p, mi as int, b))),
                forall|j: int|
                    0 <= j < targets@.len() ==> (#[trigger] targets@[j]) < p.funcs@.len(),
            decreases p.modules@[mi as int].funcs@.len() - k,
        {
            let fidx = p.modules[mi].funcs[k];
            let n0 = out.len();
            crate::typecheck::check_body(p, mi, &p.funcs[fidx], &mut out, &mut targets);
            proof {
                if out@.len() == n0 as int {
                    assert(unit_body_clean(*p, mi as int, k as int));
                } else {
                    assert(!unit_body_clean(*p, mi as int, k as int));
                }
                if out@.len() == 0 {
                    assert forall|b: int| 0 <= b < k + 1 implies #[trigger] unit_body_clean(
                        *p,
                        mi as int,
                        b,
                    ) by {
                        if b == k as int {
                            assert(unit_body_clean(*p, mi as int, b));
                        }
                    }
                }
            }
            k += 1;
        }
        proof {
            if out@.len() == 0 {
                assert forall|a: int, b: int|
                    0 <= a < mi + 1 && 0 <= b < p.modules@[a].funcs@.len()
                        implies #[trigger] unit_body_clean(*p, a, b) by {
                    if a == mi as int {
                        assert(unit_body_clean(*p, a, b));
                    }
                }
            }
        }
        mi += 1;
    }
    (out, targets)
}

} // verus!
