//! The aliasing checker: within one invocation, every mutable-reference
//! binding (an incoming parameter or a named return binding aliasing
//! caller-owned storage) must be written on at most one dynamically
//! possible execution path.  Control regions are classified by execution
//! multiplicity: straight-line code and each arm of a conditional run at
//! most once, loop bodies (and, conservatively, regions holding a
//! recursive call site) an unbounded number of times, and a region nested
//! in an unbounded region is unbounded itself.  A write to a
//! mutable-reference binding is rejected exactly in unbounded regions;
//! sequential overwrites and writes in mutually exclusive branches are
//! accepted.  Immutable bindings are separately rejected on any second
//! write, regardless of region.

use vstd::prelude::*;
use crate::ty::{NameId, BindClass};
use crate::ast::{Stmt, stmt_has_call, has_call};
use crate::decl::{Binding, FunctionDecl};
use crate::diag::{Diagnostic, DiagKind, RegionKind};

verus! {

/// Execution multiplicity of a control region per invocation.
#[derive(Clone, Copy, PartialEq, Eq, Structural, Debug)]
pub enum Mult {
    AtMostOnce,
    Unbounded,
}

/// What the checker needs to know of a binding: its name and mutability
/// class.
#[derive(Clone, Copy, PartialEq, Eq, Structural, Debug)]
pub struct BindInfo {
    pub name: NameId,
    pub class: BindClass,
}

/// The class of the first binding of the given name, front to back.
pub open spec fn bind_lookup(binds: Seq<BindInfo>, n: NameId) -> Option<BindClass>
    decreases binds.len(),
{
    if binds.len() == 0 {
        None
    } else if binds[0].name == n {
        Some(binds[0].class)
    } else {
        bind_lookup(binds.skip(1), n)
    }
}

proof fn lemma_bind_lookup_skip(binds: Seq<BindInfo>, n: NameId, i: int)
    requires
        0 <= i <= binds.len(),
        forall|j: int| 0 <= j < i ==> (#[trigger] binds[j]).name != n,
    ensures
        bind_lookup(binds, n) == bind_lookup(binds.skip(i), n),
    decreases i,
{
    if i > 0 {
        lemma_bind_lookup_skip(binds.skip(1), n, i - 1);
        assert(binds.skip(1).skip(i - 1) =~= binds.skip(i));
    } else {
        assert(binds.skip(0) =~= binds);
    }
}

/// Looks up a binding's class.
pub fn bind_lookup_exec(binds: &Vec<BindInfo>, n: NameId) -> (r: Option<BindClass>)
    ensures
        r == bind_lookup(binds@, n),
{
    let mut i: usize = 0;
    while i < binds.len()
        invariant
            i <= binds@.len(),
            forall|j: int| 0 <= j < i ==> (#[trigger] binds@[j]).name != n,
        decreases binds@.len() - i,
    {
        if binds[i].name == n {
            proof {
                lemma_bind_lookup_skip(binds@, n, i as int);
                assert(binds@.skip(i as int)[0] == binds@[i as int]);
            }
            return Some(binds[i].class);
        }
        i += 1;
    }
    proof {
        lemma_bind_lookup_skip(binds@, n, binds@.len() as int);
        assert(binds@.skip(binds@.len() as int) =~= Seq::<BindInfo>::empty());
    }
    None
}

/// The aliasing diagnostics of a statement checked under the given region
/// multiplicity.  A sequence region is promoted to unbounded where it holds
/// a recursive call site; a loop body is always unbounded; each conditional
/// arm keeps the enclosing multiplicity.
pub open spec fn viols(
    binds: Seq<BindInfo>,
    s: Stmt,
    m: Mult,
    why: RegionKind,
    fname: NameId,
) -> Seq<Diagnostic>
    decreases s,
{
    match s {
        Stmt::Assign { target, expr: _ } => {
            if bind_lookup(binds, target) == Some(BindClass::MutableReference) && m is Unbounded {
                seq![
                    Diagnostic {
                        kind: DiagKind::AliasWriteInUnboundedRegion,
                        subject: target,
                        context: fname,
                        region: why,
                    },
                ]
            } else {
                Seq::empty()
            }
        },
        Stmt::Chain(a, b) => {
            if m is AtMostOnce && (stmt_has_call(*a, fname) || stmt_has_call(*b, fname)) {
                viols(binds, *a, Mult::Unbounded, RegionKind::RecursiveCall, fname) + viols(
                    binds,
                    *b,
                    Mult::Unbounded,
                    RegionKind::RecursiveCall,
                    fname,
                )
            } else {
                viols(binds, *a, m, why, fname) + viols(binds, *b, m, why, fname)
            }
        },
        Stmt::If { cond: _, then_s, else_s } => viols(binds, *then_s, m, why, fname) + viols(
            binds,
            *else_s,
            m,
            why,
            fname,
        ),
        Stmt::While { cond: _, body } => viols(
            binds,
            *body,
            Mult::Unbounded,
            RegionKind::Loop,
            fname,
        ),
        _ => Seq::empty(),
    }
}

/// Walks a statement, accumulating its aliasing diagnostics.
pub fn viols_exec(
    binds: &Vec<BindInfo>,
    s: &Stmt,
    m: Mult,
    why: RegionKind,
    fname: NameId,
    out: &mut Vec<Diagnostic>,
)
    ensures
        final(out)@ == old(out)@ + viols(binds@, *s, m, why, fname),
    decreases *s,
{
    let ghost out0 = out@;
    match s {
        Stmt::Assign { target, expr: _ } => {
            let is_ref = match bind_lookup_exec(binds, *target) {
                Some(BindClass::MutableReference) => true,
                _ => false,
            };
            if is_ref && matches!(m, Mult::Unbounded) {
                let d = Diagnostic {
                    kind: DiagKind::AliasWriteInUnboundedRegion,
                    subject: *target,
                    context: fname,
                    region: why,
                };
                out.push(d);
                proof {
                    assert(out@ =~= out0 + seq![d]);
                }
            } else {
                proof {
                    assert(out@ =~= out0 + Seq::<Diagnostic>::empty());
                }
            }
        },
        Stmt::Chain(a, b) => {
            let promote = matches!(m, Mult::AtMostOnce) && (has_call(a, fname) || has_call(
                b,
                fname,
            ));
            let (m2, why2) = if promote {
                (Mult::Unbounded, RegionKind::RecursiveCall)
            } else {
                (m, why)
            };
            viols_exec(binds, a, m2, why2, fname, out);
            viols_exec(binds, b, m2, why2, fname, out);
            proof {
                assert((out0 + viols(binds@, *(*a), m2, why2, fname)) + viols(
                    binds@,
                    *(*b),
                    m2,
                    why2,
                    fname,
                ) =~= out0 + (viols(binds@, *(*a), m2, why2, fname) + viols(
                    binds@,
                    *(*b),
                    m2,
                    why2,
                    fname,
                )));
            }
        },
        Stmt::If { cond: _, then_s, else_s } => {
            viols_exec(binds, then_s, m, why, fname, out);
            viols_exec(binds, else_s, m, why, fname, out);
            proof {
                assert((out0 + viols(binds@, *(*then_s), m, why, fname)) + viols(
                    binds@,
                    *(*else_s),
                    m,
                    why,
                    fname,
                ) =~= out0 + (viols(binds@, *(*then_s), m, why, fname) + viols(
                    binds@,
                    *(*else_s),
                    m,
                    why,
                    fname,
                )));
            }
        },
        Stmt::While { cond: _, body } => {
            viols_exec(binds, body, Mult::Unbounded, RegionKind::Loop, fname, out);
        },
        _ => {
            proof {
                assert(out@ =~= out0 + Seq::<Diagnostic>::empty());
            }
        },
    }
}

/// How many assignment statements to the named binding the statement holds,
/// textually.
pub open spec fn wcount(s: Stmt, n: NameId) -> nat
    decreases s,
{
    match s {
        Stmt::Assign { target, expr: _ } => if target == n {
            1nat
        } else {
            0nat
        },
        Stmt::Chain(a, b) => wcount(*a, n) + wcount(*b, n),
        Stmt::If { cond: _, then_s, else_s } => wcount(*then_s, n) + wcount(*else_s, n),
        Stmt::While { cond: _, body } => wcount(*body, n),
        _ => 0nat,
    }
}

/// Counts assignments to a binding, saturating at two.
pub fn wcount_capped(s: &Stmt, n: NameId) -> (r: u8)
    ensures
        r == if wcount(*s, n) >= 2 {
            2nat
        } else {
            wcount(*s, n)
        },
    decreases *s,
{
    match s {
        Stmt::Assign { target, expr: _ } => {
            if *target == n {
                1
            } else {
                0
            }
        },
        Stmt::Chain(a, b) => {
            let x = wcount_capped(a, n);
            let y = wcount_capped(b, n);
            if x + y >= 2 {
                2
            } else {
                x + y
            }
        },
        Stmt::If { cond: _, then_s, else_s } => {
            let x = wcount_capped(then_s, n);
            let y = wcount_capped(else_s, n);
            if x + y >= 2 {
                2
            } else {
                x + y
            }
        },
        Stmt::While { cond: _, body } => wcount_capped(body, n),
        _ => 0,
    }
}

/// One `ReassignmentOfImmutable` diagnostic for each immutable-value
/// binding the body assigns more than once.
pub open spec fn immut_diags(binds: Seq<BindInfo>, body: Stmt, fname: NameId) -> Seq<Diagnostic>
    decreases binds.len(),
{
    if binds.len() == 0 {
        Seq::empty()
    } else {
        (if binds[0].class == BindClass::ImmutableValue && wcount(body, binds[0].name) >= 2 {
            seq![
                Diagnostic {
                    kind: DiagKind::ReassignmentOfImmutable,
                    subject: binds[0].name,
                    context: fname,
                    region: RegionKind::Straight,
                },
            ]
        } else {
            Seq::empty()
        }) + immut_diags(binds.skip(1), body, fname)
    }
}

/// The local bindings a body declares, in textual order.
pub open spec fn locals_of(s: Stmt) -> Seq<BindInfo>
    decreases s,
{
    match s {
        Stmt::Local { name, class, ty: _ } => seq![BindInfo { name, class }],
        Stmt::Chain(a, b) => locals_of(*a) + locals_of(*b),
        Stmt::If { cond: _, then_s, else_s } => locals_of(*then_s) + locals_of(*else_s),
        Stmt::While { cond: _, body } => locals_of(*body),
        _ => Seq::empty(),
    }
}

/// Collects the local bindings of a body.
pub fn collect_locals(s: &Stmt, out: &mut Vec<BindInfo>)
    ensures
        final(out)@ == old(out)@ + locals_of(*s),
    decreases *s,
{
    let ghost out0 = out@;
    match s {
        Stmt::Local { name, class, ty: _ } => {
            out.push(BindInfo { name: *name, class: *class });
            proof {
                assert(out@ =~= out0 + locals_of(*s));
            }
        },
        Stmt::Chain(a, b) => {
            collect_locals(a, out);
            collect_locals(b, out);
            proof {
                assert((out0 + locals_of(*(*a))) + locals_of(*(*b)) =~= out0 + (locals_of(*(*a))
                    + locals_of(*(*b))));
            }
        },
        Stmt::If { cond: _, then_s, else_s } => {
            collect_locals(then_s, out);
            collect_locals(else_s, out);
            proof {
                assert((out0 + locals_of(*(*then_s))) + locals_of(*(*else_s)) =~= out0 + (
                locals_of(*(*then_s)) + locals_of(*(*else_s))));
            }
        },
        Stmt::While { cond: _, body } => {
            collect_locals(body, out);
        },
        _ => {
            proof {
                assert(out@ =~= out0 + Seq::<BindInfo>::empty());
            }
        },
    }
}

/// Name and class of a declared binding.
pub open spec fn binfo(b: Binding) -> BindInfo {
    BindInfo { name: b.name, class: b.class }
}

/// All bindings of a function, in scope order: parameters, named return
/// bindings, then the body's locals.
pub open spec fn binds_of(f: FunctionDecl) -> Seq<BindInfo> {
    f.params@.map_values(|b: Binding| binfo(b)) + f.rets@.map_values(|b: Binding| binfo(b))
        + locals_of(f.body)
}

/// Checks one function: every write to a mutable-reference binding in an
/// unbounded region is reported, then every immutable-value binding with a
/// second write.  The result is exactly the diagnostics of `viols` followed
/// by those of `immut_diags` over the function's bindings.
pub fn check_function(f: &FunctionDecl) -> (r: Vec<Diagnostic>)
    ensures
        r@ == viols(binds_of(*f), f.body, Mult::AtMostOnce, RegionKind::Straight, f.name)
            + immut_diags(binds_of(*f), f.body, f.name),
{
    let mut binds: Vec<BindInfo> = Vec::new();
    let mut i: usize = 0;
    while i < f.params.len()
        invariant
            i <= f.params@.len(),
            binds@ =~= f.params@.take(i as int).map_values(|b: Binding| binfo(b)),
        decreases f.params@.len() - i,
    {
        binds.push(BindInfo { name: f.params[i].name, class: f.params[i].class });
        proof {
            assert(binds@ =~= f.params@.take(i as int + 1).map_values(|b: Binding| binfo(b)));
        }
        i += 1;
    }
    let mut j: usize = 0;
    while j < f.rets.len()
        invariant
            j <= f.rets@.len(),
            binds@ =~= f.params@.map_values(|b: Binding| binfo(b)) + f.rets@.take(
                j as int,
            ).map_values(|b: Binding| binfo(b)),
        decreases f.rets@.len() - j,
    {
        binds.push(BindInfo { name: f.rets[j].name, class: f.rets[j].class });
        proof {
            assert(binds@ =~= f.params@.map_values(|b: Binding| binfo(b)) + f.rets@.take(
                j as int + 1,
            ).map_values(|b: Binding| binfo(b)));
        }
        j += 1;
    }
    proof {
        assert(f.params@.take(f.params@.len() as int) =~= f.params@);
        assert(f.rets@.take(f.rets@.len() as int) =~= f.rets@);
    }
    collect_locals(&f.body, &mut binds);
    proof {
        assert(binds@ =~= binds_of(*f));
    }
    let mut out: Vec<Diagnostic> = Vec::new();
    viols_exec(&binds, &f.body, Mult::AtMostOnce, RegionKind::Straight, f.name, &mut out);
    let ghost vpart = out@;
    let mut k: usize = 0;
    proof {
        assert(binds@.skip(0) =~= binds@);
        assert(vpart + Seq::<Diagnostic>::empty() =~= vpart);
    }
    while k < binds.len()
        invariant
            k <= binds@.len(),
            binds@ == binds_of(*f),
            out@ + immut_diags(binds@.skip(k as int), f.body, f.name) == vpart + immut_diags(
                binds@,
                f.body,
                f.name,
            ),
        decreases binds@.len() - k,
    {
        proof {
            assert(binds@.skip(k as int)[0] == binds@[k as int]);
            assert(binds@.skip(k as int).skip(1) =~= binds@.skip(k as int + 1));
        }
        let ghost out0 = out@;
        let is_immut = matches!(binds[k].class, BindClass::ImmutableValue);
        if is_immut {
            let c = wcount_capped(&f.body, binds[k].name);
            if c >= 2 {
                let d = Diagnostic {
                    kind: DiagKind::ReassignmentOfImmutable,
                    subject: binds[k].name,
                    context: f.name,
                    region: RegionKind::Straight,
                };
                out.push(d);
                proof {
                    assert((out0 + seq![d]) + immut_diags(
                        binds@.skip(k as int + 1),
                        f.body,
                        f.name,
                    ) =~= out0 + (seq![d] + immut_diags(binds@.skip(k as int + 1), f.body, f.name)));
                }
            }
        }
        k += 1;
    }
    proof {
        assert(binds@.skip(binds@.len() as int) =~= Seq::<BindInfo>::empty());
        assert(out@ + Seq::<Diagnostic>::empty() =~= out@);
    }
    out
}

/// Whether the diagnostics hold an aliasing report for the given binding.
pub open spec fn has_alias_diag(ds: Seq<Diagnostic>, target: NameId) -> bool {
    exists|i: int|
        0 <= i < ds.len() && (#[trigger] ds[i]).kind == DiagKind::AliasWriteInUnboundedRegion
            && ds[i].subject == target
}

/// No loop stands anywhere in the statement.
pub open spec fn loop_free(s: Stmt) -> bool
    decreases s,
{
    match s {
        Stmt::While { cond: _, body: _ } => false,
        Stmt::Chain(a, b) => loop_free(*a) && loop_free(*b),
        Stmt::If { cond: _, then_s, else_s } => loop_free(*then_s) && loop_free(*else_s),
        _ => true,
    }
}

/// General rejecting half of the aliasing law: any write to a
/// mutable-reference binding anywhere inside a region of unbounded
/// multiplicity — however deeply nested in sequences and branches — is
/// reported against that binding.
pub proof fn lemma_unbounded_write_reported(
    binds: Seq<BindInfo>,
    s: Stmt,
    m: Mult,
    why: RegionKind,
    fname: NameId,
    target: NameId,
)
    requires
        bind_lookup(binds, target) == Some(BindClass::MutableReference),
        wcount(s, target) >= 1,
        m is Unbounded,
    ensures
        has_alias_diag(viols(binds, s, m, why, fname), target),
    decreases s,
{
    match s {
        Stmt::Assign { target: t2, expr: _ } => {
            assert(t2 == target);
            assert(viols(binds, s, m, why, fname)[0].subject == target);
        },
        Stmt::Chain(a, b) => {
            let va = viols(binds, *a, m, why, fname);
            let vb = viols(binds, *b, m, why, fname);
            if wcount(*a, target) >= 1 {
                lemma_unbounded_write_reported(binds, *a, m, why, fname, target);
                let i = choose|i: int|
                    0 <= i < va.len() && (#[trigger] va[i]).kind
                        == DiagKind::AliasWriteInUnboundedRegion && va[i].subject == target;
                assert((va + vb)[i] == va[i]);
            } else {
                lemma_unbounded_write_reported(binds, *b, m, why, fname, target);
                let i = choose|i: int|
                    0 <= i < vb.len() && (#[trigger] vb[i]).kind
                        == DiagKind::AliasWriteInUnboundedRegion && vb[i].subject == target;
                assert((va + vb)[va.len() + i] == vb[i]);
            }
        },
        Stmt::If { cond: _, then_s, else_s } => {
            let va = viols(binds, *then_s, m, why, fname);
            let vb = viols(binds, *else_s, m, why, fname);
            if wcount(*then_s, target) >= 1 {
                lemma_unbounded_write_reported(binds, *then_s, m, why, fname, target);
                let i = choose|i: int|
                    0 <= i < va.len() && (#[trigger] va[i]).kind
                        == DiagKind::AliasWriteInUnboundedRegion && va[i].subject == target;
                assert((va + vb)[i] == va[i]);
            } else {
                lemma_unbounded_write_reported(binds, *else_s, m, why, fname, target);
                let i = choose|i: int|
                    0 <= i < vb.len() && (#[trigger] vb[i]).kind
                        == DiagKind::AliasWriteInUnboundedRegion && vb[i].subject == target;
                assert((va + vb)[va.len() + i] == vb[i]);
            }
        },
        Stmt::While { cond: _, body } => {
            lemma_unbounded_write_reported(
                binds,
                *body,
                Mult::Unbounded,
                RegionKind::Loop,
                fname,
                target,
            );
        },
        _ => {},
    }
}

/// General accepting half of the aliasing law: a region of at-most-once
/// multiplicity holding no loop and no recursive call site is accepted
/// entirely, however many writes stand in sequence or in mutually
/// exclusive branches.
pub proof fn lemma_bounded_region_accepted(
    binds: Seq<BindInfo>,
    s: Stmt,
    why: RegionKind,
    fname: NameId,
)
    requires
        loop_free(s),
        !stmt_has_call(s, fname),
    ensures
        viols(binds, s, Mult::AtMostOnce, why, fname) == Seq::<Diagnostic>::empty(),
    decreases s,
{
    match s {
        Stmt::Chain(a, b) => {
            lemma_bounded_region_accepted(binds, *a, why, fname);
            lemma_bounded_region_accepted(binds, *b, why, fname);
            assert(Seq::<Diagnostic>::empty() + Seq::<Diagnostic>::empty() =~= Seq::<
                Diagnostic,
            >::empty());
        },
        Stmt::If { cond: _, then_s, else_s } => {
            lemma_bounded_region_accepted(binds, *then_s, why, fname);
            lemma_bounded_region_accepted(binds, *else_s, why, fname);
            assert(Seq::<Diagnostic>::empty() + Seq::<Diagnostic>::empty() =~= Seq::<
                Diagnostic,
            >::empty());
        },
        _ => {},
    }
}

/// Aliasing law, rejecting half: a write to a mutable-reference binding
/// inside a loop body is reported, whatever the loop's guard expression.
pub proof fn lemma_loop_write_rejected(
    binds: Seq<BindInfo>,
    guard: crate::ast::Expr,
    target: NameId,
    rhs: crate::ast::Expr,
    fname: NameId,
)
    requires
        bind_lookup(binds, target) == Some(BindClass::MutableReference),
    ensures
        viols(
            binds,
            Stmt::While {
                cond: guard,
                body: Box::new(Stmt::Assign { target, expr: rhs }),
            },
            Mult::AtMostOnce,
            RegionKind::Straight,
            fname,
        ) == seq![
            Diagnostic {
                kind: DiagKind::AliasWriteInUnboundedRegion,
                subject: target,
                context: fname,
                region: RegionKind::Loop,
            },
        ],
{
    let body = Stmt::Assign { target, expr: rhs };
    let d = Diagnostic {
        kind: DiagKind::AliasWriteInUnboundedRegion,
        subject: target,
        context: fname,
        region: RegionKind::Loop,
    };
    assert(viols(binds, body, Mult::Unbounded, RegionKind::Loop, fname) =~= seq![d]);
}

/// Aliasing law, accepting half: the same write in either arm of a
/// conditional checked in an at-most-once region is accepted — only one arm
/// is reachable in one execution.
pub proof fn lemma_branch_write_accepted(
    binds: Seq<BindInfo>,
    guard: crate::ast::Expr,
    target: NameId,
    r1: crate::ast::Expr,
    r2: crate::ast::Expr,
    fname: NameId,
)
    requires
        bind_lookup(binds, target) == Some(BindClass::MutableReference),
    ensures
        viols(
            binds,
            Stmt::If {
                cond: guard,
                then_s: Box::new(Stmt::Assign { target, expr: r1 }),
                else_s: Box::new(Stmt::Assign { target, expr: r2 }),
            },
            Mult::AtMostOnce,
            RegionKind::Straight,
            fname,
        ) == Seq::<Diagnostic>::empty(),
{
    let a1 = Stmt::Assign { target, expr: r1 };
    let a2 = Stmt::Assign { target, expr: r2 };
    assert(viols(binds, a1, Mult::AtMostOnce, RegionKind::Straight, fname) =~= Seq::<
        Diagnostic,
    >::empty());
    assert(viols(binds, a2, Mult::AtMostOnce, RegionKind::Straight, fname) =~= Seq::<
        Diagnostic,
    >::empty());
    assert(Seq::<Diagnostic>::empty() + Seq::<Diagnostic>::empty() =~= Seq::<
        Diagnostic,
    >::empty());
}

/// Sequential overwrites of a mutable-reference binding within one
/// at-most-once region are accepted: only the possibility of re-execution
/// is disallowed, not overwriting within one pass.
pub proof fn lemma_sequential_overwrite_accepted(
    binds: Seq<BindInfo>,
    target: NameId,
    r1: crate::ast::Expr,
    r2: crate::ast::Expr,
    fname: NameId,
)
    requires
        bind_lookup(binds, target) == Some(BindClass::MutableReference),
        !crate::ast::expr_has_call(r1, fname),
        !crate::ast::expr_has_call(r2, fname),
    ensures
        viols(
            binds,
            Stmt::Chain(
                Box::new(Stmt::Assign { target, expr: r1 }),
                Box::new(Stmt::Assign { target, expr: r2 }),
            ),
            Mult::AtMostOnce,
            RegionKind::Straight,
            fname,
        ) == Seq::<Diagnostic>::empty(),
{
    let a1 = Stmt::Assign { target, expr: r1 };
    let a2 = Stmt::Assign { target, expr: r2 };
    assert(!stmt_has_call(a1, fname));
    assert(!stmt_has_call(a2, fname));
    assert(viols(binds, a1, Mult::AtMostOnce, RegionKind::Straight, fname) =~= Seq::<
        Diagnostic,
    >::empty());
    assert(viols(binds, a2, Mult::AtMostOnce, RegionKind::Straight, fname) =~= Seq::<
        Diagnostic,
    >::empty());
    assert(Seq::<Diagnostic>::empty() + Seq::<Diagnostic>::empty() =~= Seq::<
        Diagnostic,
    >::empty());
}

} // verus!
