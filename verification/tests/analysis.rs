//! Module resolution, the whole-unit pipeline, and the aliasing checker.

use seer::alias::check_function;
use seer::analyze;
use seer::ast::{Args, Expr, Stmt};
use seer::decl::{Binding, Field, FunctionDecl, ModuleNode, Program, StructDecl, VariantDecl};
use seer::diag::{DiagKind, RegionKind};
use seer::resolve::{ov_set_exec, resolve_bare_exec, resolve_ref_exec};
use seer::samples::{
    el_distance, nested_modules_program, sayGlobal, sayInner, sayInner2, sayOuter, N_INNER,
    N_OUTER, N_SAY_GLOBAL, N_SAY_INNER, N_SAY_INNER2, N_SAY_OUTER,
};
use seer::ty::{Base, BindClass, Ty};

const N_A: u64 = 100;
const N_B: u64 = 101;
const N_X: u64 = 102;
const N_Y: u64 = 103;
const N_T: u64 = 104;
const N_T2: u64 = 105;
const N_N: u64 = 106;
const N_SWAP: u64 = 107;
const N_ROOT: u64 = 108;
const N_POINT: u64 = 109;
const N_ORIGIN: u64 = 110;
const N_MISSING: u64 = 111;

fn int_binding(name: u64, class: BindClass) -> Binding {
    Binding { name, ty: Ty::Plain(Base::Int), class }
}

fn chain(a: Stmt, b: Stmt) -> Stmt {
    Stmt::Chain(Box::new(a), Box::new(b))
}

fn assign(target: u64, expr: Expr) -> Stmt {
    Stmt::Assign { target, expr }
}

#[test]
fn bare_name_resolves_outward_to_root() {
    let p = nested_modules_program();
    // from the innermost module, the root's function is found by walking
    // the ancestors
    assert_eq!(resolve_bare_exec(&p, 2, N_SAY_GLOBAL), Some(0));
    // a child's function is never found from the parent by a bare name
    assert_eq!(resolve_bare_exec(&p, 0, N_SAY_INNER), None);
    // a name declared in the module itself resolves there
    assert_eq!(resolve_bare_exec(&p, 2, N_SAY_INNER), Some(2));
}

#[test]
fn qualified_path_resolves_through_children() {
    let p = nested_modules_program();
    // outer::sayOuter from the root
    assert_eq!(resolve_ref_exec(&p, 0, &vec![N_OUTER, N_SAY_OUTER]), Some(1));
    // inner::sayInner2 from inside outer, as its own body calls it
    assert_eq!(resolve_ref_exec(&p, 1, &vec![N_INNER, N_SAY_INNER2]), Some(2));
    // outer::inner::sayInner from the root
    assert_eq!(resolve_ref_exec(&p, 0, &vec![N_OUTER, N_INNER, N_SAY_INNER]), Some(2));
    // an unknown final segment is unresolved
    assert_eq!(resolve_ref_exec(&p, 0, &vec![N_OUTER, N_MISSING]), None);
    // an unknown module segment is unresolved
    assert_eq!(resolve_ref_exec(&p, 0, &vec![N_MISSING, N_SAY_INNER]), None);
}

#[test]
fn overload_sets_partition_by_name() {
    let p = nested_modules_program();
    let set = ov_set_exec(&p, 2, N_SAY_INNER);
    assert_eq!(set, vec![2]);
    let set2 = ov_set_exec(&p, 2, N_SAY_GLOBAL);
    assert!(set2.is_empty());
}

fn swap_clean() -> FunctionDecl {
    // two mutable-reference return bindings written once inside a
    // conditional arm: accepted
    let body = chain(
        chain(
            Stmt::Local { name: N_T2, class: BindClass::MutableLocal, ty: Ty::Plain(Base::Int) },
            assign(N_T2, Expr::Var(N_A)),
        ),
        Stmt::If {
            cond: Expr::BoolLit(true),
            then_s: Box::new(chain(
                chain(assign(N_X, Expr::Var(N_B)), assign(N_Y, Expr::Var(N_T2))),
                assign(N_T2, Expr::IntLit(4)),
            )),
            else_s: Box::new(Stmt::Skip),
        },
    );
    FunctionDecl {
        name: N_SWAP,
        params: vec![
            int_binding(N_A, BindClass::MutableReference),
            int_binding(N_B, BindClass::MutableReference),
        ],
        rets: vec![
            int_binding(N_X, BindClass::MutableReference),
            int_binding(N_Y, BindClass::MutableReference),
        ],
        body,
    }
}

fn swap_looping() -> FunctionDecl {
    // the same writes inside a loop body: rejected on both bindings,
    // whatever the guard
    let body = chain(
        chain(
            Stmt::Local { name: N_T, class: BindClass::MutableLocal, ty: Ty::Plain(Base::Int) },
            assign(N_T, Expr::Var(N_A)),
        ),
        Stmt::While {
            cond: Expr::BoolLit(true),
            body: Box::new(chain(
                chain(assign(N_X, Expr::Var(N_B)), assign(N_Y, Expr::Var(N_T))),
                assign(N_T, Expr::IntLit(4)),
            )),
        },
    );
    FunctionDecl {
        name: N_SWAP,
        params: vec![
            int_binding(N_A, BindClass::MutableReference),
            int_binding(N_B, BindClass::MutableReference),
        ],
        rets: vec![
            int_binding(N_X, BindClass::MutableReference),
            int_binding(N_Y, BindClass::MutableReference),
        ],
        body,
    }
}

#[test]
fn scenario_swap_in_branch_compiles_cleanly() {
    let diags = check_function(&swap_clean());
    assert!(diags.is_empty());
}

#[test]
fn scenario_swap_in_loop_rejected_on_both_bindings() {
    let diags = check_function(&swap_looping());
    assert_eq!(diags.len(), 2);
    assert_eq!(diags[0].kind, DiagKind::AliasWriteInUnboundedRegion);
    assert_eq!(diags[0].subject, N_X);
    assert_eq!(diags[0].region, RegionKind::Loop);
    assert_eq!(diags[1].kind, DiagKind::AliasWriteInUnboundedRegion);
    assert_eq!(diags[1].subject, N_Y);
    assert_eq!(diags[1].region, RegionKind::Loop);
}

#[test]
fn mutable_local_in_loop_is_exempt() {
    // only the mutable-reference bindings are flagged; the mutable local
    // written in the same loop is not
    let diags = check_function(&swap_looping());
    assert!(diags.iter().all(|d| d.subject != N_T));
}

#[test]
fn sequential_overwrites_accepted() {
    let f = FunctionDecl {
        name: N_SWAP,
        params: vec![int_binding(N_A, BindClass::ImmutableValue)],
        rets: vec![int_binding(N_X, BindClass::MutableReference)],
        body: chain(assign(N_X, Expr::IntLit(1)), assign(N_X, Expr::IntLit(2))),
    };
    assert!(check_function(&f).is_empty());
}

#[test]
fn recursive_call_region_is_unbounded() {
    // a write sequenced with a recursive call site is conservatively
    // rejected
    let f = FunctionDecl {
        name: N_SWAP,
        params: vec![],
        rets: vec![int_binding(N_X, BindClass::MutableReference)],
        body: chain(
            assign(N_X, Expr::IntLit(1)),
            Stmt::CallStmt { path: vec![N_SWAP], args: Args::ANil },
        ),
    };
    let diags = check_function(&f);
    assert_eq!(diags.len(), 1);
    assert_eq!(diags[0].kind, DiagKind::AliasWriteInUnboundedRegion);
    assert_eq!(diags[0].region, RegionKind::RecursiveCall);
}

#[test]
fn immutable_binding_rejected_on_second_write() {
    let f = FunctionDecl {
        name: N_SWAP,
        params: vec![],
        rets: vec![],
        body: chain(
            Stmt::Local { name: N_N, class: BindClass::ImmutableValue, ty: Ty::Plain(Base::Int) },
            chain(assign(N_N, Expr::IntLit(4)), assign(N_N, Expr::IntLit(5))),
        ),
    };
    let diags = check_function(&f);
    assert_eq!(diags.len(), 1);
    assert_eq!(diags[0].kind, DiagKind::ReassignmentOfImmutable);
    assert_eq!(diags[0].subject, N_N);
}

#[test]
fn immutable_binding_single_write_accepted() {
    let f = FunctionDecl {
        name: N_SWAP,
        params: vec![],
        rets: vec![],
        body: chain(
            Stmt::Local { name: N_N, class: BindClass::ImmutableValue, ty: Ty::Plain(Base::Int) },
            assign(N_N, Expr::IntLit(4)),
        ),
    };
    assert!(check_function(&f).is_empty());
}

#[test]
fn analyze_clean_unit_reports_nothing() {
    let p = nested_modules_program();
    let (diags, targets) = analyze(&p);
    assert!(diags.is_empty());
    // the one call site of the unit, sayOuter's qualified call, is
    // annotated with its resolved target declaration
    assert_eq!(targets, vec![3]);
}

#[test]
fn analyze_continues_past_failing_siblings() {
    // two structs each embedding an undeclared type: both reported
    let bad = |name: u64| StructDecl {
        name,
        fields: vec![Field { name: N_MISSING, ty: Base::Named(N_MISSING), embedded: true }],
        conforms: vec![],
    };
    let p = Program {
        structs: vec![bad(N_POINT), bad(N_ORIGIN)],
        interfaces: vec![],
        variants: vec![],
        funcs: vec![],
        modules: vec![ModuleNode { name: N_ROOT, parent: 0, funcs: vec![] }],
    };
    let diags = analyze(&p).0;
    assert_eq!(diags.len(), 2);
    assert_eq!(diags[0].subject, N_POINT);
    assert_eq!(diags[1].subject, N_ORIGIN);
}

#[test]
fn analyze_reports_invalid_variant_base() {
    let p = Program {
        structs: vec![],
        interfaces: vec![],
        variants: vec![VariantDecl {
            name: N_ORIGIN,
            base: N_POINT,
            predicate: sayGlobal(),
        }],
        funcs: vec![],
        modules: vec![ModuleNode { name: N_ROOT, parent: 0, funcs: vec![] }],
    };
    let diags = analyze(&p).0;
    assert_eq!(diags.len(), 1);
    assert_eq!(diags[0].kind, DiagKind::InvalidVariantBase);
    assert_eq!(diags[0].subject, N_ORIGIN);
}

#[test]
fn variant_with_malformed_predicate_rejected() {
    // the base resolves, but the predicate does not take exactly one
    // parameter of the base type and return one boolean
    let p = Program {
        structs: vec![StructDecl {
            name: N_POINT,
            fields: vec![Field { name: N_X, ty: Base::Int, embedded: false }],
            conforms: vec![],
        }],
        interfaces: vec![],
        variants: vec![VariantDecl {
            name: N_ORIGIN,
            base: N_POINT,
            predicate: sayGlobal(),
        }],
        funcs: vec![],
        modules: vec![ModuleNode { name: N_ROOT, parent: 0, funcs: vec![] }],
    };
    let diags = analyze(&p).0;
    assert_eq!(diags.len(), 1);
    assert_eq!(diags[0].kind, DiagKind::InvalidVariantBase);
}

#[test]
fn body_call_site_to_unknown_name_reported() {
    // a unit whose one body calls an undeclared name must not come out
    // clean: the call-site pass reports the unresolved name
    let caller = FunctionDecl {
        name: N_SWAP,
        params: vec![],
        rets: vec![],
        body: Stmt::CallStmt { path: vec![N_MISSING], args: Args::ANil },
    };
    let p = Program {
        structs: vec![],
        interfaces: vec![],
        variants: vec![],
        funcs: vec![caller],
        modules: vec![ModuleNode { name: N_ROOT, parent: 0, funcs: vec![0] }],
    };
    let (diags, targets) = analyze(&p);
    assert_eq!(diags.len(), 1);
    assert_eq!(diags[0].kind, DiagKind::UnresolvedName);
    assert_eq!(diags[0].subject, N_MISSING);
    assert!(targets.is_empty());
}

#[test]
fn body_call_with_wrong_arity_reported() {
    // calling a declared no-argument function with one argument: the
    // overload set has no matching member
    let caller = FunctionDecl {
        name: N_SWAP,
        params: vec![],
        rets: vec![],
        body: Stmt::CallStmt {
            path: vec![N_SAY_GLOBAL],
            args: Args::ACons(Box::new(Expr::IntLit(1)), Box::new(Args::ANil)),
        },
    };
    let p = Program {
        structs: vec![],
        interfaces: vec![],
        variants: vec![],
        funcs: vec![sayGlobal(), caller],
        modules: vec![ModuleNode { name: N_ROOT, parent: 0, funcs: vec![0, 1] }],
    };
    let diags = analyze(&p).0;
    assert_eq!(diags.len(), 1);
    assert_eq!(diags[0].kind, DiagKind::NoMatchingOverload);
}

#[test]
fn sample_functions_are_alias_clean() {
    assert!(check_function(&el_distance()).is_empty());
    assert!(check_function(&sayInner()).is_empty());
    assert!(check_function(&sayInner2()).is_empty());
    assert!(check_function(&sayOuter()).is_empty());
    assert!(check_function(&sayGlobal()).is_empty());
}

#[test]
fn direct_call_resolution_end_to_end() {
    let p = nested_modules_program();
    // a qualified call with the right (empty) argument list resolves to
    // the declared function
    let r = seer::dispatch::resolve_call(&p, 0, &vec![N_OUTER, N_SAY_OUTER], &vec![]);
    assert_eq!(r, Ok(1));
    // wrong arity: the overload set has no matching member
    let r2 = seer::dispatch::resolve_call(&p, 0, &vec![N_OUTER, N_SAY_OUTER], &vec![Ty::Plain(
        Base::Int,
    )]);
    match r2 {
        Err(d) => assert_eq!(d.kind, DiagKind::NoMatchingOverload),
        _ => panic!("arity mismatch must not resolve"),
    }
    // an unknown name is unresolved
    let r3 = seer::dispatch::resolve_call(&p, 0, &vec![N_MISSING], &vec![]);
    match r3 {
        Err(d) => assert_eq!(d.kind, DiagKind::UnresolvedName),
        _ => panic!("unknown name must not resolve"),
    }
}

#[test]
fn conformance_to_unknown_interface_is_unresolved() {
    let p = Program {
        structs: vec![StructDecl {
            name: N_POINT,
            fields: vec![Field { name: N_X, ty: Base::Int, embedded: false }],
            conforms: vec![N_MISSING],
        }],
        interfaces: vec![],
        variants: vec![],
        funcs: vec![],
        modules: vec![ModuleNode { name: N_ROOT, parent: 0, funcs: vec![] }],
    };
    let diags = analyze(&p).0;
    assert_eq!(diags.len(), 1);
    assert_eq!(diags[0].kind, DiagKind::UnresolvedName);
    assert_eq!(diags[0].context, N_MISSING);
}
