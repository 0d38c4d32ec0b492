//! Structural interfaces, embedding flattening, dispatch resolution, casts
//! and variant tests.

use seer::ast::{Args, Expr, Stmt};
use seer::decl::{
    Binding, Field, FunctionDecl, InterfaceDecl, Member, ModuleNode, Program, StructDecl,
    VariantDecl,
};
use seer::diag::DiagKind;
use seer::dispatch::{
    check_upcast, check_variant_test, resolve_method, resolve_overload, satisfies_exec,
};
use seer::eval::{call_function, FieldVal, Value};
use seer::flatten::{check_struct_fields, flatten_fields};
use seer::iface::check_conformance;
use seer::resolve::ov_set_exec;
use seer::ty::{Base, BindClass, Ty};

const N_POSITIONABLE: u64 = 1;
const N_X: u64 = 2;
const N_Y: u64 = 3;
const N_Z: u64 = 4;
const N_POINT: u64 = 5;
const N_POINT3D: u64 = 6;
const N_VECTOR: u64 = 7;
const N_MAGNITUDE: u64 = 8;
const N_SAY: u64 = 9;
const N_SAY3D: u64 = 10;
const N_P: u64 = 11;
const N_ROOT: u64 = 12;
const N_ORIGIN: u64 = 13;
const N_SELF: u64 = 14;
const N_RESULT: u64 = 15;
const N_IS: u64 = 16;
const N_FLAT: u64 = 17;

fn int_field(name: u64) -> Field {
    Field { name, ty: Base::Int, embedded: false }
}

fn one_param_fn(fname: u64, pname: u64, pty: Base) -> FunctionDecl {
    FunctionDecl {
        name: fname,
        params: vec![Binding { name: pname, ty: Ty::Plain(pty), class: BindClass::ImmutableValue }],
        rets: vec![],
        body: Stmt::Skip,
    }
}

/// The embedding unit: `point { x, y }`, `point3d { embed point, z }`, a
/// free `say(p: point)` and a free `say3d(p: point3d)`, all in the root.
fn embed_program() -> Program {
    Program {
        structs: vec![
            StructDecl { name: N_POINT, fields: vec![int_field(N_X), int_field(N_Y)], conforms: vec![] },
            StructDecl {
                name: N_POINT3D,
                fields: vec![
                    Field { name: N_POINT, ty: Base::Named(N_POINT), embedded: true },
                    int_field(N_Z),
                ],
                conforms: vec![],
            },
        ],
        interfaces: vec![],
        variants: vec![],
        funcs: vec![
            one_param_fn(N_SAY, N_P, Base::Named(N_POINT)),
            one_param_fn(N_SAY3D, N_P, Base::Named(N_POINT3D)),
        ],
        modules: vec![ModuleNode { name: N_ROOT, parent: 0, funcs: vec![0, 1] }],
    }
}

#[test]
fn embedded_fields_are_flattened() {
    let p = embed_program();
    let fl = flatten_fields(&p, &p.structs[1].fields, 2).expect("chain resolves");
    // slot for the embedded value, its two forwarded fields, then z
    let names: Vec<u64> = fl.iter().map(|f| f.name).collect();
    assert_eq!(names, vec![N_POINT, N_X, N_Y, N_Z]);
    assert!(fl[0].slot);
    assert!(!fl[1].slot);
    assert_eq!(check_struct_fields(&p, 1), None);
}

#[test]
fn scenario_embedding_forwards_dispatch() {
    // p.say() on a point3d resolves to the free say(point) through the
    // embedded base
    let p = embed_program();
    let cands = ov_set_exec(&p, 0, N_SAY);
    let recv = Ty::Plain(Base::Named(N_POINT3D));
    let r = resolve_method(&p, &cands, &recv, &vec![], N_SAY);
    assert_eq!(r, Ok(0));
    // and say3d still resolves on its own type
    let cands3 = ov_set_exec(&p, 0, N_SAY3D);
    let r3 = resolve_method(&p, &cands3, &recv, &vec![], N_SAY3D);
    assert_eq!(r3, Ok(1));
}

#[test]
fn duplicate_field_through_embedding_rejected() {
    // an outer field named like a forwarded field collides
    let mut p = embed_program();
    p.structs[1].fields.push(int_field(N_X));
    let d = check_struct_fields(&p, 1).expect("collision reported");
    assert_eq!(d.kind, DiagKind::DuplicateFieldName);
    assert_eq!(d.subject, N_POINT3D);
    assert_eq!(d.context, N_X);
}

/// The structural-interface unit: `positionable { x, y }` with explicit
/// conformances.
fn iface_program() -> Program {
    Program {
        structs: vec![
            StructDecl {
                name: N_VECTOR,
                fields: vec![int_field(N_X), int_field(N_Y), int_field(N_MAGNITUDE)],
                conforms: vec![N_POSITIONABLE],
            },
            StructDecl { name: N_POINT, fields: vec![int_field(N_X), int_field(N_Y)], conforms: vec![] },
            StructDecl {
                name: N_POINT3D,
                fields: vec![
                    Field { name: N_POINT, ty: Base::Named(N_POINT), embedded: true },
                    int_field(N_Z),
                ],
                conforms: vec![N_POSITIONABLE],
            },
            // missing y entirely
            StructDecl { name: N_FLAT, fields: vec![int_field(N_X)], conforms: vec![N_POSITIONABLE] },
        ],
        interfaces: vec![InterfaceDecl {
            name: N_POSITIONABLE,
            members: vec![
                Member { name: N_X, ty: Ty::Plain(Base::Int) },
                Member { name: N_Y, ty: Ty::Plain(Base::Int) },
            ],
        }],
        variants: vec![],
        funcs: vec![],
        modules: vec![ModuleNode { name: N_ROOT, parent: 0, funcs: vec![] }],
    }
}

#[test]
fn conformance_satisfied_directly_and_through_embedding() {
    let p = iface_program();
    assert!(satisfies_exec(&p, 0, 0), "vector has x and y");
    assert!(satisfies_exec(&p, 2, 0), "point3d has x and y through the embedded point");
    assert!(check_conformance(&p, 0, 0).is_empty());
    assert!(check_conformance(&p, 2, 0).is_empty());
}

#[test]
fn missing_member_raises_interface_mismatch() {
    let p = iface_program();
    assert!(!satisfies_exec(&p, 3, 0));
    let diags = check_conformance(&p, 3, 0);
    assert_eq!(diags.len(), 1);
    assert_eq!(diags[0].kind, DiagKind::InterfaceMismatch);
    assert_eq!(diags[0].subject, N_FLAT);
    assert_eq!(diags[0].context, N_POSITIONABLE);
}

#[test]
fn wrong_member_type_raises_interface_mismatch() {
    let mut p = iface_program();
    // vector's y becomes a bool: same name, not an identical type
    p.structs[0].fields[1] = Field { name: N_Y, ty: Base::Bool, embedded: false };
    assert!(!satisfies_exec(&p, 0, 0));
    let diags = check_conformance(&p, 0, 0);
    assert_eq!(diags.len(), 1);
    assert_eq!(diags[0].kind, DiagKind::InterfaceMismatch);
}

#[test]
fn interface_upcast_requires_satisfaction() {
    let p = iface_program();
    let vec_ty = Ty::Plain(Base::Named(N_VECTOR));
    let r = check_upcast(&p, &vec_ty, N_POSITIONABLE);
    match r {
        Ok(Ty::Plain(Base::Named(n))) => assert_eq!(n, N_POSITIONABLE),
        _ => panic!("valid upcast"),
    }
    let flat_ty = Ty::Plain(Base::Named(N_FLAT));
    let r2 = check_upcast(&p, &flat_ty, N_POSITIONABLE);
    match r2 {
        Err(d) => assert_eq!(d.kind, DiagKind::InvalidUpcast),
        _ => panic!("unsatisfied upcast rejected"),
    }
    let r3 = check_upcast(&p, &Ty::Plain(Base::Int), N_POSITIONABLE);
    assert!(matches!(r3, Err(_)));
}

#[test]
fn method_member_satisfied_by_ufcs_function() {
    // an interface requiring a method is satisfied by a free function
    // whose receiver is the struct and whose remaining signature is
    // identical
    let mut p = iface_program();
    p.interfaces[0].members.push(Member {
        name: N_SAY,
        ty: Ty::Func(seer::ty::FnTy { params: vec![], rets: vec![], curried: 0 }),
    });
    // without the function, the requirement is unmet
    assert!(!satisfies_exec(&p, 0, 0));
    // with say(v: vector) declared, vector satisfies again
    p.funcs.push(one_param_fn(N_SAY, N_P, Base::Named(N_VECTOR)));
    p.modules[0].funcs.push(0);
    assert!(satisfies_exec(&p, 0, 0));
    // a method of the embedded base satisfies the outer struct too
    p.funcs.push(one_param_fn(N_SAY, N_P, Base::Named(N_POINT)));
    assert!(satisfies_exec(&p, 2, 0));
}

/// The variant unit: `origin of point` with the predicate
/// `x == 0 and y == 0`, and `say` overloaded on `point` and `origin`.
fn variant_program() -> Program {
    let pred = FunctionDecl {
        name: N_IS,
        params: vec![Binding {
            name: N_SELF,
            ty: Ty::Plain(Base::Named(N_POINT)),
            class: BindClass::ImmutableValue,
        }],
        rets: vec![Binding {
            name: N_RESULT,
            ty: Ty::Plain(Base::Bool),
            class: BindClass::MutableLocal,
        }],
        body: Stmt::Assign {
            target: N_RESULT,
            expr: Expr::AndOp(
                Box::new(Expr::EqOp(
                    Box::new(Expr::FieldAcc(Box::new(Expr::Var(N_SELF)), N_X)),
                    Box::new(Expr::IntLit(0)),
                )),
                Box::new(Expr::EqOp(
                    Box::new(Expr::FieldAcc(Box::new(Expr::Var(N_SELF)), N_Y)),
                    Box::new(Expr::IntLit(0)),
                )),
            ),
        },
    };
    Program {
        structs: vec![StructDecl {
            name: N_POINT,
            fields: vec![int_field(N_X), int_field(N_Y)],
            conforms: vec![],
        }],
        interfaces: vec![],
        variants: vec![VariantDecl { name: N_ORIGIN, base: N_POINT, predicate: pred }],
        funcs: vec![
            one_param_fn(N_SAY, N_P, Base::Named(N_POINT)),
            one_param_fn(N_SAY, N_P, Base::Named(N_ORIGIN)),
        ],
        modules: vec![ModuleNode { name: N_ROOT, parent: 0, funcs: vec![0, 1] }],
    }
}

fn point_value(x: i64, y: i64) -> Value {
    Value::StructV {
        ty: N_POINT,
        fields: vec![FieldVal { name: N_X, val: x }, FieldVal { name: N_Y, val: y }],
    }
}

#[test]
fn scenario_variant_predicate_and_narrowing() {
    let p = variant_program();
    // p is origin: false for point(5,5)
    let r = call_function(&p.variants[0].predicate, vec![point_value(5, 5)]);
    assert!(matches!(r, Value::BoolV(false)));
    // true once both fields are zero
    let r2 = call_function(&p.variants[0].predicate, vec![point_value(0, 0)]);
    assert!(matches!(r2, Value::BoolV(true)));
    // the membership test itself is valid on the base type only
    assert_eq!(check_variant_test(&p, &Ty::Plain(Base::Named(N_POINT)), N_ORIGIN), None);
    let bad = check_variant_test(&p, &Ty::Plain(Base::Int), N_ORIGIN).expect("rejected");
    assert_eq!(bad.kind, DiagKind::InvalidVariantTest);
    // p.as(origin) is a valid cast from the base type
    let cast = check_upcast(&p, &Ty::Plain(Base::Named(N_POINT)), N_ORIGIN);
    assert!(matches!(cast, Ok(Ty::Plain(Base::Named(N_ORIGIN)))));
}

#[test]
fn scenario_dispatch_follows_static_type_not_test_result() {
    let p = variant_program();
    let cands = ov_set_exec(&p, 0, N_SAY);
    assert_eq!(cands, vec![0, 1]);
    // before (and after) any `is` test, a point receiver resolves to the
    // point overload: the test narrows nothing
    let r = resolve_method(&p, &cands, &Ty::Plain(Base::Named(N_POINT)), &vec![], N_SAY);
    assert_eq!(r, Ok(0));
    // only the explicit cast changes the dispatch type
    let r2 = resolve_method(&p, &cands, &Ty::Plain(Base::Named(N_ORIGIN)), &vec![], N_SAY);
    assert_eq!(r2, Ok(1));
}

#[test]
fn overload_resolution_errors() {
    let p = variant_program();
    let cands = ov_set_exec(&p, 0, N_SAY);
    // no overload takes an integer
    let r = resolve_overload(&p, &cands, &vec![Ty::Plain(Base::Int)], N_SAY);
    match r {
        Err(d) => assert_eq!(d.kind, DiagKind::NoMatchingOverload),
        _ => panic!("no match expected"),
    }
    // a unique exact match succeeds
    let r2 = resolve_overload(&p, &cands, &vec![Ty::Plain(Base::Named(N_ORIGIN))], N_SAY);
    assert_eq!(r2, Ok(1));
}

#[test]
fn structurally_equal_overloads_are_ambiguous() {
    let mut p = variant_program();
    // a second say(point): two structurally equal candidates
    p.funcs.push(one_param_fn(N_SAY, N_P, Base::Named(N_POINT)));
    p.modules[0].funcs.push(2);
    let cands = ov_set_exec(&p, 0, N_SAY);
    let r = resolve_overload(&p, &cands, &vec![Ty::Plain(Base::Named(N_POINT))], N_SAY);
    match r {
        Err(d) => assert_eq!(d.kind, DiagKind::AmbiguousOverload),
        _ => panic!("ambiguity expected"),
    }
}

#[test]
fn expression_sites_resolve_through_the_body_checker() {
    // a caller holding a positionable-typed binding: the membership-test,
    // cast and method-call expression forms all resolve statically
    let mut p = variant_program();
    // el_distance-style method on point, so method dispatch has a target
    p.funcs.push(FunctionDecl {
        name: N_SAY3D,
        params: vec![Binding {
            name: N_P,
            ty: Ty::Plain(Base::Named(N_POINT)),
            class: BindClass::ImmutableValue,
        }],
        rets: vec![Binding {
            name: N_RESULT,
            ty: Ty::Plain(Base::Int),
            class: BindClass::MutableLocal,
        }],
        body: Stmt::Skip,
    });
    p.modules[0].funcs.push(2);
    let caller = FunctionDecl {
        name: N_FLAT,
        params: vec![Binding {
            name: N_P,
            ty: Ty::Plain(Base::Named(N_POINT)),
            class: BindClass::ImmutableValue,
        }],
        rets: vec![],
        body: Stmt::Skip,
    };
    let mut out = Vec::new();
    let mut targets = Vec::new();
    // x is V: boolean, valid on the base type
    let e1 = Expr::IsTest { recv: Box::new(Expr::Var(N_P)), variant: N_ORIGIN };
    let b1 = seer::typecheck::check_expr(&p, 0, &caller, &e1, &mut out, &mut targets);
    assert_eq!(b1, Base::Bool);
    assert!(out.is_empty());
    // x.as(origin).say(): the cast narrows, and dispatch on the narrowed
    // type resolves to the variant's overload (function index 1)
    let e2 = Expr::MethodCall {
        recv: Box::new(Expr::Cast { recv: Box::new(Expr::Var(N_P)), target: N_ORIGIN }),
        name: N_SAY,
        args: Box::new(Args::ANil),
    };
    let b2 = seer::typecheck::check_expr(&p, 0, &caller, &e2, &mut out, &mut targets);
    assert_eq!(b2, Base::Void);
    assert!(out.is_empty());
    assert_eq!(targets, vec![1]);
    // x.say3d() without a cast dispatches on the unchanged static type
    let e3 = Expr::MethodCall {
        recv: Box::new(Expr::Var(N_P)),
        name: N_SAY3D,
        args: Box::new(Args::ANil),
    };
    let b3 = seer::typecheck::check_expr(&p, 0, &caller, &e3, &mut out, &mut targets);
    assert_eq!(b3, Base::Int);
    assert!(out.is_empty());
    assert_eq!(targets, vec![1, 2]);
    // an invalid cast is reported
    let e4 = Expr::Cast { recv: Box::new(Expr::Var(N_P)), target: N_SAY };
    let b4 = seer::typecheck::check_expr(&p, 0, &caller, &e4, &mut out, &mut targets);
    assert_eq!(b4, Base::Error);
    assert_eq!(out.len(), 1);
    assert_eq!(out[0].kind, DiagKind::InvalidUpcast);
    // a curry site with too many arguments is reported
    let e5 = Expr::CurryE {
        path: vec![N_SAY3D],
        args: Box::new(Args::ACons(
            Box::new(Expr::Var(N_P)),
            Box::new(Args::ACons(Box::new(Expr::IntLit(1)), Box::new(Args::ANil))),
        )),
    };
    let b5 = seer::typecheck::check_expr(&p, 0, &caller, &e5, &mut out, &mut targets);
    assert_eq!(b5, Base::Error);
    assert_eq!(out.len(), 2);
    assert_eq!(out[1].kind, DiagKind::CurryArityExceeded);
    // field access through the flattened namespace types correctly
    let mut out2 = Vec::new();
    let e6 = Expr::FieldAcc(Box::new(Expr::Var(N_P)), N_X);
    let b6 = seer::typecheck::check_expr(&p, 0, &caller, &e6, &mut out2, &mut targets);
    assert_eq!(b6, Base::Int);
    assert!(out2.is_empty());
}

#[test]
fn embedding_cycle_is_a_resolution_failure() {
    // a struct embedding itself can never flatten; the fuel bound turns
    // the cycle into an unresolved-namespace diagnostic
    let p = Program {
        structs: vec![StructDecl {
            name: N_POINT,
            fields: vec![Field { name: N_POINT, ty: Base::Named(N_POINT), embedded: true }],
            conforms: vec![],
        }],
        interfaces: vec![],
        variants: vec![],
        funcs: vec![],
        modules: vec![ModuleNode { name: N_ROOT, parent: 0, funcs: vec![] }],
    };
    let d = check_struct_fields(&p, 0).expect("cycle reported");
    assert_eq!(d.kind, DiagKind::UnresolvedName);
}

#[test]
fn empty_interface_is_satisfied_vacuously() {
    let mut p = iface_program();
    p.interfaces.push(InterfaceDecl { name: N_IS, members: vec![] });
    assert!(satisfies_exec(&p, 3, 1), "even the sparsest struct satisfies an empty interface");
}
