//! The curry engine: type-level prefix application, the runtime shape of
//! curried values, and the evaluator behind them.

use seer::ast::{Expr, Stmt};
use seer::curry::{apply_prefix, call_value, curry_value, FnVal};
use seer::decl::{Binding, FunctionDecl, ModuleNode, Program};
use seer::diag::DiagKind;
use seer::eval::{call_function, FieldVal, Value};
use seer::samples::{el_distance, N_POSITIONABLE, N_X, N_Y};
use seer::decl::ModuleNode as MN;
use seer::ty::{Base, BindClass, FnTy, Ty};

const N_ADD: u64 = 200;
const N_A: u64 = 201;
const N_B: u64 = 202;
const N_R: u64 = 203;
const N_ROOT: u64 = 204;

/// `add(x: int, y: int) -> r: int { r = x + y }`, declared in the root.
fn add_program() -> Program {
    let add = FunctionDecl {
        name: N_ADD,
        params: vec![
            Binding { name: N_A, ty: Ty::Plain(Base::Int), class: BindClass::ImmutableValue },
            Binding { name: N_B, ty: Ty::Plain(Base::Int), class: BindClass::ImmutableValue },
        ],
        rets: vec![Binding { name: N_R, ty: Ty::Plain(Base::Int), class: BindClass::MutableLocal }],
        body: Stmt::Assign {
            target: N_R,
            expr: Expr::Add(Box::new(Expr::Var(N_A)), Box::new(Expr::Var(N_B))),
        },
    };
    Program {
        structs: vec![],
        interfaces: vec![],
        variants: vec![],
        funcs: vec![add],
        modules: vec![ModuleNode { name: N_ROOT, parent: 0, funcs: vec![0] }],
    }
}

fn add_ty() -> FnTy {
    FnTy { params: vec![Base::Int, Base::Int], rets: vec![Base::Int], curried: 0 }
}

#[test]
fn scenario_curried_values() {
    let p = add_program();
    // f = add; f(4, 2) = 6
    let f = FnVal { func: 0, fixed: vec![] };
    let r = call_value(&p, f, vec![Value::IntV(4), Value::IntV(2)]);
    assert!(matches!(r, Value::IntV(6)));
    // h = add<4>; h(3) = 7
    let h = curry_value(FnVal { func: 0, fixed: vec![] }, vec![Value::IntV(4)]);
    assert_eq!(h.fixed.len(), 1);
    let r2 = call_value(&p, h, vec![Value::IntV(3)]);
    assert!(matches!(r2, Value::IntV(7)));
    // g = h<4>; g() = 8 — chained currying binds prefixes in order
    let h2 = curry_value(FnVal { func: 0, fixed: vec![] }, vec![Value::IntV(4)]);
    let g = curry_value(h2, vec![Value::IntV(4)]);
    let r3 = call_value(&p, g, vec![]);
    assert!(matches!(r3, Value::IntV(8)));
    // k = add<8, 1>; k() = 9 — full application equals the direct call
    let k = curry_value(FnVal { func: 0, fixed: vec![] }, vec![Value::IntV(8), Value::IntV(1)]);
    let r4 = call_value(&p, k, vec![]);
    assert!(matches!(r4, Value::IntV(9)));
    let direct = call_value(&p, FnVal { func: 0, fixed: vec![] }, vec![
        Value::IntV(8),
        Value::IntV(1),
    ]);
    assert!(matches!(direct, Value::IntV(9)));
}

#[test]
fn curried_value_reusable_and_argument_count_checked() {
    let p = add_program();
    // a curried value can be entered again with other arguments
    let h = curry_value(FnVal { func: 0, fixed: vec![] }, vec![Value::IntV(4)]);
    let r = call_value(&p, h, vec![Value::IntV(6)]);
    assert!(matches!(r, Value::IntV(10)));
    // supplying the wrong remaining arity is an error value
    let h2 = curry_value(FnVal { func: 0, fixed: vec![] }, vec![Value::IntV(4)]);
    let bad = call_value(&p, h2, vec![]);
    assert!(matches!(bad, Value::ErrV));
}

#[test]
fn curry_type_drops_bound_prefix() {
    let t = add_ty();
    let t1 = apply_prefix(&t, &vec![Base::Int], N_ADD).expect("one argument binds");
    assert_eq!(t1.params, vec![Base::Int]);
    assert_eq!(t1.rets, vec![Base::Int]);
    assert_eq!(t1.curried, 1);
    let t2 = apply_prefix(&t1, &vec![Base::Int], N_ADD).expect("chains");
    assert_eq!(t2.params, Vec::<Base>::new());
    assert_eq!(t2.curried, 2);
    // the one-shot application reaches the same type as the chain
    let t12 = apply_prefix(&t, &vec![Base::Int, Base::Int], N_ADD).expect("both bind");
    assert_eq!(t12.params, t2.params);
    assert_eq!(t12.curried, t2.curried);
}

#[test]
fn curry_arity_exceeded_reported() {
    let t = add_ty();
    let r = apply_prefix(&t, &vec![Base::Int, Base::Int, Base::Int], N_ADD);
    match r {
        Err(d) => assert_eq!(d.kind, DiagKind::CurryArityExceeded),
        _ => panic!("three arguments exceed two parameters"),
    }
}

#[test]
fn curry_type_mismatch_reported() {
    let t = add_ty();
    let r = apply_prefix(&t, &vec![Base::Bool], N_ADD);
    match r {
        Err(d) => assert_eq!(d.kind, DiagKind::CurryTypeMismatch),
        _ => panic!("a boolean does not bind an integer parameter"),
    }
}

#[test]
fn evaluator_reports_overflow_and_unbound_names() {
    let p = add_program();
    let big = call_value(&p, FnVal { func: 0, fixed: vec![] }, vec![
        Value::IntV(i64::MAX),
        Value::IntV(1),
    ]);
    assert!(matches!(big, Value::ErrV));
    // an out-of-range function index is an error value, not a panic
    let none = call_value(&p, FnVal { func: 9, fixed: vec![] }, vec![]);
    assert!(matches!(none, Value::ErrV));
}

#[test]
fn sample_distance_function_evaluates() {
    let f = el_distance();
    let arg = Value::StructV {
        ty: N_POSITIONABLE,
        fields: vec![FieldVal { name: N_X, val: 1 }, FieldVal { name: N_Y, val: 2 }],
    };
    let r = call_function(&f, vec![arg]);
    assert!(matches!(r, Value::IntV(3)));
    let arg2 = Value::StructV {
        ty: N_POSITIONABLE,
        fields: vec![FieldVal { name: N_X, val: 8 }, FieldVal { name: N_Y, val: 4 }],
    };
    let r2 = call_function(&f, vec![arg2]);
    assert!(matches!(r2, Value::IntV(12)));
}

fn positionable_value(x: i64, y: i64) -> Value {
    Value::StructV {
        ty: N_POSITIONABLE,
        fields: vec![FieldVal { name: N_X, val: x }, FieldVal { name: N_Y, val: y }],
    }
}

#[test]
fn scenario_distance_through_curried_values() {
    // f = el_distance; h = el_distance<obj1>; g = el_distance<obj2>:
    // f(obj1) == 3, h() == 3, g() == 12, with h and g fully applied
    let p = Program {
        structs: vec![],
        interfaces: vec![],
        variants: vec![],
        funcs: vec![el_distance()],
        modules: vec![MN { name: 300, parent: 0, funcs: vec![0] }],
    };
    let f = FnVal { func: 0, fixed: vec![] };
    let r = call_value(&p, f, vec![positionable_value(1, 2)]);
    assert!(matches!(r, Value::IntV(3)));
    let h = curry_value(FnVal { func: 0, fixed: vec![] }, vec![positionable_value(1, 2)]);
    assert_eq!(h.fixed.len(), 1);
    let rh = call_value(&p, h, vec![]);
    assert!(matches!(rh, Value::IntV(3)));
    let g = curry_value(FnVal { func: 0, fixed: vec![] }, vec![positionable_value(8, 4)]);
    let rg = call_value(&p, g, vec![]);
    assert!(matches!(rg, Value::IntV(12)));
    // the curried type has remaining arity 0
    let t = FnTy {
        params: vec![Base::Named(N_POSITIONABLE)],
        rets: vec![Base::Int],
        curried: 0,
    };
    let t1 = apply_prefix(&t, &vec![Base::Named(N_POSITIONABLE)], 301).expect("prefix binds");
    assert_eq!(t1.params.len(), 0);
    assert_eq!(t1.curried, 1);
}

#[test]
fn distance_reads_fields_never_writes_them() {
    // the call reads its argument's fields and leaves the value itself
    // untouched; members outside the interface do not enter the result
    let fd = el_distance();
    let mut with_extra = positionable_value(1, 2);
    if let Value::StructV { ty: _, fields } = &mut with_extra {
        fields.push(FieldVal { name: 999, val: 40 });
    }
    let r = call_function(&fd, vec![with_extra]);
    assert!(matches!(r, Value::IntV(3)));
    let arg = positionable_value(1, 2);
    let r2 = call_function(&fd, vec![arg]);
    assert!(matches!(r2, Value::IntV(3)));
}

#[test]
fn empty_curry_prefix_changes_nothing() {
    let t = add_ty();
    let t0 = apply_prefix(&t, &vec![], N_ADD).expect("an empty prefix binds");
    assert_eq!(t0.params, vec![Base::Int, Base::Int]);
    assert_eq!(t0.curried, 0);
}
