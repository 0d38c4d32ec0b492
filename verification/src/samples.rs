//! Sample declarations in the analyzed language, as the front end would
//! hand them over: a distance function over a structural interface, and a
//! nested-module unit exercising bare and qualified name resolution.  Tests
//! drive the analyzer over these.

use vstd::prelude::*;
use crate::ty::{Base, Ty, BindClass};
use crate::ast::{Args, Expr, Stmt};
use crate::decl::{Binding, FunctionDecl, ModuleNode, Program, prog_wf};
use crate::eval::{Value, ValBind, field_get, val_get, val_set, init_env, spec_eval, spec_exec_stmt, spec_call_decl};

verus! {

pub const N_POSITIONABLE: u64 = 1;

pub const N_X: u64 = 2;

pub const N_Y: u64 = 3;

pub const N_P: u64 = 4;

pub const N_DISTANCE: u64 = 5;

pub const N_EL_DISTANCE: u64 = 6;

pub const N_OUTER: u64 = 7;

pub const N_INNER: u64 = 8;

pub const N_SAY_INNER: u64 = 9;

pub const N_SAY_INNER2: u64 = 10;

pub const N_SAY_OUTER: u64 = 11;

pub const N_SAY_GLOBAL: u64 = 12;

pub const N_ROOT: u64 = 13;

/// The shape of the sample distance function: one interface-typed
/// parameter, one named integer return binding, and a body of exactly one
/// assignment writing the sum of the argument's two interface fields to
/// the return binding.
pub open spec fn el_distance_shape(f: FunctionDecl) -> bool {
    &&& f.name == N_EL_DISTANCE
    &&& f.params@.len() == 1
    &&& f.params@[0].name == N_P
    &&& f.params@[0].ty == Ty::Plain(Base::Named(N_POSITIONABLE))
    &&& f.params@[0].class == BindClass::ImmutableValue
    &&& f.rets@.len() == 1
    &&& f.rets@[0].name == N_DISTANCE
    &&& f.rets@[0].ty == Ty::Plain(Base::Int)
    &&& f.rets@[0].class == BindClass::MutableLocal
    &&& f.body == (Stmt::Assign {
        target: N_DISTANCE,
        expr: Expr::Add(
            Box::new(Expr::FieldAcc(Box::new(Expr::Var(N_P)), N_X)),
            Box::new(Expr::FieldAcc(Box::new(Expr::Var(N_P)), N_Y)),
        ),
    })
}

/// The sample distance function, pinned to `el_distance_shape`.
#[allow(non_snake_case)]
pub fn el_distance() -> (f: FunctionDecl)
    ensures
        el_distance_shape(f),
{
    let mut params: Vec<Binding> = Vec::new();
    params.push(
        Binding {
            name: N_P,
            ty: Ty::Plain(Base::Named(N_POSITIONABLE)),
            class: BindClass::ImmutableValue,
        },
    );
    let mut rets: Vec<Binding> = Vec::new();
    rets.push(
        Binding { name: N_DISTANCE, ty: Ty::Plain(Base::Int), class: BindClass::MutableLocal },
    );
    let body = Stmt::Assign {
        target: N_DISTANCE,
        expr: Expr::Add(
            Box::new(Expr::FieldAcc(Box::new(Expr::Var(N_P)), N_X)),
            Box::new(Expr::FieldAcc(Box::new(Expr::Var(N_P)), N_Y)),
        ),
    };
    FunctionDecl { name: N_EL_DISTANCE, params, rets, body }
}

/// The distance law of the sample: on any struct value whose fields give
/// the interface members their integer values `x` and `y`, the call
/// returns exactly their sum — or the error value where the sum leaves the
/// machine integer range.  The result is read from the two interface
/// fields alone: nothing else of the argument, and nothing of the
/// environment, enters it, and the argument itself is never written.
pub proof fn lemma_el_distance_sums_fields(f: FunctionDecl, v: Value, x: i64, y: i64)
    requires
        el_distance_shape(f),
        v is StructV,
        field_get(v->StructV_fields@, N_X) == Value::IntV(x),
        field_get(v->StructV_fields@, N_Y) == Value::IntV(y),
    ensures
        spec_call_decl(f, seq![v]) == (if i64::MIN <= x + y <= i64::MAX {
            Value::IntV((x + y) as i64)
        } else {
            Value::ErrV
        }),
{
    let args = seq![v];
    let env0 = init_env(f.params@, args, f.rets@);
    assert(env0 =~= seq![
        ValBind { name: N_P, v },
        ValBind { name: N_DISTANCE, v: Value::VoidV },
    ]);
    let ex = Expr::Add(
        Box::new(Expr::FieldAcc(Box::new(Expr::Var(N_P)), N_X)),
        Box::new(Expr::FieldAcc(Box::new(Expr::Var(N_P)), N_Y)),
    );
    assert(val_get(env0, N_P) == Some(v));
    assert(spec_eval(env0, Expr::FieldAcc(Box::new(Expr::Var(N_P)), N_X)) == Value::IntV(x));
    assert(spec_eval(env0, Expr::FieldAcc(Box::new(Expr::Var(N_P)), N_Y)) == Value::IntV(y));
    if i64::MIN <= x + y <= i64::MAX {
        let sum = (x + y) as i64;
        assert(spec_eval(env0, ex) == Value::IntV(sum));
        let env2 = val_set(env0, N_DISTANCE, Value::IntV(sum));
        assert(env0.skip(1) =~= seq![ValBind { name: N_DISTANCE, v: Value::VoidV }]);
        assert(val_set(env0.skip(1), N_DISTANCE, Value::IntV(sum)) =~= seq![
            ValBind { name: N_DISTANCE, v: Value::IntV(sum) },
        ]);
        assert(env2 =~= seq![
            ValBind { name: N_P, v },
            ValBind { name: N_DISTANCE, v: Value::IntV(sum) },
        ]);
        assert(spec_exec_stmt(env0, f.body) == Some(env2));
        assert(env2.skip(1) =~= seq![ValBind { name: N_DISTANCE, v: Value::IntV(sum) }]);
        assert(val_get(env2.skip(1), N_DISTANCE) == Some(Value::IntV(sum)));
        assert(val_get(env2, N_DISTANCE) == Some(Value::IntV(sum)));
        assert(spec_call_decl(f, args) == Value::IntV(sum));
    } else {
        assert(spec_eval(env0, ex) == Value::ErrV);
        assert(spec_exec_stmt(env0, f.body) is None);
        assert(spec_call_decl(f, args) == Value::ErrV);
    }
}

/// Corollary: the distance sample depends only on the two interface
/// members.  Two argument values agreeing on the fields `x` and `y` — be
/// the structs behind the interface view ever so different otherwise —
/// give equal results, and repeated calls on one value give one result.
pub proof fn lemma_el_distance_reads_interface_only(
    f: FunctionDecl,
    a: Value,
    b: Value,
    x: i64,
    y: i64,
)
    requires
        el_distance_shape(f),
        a is StructV,
        b is StructV,
        field_get(a->StructV_fields@, N_X) == Value::IntV(x),
        field_get(a->StructV_fields@, N_Y) == Value::IntV(y),
        field_get(b->StructV_fields@, N_X) == Value::IntV(x),
        field_get(b->StructV_fields@, N_Y) == Value::IntV(y),
    ensures
        spec_call_decl(f, seq![a]) == spec_call_decl(f, seq![b]),
{
    lemma_el_distance_sums_fields(f, a, x, y);
    lemma_el_distance_sums_fields(f, b, x, y);
}

/// A leaf function of the innermost sample module.
#[allow(non_snake_case)]
pub fn sayInner() -> (f: FunctionDecl)
    ensures
        f.name == N_SAY_INNER,
        f.params@.len() == 0,
        f.rets@.len() == 0,
        f.body is Skip,
{
    FunctionDecl { name: N_SAY_INNER, params: Vec::new(), rets: Vec::new(), body: Stmt::Skip }
}

/// A second leaf function of the innermost sample module, called from its
/// parent by a qualified path.
#[allow(non_snake_case)]
pub fn sayInner2() -> (f: FunctionDecl)
    ensures
        f.name == N_SAY_INNER2,
        f.params@.len() == 0,
        f.rets@.len() == 0,
        f.body is Skip,
{
    FunctionDecl { name: N_SAY_INNER2, params: Vec::new(), rets: Vec::new(), body: Stmt::Skip }
}

/// The middle module's function: calls into its child module by a
/// qualified path.
#[allow(non_snake_case)]
pub fn sayOuter() -> (f: FunctionDecl)
    ensures
        f.name == N_SAY_OUTER,
        f.params@.len() == 0,
        f.rets@.len() == 0,
        f.body matches Stmt::CallStmt { path, args } && path@ == seq![N_INNER, N_SAY_INNER2]
            && args is ANil,
{
    let mut path: Vec<u64> = Vec::new();
    path.push(N_INNER);
    path.push(N_SAY_INNER2);
    proof {
        assert(path@ =~= seq![N_INNER, N_SAY_INNER2]);
    }
    FunctionDecl {
        name: N_SAY_OUTER,
        params: Vec::new(),
        rets: Vec::new(),
        body: Stmt::CallStmt { path, args: Args::ANil },
    }
}

/// The root module's function.
#[allow(non_snake_case)]
pub fn sayGlobal() -> (f: FunctionDecl)
    ensures
        f.name == N_SAY_GLOBAL,
        f.params@.len() == 0,
        f.rets@.len() == 0,
        f.body is Skip,
{
    FunctionDecl { name: N_SAY_GLOBAL, params: Vec::new(), rets: Vec::new(), body: Stmt::Skip }
}

/// The nested-module sample unit: the root declares one function, a child
/// module declares another, and a grandchild declares two more.  The tree
/// is well-formed, so name resolution can be driven over it.
pub fn nested_modules_program() -> (p: Program)
    ensures
        prog_wf(p),
        p.modules@.len() == 3,
        p.modules@[0].name == N_ROOT,
        p.modules@[1].name == N_OUTER && p.modules@[1].parent == 0,
        p.modules@[2].name == N_INNER && p.modules@[2].parent == 1,
        p.funcs@.len() == 4,
        p.funcs@[0].name == N_SAY_GLOBAL,
        p.funcs@[1].name == N_SAY_OUTER,
        p.funcs@[2].name == N_SAY_INNER,
        p.funcs@[3].name == N_SAY_INNER2,
        forall|i: int|
            0 <= i < 4 ==> (#[trigger] p.funcs@[i]).params@.len() == 0 && p.funcs@[i].rets@.len()
                == 0,
        p.funcs@[0].body is Skip,
        p.funcs@[2].body is Skip,
        p.funcs@[3].body is Skip,
        p.funcs@[1].body matches Stmt::CallStmt { path, args } && path@ == seq![
            N_INNER,
            N_SAY_INNER2,
        ] && args is ANil,
        p.modules@[0].funcs@ == seq![0usize],
        p.modules@[1].funcs@ == seq![1usize],
        p.modules@[2].funcs@ == seq![2usize, 3usize],
        p.structs@.len() == 0,
        p.interfaces@.len() == 0,
        p.variants@.len() == 0,
{
    let mut funcs: Vec<FunctionDecl> = Vec::new();
    funcs.push(sayGlobal());
    funcs.push(sayOuter());
    funcs.push(sayInner());
    funcs.push(sayInner2());
    let mut root_funcs: Vec<usize> = Vec::new();
    root_funcs.push(0);
    let mut outer_funcs: Vec<usize> = Vec::new();
    outer_funcs.push(1);
    let mut inner_funcs: Vec<usize> = Vec::new();
    inner_funcs.push(2);
    inner_funcs.push(3);
    let mut modules: Vec<ModuleNode> = Vec::new();
    modules.push(ModuleNode { name: N_ROOT, parent: 0, funcs: root_funcs });
    modules.push(ModuleNode { name: N_OUTER, parent: 0, funcs: outer_funcs });
    modules.push(ModuleNode { name: N_INNER, parent: 1, funcs: inner_funcs });
    let p = Program {
        structs: Vec::new(),
        interfaces: Vec::new(),
        variants: Vec::new(),
        funcs,
        modules,
    };
    proof {
        assert(p.modules@[0].funcs@ =~= seq![0usize]);
        assert(p.modules@[1].funcs@ =~= seq![1usize]);
        assert(p.modules@[2].funcs@ =~= seq![2usize, 3usize]);
    }
    p
}

} // verus!
