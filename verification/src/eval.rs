//! A first-order evaluator for the fragment of the language whose results
//! the analyzer itself needs: variant predicates (whose boolean result an
//! `is` test consumes) and straight-line function bodies invoked through
//! curried function values.  Loops and nested calls are outside its scope
//! and come out as the error value.

use vstd::prelude::*;
use crate::ty::NameId;
use crate::ast::{Expr, Stmt};
use crate::decl::{Binding, FunctionDecl, Program};

verus! {

/// A field of a struct value; field values are integers, which is all the
/// predicate fragment reads.
#[derive(Clone, Copy, PartialEq, Eq, Structural, Debug)]
pub struct FieldVal {
    pub name: NameId,
    pub val: i64,
}

/// A first-order runtime value.
#[verifier::ext_equal]
pub enum Value {
    IntV(i64),
    BoolV(bool),
    StructV { ty: NameId, fields: Vec<FieldVal> },
    VoidV,
    ErrV,
}

/// One binding of the value environment.
#[verifier::ext_equal]
pub struct ValBind {
    pub name: NameId,
    pub v: Value,
}

/// The value bound to the first occurrence of a name, front to back.
pub open spec fn val_get(env: Seq<ValBind>, n: NameId) -> Option<Value>
    decreases env.len(),
{
    if env.len() == 0 {
        None
    } else if env[0].name == n {
        Some(env[0].v)
    } else {
        val_get(env.skip(1), n)
    }
}

/// The environment after binding `n` to `v`: the first occurrence is
/// replaced, or the binding is appended if the name is absent.
pub open spec fn val_set(env: Seq<ValBind>, n: NameId, v: Value) -> Seq<ValBind>
    decreases env.len(),
{
    if env.len() == 0 {
        seq![ValBind { name: n, v }]
    } else if env[0].name == n {
        seq![ValBind { name: n, v }] + env.skip(1)
    } else {
        seq![env[0]] + val_set(env.skip(1), n, v)
    }
}

/// Skipping a miss-prefix leaves a front-first lookup unchanged.
proof fn lemma_val_get_skip(env: Seq<ValBind>, n: NameId, i: int)
    requires
        0 <= i <= env.len(),
        forall|j: int| 0 <= j < i ==> (#[trigger] env[j]).name != n,
    ensures
        val_get(env, n) == val_get(env.skip(i), n),
    decreases i,
{
    if i > 0 {
        lemma_val_get_skip(env.skip(1), n, i - 1);
        assert(env.skip(1).skip(i - 1) =~= env.skip(i));
    } else {
        assert(env.skip(0) =~= env);
    }
}

/// Updating at the first occurrence is an index update.
proof fn lemma_val_set_at(env: Seq<ValBind>, n: NameId, v: Value, i: int)
    requires
        0 <= i < env.len(),
        env[i].name == n,
        forall|j: int| 0 <= j < i ==> (#[trigger] env[j]).name != n,
    ensures
        val_set(env, n, v) == env.update(i, ValBind { name: n, v }),
    decreases i,
{
    if i == 0 {
        assert(val_set(env, n, v) =~= env.update(0, ValBind { name: n, v }));
    } else {
        lemma_val_set_at(env.skip(1), n, v, i - 1);
        assert(seq![env[0]] + env.skip(1).update(i - 1, ValBind { name: n, v }) =~= env.update(
            i,
            ValBind { name: n, v },
        ));
    }
}

/// Setting an absent name appends it.
proof fn lemma_val_set_absent(env: Seq<ValBind>, n: NameId, v: Value)
    requires
        forall|j: int| 0 <= j < env.len() ==> (#[trigger] env[j]).name != n,
    ensures
        val_set(env, n, v) == env.push(ValBind { name: n, v }),
    decreases env.len(),
{
    if env.len() == 0 {
        assert(val_set(env, n, v) =~= env.push(ValBind { name: n, v }));
    } else {
        lemma_val_set_absent(env.skip(1), n, v);
        assert(seq![env[0]] + env.skip(1).push(ValBind { name: n, v }) =~= env.push(
            ValBind { name: n, v },
        ));
    }
}

/// Looks a name up in the value environment, borrowing the bound value.
pub fn val_get_ref(env: &Vec<ValBind>, n: NameId) -> (r: Option<&Value>)
    ensures
        match r {
            Some(v) => val_get(env@, n) == Some(*v),
            None => val_get(env@, n) is None,
        },
{
    let mut i: usize = 0;
    while i < env.len()
        invariant
            i <= env@.len(),
            forall|j: int| 0 <= j < i ==> (#[trigger] env@[j]).name != n,
        decreases env@.len() - i,
    {
        if env[i].name == n {
            proof {
                lemma_val_get_skip(env@, n, i as int);
                assert(env@.skip(i as int)[0] == env@[i as int]);
            }
            return Some(&env[i].v);
        }
        i += 1;
    }
    proof {
        lemma_val_get_skip(env@, n, env@.len() as int);
        assert(env@.skip(env@.len() as int) =~= Seq::<ValBind>::empty());
    }
    None
}

/// Binds a name in the value environment.
pub fn val_set_exec(env: &mut Vec<ValBind>, n: NameId, v: Value)
    ensures
        final(env)@ == val_set(old(env)@, n, v),
{
    let mut i: usize = 0;
    while i < env.len()
        invariant
            i <= env@.len(),
            env@ == old(env)@,
            forall|j: int| 0 <= j < i ==> (#[trigger] env@[j]).name != n,
        decreases env@.len() - i,
    {
        if env[i].name == n {
            proof {
                lemma_val_set_at(env@, n, v, i as int);
            }
            env[i] = ValBind { name: n, v };
            return ;
        }
        i += 1;
    }
    proof {
        lemma_val_set_absent(env@, n, v);
    }
    env.push(ValBind { name: n, v });
}

/// The integer value of the first field of the given name.
pub open spec fn field_get(fs: Seq<FieldVal>, n: NameId) -> Value
    decreases fs.len(),
{
    if fs.len() == 0 {
        Value::ErrV
    } else if fs[0].name == n {
        Value::IntV(fs[0].val)
    } else {
        field_get(fs.skip(1), n)
    }
}

proof fn lemma_field_get_skip(fs: Seq<FieldVal>, n: NameId, i: int)
    requires
        0 <= i <= fs.len(),
        forall|j: int| 0 <= j < i ==> (#[trigger] fs[j]).name != n,
    ensures
        field_get(fs, n) == field_get(fs.skip(i), n),
    decreases i,
{
    if i > 0 {
        lemma_field_get_skip(fs.skip(1), n, i - 1);
        assert(fs.skip(1).skip(i - 1) =~= fs.skip(i));
    } else {
        assert(fs.skip(0) =~= fs);
    }
}

/// Reads the field of the given name out of a struct value's field list.
pub fn field_scan(fields: &Vec<FieldVal>, n: NameId) -> (r: Value)
    ensures
        r == field_get(fields@, n),
{
    let mut i: usize = 0;
    while i < fields.len()
        invariant
            i <= fields@.len(),
            forall|j: int| 0 <= j < i ==> (#[trigger] fields@[j]).name != n,
        decreases fields@.len() - i,
    {
        if fields[i].name == n {
            proof {
                lemma_field_get_skip(fields@, n, i as int);
                assert(fields@.skip(i as int)[0] == fields@[i as int]);
            }
            return Value::IntV(fields[i].val);
        }
        i += 1;
    }
    proof {
        lemma_field_get_skip(fields@, n, fields@.len() as int);
        assert(fields@.skip(fields@.len() as int) =~= Seq::<FieldVal>::empty());
    }
    Value::ErrV
}

/// The meaning of an expression in a value environment.  An unbound name, a
/// type confusion, or an integer overflow yields the error value.  The
/// evaluator is first-order: a struct value flows only out of a named
/// binding into a field access, never as the value of a whole expression.
pub open spec fn spec_eval(env: Seq<ValBind>, e: Expr) -> Value
    decreases e,
{
    match e {
        Expr::IntLit(n) => Value::IntV(n),
        Expr::BoolLit(b) => Value::BoolV(b),
        Expr::Var(n) => match val_get(env, n) {
            Some(v) => if v is StructV {
                Value::ErrV
            } else {
                v
            },
            None => Value::ErrV,
        },
        Expr::FieldAcc(b, n) => match (match *b {
            Expr::Var(m) => match val_get(env, m) {
                Some(v) => v,
                None => Value::ErrV,
            },
            _ => spec_eval(env, *b),
        }) {
            Value::StructV { ty: _, fields } => field_get(fields@, n),
            _ => Value::ErrV,
        },
        Expr::Add(a, b) => match (spec_eval(env, *a), spec_eval(env, *b)) {
            (Value::IntV(x), Value::IntV(y)) => {
                if i64::MIN <= x + y <= i64::MAX {
                    Value::IntV((x + y) as i64)
                } else {
                    Value::ErrV
                }
            },
            _ => Value::ErrV,
        },
        Expr::EqOp(a, b) => match (spec_eval(env, *a), spec_eval(env, *b)) {
            (Value::IntV(x), Value::IntV(y)) => Value::BoolV(x == y),
            (Value::BoolV(x), Value::BoolV(y)) => Value::BoolV(x == y),
            _ => Value::ErrV,
        },
        Expr::AndOp(a, b) => match (spec_eval(env, *a), spec_eval(env, *b)) {
            (Value::BoolV(x), Value::BoolV(y)) => Value::BoolV(x && y),
            _ => Value::ErrV,
        },
        _ => Value::ErrV,
    }
}

/// Evaluates an expression.
pub fn eval(env: &Vec<ValBind>, e: &Expr) -> (r: Value)
    ensures
        r == spec_eval(env@, *e),
    decreases *e,
{
    match e {
        Expr::IntLit(n) => Value::IntV(*n),
        Expr::BoolLit(b) => Value::BoolV(*b),
        Expr::Var(n) => match val_get_ref(env, *n) {
            Some(v) => match v {
                Value::StructV { ty: _, fields: _ } => Value::ErrV,
                Value::IntV(x) => Value::IntV(*x),
                Value::BoolV(x) => Value::BoolV(*x),
                Value::VoidV => Value::VoidV,
                Value::ErrV => Value::ErrV,
            },
            None => Value::ErrV,
        },
        Expr::FieldAcc(b, n) => {
            match &**b {
                Expr::Var(m) => {
                    match val_get_ref(env, *m) {
                        Some(v) => match v {
                            Value::StructV { ty: _, fields } => field_scan(fields, *n),
                            _ => Value::ErrV,
                        },
                        None => Value::ErrV,
                    }
                },
                _ => {
                    match eval(env, b) {
                        Value::StructV { ty: _, fields } => field_scan(&fields, *n),
                        _ => Value::ErrV,
                    }
                },
            }
        },
        Expr::Add(a, b) => {
            match (eval(env, a), eval(env, b)) {
                (Value::IntV(x), Value::IntV(y)) => match x.checked_add(y) {
                    Some(z) => Value::IntV(z),
                    None => Value::ErrV,
                },
                _ => Value::ErrV,
            }
        },
        Expr::EqOp(a, b) => {
            match (eval(env, a), eval(env, b)) {
                (Value::IntV(x), Value::IntV(y)) => Value::BoolV(x == y),
                (Value::BoolV(x), Value::BoolV(y)) => Value::BoolV(x == y),
                _ => Value::ErrV,
            }
        },
        Expr::AndOp(a, b) => {
            match (eval(env, a), eval(env, b)) {
                (Value::BoolV(x), Value::BoolV(y)) => Value::BoolV(x && y),
                _ => Value::ErrV,
            }
        },
        _ => Value::ErrV,
    }
}

/// The environment after a straight-line statement, or `None` where the
/// statement is outside the evaluator's scope (a loop, a nested call) or an
/// evaluation failed.
pub open spec fn spec_exec_stmt(env: Seq<ValBind>, s: Stmt) -> Option<Seq<ValBind>>
    decreases s,
{
    match s {
        Stmt::Skip => Some(env),
        Stmt::Ret => Some(env),
        Stmt::Local { name, class: _, ty: _ } => Some(env.push(ValBind { name, v: Value::VoidV })),
        Stmt::Chain(a, b) => match spec_exec_stmt(env, *a) {
            Some(e1) => spec_exec_stmt(e1, *b),
            None => None,
        },
        Stmt::Assign { target, expr } => match spec_eval(env, expr) {
            Value::ErrV => None,
            v => Some(val_set(env, target, v)),
        },
        Stmt::If { cond, then_s, else_s } => match spec_eval(env, cond) {
            Value::BoolV(true) => spec_exec_stmt(env, *then_s),
            Value::BoolV(false) => spec_exec_stmt(env, *else_s),
            _ => None,
        },
        Stmt::While { cond: _, body: _ } => None,
        Stmt::CallStmt { path: _, args: _ } => None,
    }
}

/// Runs a straight-line statement against the environment.
pub fn exec_stmt(env: &mut Vec<ValBind>, s: &Stmt) -> (ok: bool)
    ensures
        match spec_exec_stmt(old(env)@, *s) {
            Some(e2) => ok && final(env)@ == e2,
            None => !ok,
        },
    decreases *s,
{
    match s {
        Stmt::Skip => true,
        Stmt::Ret => true,
        Stmt::Local { name, class: _, ty: _ } => {
            env.push(ValBind { name: *name, v: Value::VoidV });
            true
        },
        Stmt::Chain(a, b) => {
            if exec_stmt(env, a) {
                exec_stmt(env, b)
            } else {
                false
            }
        },
        Stmt::Assign { target, expr } => {
            match eval(env, expr) {
                Value::ErrV => false,
                v => {
                    val_set_exec(env, *target, v);
                    true
                },
            }
        },
        Stmt::If { cond, then_s, else_s } => {
            match eval(env, cond) {
                Value::BoolV(true) => exec_stmt(env, then_s),
                Value::BoolV(false) => exec_stmt(env, else_s),
                _ => false,
            }
        },
        Stmt::While { cond: _, body: _ } => false,
        Stmt::CallStmt { path: _, args: _ } => false,
    }
}

/// The initial environment of a call: parameters bound to the argument
/// values in order, then the named return bindings, initially void.
pub open spec fn init_env(params: Seq<Binding>, args: Seq<Value>, rets: Seq<Binding>) -> Seq<
    ValBind,
> {
    Seq::new(params.len(), |k: int| ValBind { name: params[k].name, v: args[k] }) + Seq::new(
        rets.len(),
        |k: int| ValBind { name: rets[k].name, v: Value::VoidV },
    )
}

/// The result of calling a function declaration on the given arguments:
/// its body runs in the initial environment, and the value of its first
/// named return binding (or void, with no return bindings) comes back.
/// Arity mismatch or an unsupported body yields the error value.
pub open spec fn spec_call_decl(f: FunctionDecl, args: Seq<Value>) -> Value {
    if args.len() != f.params@.len() {
        Value::ErrV
    } else {
        match spec_exec_stmt(init_env(f.params@, args, f.rets@), f.body) {
            None => Value::ErrV,
            Some(env2) => {
                if f.rets@.len() == 0 {
                    Value::VoidV
                } else {
                    match val_get(env2, f.rets@[0].name) {
                        Some(v) => if v is StructV {
                            Value::ErrV
                        } else {
                            v
                        },
                        None => Value::ErrV,
                    }
                }
            },
        }
    }
}

/// The result of calling the function at index `fi`.
pub open spec fn spec_call(p: Program, fi: int, args: Seq<Value>) -> Value {
    if !(0 <= fi < p.funcs@.len()) {
        Value::ErrV
    } else {
        spec_call_decl(p.funcs@[fi], args)
    }
}

/// Calls a function declaration on the given argument values.
pub fn call_function(f: &FunctionDecl, args: Vec<Value>) -> (r: Value)
    ensures
        r == spec_call_decl(*f, args@),
{
    if args.len() != f.params.len() {
        return Value::ErrV;
    }
    let mut env: Vec<ValBind> = Vec::new();
    let mut i: usize = 0;
    let ghost args0 = args@;
    let mut args = args;
    let ghost pseq = Seq::new(
        f.params@.len(),
        |k: int| ValBind { name: f.params@[k].name, v: args0[k] },
    );
    let ghost rseq = Seq::new(
        f.rets@.len(),
        |k: int| ValBind { name: f.rets@[k].name, v: Value::VoidV },
    );
    proof {
        assert(args@ =~= args0.skip(0));
        assert(env@ =~= pseq.take(0));
    }
    while i < f.params.len()
        invariant
            i <= f.params@.len(),
            args@ == args0.skip(i as int),
            args0.len() == f.params@.len(),
            pseq == Seq::new(
                f.params@.len(),
                |k: int| ValBind { name: f.params@[k].name, v: args0[k] },
            ),
            env@ == pseq.take(i as int),
        decreases f.params@.len() - i,
    {
        let v = args.remove(0);
        proof {
            assert(args0.skip(i as int).remove(0) =~= args0.skip(i as int + 1));
            assert(args0.skip(i as int)[0] == args0[i as int]);
        }
        env.push(ValBind { name: f.params[i].name, v });
        proof {
            assert(env@ =~= pseq.take(i as int + 1));
        }
        i += 1;
    }
    let mut j: usize = 0;
    while j < f.rets.len()
        invariant
            j <= f.rets@.len(),
            rseq == Seq::new(
                f.rets@.len(),
                |k: int| ValBind { name: f.rets@[k].name, v: Value::VoidV },
            ),
            env@ == pseq.take(pseq.len() as int) + rseq.take(j as int),
        decreases f.rets@.len() - j,
    {
        env.push(ValBind { name: f.rets[j].name, v: Value::VoidV });
        proof {
            assert(env@ =~= pseq.take(pseq.len() as int) + rseq.take(j as int + 1));
        }
        j += 1;
    }
    proof {
        assert(pseq.take(pseq.len() as int) =~= pseq);
        assert(rseq.take(rseq.len() as int) =~= rseq);
        assert(env@ =~= init_env(f.params@, args0, f.rets@));
    }
    let ok = exec_stmt(&mut env, &f.body);
    if !ok {
        return Value::ErrV;
    }
    if f.rets.len() == 0 {
        return Value::VoidV;
    }
    match val_get_ref(&env, f.rets[0].name) {
        Some(v) => match v {
            Value::StructV { ty: _, fields: _ } => Value::ErrV,
            Value::IntV(x) => Value::IntV(*x),
            Value::BoolV(x) => Value::BoolV(*x),
            Value::VoidV => Value::VoidV,
            Value::ErrV => Value::ErrV,
        },
        None => Value::ErrV,
    }
}

/// Calls the function at index `fi` on the given argument values.
pub fn eval_call(p: &Program, fi: usize, args: Vec<Value>) -> (r: Value)
    ensures
        r == spec_call(*p, fi as int, args@),
{
    if fi >= p.funcs.len() {
        return Value::ErrV;
    }
    call_function(&p.funcs[fi], args)
}

} // verus!
