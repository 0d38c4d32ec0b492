//! The statement and expression forms of function bodies, as handed over by
//! the front end.

use vstd::prelude::*;
use crate::ty::{NameId, Ty, BindClass};

verus! {

/// An expression.  The analyzer resolves every call, cast, membership-test
/// and curry site statically; it evaluates only the first-order fragment
/// (variant predicates and straight-line curried bodies).
pub enum Expr {
    IntLit(i64),
    BoolLit(bool),
    StrLit(String),
    /// A binding reference.
    Var(NameId),
    /// Field access on a struct value (embedding-flattened names included).
    FieldAcc(Box<Expr>, NameId),
    Add(Box<Expr>, Box<Expr>),
    EqOp(Box<Expr>, Box<Expr>),
    AndOp(Box<Expr>, Box<Expr>),
    /// A direct call of a (bare or qualified) name, or of a function-valued
    /// binding.
    CallE { path: Vec<NameId>, args: Box<Args> },
    /// A method call by uniform call syntax: the receiver is prepended.
    MethodCall { recv: Box<Expr>, name: NameId, args: Box<Args> },
    /// An explicit cast `x.as(T)`: the one construct that narrows.
    Cast { recv: Box<Expr>, target: NameId },
    /// A variant membership test `x is V`: a boolean, narrowing nothing.
    IsTest { recv: Box<Expr>, variant: NameId },
    /// A curry application `f<a1, ..., ak>`, binding a positional prefix.
    CurryE { path: Vec<NameId>, args: Box<Args> },
}

/// A call site's argument list.
pub enum Args {
    ANil,
    ACons(Box<Expr>, Box<Args>),
}

/// The argument expressions, in order.
pub open spec fn args_seq(a: Args) -> Seq<Expr>
    decreases a,
{
    match a {
        Args::ANil => Seq::empty(),
        Args::ACons(e, rest) => seq![*e] + args_seq(*rest),
    }
}

/// Whether an expression contains a bare call to the named function.
pub open spec fn expr_has_call(e: Expr, fname: NameId) -> bool
    decreases e,
{
    match e {
        Expr::FieldAcc(b, _) => expr_has_call(*b, fname),
        Expr::Add(a, b) => expr_has_call(*a, fname) || expr_has_call(*b, fname),
        Expr::EqOp(a, b) => expr_has_call(*a, fname) || expr_has_call(*b, fname),
        Expr::AndOp(a, b) => expr_has_call(*a, fname) || expr_has_call(*b, fname),
        Expr::CallE { path, args } => (path@.len() == 1 && path@[0] == fname) || args_has_call(
            *args,
            fname,
        ),
        Expr::MethodCall { recv, name, args } => name == fname || expr_has_call(*recv, fname)
            || args_has_call(*args, fname),
        Expr::Cast { recv, target: _ } => expr_has_call(*recv, fname),
        Expr::IsTest { recv, variant: _ } => expr_has_call(*recv, fname),
        Expr::CurryE { path: _, args } => args_has_call(*args, fname),
        _ => false,
    }
}

/// Whether an argument list contains a bare call to the named function.
pub open spec fn args_has_call(a: Args, fname: NameId) -> bool
    decreases a,
{
    match a {
        Args::ANil => false,
        Args::ACons(e, rest) => expr_has_call(*e, fname) || args_has_call(*rest, fname),
    }
}

/// A statement.
pub enum Stmt {
    Skip,
    /// Two statements in sequence.
    Chain(Box<Stmt>, Box<Stmt>),
    /// A local binding declaration with its mutability class.
    Local { name: NameId, class: BindClass, ty: Ty },
    /// Assignment to a named binding.
    Assign { target: NameId, expr: Expr },
    If { cond: Expr, then_s: Box<Stmt>, else_s: Box<Stmt> },
    While { cond: Expr, body: Box<Stmt> },
    /// A call for effect; the path is a qualified name (one or more
    /// segments).
    CallStmt { path: Vec<NameId>, args: Args },
    Ret,
}

/// Whether a statement contains a bare call to the named function; used to
/// tag regions holding recursive call sites.
pub open spec fn stmt_has_call(s: Stmt, fname: NameId) -> bool
    decreases s,
{
    match s {
        Stmt::Chain(a, b) => stmt_has_call(*a, fname) || stmt_has_call(*b, fname),
        Stmt::Assign { target: _, expr } => expr_has_call(expr, fname),
        Stmt::If { cond, then_s, else_s } => expr_has_call(cond, fname) || stmt_has_call(
            *then_s,
            fname,
        ) || stmt_has_call(*else_s, fname),
        Stmt::While { cond, body } => expr_has_call(cond, fname) || stmt_has_call(*body, fname),
        Stmt::CallStmt { path, args } => (path@.len() == 1 && path@[0] == fname) || args_has_call(
            args,
            fname,
        ),
        _ => false,
    }
}

/// Decides `expr_has_call`.
pub fn expr_has_call_exec(e: &Expr, fname: NameId) -> (r: bool)
    ensures
        r == expr_has_call(*e, fname),
    decreases *e,
{
    match e {
        Expr::FieldAcc(b, _) => expr_has_call_exec(b, fname),
        Expr::Add(a, b) => expr_has_call_exec(a, fname) || expr_has_call_exec(b, fname),
        Expr::EqOp(a, b) => expr_has_call_exec(a, fname) || expr_has_call_exec(b, fname),
        Expr::AndOp(a, b) => expr_has_call_exec(a, fname) || expr_has_call_exec(b, fname),
        Expr::CallE { path, args } => (path.len() == 1 && path[0] == fname)
            || args_has_call_exec(args, fname),
        Expr::MethodCall { recv, name, args } => *name == fname || expr_has_call_exec(recv, fname)
            || args_has_call_exec(args, fname),
        Expr::Cast { recv, target: _ } => expr_has_call_exec(recv, fname),
        Expr::IsTest { recv, variant: _ } => expr_has_call_exec(recv, fname),
        Expr::CurryE { path: _, args } => args_has_call_exec(args, fname),
        _ => false,
    }
}

/// Decides `args_has_call`.
pub fn args_has_call_exec(a: &Args, fname: NameId) -> (r: bool)
    ensures
        r == args_has_call(*a, fname),
    decreases *a,
{
    match a {
        Args::ANil => false,
        Args::ACons(e, rest) => expr_has_call_exec(e, fname) || args_has_call_exec(rest, fname),
    }
}

/// Decides `stmt_has_call`.
pub fn has_call(s: &Stmt, fname: NameId) -> (r: bool)
    ensures
        r == stmt_has_call(*s, fname),
    decreases *s,
{
    match s {
        Stmt::Chain(a, b) => has_call(a, fname) || has_call(b, fname),
        Stmt::Assign { target: _, expr } => expr_has_call_exec(expr, fname),
        Stmt::If { cond, then_s, else_s } => expr_has_call_exec(cond, fname) || has_call(
            then_s,
            fname,
        ) || has_call(else_s, fname),
        Stmt::While { cond, body } => expr_has_call_exec(cond, fname) || has_call(body, fname),
        Stmt::CallStmt { path, args } => (path.len() == 1 && path[0] == fname)
            || args_has_call_exec(args, fname),
        _ => false,
    }
}

} // verus!
