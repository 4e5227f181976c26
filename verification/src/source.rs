//! Expressions as a declaration writes them, and their resolution against the names that
//! are in scope.

use crate::expr::{BinOp, Expr};
use crate::shape::{position_of, spec_position_of};
use vstd::prelude::*;

verus! {

/// An expression as it is written, as far as the compiler looks at it.
#[derive(Debug)]
pub enum ExprShape {
    /// An unsigned integer literal.
    Int(u64),
    /// A boolean literal.
    Bool(bool),
    /// A bare name.
    Name(String),
    /// A field of the value itself: `self.<name>`.
    SelfField(String),
    /// A method called without arguments.
    MethodCall { receiver: Box<ExprShape>, method: String },
    /// Boolean negation.
    Not(Box<ExprShape>),
    /// A binary operation.
    Binary(BinOp, Box<ExprShape>, Box<ExprShape>),
    /// Something that stands for what it wraps: parentheses, a reference, a dereference, a
    /// cast.
    Transparent(Box<ExprShape>),
    /// A closure of one parameter.
    Closure { param: String, body: Box<ExprShape> },
    /// Anything else.
    Other,
}

/// The names that an expression may use.
pub struct Scope {
    /// The parameters of the enclosing procedure, in order.
    pub params: Vec<String>,
    /// The fields of the enclosing record, in order.
    pub fields: Vec<String>,
}

/// What a bare name stands for: the input if it is the closure's parameter, else a field,
/// else a parameter.
pub open spec fn spec_resolve_name(
    name: Seq<char>,
    params: Seq<String>,
    fields: Seq<String>,
    input: Option<Seq<char>>,
) -> Option<Expr> {
    if input == Some(name) {
        Some(Expr::Input)
    } else {
        match spec_position_of(fields, name, 0) {
            Some(i) => Some(Expr::Field(i)),
            None => match spec_position_of(params, name, 0) {
                Some(i) => Some(Expr::Ctx(i)),
                None => None,
            },
        }
    }
}

/// What a method call without arguments stands for: `len` and `is_some` on a field, and
/// `remaining_bytes` on the buffer `buf`.
pub open spec fn spec_resolve_method(receiver: ExprShape, on: Option<Expr>, method: Seq<char>) -> Option<
    Expr,
> {
    if method == "remaining_bytes"@ {
        match receiver {
            ExprShape::Name(name) => if name@ == "buf"@ {
                Some(Expr::Remaining)
            } else {
                None
            },
            _ => None,
        }
    } else {
        match on {
            Some(Expr::Field(i)) => if method == "len"@ {
                Some(Expr::Count(i))
            } else if method == "is_some"@ {
                Some(Expr::Present(i))
            } else {
                None
            },
            _ => None,
        }
    }
}

/// The expression that a written expression stands for, if it stands for one.
pub open spec fn spec_resolve_expr(
    shape: ExprShape,
    params: Seq<String>,
    fields: Seq<String>,
    input: Option<Seq<char>>,
) -> Option<Expr>
    decreases shape,
{
    match shape {
        ExprShape::Int(n) => Some(Expr::Lit(n)),
        ExprShape::Bool(b) => Some(Expr::Flag(b)),
        ExprShape::Name(name) => spec_resolve_name(name@, params, fields, input),
        ExprShape::SelfField(name) => match spec_position_of(fields, name@, 0) {
            Some(i) => Some(Expr::Field(i)),
            None => None,
        },
        ExprShape::MethodCall { receiver, method } => spec_resolve_method(
            *receiver,
            spec_resolve_expr(*receiver, params, fields, input),
            method@,
        ),
        ExprShape::Not(a) => match spec_resolve_expr(*a, params, fields, input) {
            Some(x) => Some(Expr::Not(Box::new(x))),
            None => None,
        },
        ExprShape::Binary(op, a, b) => match (
            spec_resolve_expr(*a, params, fields, input),
            spec_resolve_expr(*b, params, fields, input),
        ) {
            (Some(x), Some(y)) => Some(Expr::Binary(op, Box::new(x), Box::new(y))),
            _ => None,
        },
        ExprShape::Transparent(a) => spec_resolve_expr(*a, params, fields, input),
        ExprShape::Closure { param, body } => spec_resolve_expr(
            *body,
            params,
            fields,
            Some(param@),
        ),
        ExprShape::Other => None,
    }
}

fn resolve_name(name: &String, scope: &Scope, input: Option<&String>) -> (r: Option<Expr>)
    ensures
        r == spec_resolve_name(
            name@,
            scope.params@,
            scope.fields@,
            match input {
                Some(i) => Some(i@),
                None => None,
            },
        ),
{
    let is_input = match input {
        Some(i) => *i == *name,
        None => false,
    };
    if is_input {
        Some(Expr::Input)
    } else {
        match position_of(&scope.fields, name) {
            Some(i) => Some(Expr::Field(i)),
            None => match position_of(&scope.params, name) {
                Some(i) => Some(Expr::Ctx(i)),
                None => None,
            },
        }
    }
}

fn resolve_method(receiver: &ExprShape, on: Option<Expr>, method: &String) -> (r: Option<Expr>)
    ensures
        r == spec_resolve_method(*receiver, on, method@),
{
    if *method == String::from_str("remaining_bytes") {
        match receiver {
            ExprShape::Name(name) => if *name == String::from_str("buf") {
                Some(Expr::Remaining)
            } else {
                None
            },
            _ => None,
        }
    } else {
        match on {
            Some(Expr::Field(i)) => if *method == String::from_str("len") {
                Some(Expr::Count(i))
            } else if *method == String::from_str("is_some") {
                Some(Expr::Present(i))
            } else {
                None
            },
            _ => None,
        }
    }
}

/// Resolves a written expression against the names in scope. `input` is the name of the
/// value under an assertion or a mapping, if the expression is not itself a closure that
/// names it.
pub fn resolve_expr(shape: &ExprShape, scope: &Scope, input: Option<&String>) -> (r: Option<Expr>)
    ensures
        r == spec_resolve_expr(
            *shape,
            scope.params@,
            scope.fields@,
            match input {
                Some(i) => Some(i@),
                None => None,
            },
        ),
    decreases shape,
{
    match shape {
        ExprShape::Int(n) => Some(Expr::Lit(*n)),
        ExprShape::Bool(b) => Some(Expr::Flag(*b)),
        ExprShape::Name(name) => resolve_name(name, scope, input),
        ExprShape::SelfField(name) => match position_of(&scope.fields, name) {
            Some(i) => Some(Expr::Field(i)),
            None => None,
        },
        ExprShape::MethodCall { receiver, method } => {
            let on = resolve_expr(receiver, scope, input);
            resolve_method(receiver, on, method)
        },
        ExprShape::Not(a) => match resolve_expr(a, scope, input) {
            Some(x) => Some(Expr::Not(Box::new(x))),
            None => None,
        },
        ExprShape::Binary(op, a, b) => {
            let x = resolve_expr(a, scope, input);
            let y = resolve_expr(b, scope, input);
            match (x, y) {
                (Some(x), Some(y)) => Some(Expr::Binary(*op, Box::new(x), Box::new(y))),
                _ => None,
            }
        },
        ExprShape::Transparent(a) => resolve_expr(a, scope, input),
        ExprShape::Closure { param, body } => resolve_expr(body, scope, Some(param)),
        ExprShape::Other => None,
    }
}

/// Compiles a written expression: no expression is refused. One that cannot be resolved
/// is kept as `written`, its text, and raises only where it is evaluated.
pub fn compile_expr(shape: &ExprShape, written: &String, scope: &Scope, input: Option<&String>) -> (e:
    Expr)
    ensures
        e == match spec_resolve_expr(
            *shape,
            scope.params@,
            scope.fields@,
            match input {
                Some(i) => Some(i@),
                None => None,
            },
        ) {
            Some(resolved) => resolved,
            None => Expr::Opaque(*written),
        },
{
    match resolve_expr(shape, scope, input) {
        Some(resolved) => resolved,
        None => Expr::Opaque(written.clone()),
    }
}

} // verus!
