//! The expressions a schema may hold: guards, counts, context arguments, assertions,
//! mappings and synchronization sources. They are pure and may fail to evaluate.

use crate::value::{lemma_view_values, Datum, Value, ValueView};
use vstd::prelude::*;

verus! {

/// A binary operator.
#[derive(Clone, Copy, Debug, PartialEq, Eq, Structural)]
pub enum BinOp {
    Add,
    Sub,
    Mul,
    Div,
    Rem,
    Eq,
    Ne,
    Lt,
    Le,
    Gt,
    Ge,
    And,
    Or,
}

/// An expression over the enclosing scope.
#[derive(Debug)]
pub enum Expr {
    /// An unsigned literal.
    Lit(u64),
    /// A boolean literal.
    Flag(bool),
    /// A parameter of the enclosing procedure, by position.
    Ctx(usize),
    /// A scalar field of the enclosing record, by position.
    Field(usize),
    /// The number of elements of a repeated field of the enclosing record.
    Count(usize),
    /// Whether an optional field of the enclosing record is present.
    Present(usize),
    /// The value under an assertion or a mapping.
    Input,
    /// The number of whole bytes left in the buffer that is being decoded.
    Remaining,
    /// Boolean negation.
    Not(Box<Expr>),
    /// A binary operation; both operands are always evaluated.
    Binary(BinOp, Box<Expr>, Box<Expr>),
    /// An expression that is kept as it was written, because it says more than the other
    /// forms can: a procedure carries it along unread, whoever renders the procedure writes
    /// it out again, and evaluating it here yields no value.
    Opaque(String),
}

/// What an expression may refer to.
pub struct ScopeView {
    /// The parameters of the enclosing procedure.
    pub ctx: Seq<Datum>,
    /// The fields of the enclosing record that are bound so far.
    pub fields: Seq<ValueView>,
    /// The value under an assertion or a mapping, if any.
    pub input: Option<Datum>,
    /// Whole bytes left to decode.
    pub remaining: u64,
}

/// The result of a binary operator on two scalars; `None` where it is not defined:
/// operands of the wrong kind, a result outside 64 bits, or a zero divisor.
pub open spec fn spec_apply(op: BinOp, x: Datum, y: Datum) -> Option<Datum> {
    match (x, y) {
        (Datum::UInt(a), Datum::UInt(b)) => match op {
            BinOp::Add => if a + b <= u64::MAX {
                Some(Datum::UInt((a + b) as u64))
            } else {
                None
            },
            BinOp::Sub => if a >= b {
                Some(Datum::UInt((a - b) as u64))
            } else {
                None
            },
            BinOp::Mul => if a * b <= u64::MAX {
                Some(Datum::UInt((a * b) as u64))
            } else {
                None
            },
            BinOp::Div => if b != 0 {
                Some(Datum::UInt(a / b))
            } else {
                None
            },
            BinOp::Rem => if b != 0 {
                Some(Datum::UInt(a % b))
            } else {
                None
            },
            BinOp::Eq => Some(Datum::Bool(a == b)),
            BinOp::Ne => Some(Datum::Bool(a != b)),
            BinOp::Lt => Some(Datum::Bool(a < b)),
            BinOp::Le => Some(Datum::Bool(a <= b)),
            BinOp::Gt => Some(Datum::Bool(a > b)),
            BinOp::Ge => Some(Datum::Bool(a >= b)),
            BinOp::And => None,
            BinOp::Or => None,
        },
        (Datum::Bool(a), Datum::Bool(b)) => match op {
            BinOp::Eq => Some(Datum::Bool(a == b)),
            BinOp::Ne => Some(Datum::Bool(a != b)),
            BinOp::And => Some(Datum::Bool(a && b)),
            BinOp::Or => Some(Datum::Bool(a || b)),
            _ => None,
        },
        _ => None,
    }
}

/// The value of an expression in a scope; `None` where it cannot be evaluated.
pub open spec fn spec_eval(e: Expr, s: ScopeView) -> Option<Datum>
    decreases e,
{
    match e {
        Expr::Lit(n) => Some(Datum::UInt(n)),
        Expr::Flag(b) => Some(Datum::Bool(b)),
        Expr::Ctx(i) => if i < s.ctx.len() {
            Some(s.ctx[i as int])
        } else {
            None
        },
        Expr::Field(i) => if i < s.fields.len() {
            match s.fields[i as int] {
                ValueView::Scalar(d) => Some(d),
                _ => None,
            }
        } else {
            None
        },
        Expr::Count(i) => if i < s.fields.len() {
            match s.fields[i as int] {
                ValueView::List(items) => if items.len() <= u64::MAX {
                    Some(Datum::UInt(items.len() as u64))
                } else {
                    None
                },
                _ => None,
            }
        } else {
            None
        },
        Expr::Present(i) => if i < s.fields.len() {
            match s.fields[i as int] {
                ValueView::Optional(inner) => Some(Datum::Bool(inner is Some)),
                _ => None,
            }
        } else {
            None
        },
        Expr::Input => s.input,
        Expr::Remaining => Some(Datum::UInt(s.remaining)),
        Expr::Opaque(_) => None,
        Expr::Not(a) => match spec_eval(*a, s) {
            Some(Datum::Bool(b)) => Some(Datum::Bool(!b)),
            _ => None,
        },
        Expr::Binary(op, a, b) => match (spec_eval(*a, s), spec_eval(*b, s)) {
            (Some(x), Some(y)) => spec_apply(op, x, y),
            _ => None,
        },
    }
}

/// Applies a binary operator to two scalars.
pub fn apply(op: BinOp, x: Datum, y: Datum) -> (r: Option<Datum>)
    ensures
        r == spec_apply(op, x, y),
{
    match (x, y) {
        (Datum::UInt(a), Datum::UInt(b)) => match op {
            BinOp::Add => match a.checked_add(b) {
                Some(c) => Some(Datum::UInt(c)),
                None => None,
            },
            BinOp::Sub => if a >= b {
                Some(Datum::UInt(a - b))
            } else {
                None
            },
            BinOp::Mul => match a.checked_mul(b) {
                Some(c) => Some(Datum::UInt(c)),
                None => None,
            },
            BinOp::Div => if b != 0 {
                Some(Datum::UInt(a / b))
            } else {
                None
            },
            BinOp::Rem => if b != 0 {
                Some(Datum::UInt(a % b))
            } else {
                None
            },
            BinOp::Eq => Some(Datum::Bool(a == b)),
            BinOp::Ne => Some(Datum::Bool(a != b)),
            BinOp::Lt => Some(Datum::Bool(a < b)),
            BinOp::Le => Some(Datum::Bool(a <= b)),
            BinOp::Gt => Some(Datum::Bool(a > b)),
            BinOp::Ge => Some(Datum::Bool(a >= b)),
            BinOp::And => None,
            BinOp::Or => None,
        },
        (Datum::Bool(a), Datum::Bool(b)) => match op {
            BinOp::Eq => Some(Datum::Bool(a == b)),
            BinOp::Ne => Some(Datum::Bool(a != b)),
            BinOp::And => Some(Datum::Bool(a && b)),
            BinOp::Or => Some(Datum::Bool(a || b)),
            _ => None,
        },
        _ => None,
    }
}

/// The view of a scope given by its parts.
pub open spec fn scope_of(
    ctx: Seq<Datum>,
    fields: Seq<ValueView>,
    input: Option<Datum>,
    remaining: u64,
) -> ScopeView {
    ScopeView { ctx, fields, input, remaining }
}

impl Expr {
    /// Evaluates the expression. `ctx` holds the parameters of the enclosing procedure,
    /// `fields` the fields bound so far, `input` the value under an assertion or a mapping
    /// and `remaining` the whole bytes left to decode.
    pub fn eval(
        &self,
        ctx: &Vec<Datum>,
        fields: &Vec<Value>,
        input: Option<Datum>,
        remaining: u64,
    ) -> (r: Option<Datum>)
        ensures
            r == spec_eval(
                *self,
                scope_of(ctx@, crate::value::view_values(fields@), input, remaining),
            ),
        decreases self,
    {
        proof {
            lemma_view_values(fields@);
        }
        match self {
            Expr::Lit(n) => Some(Datum::UInt(*n)),
            Expr::Flag(b) => Some(Datum::Bool(*b)),
            Expr::Ctx(i) => if *i < ctx.len() {
                Some(ctx[*i])
            } else {
                None
            },
            Expr::Field(i) => if *i < fields.len() {
                match &fields[*i] {
                    Value::Scalar(d) => Some(*d),
                    _ => None,
                }
            } else {
                None
            },
            Expr::Count(i) => if *i < fields.len() {
                match &fields[*i] {
                    Value::List(items) => {
                        proof {
                            lemma_view_values(items@);
                        }
                        Some(Datum::UInt(items.len() as u64))
                    },
                    _ => None,
                }
            } else {
                None
            },
            Expr::Present(i) => if *i < fields.len() {
                match &fields[*i] {
                    Value::Optional(inner) => Some(Datum::Bool(inner.is_some())),
                    _ => None,
                }
            } else {
                None
            },
            Expr::Input => input,
            Expr::Remaining => Some(Datum::UInt(remaining)),
            Expr::Opaque(_) => None,
            Expr::Not(a) => match a.eval(ctx, fields, input, remaining) {
                Some(Datum::Bool(b)) => Some(Datum::Bool(!b)),
                _ => None,
            },
            Expr::Binary(op, a, b) => {
                let x = a.eval(ctx, fields, input, remaining);
                let y = b.eval(ctx, fields, input, remaining);
                match (x, y) {
                    (Some(x), Some(y)) => apply(*op, x, y),
                    _ => None,
                }
            },
        }
    }

    /// A copy of this expression.
    pub fn duplicate(&self) -> (r: Expr)
        ensures
            r == *self,
        decreases self,
    {
        match self {
            Expr::Lit(n) => Expr::Lit(*n),
            Expr::Flag(b) => Expr::Flag(*b),
            Expr::Ctx(i) => Expr::Ctx(*i),
            Expr::Field(i) => Expr::Field(*i),
            Expr::Count(i) => Expr::Count(*i),
            Expr::Present(i) => Expr::Present(*i),
            Expr::Input => Expr::Input,
            Expr::Remaining => Expr::Remaining,
            Expr::Opaque(written) => Expr::Opaque(written.clone()),
            Expr::Not(a) => Expr::Not(Box::new(a.duplicate())),
            Expr::Binary(op, a, b) => Expr::Binary(
                *op,
                Box::new(a.duplicate()),
                Box::new(b.duplicate()),
            ),
        }
    }
}

/// Copies of `exprs`, in order.
pub fn duplicate_exprs(exprs: &Vec<Expr>) -> (r: Vec<Expr>)
    ensures
        r@ == exprs@,
{
    let mut out: Vec<Expr> = Vec::new();
    let mut i: usize = 0;
    while i < exprs.len()
        invariant
            i <= exprs.len(),
            out@ == exprs@.take(i as int),
        decreases exprs.len() - i,
    {
        out.push(exprs[i].duplicate());
        assert(out@ =~= exprs@.take(i + 1));
        i = i + 1;
    }
    assert(exprs@.take(i as int) =~= exprs@);
    out
}

/// A copy of an optional expression.
pub fn duplicate_opt(e: &Option<Expr>) -> (r: Option<Expr>)
    ensures
        r == *e,
{
    match e {
        Some(x) => Some(x.duplicate()),
        None => None,
    }
}

} // verus!
