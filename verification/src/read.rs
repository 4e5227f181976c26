//! The evaluator for decode procedures.

use crate::bits::ByteOrder;
use crate::decode::{
    after_outcome, assert_outcome, datum_of, eval_args, fixed_outcome, mapped_outcome, pad_read,
    padding_failure, read_arms, read_body, read_count, read_op, read_procedure, read_scalar,
    read_steps, read_while, remaining_of, ReadOutcome,
};
use crate::error::{ParselyError, ParselyErrorView, ParselyResult};
use crate::expr::{scope_of, Expr};
use crate::faults::{assertion_failed, fixed_mismatch, raise, Fault};
use crate::member::Member;
use crate::plan::{
    label_text, Args, Assertion, Codec, Label, ReadArmBody, ReadArms, ReadBody, ReadOp, ReadSteps,
    TagSource, TypeRef,
};
use crate::text::join3;
use crate::value::{lemma_view_values_push, view_values, Datum, Value, ValueView};
use crate::wire::{intact, read_primitive, remaining_bits, remaining_bytes, unread_bits, Primitive};
use bits_io::buf::bits::Bits;
use vstd::prelude::*;

verus! {

/// Whether an executable result is the given mathematical result.
pub open spec fn matches_value(
    r: ParselyResult<Value>,
    s: Result<ValueView, ParselyErrorView>,
) -> bool {
    match (r, s) {
        (Ok(v), Ok(w)) => v@ == w,
        (Err(e), Err(f)) => e@ == f,
        _ => false,
    }
}

/// Whether an executable result is the given mathematical result.
pub open spec fn matches_fields(
    r: ParselyResult<Vec<Value>>,
    s: Result<Seq<ValueView>, ParselyErrorView>,
) -> bool {
    match (r, s) {
        (Ok(v), Ok(w)) => view_values(v@) == w,
        (Err(e), Err(f)) => e@ == f,
        _ => false,
    }
}

/// Whether an executable result is the given mathematical result.
pub open spec fn matches_data(
    r: ParselyResult<Vec<Datum>>,
    s: Result<Seq<Datum>, ParselyErrorView>,
) -> bool {
    match (r, s) {
        (Ok(v), Ok(w)) => v@ == w,
        (Err(e), Err(f)) => e@ == f,
        _ => false,
    }
}

/// The scalar that a value is, if it is one.
pub fn scalar_of(v: &Value) -> (d: Option<Datum>)
    ensures
        d == datum_of(v@),
{
    match v {
        Value::Scalar(d) => Some(*d),
        _ => None,
    }
}

/// Evaluates context arguments in order.
pub fn run_args(
    args: &Args,
    ctx: &Vec<Datum>,
    fields: &Vec<Value>,
    input: Option<Datum>,
    remaining: u64,
) -> (r: ParselyResult<Vec<Datum>>)
    ensures
        matches_data(
            r,
            eval_args(*args, scope_of(ctx@, view_values(fields@), input, remaining)),
        ),
    decreases args,
{
    match args {
        Args::Nil => Ok(Vec::new()),
        Args::Cons { expr, label, rest } => match expr.eval(ctx, fields, input, remaining) {
            None => Err(raise(Fault::Evaluation).with_context(label.render())),
            Some(d) => match run_args(rest, ctx, fields, input, remaining) {
                Ok(tail) => {
                    let mut out: Vec<Datum> = Vec::new();
                    out.push(d);
                    let mut tail = tail;
                    let ghost tail_view = tail@;
                    out.append(&mut tail);
                    assert(out@ =~= seq![d] + tail_view);
                    Ok(out)
                },
                Err(e) => Err(e),
            },
        },
    }
}

/// Decodes one primitive.
pub fn run_read_scalar(buf: &mut Bits, p: Primitive, order: ByteOrder) -> (r: ParselyResult<Value>)
    requires
        intact(*old(buf)),
    ensures
        intact(*final(buf)),
        matches_value(r, read_scalar(p, order, unread_bits(*old(buf))).result),
        unread_bits(*final(buf)) == read_scalar(p, order, unread_bits(*old(buf))).rest,
{
    if !p.is_supported() {
        Err(raise(Fault::UnsupportedWidth))
    } else {
        match read_primitive(buf, p, order) {
            Some(d) => Ok(Value::Scalar(d)),
            None => Err(raise(Fault::EndOfData)),
        }
    }
}

/// Consumes padding after a read that began with `before` whole bytes left.
#[verifier::loop_isolation(false)]
pub fn run_pad_read(buf: &mut Bits, alignment: u64, before: usize) -> (r: ParselyResult<()>)
    requires
        intact(*old(buf)),
    ensures
        intact(*final(buf)),
        unread_bits(*final(buf)) == pad_read(
            alignment,
            before as nat,
            unread_bits(*old(buf)),
        ).rest,
        match r {
            Ok(_) => !pad_read(alignment, before as nat, unread_bits(*old(buf))).failed,
            Err(e) => pad_read(alignment, before as nat, unread_bits(*old(buf))).failed && e@
                == padding_failure(),
        },
{
    let ghost start = unread_bits(*buf);
    loop
        invariant
            intact(*buf),
            pad_read(alignment, before as nat, unread_bits(*buf)) == pad_read(
                alignment,
                before as nat,
                start,
            ),
        decreases unread_bits(*buf).len(),
    {
        let now = remaining_bytes(buf);
        let consumed: usize = if before >= now {
            before - now
        } else {
            0
        };
        if alignment == 0 || (consumed as u64) % alignment == 0 {
            return Ok(());
        }
        let ghost bits = unread_bits(*buf);
        match read_primitive(buf, Primitive::UInt(8), ByteOrder::BigEndian) {
            Some(_) => {
                assert(unread_bits(*buf) == bits.skip(8));
            },
            None => {
                return Err(raise(Fault::EndOfData).with_context(Label::Padding.render()));
            },
        }
    }
}

/// Attaches the text of `label` to a failure.
pub fn labelled(r: ParselyResult<Value>, label: &Label) -> (out: ParselyResult<Value>)
    ensures
        match r {
            Ok(v) => out == Ok::<Value, ParselyError>(v),
            Err(e) => out matches Err(f) && f@ == e@.with_context(label_text(*label)),
        },
{
    match r {
        Ok(v) => Ok(v),
        Err(e) => Err(e.with_context(label.render())),
    }
}

/// Pads a successful read to `alignment`.
pub fn run_read_aligned(
    buf: &mut Bits,
    alignment: Option<u64>,
    before: usize,
    r: ParselyResult<Value>,
    Ghost(o): Ghost<ReadOutcome>,
) -> (out: ParselyResult<Value>)
    requires
        intact(*old(buf)),
        matches_value(r, o.result),
        unread_bits(*old(buf)) == o.rest,
    ensures
        intact(*final(buf)),
        matches_value(out, crate::decode::read_aligned(alignment, before as nat, o).result),
        unread_bits(*final(buf)) == crate::decode::read_aligned(alignment, before as nat, o).rest,
{
    match (alignment, r) {
        (Some(a), Ok(v)) => match run_pad_read(buf, a, before) {
            Ok(_) => Ok(v),
            Err(e) => Err(e),
        },
        (_, r) => r,
    }
}

/// Reads a mapped field: decodes the raw primitive, then transforms it.
pub fn run_mapped(
    raw: Option<Primitive>,
    transform: &Expr,
    field: &Member,
    order: ByteOrder,
    ctx: &Vec<Datum>,
    fields: &Vec<Value>,
    buf: &mut Bits,
) -> (r: ParselyResult<Value>)
    requires
        intact(*old(buf)),
    ensures
        intact(*final(buf)),
        matches_value(
            r,
            mapped_outcome(
                raw,
                *transform,
                field@,
                order,
                ctx@,
                view_values(fields@),
                unread_bits(*old(buf)),
            ).result,
        ),
        unread_bits(*final(buf)) == mapped_outcome(
            raw,
            *transform,
            field@,
            order,
            ctx@,
            view_values(fields@),
            unread_bits(*old(buf)),
        ).rest,
{
    let decoded = match raw {
        Some(p) => run_read_scalar(buf, p, order),
        None => Err(raise(Fault::Evaluation)),
    };
    match decoded {
        Ok(v) => {
            let now = remaining_bytes(buf) as u64;
            match transform.eval(ctx, fields, scalar_of(&v), now) {
                Some(d) => Ok(Value::Scalar(d)),
                None => Err(
                    raise(Fault::Evaluation).with_context(
                        join3(
                            "Mapping raw value for field '",
                            field.as_friendly_string().as_str(),
                            "'",
                        ),
                    ),
                ),
            }
        },
        Err(e) => Err(
            e.with_context(
                join3("Reading raw value for field '", field.as_friendly_string().as_str(), "'"),
            ),
        ),
    }
}

/// Holds a value that was just read against an assertion.
pub fn check_assertion(
    r: ParselyResult<Value>,
    assertion: &Assertion,
    field: &Member,
    ctx: &Vec<Datum>,
    fields: &Vec<Value>,
    remaining: u64,
    Ghost(o): Ghost<ReadOutcome>,
) -> (out: ParselyResult<Value>)
    requires
        matches_value(r, o.result),
        remaining == remaining_of(o.rest),
    ensures
        matches_value(
            out,
            assert_outcome(
                o,
                assertion.predicate,
                assertion.source@,
                field@,
                ctx@,
                view_values(fields@),
            ).result,
        ),
        assert_outcome(
            o,
            assertion.predicate,
            assertion.source@,
            field@,
            ctx@,
            view_values(fields@),
        ).rest == o.rest,
{
    match r {
        Ok(v) => match assertion.predicate.eval(ctx, fields, scalar_of(&v), remaining) {
            Some(Datum::Bool(true)) => Ok(v),
            Some(Datum::Bool(false)) => Err(assertion_failed(field, &v, assertion.source.as_str())),
            _ => Err(raise(Fault::Evaluation)),
        },
        Err(e) => Err(e),
    }
}

/// Holds a value that was just read against a fixed literal.
pub fn check_fixed(r: ParselyResult<Value>, expected: Datum, Ghost(o): Ghost<ReadOutcome>) -> (out:
    ParselyResult<Value>)
    requires
        matches_value(r, o.result),
    ensures
        matches_value(out, fixed_outcome(o, expected).result),
        fixed_outcome(o, expected).rest == o.rest,
{
    match r {
        Ok(v) => {
            let same = match scalar_of(&v) {
                Some(d) => d == expected,
                None => false,
            };
            if same {
                Ok(v)
            } else {
                Err(fixed_mismatch(expected, &v))
            }
        },
        Err(e) => Err(e),
    }
}

/// Evaluates a hook with a value that was just read as its input.
pub fn run_hook(
    r: ParselyResult<Value>,
    hook: &Expr,
    ctx: &Vec<Datum>,
    fields: &Vec<Value>,
    remaining: u64,
    Ghost(o): Ghost<ReadOutcome>,
) -> (out: ParselyResult<Value>)
    requires
        matches_value(r, o.result),
        remaining == remaining_of(o.rest),
    ensures
        matches_value(out, after_outcome(o, *hook, ctx@, view_values(fields@)).result),
        after_outcome(o, *hook, ctx@, view_values(fields@)).rest == o.rest,
{
    match r {
        Ok(v) => match hook.eval(ctx, fields, scalar_of(&v), remaining) {
            Some(_) => Ok(v),
            None => Err(raise(Fault::Evaluation)),
        },
        Err(e) => Err(e),
    }
}

/// Runs one read operation. `me` is the position in `prog` of the procedure that the
/// operation belongs to, `ctx` holds that procedure's parameters and `fields` the fields
/// bound so far.
#[verifier::rlimit(60)]
pub fn run_read_op(
    prog: &Vec<Codec>,
    me: usize,
    op: &ReadOp,
    order: ByteOrder,
    ctx: &Vec<Datum>,
    fields: &Vec<Value>,
    buf: &mut Bits,
) -> (r: ParselyResult<Value>)
    requires
        intact(*old(buf)),
    ensures
        intact(*final(buf)),
        matches_value(
            r,
            read_op(
                prog@,
                me as nat,
                *op,
                order,
                ctx@,
                view_values(fields@),
                unread_bits(*old(buf)),
            ).result,
        ),
        unread_bits(*final(buf)) == read_op(
            prog@,
            me as nat,
            *op,
            order,
            ctx@,
            view_values(fields@),
            unread_bits(*old(buf)),
        ).rest,
    decreases me, 1nat, op, 0nat,
{
    let remaining = remaining_bytes(buf) as u64;
    let ghost bits = unread_bits(*buf);
    match op {
        ReadOp::Assign(expr) => match expr.eval(ctx, fields, None, remaining) {
            Some(d) => Ok(Value::Scalar(d)),
            None => Err(raise(Fault::Evaluation)),
        },
        ReadOp::Mapped { raw, transform, field } => run_mapped(
            *raw,
            transform,
            field,
            order,
            ctx,
            fields,
            buf,
        ),
        ReadOp::Decode { ty, args } => match run_args(args, ctx, fields, None, remaining) {
            Err(e) => Err(e),
            Ok(actuals) => match ty {
                TypeRef::Primitive(p) => run_read_scalar(buf, *p, order),
                TypeRef::Named(callee) => if *callee < me && *callee < prog.len() {
                    run_read_procedure(prog, *callee, order, &actuals, buf)
                } else {
                    Err(raise(Fault::NoProcedure))
                },
            },
        },
        ReadOp::Count { count, item } => match count.eval(ctx, fields, None, remaining) {
            Some(Datum::UInt(n)) => run_read_count(prog, me, item, order, ctx, fields, n, buf),
            _ => Err(raise(Fault::Evaluation)),
        },
        ReadOp::While { pred, item } => run_read_while(
            prog,
            me,
            item,
            pred,
            order,
            ctx,
            fields,
            buf,
        ),
        ReadOp::Assert { inner, assertion, field } => {
            let ghost o = read_op(prog@, me as nat, **inner, order, ctx@, view_values(fields@), bits);
            let r = run_read_op(prog, me, inner, order, ctx, fields, buf);
            let now = remaining_bytes(buf) as u64;
            check_assertion(r, assertion, field, ctx, fields, now, Ghost(o))
        },
        ReadOp::Fixed { inner, expected } => {
            let ghost o = read_op(prog@, me as nat, **inner, order, ctx@, view_values(fields@), bits);
            let r = run_read_op(prog, me, inner, order, ctx, fields, buf);
            check_fixed(r, *expected, Ghost(o))
        },
        ReadOp::Context { label, inner } => {
            let r = run_read_op(prog, me, inner, order, ctx, fields, buf);
            labelled(r, label)
        },
        ReadOp::When { guard, inner } => match guard.eval(ctx, fields, None, remaining) {
            Some(Datum::Bool(true)) => {
                match run_read_op(prog, me, inner, order, ctx, fields, buf) {
                    Ok(v) => Ok(Value::Optional(Some(Box::new(v)))),
                    Err(e) => Err(e),
                }
            },
            Some(Datum::Bool(false)) => Ok(Value::Optional(None)),
            _ => Err(raise(Fault::Evaluation)),
        },
        ReadOp::Align { alignment, inner } => {
            let before = remaining_bytes(buf);
            let ghost o = read_op(prog@, me as nat, **inner, order, ctx@, view_values(fields@), bits);
            let r = run_read_op(prog, me, inner, order, ctx, fields, buf);
            run_read_aligned(buf, Some(*alignment), before, r, Ghost(o))
        },
        ReadOp::After { inner, hook } => {
            let ghost o = read_op(prog@, me as nat, **inner, order, ctx@, view_values(fields@), bits);
            let r = run_read_op(prog, me, inner, order, ctx, fields, buf);
            let now = remaining_bytes(buf) as u64;
            run_hook(r, hook, ctx, fields, now, Ghost(o))
        },
    }
}

/// Runs a counted loop: `n` rounds of `item`, collected in order.
#[verifier::loop_isolation(false)]
pub fn run_read_count(
    prog: &Vec<Codec>,
    me: usize,
    item: &ReadOp,
    order: ByteOrder,
    ctx: &Vec<Datum>,
    fields: &Vec<Value>,
    n: u64,
    buf: &mut Bits,
) -> (r: ParselyResult<Value>)
    requires
        intact(*old(buf)),
    ensures
        intact(*final(buf)),
        matches_value(
            r,
            read_count(
                prog@,
                me as nat,
                *item,
                order,
                ctx@,
                view_values(fields@),
                n,
                0,
                unread_bits(*old(buf)),
                Seq::empty(),
            ).result,
        ),
        unread_bits(*final(buf)) == read_count(
            prog@,
            me as nat,
            *item,
            order,
            ctx@,
            view_values(fields@),
            n,
            0,
            unread_bits(*old(buf)),
            Seq::empty(),
        ).rest,
    decreases me, 1nat, item, 1nat,
{
    let mut items: Vec<Value> = Vec::new();
    let mut idx: u64 = 0;
    let ghost goal = read_count(
        prog@,
        me as nat,
        *item,
        order,
        ctx@,
        view_values(fields@),
        n,
        0,
        unread_bits(*buf),
        Seq::empty(),
    );
    assert(view_values(items@) =~= Seq::empty());
    while idx < n
        invariant
            idx <= n,
            intact(*buf),
            read_count(
                prog@,
                me as nat,
                *item,
                order,
                ctx@,
                view_values(fields@),
                n,
                idx,
                unread_bits(*buf),
                view_values(items@),
            ) == goal,
        decreases n - idx,
    {
        match run_read_op(prog, me, item, order, ctx, fields, buf) {
            Ok(v) => {
                proof {
                    lemma_view_values_push(items@, v);
                }
                items.push(v);
            },
            Err(e) => {
                return Err(e.with_context(Label::Index(idx).render()));
            },
        }
        idx = idx + 1;
    }
    Ok(Value::List(items))
}

/// Runs a predicate loop: rounds of `item` while `pred` holds, collected in order.
#[verifier::loop_isolation(false)]
pub fn run_read_while(
    prog: &Vec<Codec>,
    me: usize,
    item: &ReadOp,
    pred: &Expr,
    order: ByteOrder,
    ctx: &Vec<Datum>,
    fields: &Vec<Value>,
    buf: &mut Bits,
) -> (r: ParselyResult<Value>)
    requires
        intact(*old(buf)),
    ensures
        intact(*final(buf)),
        matches_value(
            r,
            read_while(
                prog@,
                me as nat,
                *item,
                *pred,
                order,
                ctx@,
                view_values(fields@),
                0,
                unread_bits(*old(buf)),
                Seq::empty(),
            ).result,
        ),
        unread_bits(*final(buf)) == read_while(
            prog@,
            me as nat,
            *item,
            *pred,
            order,
            ctx@,
            view_values(fields@),
            0,
            unread_bits(*old(buf)),
            Seq::empty(),
        ).rest,
    decreases me, 1nat, item, 1nat,
{
    let mut items: Vec<Value> = Vec::new();
    let mut idx: u64 = 0;
    let ghost goal = read_while(
        prog@,
        me as nat,
        *item,
        *pred,
        order,
        ctx@,
        view_values(fields@),
        0,
        unread_bits(*buf),
        Seq::empty(),
    );
    assert(view_values(items@) =~= Seq::empty());
    loop
        invariant
            intact(*buf),
            read_while(
                prog@,
                me as nat,
                *item,
                *pred,
                order,
                ctx@,
                view_values(fields@),
                idx,
                unread_bits(*buf),
                view_values(items@),
            ) == goal,
        decreases unread_bits(*buf).len(),
    {
        let remaining = remaining_bytes(buf) as u64;
        match pred.eval(ctx, fields, None, remaining) {
            Some(Datum::Bool(false)) => {
                return Ok(Value::List(items));
            },
            Some(Datum::Bool(true)) => {
                let before = remaining_bits(buf);
                match run_read_op(prog, me, item, order, ctx, fields, buf) {
                    Ok(v) => {
                        let after = remaining_bits(buf);
                        if after < before && idx < u64::MAX {
                            proof {
                                lemma_view_values_push(items@, v);
                            }
                            items.push(v);
                            idx = idx + 1;
                        } else {
                            return Err(
                                raise(Fault::NoProgress).with_context(Label::Read(idx).render()),
                            );
                        }
                    },
                    Err(e) => {
                        return Err(e.with_context(Label::Read(idx).render()));
                    },
                }
            },
            _ => {
                return Err(raise(Fault::Evaluation));
            },
        }
    }
}

/// Runs the field reads of a record or variant, in order.
#[verifier::loop_isolation(false)]
pub fn run_read_steps(
    prog: &Vec<Codec>,
    me: usize,
    steps: &ReadSteps,
    order: ByteOrder,
    ctx: &Vec<Datum>,
    buf: &mut Bits,
) -> (r: ParselyResult<Vec<Value>>)
    requires
        intact(*old(buf)),
    ensures
        intact(*final(buf)),
        matches_fields(
            r,
            read_steps(
                prog@,
                me as nat,
                *steps,
                order,
                ctx@,
                Seq::empty(),
                unread_bits(*old(buf)),
            ).result,
        ),
        unread_bits(*final(buf)) == read_steps(
            prog@,
            me as nat,
            *steps,
            order,
            ctx@,
            Seq::empty(),
            unread_bits(*old(buf)),
        ).rest,
    decreases me, 2nat, steps, 1nat,
{
    let mut fields: Vec<Value> = Vec::new();
    let mut cur: &ReadSteps = steps;
    let ghost goal = read_steps(
        prog@,
        me as nat,
        *steps,
        order,
        ctx@,
        Seq::empty(),
        unread_bits(*buf),
    );
    assert(view_values(fields@) =~= Seq::empty());
    loop
        invariant
            intact(*buf),
            *cur == *steps || decreases_to!(*steps => *cur),
            read_steps(
                prog@,
                me as nat,
                *cur,
                order,
                ctx@,
                view_values(fields@),
                unread_bits(*buf),
            ) == goal,
        decreases *cur,
    {
        match cur {
            ReadSteps::Done => {
                return Ok(fields);
            },
            ReadSteps::Bind { target, op, rest } => {
                match run_read_op(prog, me, op, order, ctx, &fields, buf) {
                    Ok(v) => {
                        proof {
                            lemma_view_values_push(fields@, v);
                        }
                        fields.push(v);
                        cur = rest;
                    },
                    Err(e) => {
                        return Err(e);
                    },
                }
            },
        }
    }
}

/// Runs a tag dispatch: the first arm whose tag equals `key` yields the value.
#[verifier::loop_isolation(false)]
pub fn run_read_arms(
    prog: &Vec<Codec>,
    me: usize,
    arms: &ReadArms,
    key: Datum,
    order: ByteOrder,
    ctx: &Vec<Datum>,
    buf: &mut Bits,
) -> (r: ParselyResult<Value>)
    requires
        intact(*old(buf)),
    ensures
        intact(*final(buf)),
        matches_value(
            r,
            read_arms(prog@, me as nat, *arms, 0, key, order, ctx@, unread_bits(*old(buf))).result,
        ),
        unread_bits(*final(buf)) == read_arms(
            prog@,
            me as nat,
            *arms,
            0,
            key,
            order,
            ctx@,
            unread_bits(*old(buf)),
        ).rest,
    decreases me, 3nat, arms, 1nat,
{
    let mut cur: &ReadArms = arms;
    let mut index: usize = 0;
    let none: Vec<Value> = Vec::new();
    let remaining = remaining_bytes(buf) as u64;
    let ghost bits = unread_bits(*buf);
    let ghost goal = read_arms(prog@, me as nat, *arms, 0, key, order, ctx@, bits);
    assert(view_values(none@) =~= Seq::empty());
    loop
        invariant
            intact(*buf),
            unread_bits(*buf) == bits,
            remaining == remaining_of(bits),
            view_values(none@) == Seq::<ValueView>::empty(),
            *cur == *arms || decreases_to!(*arms => *cur),
            read_arms(prog@, me as nat, *cur, index as nat, key, order, ctx@, bits) == goal,
        decreases *cur,
    {
        match cur {
            ReadArms::NoMatch => {
                return Err(raise(Fault::NoArmValue));
            },
            ReadArms::Arm { tag, variant, body, rest } => {
                match tag.eval(ctx, &none, None, remaining) {
                    None => {
                        return Err(raise(Fault::Evaluation));
                    },
                    Some(t) => {
                        if t == key {
                            match body {
                                ReadArmBody::Computed(payload) => {
                                    match payload.eval(ctx, &none, None, remaining) {
                                        Some(d) => {
                                            let mut fs: Vec<Value> = Vec::new();
                                            fs.push(Value::Scalar(d));
                                            proof {
                                                crate::value::lemma_view_values(fs@);
                                                assert(view_values(fs@) =~= seq![
                                                    ValueView::Scalar(d),
                                                ]);
                                            }
                                            return Ok(Value::Variant(index, fs));
                                        },
                                        None => {
                                            return Err(raise(Fault::Evaluation));
                                        },
                                    }
                                },
                                ReadArmBody::Fields(steps, _) => {
                                    match run_read_steps(prog, me, steps, order, ctx, buf) {
                                        Ok(fs) => {
                                            return Ok(Value::Variant(index, fs));
                                        },
                                        Err(e) => {
                                            return Err(e);
                                        },
                                    }
                                },
                            }
                        } else {
                            if index == usize::MAX {
                                return Err(raise(Fault::NoArmValue));
                            }
                            index = index + 1;
                            cur = rest;
                        }
                    },
                }
            },
        }
    }
}

/// Runs the body of a decode procedure.
pub fn run_read_body(
    prog: &Vec<Codec>,
    me: usize,
    body: &ReadBody,
    name: &String,
    order: ByteOrder,
    ctx: &Vec<Datum>,
    buf: &mut Bits,
) -> (r: ParselyResult<Value>)
    requires
        intact(*old(buf)),
    ensures
        intact(*final(buf)),
        matches_value(
            r,
            read_body(
                prog@,
                me as nat,
                *body,
                name@,
                order,
                ctx@,
                unread_bits(*old(buf)),
            ).result,
        ),
        unread_bits(*final(buf)) == read_body(
            prog@,
            me as nat,
            *body,
            name@,
            order,
            ctx@,
            unread_bits(*old(buf)),
        ).rest,
    decreases me, 4nat, body, 0nat,
{
    match body {
        ReadBody::Record(steps, _) => match run_read_steps(prog, me, steps, order, ctx, buf) {
            Ok(fs) => Ok(Value::Record(fs)),
            Err(e) => Err(e),
        },
        ReadBody::Dispatch { tag, arms } => match tag {
            TagSource::Typed(p) => match run_read_scalar(buf, *p, order) {
                Ok(v) => match scalar_of(&v) {
                    Some(key) => run_read_arms(prog, me, arms, key, order, ctx, buf),
                    None => Ok(v),
                },
                Err(e) => Err(e.with_context(join3("Tag for enum '", name.as_str(), "'"))),
            },
            TagSource::Computed(expr) => {
                let none: Vec<Value> = Vec::new();
                let remaining = remaining_bytes(buf) as u64;
                assert(view_values(none@) =~= Seq::empty());
                match expr.eval(ctx, &none, None, remaining) {
                    Some(key) => run_read_arms(prog, me, arms, key, order, ctx, buf),
                    None => Err(raise(Fault::Evaluation)),
                }
            },
        },
    }
}

/// Runs the decode procedure at position `me` of `prog` with the context `ctx`: decodes
/// one value of that type from `buf` and leaves `buf` behind the value, or raises and
/// leaves `buf` where the failure occurred.
pub fn run_read_procedure(
    prog: &Vec<Codec>,
    me: usize,
    order: ByteOrder,
    ctx: &Vec<Datum>,
    buf: &mut Bits,
) -> (r: ParselyResult<Value>)
    requires
        intact(*old(buf)),
    ensures
        intact(*final(buf)),
        matches_value(
            r,
            read_procedure(prog@, me as nat, order, ctx@, unread_bits(*old(buf))).result,
        ),
        unread_bits(*final(buf)) == read_procedure(
            prog@,
            me as nat,
            order,
            ctx@,
            unread_bits(*old(buf)),
        ).rest,
    decreases me, 5nat, ReadSteps::Done, 0nat,
{
    if me < prog.len() {
        let p = &prog[me].read;
        if ctx.len() != p.params.len() {
            return Err(raise(Fault::ContextMismatch));
        }
        let before = remaining_bytes(buf);
        let ghost o = read_body(
            prog@,
            me as nat,
            p.body,
            p.name@,
            order,
            ctx@,
            unread_bits(*buf),
        );
        let r = run_read_body(prog, me, &p.body, &p.name, order, ctx, buf);
        run_read_aligned(buf, p.alignment, before, r, Ghost(o))
    } else {
        Err(raise(Fault::NoProcedure))
    }
}

} // verus!
