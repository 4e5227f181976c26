//! The evaluator for encode procedures.

use crate::bits::ByteOrder;
use crate::encode::{
    after_write, append_bits, mapped_write, pad_write, padding_write_failure, write_aligned,
    write_arm, write_arms, write_body, write_each, write_op, write_procedure, write_raw,
    write_scalar,
    write_steps, zero_byte, WriteOutcome,
};
use crate::error::{ParselyErrorView, ParselyResult};
use crate::expr::Expr;
use crate::faults::{assertion_failed, fixed_mismatch, raise, Fault};
use crate::member::Member;
use crate::plan::{
    label_text, Codec, Label, TagSource, TypeRef, WriteArmBody, WriteArms, WriteBody, WriteOp,
    WriteSteps,
};
use crate::read::{run_args, scalar_of};
use crate::text::join3;
use crate::value::{lemma_view_values, view_values, Datum, Value};
use crate::wire::{
    appendable, put_bits, remaining_mut_bytes, write_primitive, written_bits, Primitive,
};
use bits_io::buf::bits_mut::BitsMut;
use vstd::prelude::*;

verus! {

/// Whether an executable result is the given mathematical result.
pub open spec fn matches_unit(r: ParselyResult<()>, s: Result<(), ParselyErrorView>) -> bool {
    match (r, s) {
        (Ok(_), Ok(_)) => true,
        (Err(e), Err(f)) => e@ == f,
        _ => false,
    }
}

/// Attaches the text of `label` to a failure.
pub fn labelled_unit(r: ParselyResult<()>, label: &Label) -> (out: ParselyResult<()>)
    ensures
        match r {
            Ok(_) => out is Ok,
            Err(e) => out matches Err(f) && f@ == e@.with_context(label_text(*label)),
        },
{
    match r {
        Ok(v) => Ok(v),
        Err(e) => Err(e.with_context(label.render())),
    }
}

/// Encodes one value as a primitive.
pub fn run_write_scalar(buf: &mut BitsMut, p: Primitive, order: ByteOrder, v: &Value) -> (r:
    ParselyResult<()>)
    requires
        appendable(*old(buf)),
    ensures
        appendable(*final(buf)),
        matches_unit(r, write_scalar(p, order, v@, written_bits(*old(buf))).result),
        written_bits(*final(buf)) == write_scalar(p, order, v@, written_bits(*old(buf))).out,
{
    if !p.is_supported() {
        Err(raise(Fault::UnsupportedWidth))
    } else {
        match v {
            Value::Scalar(d) => match write_primitive(buf, p, order, *d) {
                Some(true) => Ok(()),
                Some(false) => Err(raise(Fault::NoRoom)),
                None => Err(raise(Fault::Unencodable)),
            },
            _ => Err(raise(Fault::Mismatch)),
        }
    }
}

/// Emits padding after a write that began with `before` whole bytes of room.
#[verifier::loop_isolation(false)]
pub fn run_pad_write(buf: &mut BitsMut, alignment: u64, before: usize) -> (r: ParselyResult<()>)
    requires
        appendable(*old(buf)),
    ensures
        appendable(*final(buf)),
        written_bits(*final(buf)) == pad_write(
            alignment,
            before as nat,
            written_bits(*old(buf)),
        ).rest,
        match r {
            Ok(_) => !pad_write(alignment, before as nat, written_bits(*old(buf))).failed,
            Err(e) => pad_write(alignment, before as nat, written_bits(*old(buf))).failed && e@
                == padding_write_failure(),
        },
{
    let ghost start = written_bits(*buf);
    let zeros: Vec<bool> = vec![false, false, false, false, false, false, false, false];
    assert(zeros@ =~= zero_byte());
    loop
        invariant
            appendable(*buf),
            zeros@ == zero_byte(),
            pad_write(alignment, before as nat, written_bits(*buf)) == pad_write(
                alignment,
                before as nat,
                start,
            ),
        decreases usize::MAX - written_bits(*buf).len(),
    {
        let now = remaining_mut_bytes(buf);
        let written: usize = if before >= now {
            before - now
        } else {
            0
        };
        if alignment == 0 || (written as u64) % alignment == 0 {
            return Ok(());
        }
        if !put_bits(buf, &zeros) {
            return Err(raise(Fault::NoRoom).with_context(Label::Padding.render()));
        }
    }
}

/// Pads a successful write to `alignment`.
pub fn run_write_aligned(
    buf: &mut BitsMut,
    alignment: Option<u64>,
    before: usize,
    r: ParselyResult<()>,
    Ghost(o): Ghost<WriteOutcome>,
) -> (out: ParselyResult<()>)
    requires
        appendable(*old(buf)),
        matches_unit(r, o.result),
        written_bits(*old(buf)) == o.out,
    ensures
        appendable(*final(buf)),
        matches_unit(out, write_aligned(alignment, before as nat, o).result),
        written_bits(*final(buf)) == write_aligned(alignment, before as nat, o).out,
{
    match (alignment, r) {
        (Some(a), Ok(_)) => run_pad_write(buf, a, before),
        (_, r) => r,
    }
}

/// Encodes the raw value of a mapping.
fn write_raw_value(buf: &mut BitsMut, raw: Option<Primitive>, order: ByteOrder, d: Datum) -> (r:
    ParselyResult<()>)
    requires
        appendable(*old(buf)),
    ensures
        appendable(*final(buf)),
        matches_unit(r, write_raw(raw, order, d, written_bits(*old(buf))).result),
        written_bits(*final(buf)) == write_raw(raw, order, d, written_bits(*old(buf))).out,
{
    match raw {
        Some(p) => run_write_scalar(buf, p, order, &Value::Scalar(d)),
        None => Err(raise(Fault::Evaluation)),
    }
}

/// Writes a mapped field: transforms the value, then encodes the raw primitive.
pub fn run_mapped_write(
    transform: &Expr,
    raw: Option<Primitive>,
    field: &Member,
    order: ByteOrder,
    ctx: &Vec<Datum>,
    fields: &Vec<Value>,
    subject: &Value,
    buf: &mut BitsMut,
) -> (r: ParselyResult<()>)
    requires
        appendable(*old(buf)),
    ensures
        appendable(*final(buf)),
        matches_unit(
            r,
            mapped_write(
                *transform,
                raw,
                field@,
                order,
                ctx@,
                view_values(fields@),
                subject@,
                written_bits(*old(buf)),
            ).result,
        ),
        written_bits(*final(buf)) == mapped_write(
            *transform,
            raw,
            field@,
            order,
            ctx@,
            view_values(fields@),
            subject@,
            written_bits(*old(buf)),
        ).out,
{
    match transform.eval(ctx, fields, scalar_of(subject), 0) {
        Some(d) => match write_raw_value(buf, raw, order, d) {
            Ok(_) => Ok(()),
            Err(e) => Err(
                e.with_context(
                    join3(
                        "Writing mapped value for field '",
                        field.as_friendly_string().as_str(),
                        "'",
                    ),
                ),
            ),
        },
        None => Err(
            raise(Fault::Evaluation).with_context(
                join3("Mapping raw value for field '", field.as_friendly_string().as_str(), "'"),
            ),
        ),
    }
}

/// Evaluates a hook after a write, with the written value as its input.
pub fn run_write_hook(
    r: ParselyResult<()>,
    hook: &Expr,
    ctx: &Vec<Datum>,
    fields: &Vec<Value>,
    subject: &Value,
    Ghost(o): Ghost<WriteOutcome>,
) -> (out: ParselyResult<()>)
    requires
        matches_unit(r, o.result),
    ensures
        matches_unit(out, after_write(o, *hook, ctx@, view_values(fields@), subject@).result),
        after_write(o, *hook, ctx@, view_values(fields@), subject@).out == o.out,
{
    match r {
        Ok(_) => match hook.eval(ctx, fields, scalar_of(subject), 0) {
            Some(_) => Ok(()),
            None => Err(raise(Fault::Evaluation)),
        },
        Err(e) => Err(e),
    }
}

/// Runs one write operation on `subject`. `me` is the position in `prog` of the
/// procedure that the operation belongs to, `ctx` holds that procedure's parameters and
/// `fields` the fields of the value that is being written.
#[verifier::rlimit(60)]
pub fn run_write_op(
    prog: &Vec<Codec>,
    me: usize,
    op: &WriteOp,
    order: ByteOrder,
    ctx: &Vec<Datum>,
    fields: &Vec<Value>,
    subject: &Value,
    buf: &mut BitsMut,
) -> (r: ParselyResult<()>)
    requires
        appendable(*old(buf)),
    ensures
        appendable(*final(buf)),
        matches_unit(
            r,
            write_op(
                prog@,
                me as nat,
                *op,
                order,
                ctx@,
                view_values(fields@),
                subject@,
                written_bits(*old(buf)),
            ).result,
        ),
        written_bits(*final(buf)) == write_op(
            prog@,
            me as nat,
            *op,
            order,
            ctx@,
            view_values(fields@),
            subject@,
            written_bits(*old(buf)),
        ).out,
    decreases me, 1nat, op, 0nat,
{
    let ghost out = written_bits(*buf);
    match op {
        WriteOp::Encode { ty, args } => {
            match run_args(args, ctx, fields, scalar_of(subject), 0) {
                Err(e) => Err(e),
                Ok(actuals) => match ty {
                    TypeRef::Primitive(p) => run_write_scalar(buf, *p, order, subject),
                    TypeRef::Named(callee) => if *callee < me && *callee < prog.len() {
                        run_write_procedure(prog, *callee, order, &actuals, subject, buf)
                    } else {
                        Err(raise(Fault::NoProcedure))
                    },
                },
            }
        },
        WriteOp::Mapped { transform, raw, field } => run_mapped_write(
            transform,
            *raw,
            field,
            order,
            ctx,
            fields,
            subject,
            buf,
        ),
        WriteOp::IfPresent { inner } => match subject {
            Value::Optional(None) => Ok(()),
            Value::Optional(Some(payload)) => run_write_op(
                prog,
                me,
                inner,
                order,
                ctx,
                fields,
                payload,
                buf,
            ),
            _ => Err(raise(Fault::Mismatch)),
        },
        WriteOp::Each { item } => match subject {
            Value::List(items) => run_write_each(prog, me, item, order, ctx, fields, items, buf),
            _ => Err(raise(Fault::Mismatch)),
        },
        WriteOp::Context { label, inner } => {
            let r = run_write_op(prog, me, inner, order, ctx, fields, subject, buf);
            labelled_unit(r, label)
        },
        WriteOp::Assert { assertion, field, inner } => {
            match assertion.predicate.eval(ctx, fields, scalar_of(subject), 0) {
                Some(Datum::Bool(true)) => run_write_op(
                    prog,
                    me,
                    inner,
                    order,
                    ctx,
                    fields,
                    subject,
                    buf,
                ),
                Some(Datum::Bool(false)) => Err(
                    assertion_failed(field, subject, assertion.source.as_str()),
                ),
                _ => Err(raise(Fault::Evaluation)),
            }
        },
        WriteOp::Fixed { expected, inner } => {
            let same = match scalar_of(subject) {
                Some(d) => d == *expected,
                None => false,
            };
            if same {
                run_write_op(prog, me, inner, order, ctx, fields, subject, buf)
            } else {
                Err(fixed_mismatch(*expected, subject))
            }
        },
        WriteOp::Align { alignment, inner } => {
            let before = remaining_mut_bytes(buf);
            let ghost o = write_op(
                prog@,
                me as nat,
                **inner,
                order,
                ctx@,
                view_values(fields@),
                subject@,
                out,
            );
            let r = run_write_op(prog, me, inner, order, ctx, fields, subject, buf);
            run_write_aligned(buf, Some(*alignment), before, r, Ghost(o))
        },
        WriteOp::After { inner, hook } => {
            let ghost o = write_op(
                prog@,
                me as nat,
                **inner,
                order,
                ctx@,
                view_values(fields@),
                subject@,
                out,
            );
            let r = run_write_op(prog, me, inner, order, ctx, fields, subject, buf);
            run_write_hook(r, hook, ctx, fields, subject, Ghost(o))
        },
    }
}

/// Writes each element of a collection, in order.
#[verifier::loop_isolation(false)]
pub fn run_write_each(
    prog: &Vec<Codec>,
    me: usize,
    item: &WriteOp,
    order: ByteOrder,
    ctx: &Vec<Datum>,
    fields: &Vec<Value>,
    items: &Vec<Value>,
    buf: &mut BitsMut,
) -> (r: ParselyResult<()>)
    requires
        appendable(*old(buf)),
    ensures
        appendable(*final(buf)),
        matches_unit(
            r,
            write_each(
                prog@,
                me as nat,
                *item,
                order,
                ctx@,
                view_values(fields@),
                view_values(items@),
                0,
                written_bits(*old(buf)),
            ).result,
        ),
        written_bits(*final(buf)) == write_each(
            prog@,
            me as nat,
            *item,
            order,
            ctx@,
            view_values(fields@),
            view_values(items@),
            0,
            written_bits(*old(buf)),
        ).out,
    decreases me, 1nat, item, 1nat,
{
    let mut idx: usize = 0;
    let ghost goal = write_each(
        prog@,
        me as nat,
        *item,
        order,
        ctx@,
        view_values(fields@),
        view_values(items@),
        0,
        written_bits(*buf),
    );
    proof {
        lemma_view_values(items@);
    }
    while idx < items.len()
        invariant
            idx <= items.len(),
            appendable(*buf),
            write_each(
                prog@,
                me as nat,
                *item,
                order,
                ctx@,
                view_values(fields@),
                view_values(items@),
                idx as nat,
                written_bits(*buf),
            ) == goal,
        decreases items.len() - idx,
    {
        match run_write_op(prog, me, item, order, ctx, fields, &items[idx], buf) {
            Ok(_) => {},
            Err(e) => {
                return Err(e.with_context(Label::Index(idx as u64).render()));
            },
        }
        idx = idx + 1;
    }
    Ok(())
}

/// Runs the field writes of a record or variant, in order.
#[verifier::loop_isolation(false)]
pub fn run_write_steps(
    prog: &Vec<Codec>,
    me: usize,
    steps: &WriteSteps,
    order: ByteOrder,
    ctx: &Vec<Datum>,
    fields: &Vec<Value>,
    buf: &mut BitsMut,
) -> (r: ParselyResult<()>)
    requires
        appendable(*old(buf)),
    ensures
        appendable(*final(buf)),
        matches_unit(
            r,
            write_steps(
                prog@,
                me as nat,
                *steps,
                order,
                ctx@,
                view_values(fields@),
                0,
                written_bits(*old(buf)),
            ).result,
        ),
        written_bits(*final(buf)) == write_steps(
            prog@,
            me as nat,
            *steps,
            order,
            ctx@,
            view_values(fields@),
            0,
            written_bits(*old(buf)),
        ).out,
    decreases me, 2nat, steps, 1nat,
{
    let mut cur: &WriteSteps = steps;
    let mut k: usize = 0;
    let ghost goal = write_steps(
        prog@,
        me as nat,
        *steps,
        order,
        ctx@,
        view_values(fields@),
        0,
        written_bits(*buf),
    );
    proof {
        lemma_view_values(fields@);
    }
    loop
        invariant
            appendable(*buf),
            k <= fields.len(),
            *cur == *steps || decreases_to!(*steps => *cur),
            write_steps(
                prog@,
                me as nat,
                *cur,
                order,
                ctx@,
                view_values(fields@),
                k as nat,
                written_bits(*buf),
            ) == goal,
        decreases *cur,
    {
        match cur {
            WriteSteps::Done => {
                if k == fields.len() {
                    return Ok(());
                } else {
                    return Err(raise(Fault::Mismatch));
                }
            },
            WriteSteps::Put { source, op, rest } => {
                if k < fields.len() {
                    match run_write_op(prog, me, op, order, ctx, fields, &fields[k], buf) {
                        Ok(_) => {
                            k = k + 1;
                            cur = rest;
                        },
                        Err(e) => {
                            return Err(e);
                        },
                    }
                } else {
                    return Err(raise(Fault::Mismatch));
                }
            },
        }
    }
}

/// Runs the arm of a variant: writes the tag, then the payload.
pub fn run_write_arm(
    prog: &Vec<Codec>,
    me: usize,
    tag: &Expr,
    variant: &String,
    body: &WriteArmBody,
    key: &TagSource,
    order: ByteOrder,
    ctx: &Vec<Datum>,
    fields: &Vec<Value>,
    buf: &mut BitsMut,
) -> (r: ParselyResult<()>)
    requires
        appendable(*old(buf)),
    ensures
        appendable(*final(buf)),
        matches_unit(
            r,
            write_arm(
                prog@,
                me as nat,
                *tag,
                variant@,
                *body,
                *key,
                order,
                ctx@,
                view_values(fields@),
                written_bits(*old(buf)),
            ).result,
        ),
        written_bits(*final(buf)) == write_arm(
            prog@,
            me as nat,
            *tag,
            variant@,
            *body,
            *key,
            order,
            ctx@,
            view_values(fields@),
            written_bits(*old(buf)),
        ).out,
    decreases me, 3nat, body, 0nat,
{
    let t = match key {
        TagSource::Typed(p) => match tag.eval(ctx, fields, None, 0) {
            Some(d) => run_write_scalar(buf, *p, order, &Value::Scalar(d)),
            None => Err(raise(Fault::Evaluation)),
        },
        TagSource::Computed(_) => Ok(()),
    };
    match t {
        Err(e) => Err(e),
        Ok(_) => match body {
            WriteArmBody::Computed(payload, ty) => match payload.eval(ctx, fields, None, 0) {
                Some(d) => match run_write_scalar(buf, *ty, order, &Value::Scalar(d)) {
                    Ok(_) => Ok(()),
                    Err(e) => {
                        let mut label = String::from_str("Writing discriminant value of variant ");
                        label.append(variant.as_str());
                        Err(e.with_context(label))
                    },
                },
                None => Err(raise(Fault::Evaluation)),
            },
            WriteArmBody::Fields(steps, _) => run_write_steps(
                prog,
                me,
                steps,
                order,
                ctx,
                fields,
                buf,
            ),
        },
    }
}

/// Runs the dispatch on the variant at position `index`.
#[verifier::loop_isolation(false)]
pub fn run_write_arms(
    prog: &Vec<Codec>,
    me: usize,
    arms: &WriteArms,
    index: usize,
    key: &TagSource,
    order: ByteOrder,
    ctx: &Vec<Datum>,
    fields: &Vec<Value>,
    buf: &mut BitsMut,
) -> (r: ParselyResult<()>)
    requires
        appendable(*old(buf)),
    ensures
        appendable(*final(buf)),
        matches_unit(
            r,
            write_arms(
                prog@,
                me as nat,
                *arms,
                index as nat,
                *key,
                order,
                ctx@,
                view_values(fields@),
                written_bits(*old(buf)),
            ).result,
        ),
        written_bits(*final(buf)) == write_arms(
            prog@,
            me as nat,
            *arms,
            index as nat,
            *key,
            order,
            ctx@,
            view_values(fields@),
            written_bits(*old(buf)),
        ).out,
    decreases me, 4nat, arms, 1nat,
{
    let mut cur: &WriteArms = arms;
    let mut skip: usize = index;
    let ghost out = written_bits(*buf);
    let ghost goal = write_arms(
        prog@,
        me as nat,
        *arms,
        index as nat,
        *key,
        order,
        ctx@,
        view_values(fields@),
        out,
    );
    loop
        invariant
            appendable(*buf),
            written_bits(*buf) == out,
            *cur == *arms || decreases_to!(*arms => *cur),
            write_arms(
                prog@,
                me as nat,
                *cur,
                skip as nat,
                *key,
                order,
                ctx@,
                view_values(fields@),
                out,
            ) == goal,
        decreases *cur,
    {
        match cur {
            WriteArms::NoMatch => {
                return Err(raise(Fault::NoArmSelf));
            },
            WriteArms::Arm { tag, variant, body, rest } => {
                if skip > 0 {
                    skip = skip - 1;
                    cur = rest;
                } else {
                    return run_write_arm(prog, me, tag, variant, body, key, order, ctx, fields, buf);
                }
            },
        }
    }
}

/// Runs the body of an encode procedure on `subject`.
pub fn run_write_body(
    prog: &Vec<Codec>,
    me: usize,
    body: &WriteBody,
    order: ByteOrder,
    ctx: &Vec<Datum>,
    subject: &Value,
    buf: &mut BitsMut,
) -> (r: ParselyResult<()>)
    requires
        appendable(*old(buf)),
    ensures
        appendable(*final(buf)),
        matches_unit(
            r,
            write_body(
                prog@,
                me as nat,
                *body,
                order,
                ctx@,
                subject@,
                written_bits(*old(buf)),
            ).result,
        ),
        written_bits(*final(buf)) == write_body(
            prog@,
            me as nat,
            *body,
            order,
            ctx@,
            subject@,
            written_bits(*old(buf)),
        ).out,
    decreases me, 5nat, body, 0nat,
{
    match body {
        WriteBody::Record(steps) => match subject {
            Value::Record(fields) => run_write_steps(prog, me, steps, order, ctx, fields, buf),
            _ => Err(raise(Fault::Mismatch)),
        },
        WriteBody::Dispatch { tag, arms } => match subject {
            Value::Variant(index, fields) => run_write_arms(
                prog,
                me,
                arms,
                *index,
                tag,
                order,
                ctx,
                fields,
                buf,
            ),
            _ => Err(raise(Fault::NoArmSelf)),
        },
    }
}

/// Runs the encode procedure at position `me` of `prog` with the context `ctx`: appends
/// the encoding of `subject` to `buf`, or raises and leaves in `buf` what was written
/// before the failure.
pub fn run_write_procedure(
    prog: &Vec<Codec>,
    me: usize,
    order: ByteOrder,
    ctx: &Vec<Datum>,
    subject: &Value,
    buf: &mut BitsMut,
) -> (r: ParselyResult<()>)
    requires
        appendable(*old(buf)),
    ensures
        appendable(*final(buf)),
        matches_unit(
            r,
            write_procedure(
                prog@,
                me as nat,
                order,
                ctx@,
                subject@,
                written_bits(*old(buf)),
            ).result,
        ),
        written_bits(*final(buf)) == write_procedure(
            prog@,
            me as nat,
            order,
            ctx@,
            subject@,
            written_bits(*old(buf)),
        ).out,
    decreases me, 6nat, WriteSteps::Done, 0nat,
{
    if me < prog.len() {
        let p = &prog[me].write;
        if ctx.len() != p.params.len() {
            return Err(raise(Fault::ContextMismatch));
        }
        let before = remaining_mut_bytes(buf);
        let ghost o = write_body(
            prog@,
            me as nat,
            p.body,
            order,
            ctx@,
            subject@,
            written_bits(*buf),
        );
        let r = run_write_body(prog, me, &p.body, order, ctx, subject, buf);
        run_write_aligned(buf, p.alignment, before, r, Ghost(o))
    } else {
        Err(raise(Fault::NoProcedure))
    }
}

} // verus!
