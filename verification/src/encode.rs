//! Encoding: what running an encode procedure on a value appends to a bit string.

use crate::bits::ByteOrder;
use crate::decode::{datum_of, eval_args, PadOutcome};
use crate::error::ParselyErrorView;
use crate::expr::{scope_of, spec_eval, Expr};
use crate::faults::{assertion_failure, fault_error, fixed_failure, Fault};
use crate::member::MemberView;
use crate::plan::{
    label_text, Codec, Label, TagSource, TypeRef, WriteArmBody, WriteArms, WriteBody, WriteOp,
    WriteSteps,
};
use crate::value::{Datum, ValueView};
use crate::wire::{spec_remaining_mut_bytes, spec_write_primitive, Primitive};
use vstd::prelude::*;

verus! {

/// What a write yields: success or a failure, and all the bits that the buffer holds
/// either way.
pub struct WriteOutcome {
    pub result: Result<(), ParselyErrorView>,
    pub out: Seq<bool>,
}

/// A successful write.
pub open spec fn write_ok(out: Seq<bool>) -> WriteOutcome {
    WriteOutcome { result: Ok(()), out }
}

/// A failed write.
pub open spec fn write_err(e: ParselyErrorView, out: Seq<bool>) -> WriteOutcome {
    WriteOutcome { result: Err(e), out }
}

/// The outcome with `label` attached to its failure, if it is one.
pub open spec fn write_in_context(o: WriteOutcome, label: Seq<char>) -> WriteOutcome {
    match o.result {
        Ok(_) => o,
        Err(e) => write_err(e.with_context(label), o.out),
    }
}

/// Appending `bits` to a buffer that holds `out`: the length in bits must stay within
/// what the machine can count.
pub open spec fn append_bits(out: Seq<bool>, bits: Seq<bool>) -> WriteOutcome {
    if out.len() + bits.len() <= usize::MAX {
        write_ok(out + bits)
    } else {
        write_err(fault_error(Fault::NoRoom), out)
    }
}

/// Encoding one value as a primitive.
pub open spec fn write_scalar(
    p: Primitive,
    order: ByteOrder,
    v: ValueView,
    out: Seq<bool>,
) -> WriteOutcome {
    if !p.wf() {
        write_err(fault_error(Fault::UnsupportedWidth), out)
    } else {
        match v {
            ValueView::Scalar(d) => match spec_write_primitive(p, order, d, out.len()) {
                Some(bits) => append_bits(out, bits),
                None => write_err(fault_error(Fault::Unencodable), out),
            },
            _ => write_err(fault_error(Fault::Mismatch), out),
        }
    }
}

/// Bytes written between a point with `before` whole bytes of room and `out`.
pub open spec fn written_bytes(before: nat, out: Seq<bool>) -> nat {
    if before >= spec_remaining_mut_bytes(out) {
        (before - spec_remaining_mut_bytes(out)) as nat
    } else {
        0
    }
}

/// One zero byte.
pub open spec fn zero_byte() -> Seq<bool> {
    Seq::new(8, |i: int| false)
}

/// Emitting padding: single zero bytes are appended until the bytes written since
/// `before` whole bytes of room were left are a multiple of `alignment`, or until the
/// buffer cannot grow. An alignment of zero asks for no padding.
pub open spec fn pad_write(alignment: u64, before: nat, out: Seq<bool>) -> PadOutcome
    decreases usize::MAX - out.len(),
{
    if alignment == 0 || written_bytes(before, out) % (alignment as nat) == 0 {
        PadOutcome { failed: false, rest: out }
    } else if out.len() + 8 > usize::MAX {
        PadOutcome { failed: true, rest: out }
    } else {
        pad_write(alignment, before, out + zero_byte())
    }
}

/// The failure of padding that found no room: it is raised under `padding`.
pub open spec fn padding_write_failure() -> ParselyErrorView {
    fault_error(Fault::NoRoom).with_context(label_text(Label::Padding))
}

/// The outcome `o` of a write that began with `before` whole bytes of room, padded to
/// `alignment` if there is one and the write succeeded.
pub open spec fn write_aligned(alignment: Option<u64>, before: nat, o: WriteOutcome) -> WriteOutcome {
    match (alignment, o.result) {
        (Some(a), Ok(_)) => {
            let p = pad_write(a, before, o.out);
            if p.failed {
                write_err(padding_write_failure(), p.rest)
            } else {
                write_ok(p.rest)
            }
        },
        _ => o,
    }
}

/// Encoding the raw value of a mapping: as the named primitive; without one the type is
/// not known here and the write raises without touching the buffer.
pub open spec fn write_raw(raw: Option<Primitive>, order: ByteOrder, d: Datum, out: Seq<bool>) -> WriteOutcome {
    match raw {
        Some(p) => write_scalar(p, order, ValueView::Scalar(d), out),
        None => write_err(fault_error(Fault::Evaluation), out),
    }
}

/// The outcome of a mapped write: the value is transformed under `Mapping raw value for
/// field '<name>'`, the result encoded under `Writing mapped value for field '<name>'`.
pub open spec fn mapped_write(
    transform: Expr,
    raw: Option<Primitive>,
    field: MemberView,
    order: ByteOrder,
    ctx: Seq<Datum>,
    fields: Seq<ValueView>,
    subject: ValueView,
    out: Seq<bool>,
) -> WriteOutcome {
    match spec_eval(transform, scope_of(ctx, fields, datum_of(subject), 0)) {
        Some(d) => write_in_context(
            write_raw(raw, order, d, out),
            crate::text::spec_join3(
                "Writing mapped value for field '"@,
                field.friendly(),
                "'"@,
            ),
        ),
        None => write_err(
            fault_error(Fault::Evaluation).with_context(
                crate::text::spec_join3("Mapping raw value for field '"@, field.friendly(), "'"@),
            ),
            out,
        ),
    }
}

/// The outcome `o` after a hook was evaluated with the written value as its input.
pub open spec fn after_write(
    o: WriteOutcome,
    hook: Expr,
    ctx: Seq<Datum>,
    fields: Seq<ValueView>,
    subject: ValueView,
) -> WriteOutcome {
    match o.result {
        Ok(_) => match spec_eval(hook, scope_of(ctx, fields, datum_of(subject), 0)) {
            Some(_) => o,
            None => write_err(fault_error(Fault::Evaluation), o.out),
        },
        Err(_) => o,
    }
}

/// What running one write operation on `subject` yields. `prog` is the program, `me` the
/// position of the procedure that the operation belongs to, `ctx` that procedure's
/// parameters and `fields` the fields of the value that is being written.
pub open spec fn write_op(
    prog: Seq<Codec>,
    me: nat,
    op: WriteOp,
    order: ByteOrder,
    ctx: Seq<Datum>,
    fields: Seq<ValueView>,
    subject: ValueView,
    out: Seq<bool>,
) -> WriteOutcome
    decreases me, 1nat, op, 0nat,
{
    let scope = scope_of(ctx, fields, datum_of(subject), 0);
    match op {
        WriteOp::Encode { ty, args } => match eval_args(args, scope) {
            Err(e) => write_err(e, out),
            Ok(actuals) => match ty {
                TypeRef::Primitive(p) => write_scalar(p, order, subject, out),
                TypeRef::Named(callee) => if callee < me && callee < prog.len() {
                    write_procedure(prog, callee as nat, order, actuals, subject, out)
                } else {
                    write_err(fault_error(Fault::NoProcedure), out)
                },
            },
        },
        WriteOp::Mapped { transform, raw, field } => mapped_write(
            transform,
            raw,
            field@,
            order,
            ctx,
            fields,
            subject,
            out,
        ),
        WriteOp::IfPresent { inner } => match subject {
            ValueView::Optional(None) => write_ok(out),
            ValueView::Optional(Some(payload)) => write_op(
                prog,
                me,
                *inner,
                order,
                ctx,
                fields,
                *payload,
                out,
            ),
            _ => write_err(fault_error(Fault::Mismatch), out),
        },
        WriteOp::Each { item } => match subject {
            ValueView::List(items) => write_each(
                prog,
                me,
                *item,
                order,
                ctx,
                fields,
                items,
                0,
                out,
            ),
            _ => write_err(fault_error(Fault::Mismatch), out),
        },
        WriteOp::Context { label, inner } => write_in_context(
            write_op(prog, me, *inner, order, ctx, fields, subject, out),
            label_text(label),
        ),
        WriteOp::Assert { assertion, field, inner } => match spec_eval(
            assertion.predicate,
            scope,
        ) {
            Some(Datum::Bool(true)) => write_op(
                prog,
                me,
                *inner,
                order,
                ctx,
                fields,
                subject,
                out,
            ),
            Some(Datum::Bool(false)) => write_err(
                assertion_failure(field@, subject, assertion.source@),
                out,
            ),
            _ => write_err(fault_error(Fault::Evaluation), out),
        },
        WriteOp::Fixed { expected, inner } => if subject == ValueView::Scalar(expected) {
            write_op(prog, me, *inner, order, ctx, fields, subject, out)
        } else {
            write_err(fixed_failure(expected, subject), out)
        },
        WriteOp::Align { alignment, inner } => write_aligned(
            Some(alignment),
            spec_remaining_mut_bytes(out),
            write_op(prog, me, *inner, order, ctx, fields, subject, out),
        ),
        WriteOp::After { inner, hook } => after_write(
            write_op(prog, me, *inner, order, ctx, fields, subject, out),
            hook,
            ctx,
            fields,
            subject,
        ),
    }
}

/// The writes of the elements of a collection from position `idx` on; a failure is raised
/// under `Index <position>`.
pub open spec fn write_each(
    prog: Seq<Codec>,
    me: nat,
    item: WriteOp,
    order: ByteOrder,
    ctx: Seq<Datum>,
    fields: Seq<ValueView>,
    items: Seq<ValueView>,
    idx: nat,
    out: Seq<bool>,
) -> WriteOutcome
    decreases me, 1nat, item, (items.len() - idx + 1) as nat,
{
    if idx >= items.len() {
        write_ok(out)
    } else {
        let o = write_op(prog, me, item, order, ctx, fields, items[idx as int], out);
        match o.result {
            Ok(_) => write_each(prog, me, item, order, ctx, fields, items, idx + 1, o.out),
            Err(e) => write_err(e.with_context(label_text(Label::Index(idx as u64))), o.out),
        }
    }
}

/// The writes of a record's or variant's fields from the first of `steps` on, which
/// writes the field at position `k`. The value must hold exactly one field for each step.
pub open spec fn write_steps(
    prog: Seq<Codec>,
    me: nat,
    steps: WriteSteps,
    order: ByteOrder,
    ctx: Seq<Datum>,
    fields: Seq<ValueView>,
    k: nat,
    out: Seq<bool>,
) -> WriteOutcome
    decreases me, 2nat, steps, 0nat,
{
    match steps {
        WriteSteps::Done => if k == fields.len() {
            write_ok(out)
        } else {
            write_err(fault_error(Fault::Mismatch), out)
        },
        WriteSteps::Put { source, op, rest } => if k < fields.len() {
            let o = write_op(prog, me, op, order, ctx, fields, fields[k as int], out);
            match o.result {
                Ok(_) => write_steps(prog, me, *rest, order, ctx, fields, k + 1, o.out),
                Err(_) => o,
            }
        } else {
            write_err(fault_error(Fault::Mismatch), out)
        },
    }
}

/// What the arm of a variant writes: the tag, as the primitive it travels as, then the
/// payload.
pub open spec fn write_arm(
    prog: Seq<Codec>,
    me: nat,
    tag: Expr,
    variant: Seq<char>,
    body: WriteArmBody,
    key: TagSource,
    order: ByteOrder,
    ctx: Seq<Datum>,
    fields: Seq<ValueView>,
    out: Seq<bool>,
) -> WriteOutcome
    decreases me, 3nat, body, 0nat,
{
    let scope = scope_of(ctx, fields, None, 0);
    let t = match key {
        TagSource::Typed(p) => match spec_eval(tag, scope) {
            Some(d) => write_scalar(p, order, ValueView::Scalar(d), out),
            None => write_err(fault_error(Fault::Evaluation), out),
        },
        TagSource::Computed(_) => write_ok(out),
    };
    match t.result {
        Err(_) => t,
        Ok(_) => match body {
            WriteArmBody::Computed(payload, ty) => match spec_eval(payload, scope) {
                Some(d) => write_in_context(
                    write_scalar(ty, order, ValueView::Scalar(d), t.out),
                    "Writing discriminant value of variant "@ + variant,
                ),
                None => write_err(fault_error(Fault::Evaluation), t.out),
            },
            WriteArmBody::Fields(steps, _) => write_steps(
                prog,
                me,
                steps,
                order,
                ctx,
                fields,
                0,
                t.out,
            ),
        },
    }
}

/// The dispatch on the variant that is written: the arm `skip` places after the first of
/// `arms` writes it.
pub open spec fn write_arms(
    prog: Seq<Codec>,
    me: nat,
    arms: WriteArms,
    skip: nat,
    key: TagSource,
    order: ByteOrder,
    ctx: Seq<Datum>,
    fields: Seq<ValueView>,
    out: Seq<bool>,
) -> WriteOutcome
    decreases me, 4nat, arms, 0nat,
{
    match arms {
        WriteArms::NoMatch => write_err(fault_error(Fault::NoArmSelf), out),
        WriteArms::Arm { tag, variant, body, rest } => if skip > 0 {
            write_arms(prog, me, *rest, (skip - 1) as nat, key, order, ctx, fields, out)
        } else {
            write_arm(prog, me, tag, variant@, body, key, order, ctx, fields, out)
        },
    }
}

/// What running the body of an encode procedure on `subject` yields.
pub open spec fn write_body(
    prog: Seq<Codec>,
    me: nat,
    body: WriteBody,
    order: ByteOrder,
    ctx: Seq<Datum>,
    subject: ValueView,
    out: Seq<bool>,
) -> WriteOutcome
    decreases me, 5nat, body, 0nat,
{
    match body {
        WriteBody::Record(steps) => match subject {
            ValueView::Record(fields) => write_steps(prog, me, steps, order, ctx, fields, 0, out),
            _ => write_err(fault_error(Fault::Mismatch), out),
        },
        WriteBody::Dispatch { tag, arms } => match subject {
            ValueView::Variant(index, fields) => write_arms(
                prog,
                me,
                arms,
                index,
                tag,
                order,
                ctx,
                fields,
                out,
            ),
            _ => write_err(fault_error(Fault::NoArmSelf), out),
        },
    }
}

/// What running the encode procedure at position `me` on `subject` yields: its body,
/// padded to the type's alignment. The context must hold one value for each parameter.
pub open spec fn write_procedure(
    prog: Seq<Codec>,
    me: nat,
    order: ByteOrder,
    ctx: Seq<Datum>,
    subject: ValueView,
    out: Seq<bool>,
) -> WriteOutcome
    decreases me, 6nat, WriteSteps::Done, 0nat,
{
    if me < prog.len() {
        let p = prog[me as int].write;
        if ctx.len() != p.params@.len() {
            write_err(fault_error(Fault::ContextMismatch), out)
        } else {
            write_aligned(
                p.alignment,
                spec_remaining_mut_bytes(out),
                write_body(prog, me, p.body, order, ctx, subject, out),
            )
        }
    } else {
        write_err(fault_error(Fault::NoProcedure), out)
    }
}

} // verus!
