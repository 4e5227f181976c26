//! Decoding: what running a decode procedure over a bit string yields.

use crate::bits::ByteOrder;
use crate::error::ParselyErrorView;
use crate::expr::{scope_of, spec_eval, Expr, ScopeView};
use crate::faults::{assertion_failure, fault_error, fixed_failure, Fault};
use crate::member::MemberView;
use crate::plan::{
    label_text, Args, Codec, Label, ReadArmBody, ReadArms, ReadBody, ReadOp, ReadSteps, TagSource,
    TypeRef,
};
use crate::value::{Datum, ValueView};
use crate::wire::{spec_read_primitive, Primitive};
use vstd::prelude::*;

verus! {

/// What a read yields: a value or a failure, and the bits that are left either way.
pub struct ReadOutcome {
    pub result: Result<ValueView, ParselyErrorView>,
    pub rest: Seq<bool>,
}

/// What the reads of a record's fields yield: the fields or a failure, and the bits that
/// are left either way.
pub struct FieldsOutcome {
    pub result: Result<Seq<ValueView>, ParselyErrorView>,
    pub rest: Seq<bool>,
}

/// Whole bytes left in `bits`, as the scalar that expressions see.
pub open spec fn remaining_of(bits: Seq<bool>) -> u64 {
    (bits.len() / 8) as u64
}

/// The scalar that a value is, if it is one.
pub open spec fn datum_of(v: ValueView) -> Option<Datum> {
    match v {
        ValueView::Scalar(d) => Some(d),
        _ => None,
    }
}

/// A successful read.
pub open spec fn read_ok(v: ValueView, rest: Seq<bool>) -> ReadOutcome {
    ReadOutcome { result: Ok(v), rest }
}

/// A failed read.
pub open spec fn read_err(e: ParselyErrorView, rest: Seq<bool>) -> ReadOutcome {
    ReadOutcome { result: Err(e), rest }
}

/// The outcome with `label` attached to its failure, if it is one.
pub open spec fn read_in_context(o: ReadOutcome, label: Seq<char>) -> ReadOutcome {
    match o.result {
        Ok(_) => o,
        Err(e) => read_err(e.with_context(label), o.rest),
    }
}

/// The values of context arguments, in order; the first that has no value raises under
/// its own label.
pub open spec fn eval_args(args: Args, scope: ScopeView) -> Result<Seq<Datum>, ParselyErrorView>
    decreases args,
{
    match args {
        Args::Nil => Ok(Seq::empty()),
        Args::Cons { expr, label, rest } => match spec_eval(expr, scope) {
            None => Err(fault_error(Fault::Evaluation).with_context(label_text(label))),
            Some(d) => match eval_args(*rest, scope) {
                Ok(ds) => Ok(seq![d] + ds),
                Err(e) => Err(e),
            },
        },
    }
}

/// Decoding one primitive: its value and the bits left, or the failure.
pub open spec fn read_scalar(p: Primitive, order: ByteOrder, bits: Seq<bool>) -> ReadOutcome {
    if !p.wf() {
        read_err(fault_error(Fault::UnsupportedWidth), bits)
    } else {
        match spec_read_primitive(p, order, bits) {
            Some((d, rest)) => read_ok(ValueView::Scalar(d), rest),
            None => read_err(fault_error(Fault::EndOfData), bits),
        }
    }
}

/// Bytes consumed between a point with `before` whole bytes left and `bits`.
pub open spec fn consumed_bytes(before: nat, bits: Seq<bool>) -> nat {
    if before >= bits.len() / 8 {
        (before - bits.len() / 8) as nat
    } else {
        0
    }
}

/// What consuming padding yields: whether the buffer ran out first, and the bits left.
pub struct PadOutcome {
    pub failed: bool,
    pub rest: Seq<bool>,
}

/// Consuming padding: single bytes are consumed until the bytes consumed since `before`
/// whole bytes were left are a multiple of `alignment`, or until no whole byte is left. An
/// alignment of zero asks for no padding.
pub open spec fn pad_read(alignment: u64, before: nat, bits: Seq<bool>) -> PadOutcome
    decreases bits.len(),
{
    if alignment == 0 || consumed_bytes(before, bits) % (alignment as nat) == 0 {
        PadOutcome { failed: false, rest: bits }
    } else if bits.len() < 8 {
        PadOutcome { failed: true, rest: bits }
    } else {
        pad_read(alignment, before, bits.skip(8))
    }
}

/// The failure of padding that ran out of bytes: it is raised under `padding`.
pub open spec fn padding_failure() -> ParselyErrorView {
    fault_error(Fault::EndOfData).with_context(label_text(Label::Padding))
}

/// The outcome `o` of a read that began with `before` whole bytes left, padded to
/// `alignment` if there is one and the read succeeded.
pub open spec fn read_aligned(alignment: Option<u64>, before: nat, o: ReadOutcome) -> ReadOutcome {
    match (alignment, o.result) {
        (Some(a), Ok(v)) => {
            let p = pad_read(a, before, o.rest);
            if p.failed {
                read_err(padding_failure(), p.rest)
            } else {
                read_ok(v, p.rest)
            }
        },
        _ => o,
    }
}

/// The outcome of an assigned expression: its value; the buffer is not touched.
pub open spec fn assign_outcome(expr: Expr, scope: ScopeView, bits: Seq<bool>) -> ReadOutcome {
    match spec_eval(expr, scope) {
        Some(d) => read_ok(ValueView::Scalar(d), bits),
        None => read_err(fault_error(Fault::Evaluation), bits),
    }
}

/// Decoding the raw value of a mapping: as the named primitive; without one the type is
/// not known here and the read raises without touching the buffer.
pub open spec fn read_raw(raw: Option<Primitive>, order: ByteOrder, bits: Seq<bool>) -> ReadOutcome {
    match raw {
        Some(p) => read_scalar(p, order, bits),
        None => read_err(fault_error(Fault::Evaluation), bits),
    }
}

/// The outcome of a mapped read: the raw primitive is decoded under `Reading raw value for
/// field '<name>'`, then transformed under `Mapping raw value for field '<name>'`.
pub open spec fn mapped_outcome(
    raw: Option<Primitive>,
    transform: Expr,
    field: MemberView,
    order: ByteOrder,
    ctx: Seq<Datum>,
    fields: Seq<ValueView>,
    bits: Seq<bool>,
) -> ReadOutcome {
    let o = read_in_context(
        read_raw(raw, order, bits),
        crate::text::spec_join3("Reading raw value for field '"@, field.friendly(), "'"@),
    );
    match o.result {
        Ok(v) => match spec_eval(
            transform,
            scope_of(ctx, fields, datum_of(v), remaining_of(o.rest)),
        ) {
            Some(d) => read_ok(ValueView::Scalar(d), o.rest),
            None => read_err(
                fault_error(Fault::Evaluation).with_context(
                    crate::text::spec_join3(
                        "Mapping raw value for field '"@,
                        field.friendly(),
                        "'"@,
                    ),
                ),
                o.rest,
            ),
        },
        Err(_) => o,
    }
}

/// The outcome `o` after its value was held against an assertion.
pub open spec fn assert_outcome(
    o: ReadOutcome,
    predicate: Expr,
    source: Seq<char>,
    field: MemberView,
    ctx: Seq<Datum>,
    fields: Seq<ValueView>,
) -> ReadOutcome {
    match o.result {
        Ok(v) => match spec_eval(
            predicate,
            scope_of(ctx, fields, datum_of(v), remaining_of(o.rest)),
        ) {
            Some(Datum::Bool(true)) => o,
            Some(Datum::Bool(false)) => read_err(assertion_failure(field, v, source), o.rest),
            _ => read_err(fault_error(Fault::Evaluation), o.rest),
        },
        Err(_) => o,
    }
}

/// The outcome `o` after its value was held against a fixed literal.
pub open spec fn fixed_outcome(o: ReadOutcome, expected: Datum) -> ReadOutcome {
    match o.result {
        Ok(v) => if v == ValueView::Scalar(expected) {
            o
        } else {
            read_err(fixed_failure(expected, v), o.rest)
        },
        Err(_) => o,
    }
}

/// The outcome `o` with its value as a present optional.
pub open spec fn present_outcome(o: ReadOutcome) -> ReadOutcome {
    match o.result {
        Ok(v) => read_ok(ValueView::Optional(Some(Box::new(v))), o.rest),
        Err(_) => o,
    }
}

/// The outcome `o` after a hook was evaluated with its value as input.
pub open spec fn after_outcome(
    o: ReadOutcome,
    hook: Expr,
    ctx: Seq<Datum>,
    fields: Seq<ValueView>,
) -> ReadOutcome {
    match o.result {
        Ok(v) => match spec_eval(hook, scope_of(ctx, fields, datum_of(v), remaining_of(o.rest))) {
            Some(_) => o,
            None => read_err(fault_error(Fault::Evaluation), o.rest),
        },
        Err(_) => o,
    }
}

/// What running one read operation yields. `prog` is the program, `me` the position of
/// the procedure that the operation belongs to, `ctx` that procedure's parameters and
/// `fields` the fields bound so far.
pub open spec fn read_op(
    prog: Seq<Codec>,
    me: nat,
    op: ReadOp,
    order: ByteOrder,
    ctx: Seq<Datum>,
    fields: Seq<ValueView>,
    bits: Seq<bool>,
) -> ReadOutcome
    decreases me, 1nat, op, 0nat,
{
    let scope = scope_of(ctx, fields, None, remaining_of(bits));
    match op {
        ReadOp::Assign(expr) => assign_outcome(expr, scope, bits),
        ReadOp::Mapped { raw, transform, field } => mapped_outcome(
            raw,
            transform,
            field@,
            order,
            ctx,
            fields,
            bits,
        ),
        ReadOp::Decode { ty, args } => match eval_args(args, scope) {
            Err(e) => read_err(e, bits),
            Ok(actuals) => match ty {
                TypeRef::Primitive(p) => read_scalar(p, order, bits),
                TypeRef::Named(callee) => if callee < me && callee < prog.len() {
                    read_procedure(prog, callee as nat, order, actuals, bits)
                } else {
                    read_err(fault_error(Fault::NoProcedure), bits)
                },
            },
        },
        ReadOp::Count { count, item } => match spec_eval(count, scope) {
            Some(Datum::UInt(n)) => read_count(
                prog,
                me,
                *item,
                order,
                ctx,
                fields,
                n,
                0,
                bits,
                Seq::empty(),
            ),
            _ => read_err(fault_error(Fault::Evaluation), bits),
        },
        ReadOp::While { pred, item } => read_while(
            prog,
            me,
            *item,
            pred,
            order,
            ctx,
            fields,
            0,
            bits,
            Seq::empty(),
        ),
        ReadOp::Assert { inner, assertion, field } => assert_outcome(
            read_op(prog, me, *inner, order, ctx, fields, bits),
            assertion.predicate,
            assertion.source@,
            field@,
            ctx,
            fields,
        ),
        ReadOp::Fixed { inner, expected } => fixed_outcome(
            read_op(prog, me, *inner, order, ctx, fields, bits),
            expected,
        ),
        ReadOp::Context { label, inner } => read_in_context(
            read_op(prog, me, *inner, order, ctx, fields, bits),
            label_text(label),
        ),
        ReadOp::When { guard, inner } => match spec_eval(guard, scope) {
            Some(Datum::Bool(true)) => present_outcome(
                read_op(prog, me, *inner, order, ctx, fields, bits),
            ),
            Some(Datum::Bool(false)) => read_ok(ValueView::Optional(None), bits),
            _ => read_err(fault_error(Fault::Evaluation), bits),
        },
        ReadOp::Align { alignment, inner } => read_aligned(
            Some(alignment),
            bits.len() / 8,
            read_op(prog, me, *inner, order, ctx, fields, bits),
        ),
        ReadOp::After { inner, hook } => after_outcome(
            read_op(prog, me, *inner, order, ctx, fields, bits),
            hook,
            ctx,
            fields,
        ),
    }
}

/// The rounds of a counted loop from round `idx` on: `item` is run until `n` rounds are
/// done; a failure in a round is raised under `Index <round>`.
pub open spec fn read_count(
    prog: Seq<Codec>,
    me: nat,
    item: ReadOp,
    order: ByteOrder,
    ctx: Seq<Datum>,
    fields: Seq<ValueView>,
    n: u64,
    idx: u64,
    bits: Seq<bool>,
    acc: Seq<ValueView>,
) -> ReadOutcome
    decreases me, 1nat, item, (n - idx + 1) as nat,
{
    if idx >= n {
        read_ok(ValueView::List(acc), bits)
    } else {
        let o = read_op(prog, me, item, order, ctx, fields, bits);
        match o.result {
            Ok(v) => read_count(
                prog,
                me,
                item,
                order,
                ctx,
                fields,
                n,
                (idx + 1) as u64,
                o.rest,
                acc.push(v),
            ),
            Err(e) => read_err(e.with_context(label_text(Label::Index(idx))), o.rest),
        }
    }
}

/// The rounds of a predicate loop from round `idx` on: before each round the predicate is
/// evaluated; while it holds `item` is run. A failure in a round is raised under
/// `Read <round>`; a round that consumes nothing raises, since the loop could not end.
pub open spec fn read_while(
    prog: Seq<Codec>,
    me: nat,
    item: ReadOp,
    pred: Expr,
    order: ByteOrder,
    ctx: Seq<Datum>,
    fields: Seq<ValueView>,
    idx: u64,
    bits: Seq<bool>,
    acc: Seq<ValueView>,
) -> ReadOutcome
    decreases me, 1nat, item, bits.len() + 1,
{
    match spec_eval(pred, scope_of(ctx, fields, None, remaining_of(bits))) {
        Some(Datum::Bool(false)) => read_ok(ValueView::List(acc), bits),
        Some(Datum::Bool(true)) => {
            let o = read_op(prog, me, item, order, ctx, fields, bits);
            match o.result {
                Ok(v) => if o.rest.len() < bits.len() && idx < u64::MAX {
                    read_while(
                        prog,
                        me,
                        item,
                        pred,
                        order,
                        ctx,
                        fields,
                        (idx + 1) as u64,
                        o.rest,
                        acc.push(v),
                    )
                } else {
                    read_err(
                        fault_error(Fault::NoProgress).with_context(label_text(Label::Read(idx))),
                        o.rest,
                    )
                },
                Err(e) => read_err(e.with_context(label_text(Label::Read(idx))), o.rest),
            }
        },
        _ => read_err(fault_error(Fault::Evaluation), bits),
    }
}

/// The reads of a record's or variant's fields from the first of `steps` on; `fields`
/// holds those bound before.
pub open spec fn read_steps(
    prog: Seq<Codec>,
    me: nat,
    steps: ReadSteps,
    order: ByteOrder,
    ctx: Seq<Datum>,
    fields: Seq<ValueView>,
    bits: Seq<bool>,
) -> FieldsOutcome
    decreases me, 2nat, steps, 0nat,
{
    match steps {
        ReadSteps::Done => FieldsOutcome { result: Ok(fields), rest: bits },
        ReadSteps::Bind { target, op, rest } => {
            let o = read_op(prog, me, op, order, ctx, fields, bits);
            match o.result {
                Ok(v) => read_steps(prog, me, *rest, order, ctx, fields.push(v), o.rest),
                Err(e) => FieldsOutcome { result: Err(e), rest: o.rest },
            }
        },
    }
}

/// The dispatch over the arms from the first of `arms` on, which stands for the variant
/// at position `index`: the first arm whose tag equals `key` yields the value.
pub open spec fn read_arms(
    prog: Seq<Codec>,
    me: nat,
    arms: ReadArms,
    index: nat,
    key: Datum,
    order: ByteOrder,
    ctx: Seq<Datum>,
    bits: Seq<bool>,
) -> ReadOutcome
    decreases me, 3nat, arms, 0nat,
{
    let scope = scope_of(ctx, Seq::empty(), None, remaining_of(bits));
    match arms {
        ReadArms::NoMatch => read_err(fault_error(Fault::NoArmValue), bits),
        ReadArms::Arm { tag, variant, body, rest } => match spec_eval(tag, scope) {
            None => read_err(fault_error(Fault::Evaluation), bits),
            Some(t) => if t == key {
                match body {
                    ReadArmBody::Computed(payload) => match spec_eval(payload, scope) {
                        Some(d) => read_ok(
                            ValueView::Variant(index, seq![ValueView::Scalar(d)]),
                            bits,
                        ),
                        None => read_err(fault_error(Fault::Evaluation), bits),
                    },
                    ReadArmBody::Fields(steps, _) => {
                        let o = read_steps(prog, me, steps, order, ctx, Seq::empty(), bits);
                        match o.result {
                            Ok(fs) => read_ok(ValueView::Variant(index, fs), o.rest),
                            Err(e) => read_err(e, o.rest),
                        }
                    },
                }
            } else if index >= usize::MAX {
                read_err(fault_error(Fault::NoArmValue), bits)
            } else {
                read_arms(prog, me, *rest, index + 1, key, order, ctx, bits)
            },
        },
    }
}

/// What running the body of a decode procedure yields. `name` is the name of the type.
pub open spec fn read_body(
    prog: Seq<Codec>,
    me: nat,
    body: ReadBody,
    name: Seq<char>,
    order: ByteOrder,
    ctx: Seq<Datum>,
    bits: Seq<bool>,
) -> ReadOutcome
    decreases me, 4nat, body, 0nat,
{
    match body {
        ReadBody::Record(steps, _) => {
            let o = read_steps(prog, me, steps, order, ctx, Seq::empty(), bits);
            match o.result {
                Ok(fs) => read_ok(ValueView::Record(fs), o.rest),
                Err(e) => read_err(e, o.rest),
            }
        },
        ReadBody::Dispatch { tag, arms } => match tag {
            TagSource::Typed(p) => {
                let t = read_in_context(
                    read_scalar(p, order, bits),
                    spec_tag_label(name),
                );
                match t.result {
                    Ok(ValueView::Scalar(key)) => read_arms(
                        prog,
                        me,
                        arms,
                        0,
                        key,
                        order,
                        ctx,
                        t.rest,
                    ),
                    _ => t,
                }
            },
            TagSource::Computed(expr) => match spec_eval(
                expr,
                scope_of(ctx, Seq::empty(), None, remaining_of(bits)),
            ) {
                Some(key) => read_arms(prog, me, arms, 0, key, order, ctx, bits),
                None => read_err(fault_error(Fault::Evaluation), bits),
            },
        },
    }
}

/// `Tag for enum '<name>'`
pub open spec fn spec_tag_label(name: Seq<char>) -> Seq<char> {
    crate::text::spec_join3("Tag for enum '"@, name, "'"@)
}

/// What running the decode procedure at position `me` yields: its body, padded to the
/// type's alignment. The context must hold one value for each parameter.
pub open spec fn read_procedure(
    prog: Seq<Codec>,
    me: nat,
    order: ByteOrder,
    ctx: Seq<Datum>,
    bits: Seq<bool>,
) -> ReadOutcome
    decreases me, 5nat, ReadSteps::Done, 0nat,
{
    if me < prog.len() {
        let p = prog[me as int].read;
        if ctx.len() != p.params@.len() {
            read_err(fault_error(Fault::ContextMismatch), bits)
        } else {
            read_aligned(
                p.alignment,
                bits.len() / 8,
                read_body(prog, me, p.body, p.name@, order, ctx, bits),
            )
        }
    } else {
        read_err(fault_error(Fault::NoProcedure), bits)
    }
}

} // verus!
