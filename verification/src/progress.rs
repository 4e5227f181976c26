//! The positions of the buffers only move forward: decoding consumes from the front,
//! encoding appends at the back, whether the procedure succeeds or fails.

use crate::bits::ByteOrder;
use crate::decode::{
    pad_read, read_aligned, read_arms, read_body, read_count, read_op, read_procedure, read_scalar,
    read_steps, read_while, ReadOutcome,
};
use crate::encode::{
    pad_write, write_aligned, write_arm, write_arms, write_body, write_each, write_op,
    write_procedure, write_scalar, write_steps, zero_byte, WriteOutcome,
};
use crate::expr::Expr;
use crate::plan::{
    Codec, ReadArmBody, ReadArms, ReadBody, ReadOp, ReadSteps, TagSource, TypeRef, WriteArmBody,
    WriteArms, WriteBody, WriteOp, WriteSteps,
};
use crate::round_trip::extends;
use crate::value::{Datum, ValueView};
use crate::wire::Primitive;
use vstd::prelude::*;

verus! {

/// Whether `rest` is what is left of `bits` after some of its front was consumed.
pub open spec fn is_rest_of(rest: Seq<bool>, bits: Seq<bool>) -> bool {
    rest.len() <= bits.len() && rest == bits.skip(bits.len() - rest.len())
}

/// What is left of what is left is left.
pub proof fn lemma_rest_of_rest(a: Seq<bool>, b: Seq<bool>, c: Seq<bool>)
    requires
        is_rest_of(a, b),
        is_rest_of(b, c),
    ensures
        is_rest_of(a, c),
{
    assert(a =~= c.skip(c.len() - a.len()));
}

/// Everything is left of itself.
pub proof fn lemma_rest_of_itself(a: Seq<bool>)
    ensures
        is_rest_of(a, a),
{
    assert(a =~= a.skip(0));
}

/// Whether `after` is `before` with something appended, its length still countable by
/// the machine if it was.
pub open spec fn grows(before: Seq<bool>, after: Seq<bool>) -> bool {
    extends(before, after) && (before.len() <= usize::MAX ==> after.len() <= usize::MAX)
}

/// Growing is transitive.
pub proof fn lemma_grows_further(a: Seq<bool>, b: Seq<bool>, c: Seq<bool>)
    requires
        grows(a, b),
        grows(b, c),
    ensures
        grows(a, c),
{
    assert(c.take(a.len() as int) =~= c.take(b.len() as int).take(a.len() as int));
}

/// Everything grows to itself.
pub proof fn lemma_grows_to_itself(a: Seq<bool>)
    ensures
        grows(a, a),
{
    assert(a.take(a.len() as int) =~= a);
}

/// Padding consumes from the front.
pub proof fn lemma_pad_read_consumes_the_front(alignment: u64, before: nat, bits: Seq<bool>)
    ensures
        is_rest_of(pad_read(alignment, before, bits).rest, bits),
    decreases bits.len(),
{
    lemma_rest_of_itself(bits);
    if alignment == 0 || crate::decode::consumed_bytes(before, bits) % (alignment as nat) == 0 {
    } else if bits.len() < 8 {
    } else {
        lemma_pad_read_consumes_the_front(alignment, before, bits.skip(8));
        assert(is_rest_of(bits.skip(8), bits)) by {
            assert(bits.skip(8) =~= bits.skip(bits.len() - bits.skip(8).len()));
        }
        lemma_rest_of_rest(pad_read(alignment, before, bits.skip(8)).rest, bits.skip(8), bits);
    }
}

/// Alignment consumes from the front.
pub proof fn lemma_read_aligned_consumes_the_front(
    alignment: Option<u64>,
    before: nat,
    o: ReadOutcome,
    bits: Seq<bool>,
)
    requires
        is_rest_of(o.rest, bits),
    ensures
        is_rest_of(read_aligned(alignment, before, o).rest, bits),
{
    if let Some(a) = alignment {
        lemma_pad_read_consumes_the_front(a, before, o.rest);
        lemma_rest_of_rest(pad_read(a, before, o.rest).rest, o.rest, bits);
    }
}

/// Decoding a primitive consumes from the front.
pub proof fn lemma_read_scalar_consumes_the_front(p: Primitive, order: ByteOrder, bits: Seq<bool>)
    ensures
        is_rest_of(read_scalar(p, order, bits).rest, bits),
{
    lemma_rest_of_itself(bits);
    let n = p.spec_width();
    if bits.len() >= n {
        assert(bits.skip(n as int) =~= bits.skip(bits.len() - bits.skip(n as int).len()));
    }
}

/// Monotonic decoding: whatever an operation does, what it leaves in the buffer is what
/// was there with some of its front consumed.
pub proof fn law_read_op_consumes_the_front(
    prog: Seq<Codec>,
    me: nat,
    op: ReadOp,
    order: ByteOrder,
    ctx: Seq<Datum>,
    fields: Seq<ValueView>,
    bits: Seq<bool>,
)
    ensures
        is_rest_of(read_op(prog, me, op, order, ctx, fields, bits).rest, bits),
    decreases me, 1nat, op, 0nat,
{
    lemma_rest_of_itself(bits);
    match op {
        ReadOp::Assign(_) => {},
        ReadOp::Mapped { raw, .. } => {
            if let Some(p) = raw {
                lemma_read_scalar_consumes_the_front(p, order, bits);
            }
        },
        ReadOp::Decode { ty, args } => {
            match ty {
                TypeRef::Primitive(p) => {
                    lemma_read_scalar_consumes_the_front(p, order, bits);
                },
                TypeRef::Named(callee) => {
                    if callee < me && callee < prog.len() {
                        if let Ok(actuals) = crate::decode::eval_args(
                            args,
                            crate::expr::scope_of(
                                ctx,
                                fields,
                                None,
                                crate::decode::remaining_of(bits),
                            ),
                        ) {
                            law_read_procedure_consumes_the_front(
                                prog,
                                callee as nat,
                                order,
                                actuals,
                                bits,
                            );
                        }
                    }
                },
            }
        },
        ReadOp::Count { count, item } => {
            if let Some(Datum::UInt(n)) = crate::expr::spec_eval(
                count,
                crate::expr::scope_of(ctx, fields, None, crate::decode::remaining_of(bits)),
            ) {
                lemma_read_count_consumes_the_front(
                    prog,
                    me,
                    *item,
                    order,
                    ctx,
                    fields,
                    n,
                    0,
                    bits,
                    Seq::empty(),
                );
            }
        },
        ReadOp::While { pred, item } => {
            lemma_read_while_consumes_the_front(
                prog,
                me,
                *item,
                pred,
                order,
                ctx,
                fields,
                0,
                bits,
                Seq::empty(),
            );
        },
        ReadOp::Assert { inner, .. } => {
            law_read_op_consumes_the_front(prog, me, *inner, order, ctx, fields, bits);
        },
        ReadOp::Fixed { inner, .. } => {
            law_read_op_consumes_the_front(prog, me, *inner, order, ctx, fields, bits);
        },
        ReadOp::Context { inner, .. } => {
            law_read_op_consumes_the_front(prog, me, *inner, order, ctx, fields, bits);
        },
        ReadOp::When { inner, .. } => {
            law_read_op_consumes_the_front(prog, me, *inner, order, ctx, fields, bits);
        },
        ReadOp::Align { alignment, inner } => {
            law_read_op_consumes_the_front(prog, me, *inner, order, ctx, fields, bits);
            lemma_read_aligned_consumes_the_front(
                Some(alignment),
                bits.len() / 8,
                read_op(prog, me, *inner, order, ctx, fields, bits),
                bits,
            );
        },
        ReadOp::After { inner, .. } => {
            law_read_op_consumes_the_front(prog, me, *inner, order, ctx, fields, bits);
        },
    }
}

/// A counted loop consumes from the front.
pub proof fn lemma_read_count_consumes_the_front(
    prog: Seq<Codec>,
    me: nat,
    item: ReadOp,
    order: ByteOrder,
    ctx: Seq<Datum>,
    fields: Seq<ValueView>,
    n: u64,
    idx: u64,
    bits: Seq<bool>,
    acc: Seq<ValueView>,
)
    ensures
        is_rest_of(read_count(prog, me, item, order, ctx, fields, n, idx, bits, acc).rest, bits),
    decreases me, 1nat, item, (n - idx + 1) as nat,
{
    lemma_rest_of_itself(bits);
    if idx < n {
        let o = read_op(prog, me, item, order, ctx, fields, bits);
        law_read_op_consumes_the_front(prog, me, item, order, ctx, fields, bits);
        if let Ok(v) = o.result {
            lemma_read_count_consumes_the_front(
                prog,
                me,
                item,
                order,
                ctx,
                fields,
                n,
                (idx + 1) as u64,
                o.rest,
                acc.push(v),
            );
            lemma_rest_of_rest(
                read_count(
                    prog,
                    me,
                    item,
                    order,
                    ctx,
                    fields,
                    n,
                    (idx + 1) as u64,
                    o.rest,
                    acc.push(v),
                ).rest,
                o.rest,
                bits,
            );
        }
    }
}

/// A predicate loop consumes from the front.
pub proof fn lemma_read_while_consumes_the_front(
    prog: Seq<Codec>,
    me: nat,
    item: ReadOp,
    pred: Expr,
    order: ByteOrder,
    ctx: Seq<Datum>,
    fields: Seq<ValueView>,
    idx: u64,
    bits: Seq<bool>,
    acc: Seq<ValueView>,
)
    ensures
        is_rest_of(
            read_while(prog, me, item, pred, order, ctx, fields, idx, bits, acc).rest,
            bits,
        ),
    decreases me, 1nat, item, bits.len() + 1,
{
    lemma_rest_of_itself(bits);
    let o = read_op(prog, me, item, order, ctx, fields, bits);
    law_read_op_consumes_the_front(prog, me, item, order, ctx, fields, bits);
    if let Ok(v) = o.result {
        if o.rest.len() < bits.len() && idx < u64::MAX {
            lemma_read_while_consumes_the_front(
                prog,
                me,
                item,
                pred,
                order,
                ctx,
                fields,
                (idx + 1) as u64,
                o.rest,
                acc.push(v),
            );
            lemma_rest_of_rest(
                read_while(
                    prog,
                    me,
                    item,
                    pred,
                    order,
                    ctx,
                    fields,
                    (idx + 1) as u64,
                    o.rest,
                    acc.push(v),
                ).rest,
                o.rest,
                bits,
            );
        }
    }
}

/// The reads of fields consume from the front.
pub proof fn lemma_read_steps_consume_the_front(
    prog: Seq<Codec>,
    me: nat,
    steps: ReadSteps,
    order: ByteOrder,
    ctx: Seq<Datum>,
    fields: Seq<ValueView>,
    bits: Seq<bool>,
)
    ensures
        is_rest_of(read_steps(prog, me, steps, order, ctx, fields, bits).rest, bits),
    decreases me, 2nat, steps, 0nat,
{
    lemma_rest_of_itself(bits);
    match steps {
        ReadSteps::Done => {},
        ReadSteps::Bind { target, op, rest } => {
            let o = read_op(prog, me, op, order, ctx, fields, bits);
            law_read_op_consumes_the_front(prog, me, op, order, ctx, fields, bits);
            if let Ok(v) = o.result {
                lemma_read_steps_consume_the_front(
                    prog,
                    me,
                    *rest,
                    order,
                    ctx,
                    fields.push(v),
                    o.rest,
                );
                lemma_rest_of_rest(
                    read_steps(prog, me, *rest, order, ctx, fields.push(v), o.rest).rest,
                    o.rest,
                    bits,
                );
            }
        },
    }
}

/// A tag dispatch consumes from the front.
pub proof fn lemma_read_arms_consume_the_front(
    prog: Seq<Codec>,
    me: nat,
    arms: ReadArms,
    index: nat,
    key: Datum,
    order: ByteOrder,
    ctx: Seq<Datum>,
    bits: Seq<bool>,
)
    ensures
        is_rest_of(read_arms(prog, me, arms, index, key, order, ctx, bits).rest, bits),
    decreases me, 3nat, arms, 0nat,
{
    lemma_rest_of_itself(bits);
    match arms {
        ReadArms::NoMatch => {},
        ReadArms::Arm { tag, variant, body, rest } => {
            match body {
                ReadArmBody::Computed(_) => {},
                ReadArmBody::Fields(steps, _) => {
                    lemma_read_steps_consume_the_front(
                        prog,
                        me,
                        steps,
                        order,
                        ctx,
                        Seq::empty(),
                        bits,
                    );
                },
            }
            lemma_read_arms_consume_the_front(prog, me, *rest, index + 1, key, order, ctx, bits);
        },
    }
}

/// The body of a procedure consumes from the front.
pub proof fn lemma_read_body_consumes_the_front(
    prog: Seq<Codec>,
    me: nat,
    body: ReadBody,
    name: Seq<char>,
    order: ByteOrder,
    ctx: Seq<Datum>,
    bits: Seq<bool>,
)
    ensures
        is_rest_of(read_body(prog, me, body, name, order, ctx, bits).rest, bits),
    decreases me, 4nat, body, 0nat,
{
    lemma_rest_of_itself(bits);
    match body {
        ReadBody::Record(steps, _) => {
            lemma_read_steps_consume_the_front(prog, me, steps, order, ctx, Seq::empty(), bits);
        },
        ReadBody::Dispatch { tag, arms } => match tag {
            TagSource::Typed(p) => {
                let t = read_scalar(p, order, bits);
                lemma_read_scalar_consumes_the_front(p, order, bits);
                if let Ok(ValueView::Scalar(key)) = t.result {
                    lemma_read_arms_consume_the_front(prog, me, arms, 0, key, order, ctx, t.rest);
                    lemma_rest_of_rest(
                        read_arms(prog, me, arms, 0, key, order, ctx, t.rest).rest,
                        t.rest,
                        bits,
                    );
                }
            },
            TagSource::Computed(expr) => {
                if let Some(key) = crate::expr::spec_eval(
                    expr,
                    crate::expr::scope_of(
                        ctx,
                        Seq::empty(),
                        None,
                        crate::decode::remaining_of(bits),
                    ),
                ) {
                    lemma_read_arms_consume_the_front(prog, me, arms, 0, key, order, ctx, bits);
                }
            },
        },
    }
}

/// Monotonic decoding: whatever a procedure does, what it leaves in the buffer is what
/// was there with some of its front consumed.
pub proof fn law_read_procedure_consumes_the_front(
    prog: Seq<Codec>,
    me: nat,
    order: ByteOrder,
    ctx: Seq<Datum>,
    bits: Seq<bool>,
)
    ensures
        is_rest_of(read_procedure(prog, me, order, ctx, bits).rest, bits),
    decreases me, 5nat, ReadSteps::Done, 0nat,
{
    lemma_rest_of_itself(bits);
    if me < prog.len() {
        let p = prog[me as int].read;
        lemma_read_body_consumes_the_front(prog, me, p.body, p.name@, order, ctx, bits);
        lemma_read_aligned_consumes_the_front(
            p.alignment,
            bits.len() / 8,
            read_body(prog, me, p.body, p.name@, order, ctx, bits),
            bits,
        );
    }
}

/// Padding appends.
pub proof fn lemma_pad_write_appends(alignment: u64, before: nat, out: Seq<bool>)
    ensures
        grows(out, pad_write(alignment, before, out).rest),
    decreases usize::MAX - out.len(),
{
    lemma_grows_to_itself(out);
    if alignment == 0 || crate::encode::written_bytes(before, out) % (alignment as nat) == 0 {
    } else if out.len() + 8 > usize::MAX {
    } else {
        let next = out + zero_byte();
        lemma_pad_write_appends(alignment, before, next);
        assert(grows(out, next)) by {
            assert(next.take(out.len() as int) =~= out);
        }
        lemma_grows_further(out, next, pad_write(alignment, before, next).rest);
    }
}

/// Alignment appends.
pub proof fn lemma_write_aligned_appends(
    alignment: Option<u64>,
    before: nat,
    o: WriteOutcome,
    out: Seq<bool>,
)
    requires
        grows(out, o.out),
    ensures
        grows(out, write_aligned(alignment, before, o).out),
{
    if let Some(a) = alignment {
        lemma_pad_write_appends(a, before, o.out);
        lemma_grows_further(out, o.out, pad_write(a, before, o.out).rest);
    }
}

/// Encoding a primitive appends.
pub proof fn lemma_write_scalar_appends(p: Primitive, order: ByteOrder, v: ValueView, out: Seq<bool>)
    ensures
        grows(out, write_scalar(p, order, v, out).out),
{
    lemma_grows_to_itself(out);
    let after = write_scalar(p, order, v, out).out;
    assert(after.take(out.len() as int) =~= out);
}

/// Monotonic encoding: whatever an operation does, what the buffer holds afterwards is
/// what it held with something appended, and its length is still countable by the
/// machine if it was.
pub proof fn law_write_op_appends(
    prog: Seq<Codec>,
    me: nat,
    op: WriteOp,
    order: ByteOrder,
    ctx: Seq<Datum>,
    fields: Seq<ValueView>,
    subject: ValueView,
    out: Seq<bool>,
)
    ensures
        grows(out, write_op(prog, me, op, order, ctx, fields, subject, out).out),
    decreases me, 1nat, op, 0nat,
{
    lemma_grows_to_itself(out);
    match op {
        WriteOp::Encode { ty, args } => {
            match ty {
                TypeRef::Primitive(p) => {
                    lemma_write_scalar_appends(p, order, subject, out);
                },
                TypeRef::Named(callee) => {
                    if callee < me && callee < prog.len() {
                        if let Ok(actuals) = crate::decode::eval_args(
                            args,
                            crate::expr::scope_of(
                                ctx,
                                fields,
                                crate::decode::datum_of(subject),
                                0,
                            ),
                        ) {
                            law_write_procedure_appends(
                                prog,
                                callee as nat,
                                order,
                                actuals,
                                subject,
                                out,
                            );
                        }
                    }
                },
            }
        },
        WriteOp::Mapped { transform, raw, .. } => {
            if let Some(d) = crate::expr::spec_eval(
                transform,
                crate::expr::scope_of(ctx, fields, crate::decode::datum_of(subject), 0),
            ) {
                if let Some(p) = raw {
                    lemma_write_scalar_appends(p, order, ValueView::Scalar(d), out);
                }
            }
        },
        WriteOp::IfPresent { inner } => {
            if let ValueView::Optional(Some(payload)) = subject {
                law_write_op_appends(prog, me, *inner, order, ctx, fields, *payload, out);
            }
        },
        WriteOp::Each { item } => {
            if let ValueView::List(items) = subject {
                lemma_write_each_appends(prog, me, *item, order, ctx, fields, items, 0, out);
            }
        },
        WriteOp::Context { inner, .. } => {
            law_write_op_appends(prog, me, *inner, order, ctx, fields, subject, out);
        },
        WriteOp::Assert { inner, .. } => {
            law_write_op_appends(prog, me, *inner, order, ctx, fields, subject, out);
        },
        WriteOp::Fixed { inner, .. } => {
            law_write_op_appends(prog, me, *inner, order, ctx, fields, subject, out);
        },
        WriteOp::Align { alignment, inner } => {
            law_write_op_appends(prog, me, *inner, order, ctx, fields, subject, out);
            lemma_write_aligned_appends(
                Some(alignment),
                crate::wire::spec_remaining_mut_bytes(out),
                write_op(prog, me, *inner, order, ctx, fields, subject, out),
                out,
            );
        },
        WriteOp::After { inner, .. } => {
            law_write_op_appends(prog, me, *inner, order, ctx, fields, subject, out);
        },
    }
}

/// The writes of the elements of a collection append.
pub proof fn lemma_write_each_appends(
    prog: Seq<Codec>,
    me: nat,
    item: WriteOp,
    order: ByteOrder,
    ctx: Seq<Datum>,
    fields: Seq<ValueView>,
    items: Seq<ValueView>,
    idx: nat,
    out: Seq<bool>,
)
    ensures
        grows(out, write_each(prog, me, item, order, ctx, fields, items, idx, out).out),
    decreases me, 1nat, item, (items.len() - idx + 1) as nat,
{
    lemma_grows_to_itself(out);
    if idx < items.len() {
        let o = write_op(prog, me, item, order, ctx, fields, items[idx as int], out);
        law_write_op_appends(prog, me, item, order, ctx, fields, items[idx as int], out);
        if o.result is Ok {
            lemma_write_each_appends(prog, me, item, order, ctx, fields, items, idx + 1, o.out);
            lemma_grows_further(
                out,
                o.out,
                write_each(prog, me, item, order, ctx, fields, items, idx + 1, o.out).out,
            );
        }
    }
}

/// The writes of fields append.
pub proof fn lemma_write_steps_append(
    prog: Seq<Codec>,
    me: nat,
    steps: WriteSteps,
    order: ByteOrder,
    ctx: Seq<Datum>,
    fields: Seq<ValueView>,
    k: nat,
    out: Seq<bool>,
)
    ensures
        grows(out, write_steps(prog, me, steps, order, ctx, fields, k, out).out),
    decreases me, 2nat, steps, 0nat,
{
    lemma_grows_to_itself(out);
    match steps {
        WriteSteps::Done => {},
        WriteSteps::Put { source, op, rest } => {
            if k < fields.len() {
                let o = write_op(prog, me, op, order, ctx, fields, fields[k as int], out);
                law_write_op_appends(prog, me, op, order, ctx, fields, fields[k as int], out);
                if o.result is Ok {
                    lemma_write_steps_append(prog, me, *rest, order, ctx, fields, k + 1, o.out);
                    lemma_grows_further(
                        out,
                        o.out,
                        write_steps(prog, me, *rest, order, ctx, fields, k + 1, o.out).out,
                    );
                }
            }
        },
    }
}

/// The arm of a variant appends.
pub proof fn lemma_write_arm_appends(
    prog: Seq<Codec>,
    me: nat,
    tag: Expr,
    variant: Seq<char>,
    body: WriteArmBody,
    key: TagSource,
    order: ByteOrder,
    ctx: Seq<Datum>,
    fields: Seq<ValueView>,
    out: Seq<bool>,
)
    ensures
        grows(out, write_arm(prog, me, tag, variant, body, key, order, ctx, fields, out).out),
    decreases me, 3nat, body, 0nat,
{
    lemma_grows_to_itself(out);
    let scope = crate::expr::scope_of(ctx, fields, None, 0);
    let t = match key {
        TagSource::Typed(p) => match crate::expr::spec_eval(tag, scope) {
            Some(d) => write_scalar(p, order, ValueView::Scalar(d), out),
            None => crate::encode::write_err(
                crate::faults::fault_error(crate::faults::Fault::Evaluation),
                out,
            ),
        },
        TagSource::Computed(_) => crate::encode::write_ok(out),
    };
    if let TagSource::Typed(p) = key {
        if let Some(d) = crate::expr::spec_eval(tag, scope) {
            lemma_write_scalar_appends(p, order, ValueView::Scalar(d), out);
        }
    }
    assert(grows(out, t.out));
    if t.result is Ok {
        match body {
            WriteArmBody::Computed(payload, ty) => {
                if let Some(d) = crate::expr::spec_eval(payload, scope) {
                    lemma_write_scalar_appends(ty, order, ValueView::Scalar(d), t.out);
                    lemma_grows_further(
                        out,
                        t.out,
                        write_scalar(ty, order, ValueView::Scalar(d), t.out).out,
                    );
                }
            },
            WriteArmBody::Fields(steps, _) => {
                lemma_write_steps_append(prog, me, steps, order, ctx, fields, 0, t.out);
                lemma_grows_further(
                    out,
                    t.out,
                    write_steps(prog, me, steps, order, ctx, fields, 0, t.out).out,
                );
            },
        }
    }
}

/// The dispatch on the variant appends.
pub proof fn lemma_write_arms_append(
    prog: Seq<Codec>,
    me: nat,
    arms: WriteArms,
    skip: nat,
    key: TagSource,
    order: ByteOrder,
    ctx: Seq<Datum>,
    fields: Seq<ValueView>,
    out: Seq<bool>,
)
    ensures
        grows(out, write_arms(prog, me, arms, skip, key, order, ctx, fields, out).out),
    decreases me, 4nat, arms, 0nat,
{
    lemma_grows_to_itself(out);
    match arms {
        WriteArms::NoMatch => {},
        WriteArms::Arm { tag, variant, body, rest } => {
            if skip > 0 {
                lemma_write_arms_append(
                    prog,
                    me,
                    *rest,
                    (skip - 1) as nat,
                    key,
                    order,
                    ctx,
                    fields,
                    out,
                );
            } else {
                lemma_write_arm_appends(prog, me, tag, variant@, body, key, order, ctx, fields, out);
            }
        },
    }
}

/// The body of a procedure appends.
pub proof fn lemma_write_body_appends(
    prog: Seq<Codec>,
    me: nat,
    body: WriteBody,
    order: ByteOrder,
    ctx: Seq<Datum>,
    subject: ValueView,
    out: Seq<bool>,
)
    ensures
        grows(out, write_body(prog, me, body, order, ctx, subject, out).out),
    decreases me, 5nat, body, 0nat,
{
    lemma_grows_to_itself(out);
    match body {
        WriteBody::Record(steps) => {
            if let ValueView::Record(fields) = subject {
                lemma_write_steps_append(prog, me, steps, order, ctx, fields, 0, out);
            }
        },
        WriteBody::Dispatch { tag, arms } => {
            if let ValueView::Variant(index, fields) = subject {
                lemma_write_arms_append(prog, me, arms, index, tag, order, ctx, fields, out);
            }
        },
    }
}

/// Monotonic encoding: whatever a procedure does, what the buffer holds afterwards is
/// what it held with something appended, and its length is still countable by the
/// machine if it was.
pub proof fn law_write_procedure_appends(
    prog: Seq<Codec>,
    me: nat,
    order: ByteOrder,
    ctx: Seq<Datum>,
    subject: ValueView,
    out: Seq<bool>,
)
    ensures
        grows(out, write_procedure(prog, me, order, ctx, subject, out).out),
    decreases me, 6nat, WriteSteps::Done, 0nat,
{
    lemma_grows_to_itself(out);
    if me < prog.len() {
        let p = prog[me as int].write;
        lemma_write_body_appends(prog, me, p.body, order, ctx, subject, out);
        lemma_write_aligned_appends(
            p.alignment,
            crate::wire::spec_remaining_mut_bytes(out),
            write_body(prog, me, p.body, order, ctx, subject, out),
            out,
        );
    }
}

} // verus!
