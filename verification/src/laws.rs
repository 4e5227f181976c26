//! What holds of every schema, value and buffer: the laws of decoding, encoding and
//! synchronizing.

use crate::bits::ByteOrder;
use crate::context::spec_args;
use crate::decode::{
    consumed_bytes, eval_args, pad_read, present_outcome, read_arms, read_body, read_count,
    read_in_context, read_ok, read_op, read_procedure, read_scalar, read_steps, remaining_of,
};
use crate::encode::{pad_write, write_op, written_bytes, zero_byte};
use crate::error::{ErrorKind, ParselyErrorView};
use crate::expr::{scope_of, spec_eval, BinOp, Expr, ScopeView};
use crate::plan::{
    label_text, Args, Codec, Label, ReadArmBody, ReadArms, ReadBody, ReadOp, ReadSteps, SyncOp,
    SyncSteps, TypeRef,
};
use crate::read_gen::{shape_of_style, spec_read_steps};
use crate::schema::{CollectionLimit, ParselyReadFieldData, ParselyReadStructData, TypeClass};
use crate::sync::{
    sync_procedure, sync_procedure_reached, sync_step, sync_step_reached, sync_steps,
    sync_steps_reached,
};
use crate::value::{Datum, ValueView};
use crate::wire::Primitive;
use crate::write_gen::spec_labelled_encode;
use vstd::prelude::*;

verus! {

/// A field that is read from the buffer as its own type and nothing else: no assigned
/// expression, mapping, custom reader, context, assertion, alignment or hook.
pub open spec fn reads_plainly(f: ParselyReadFieldData) -> bool {
    &&& f.wf()
    &&& f.assign_from is None
    &&& f.common.map is None
    &&& f.reader is None
    &&& f.common.context is None
    &&& f.common.assertion is None
    &&& f.common.alignment is None
    &&& f.common.after is None
}

/// Where the value that was read differs from the fixed literal, the read fails with the
/// fixed-value error.
pub proof fn law_fixed_value_is_enforced(
    prog: Seq<Codec>,
    me: nat,
    inner: ReadOp,
    expected: Datum,
    order: ByteOrder,
    ctx: Seq<Datum>,
    fields: Seq<ValueView>,
    bits: Seq<bool>,
)
    requires
        read_op(prog, me, inner, order, ctx, fields, bits).result matches Ok(v) && v
            != ValueView::Scalar(expected),
    ensures
        read_op(
            prog,
            me,
            ReadOp::Fixed { inner: Box::new(inner), expected },
            order,
            ctx,
            fields,
            bits,
        ).result matches Err(e) && e.kind == ErrorKind::FixedValue,
{
}

/// A plainly read primitive field that is fixed to a literal fails with the fixed-value
/// error on every buffer that holds another value.
pub proof fn law_fixed_field_rejects_other_values(
    prog: Seq<Codec>,
    me: nat,
    f: ParselyReadFieldData,
    order: ByteOrder,
    ctx: Seq<Datum>,
    fields: Seq<ValueView>,
    bits: Seq<bool>,
)
    requires
        reads_plainly(f),
        f.common.ty is Scalar,
        f.common.fixed is Some,
        read_scalar(f.common.ty->Scalar_0, order, bits).result matches Ok(v) && v
            != ValueView::Scalar(f.common.fixed->Some_0),
    ensures
        read_op(prog, me, f.spec_read_op(), order, ctx, fields, bits).result matches Err(e)
            && e.kind == ErrorKind::FixedValue,
{
    let p = f.common.ty->Scalar_0;
    let expected = f.common.fixed->Some_0;
    let source = ReadOp::Decode { ty: TypeRef::Primitive(p), args: Args::Nil };
    assert(f.spec_value_source() == source);
    assert(f.spec_checked() == ReadOp::Fixed { inner: Box::new(source), expected });
    assert(f.spec_read_op() == ReadOp::Context {
        label: Label::ReadingField(f.common.ident),
        inner: Box::new(f.spec_checked()),
    });
    assert(read_op(prog, me, source, order, ctx, fields, bits) == read_scalar(p, order, bits));
    law_fixed_value_is_enforced(prog, me, source, expected, order, ctx, fields, bits);
    reveal_with_fuel(read_op, 2);
}

/// What a field yields before it is held against its fixed value: the value source under
/// the declared assertion.
pub open spec fn before_the_fixed_value(f: ParselyReadFieldData) -> ReadOp {
    match f.common.assertion {
        Some(assertion) => ReadOp::Assert {
            inner: Box::new(f.spec_value_source()),
            assertion,
            field: f.common.ident,
        },
        None => f.spec_value_source(),
    }
}

/// Whatever else is declared for it, a field with a fixed value fails with the
/// fixed-value error wherever what is read for it is another value, whatever follows in
/// the buffer. An optional whose guard is false is not read, and so not held against the
/// value.
pub proof fn law_fixed_field_fails_on_any_other_value(
    prog: Seq<Codec>,
    me: nat,
    f: ParselyReadFieldData,
    order: ByteOrder,
    ctx: Seq<Datum>,
    fields: Seq<ValueView>,
    bits: Seq<bool>,
)
    requires
        f.wf(),
        f.common.fixed is Some,
        read_op(prog, me, before_the_fixed_value(f), order, ctx, fields, bits).result matches Ok(
            v,
        ) && v != ValueView::Scalar(f.common.fixed->Some_0),
        f.when is Some ==> spec_eval(
            f.when->Some_0,
            scope_of(ctx, fields, None, remaining_of(bits)),
        ) == Some(Datum::Bool(true)),
    ensures
        read_op(prog, me, f.spec_read_op(), order, ctx, fields, bits).result matches Err(e)
            && e.kind == ErrorKind::FixedValue,
{
    let expected = f.common.fixed->Some_0;
    let asserted = before_the_fixed_value(f);
    let checked = ReadOp::Fixed { inner: Box::new(asserted), expected };
    assert(f.spec_checked() == checked);
    law_fixed_value_is_enforced(prog, me, asserted, expected, order, ctx, fields, bits);
    let failed = read_op(prog, me, checked, order, ctx, fields, bits);
    let labelled = read_op(prog, me, f.spec_labelled(), order, ctx, fields, bits);
    assert(labelled == read_in_context(failed, label_text(Label::ReadingField(f.common.ident))));
    assert(labelled.result matches Err(e) && e.kind == ErrorKind::FixedValue);
    let guarded = read_op(prog, me, f.spec_guarded(), order, ctx, fields, bits);
    assert(guarded.result == labelled.result) by {
        if f.common.ty.spec_is_option() && f.common.map is None && f.when is Some {
            assert(guarded == present_outcome(labelled));
        }
    }
    let padded = read_op(prog, me, f.spec_padded(), order, ctx, fields, bits);
    assert(padded.result == guarded.result) by {
        if let Some(alignment) = f.common.alignment {
            assert(padded == crate::decode::read_aligned(
                Some(alignment),
                bits.len() / 8,
                guarded,
            ));
        }
    }
    assert(read_op(prog, me, f.spec_read_op(), order, ctx, fields, bits).result
        == padded.result) by {
        if let Some(hook) = f.common.after {
            assert(read_op(prog, me, f.spec_read_op(), order, ctx, fields, bits)
                == crate::decode::after_outcome(padded, hook, ctx, fields));
        }
    }
}

/// A field that fails makes the record fail with the same failure: no record is produced.
pub proof fn law_failed_field_fails_the_record(
    prog: Seq<Codec>,
    me: nat,
    target: crate::member::Member,
    op: ReadOp,
    rest: ReadSteps,
    order: ByteOrder,
    ctx: Seq<Datum>,
    fields: Seq<ValueView>,
    bits: Seq<bool>,
)
    requires
        read_op(prog, me, op, order, ctx, fields, bits).result is Err,
    ensures
        read_steps(
            prog,
            me,
            ReadSteps::Bind { target, op, rest: Box::new(rest) },
            order,
            ctx,
            fields,
            bits,
        ).result == Err::<Seq<ValueView>, ParselyErrorView>(
            read_op(prog, me, op, order, ctx, fields, bits).result->Err_0,
        ),
{
}

/// A record whose fields fail is not produced: the procedure, handed a context that
/// matches its parameters, fails with the same failure, whatever its alignment.
pub proof fn law_failed_fields_fail_the_procedure(
    prog: Seq<Codec>,
    me: nat,
    order: ByteOrder,
    ctx: Seq<Datum>,
    bits: Seq<bool>,
)
    requires
        me < prog.len(),
        ctx.len() == prog[me as int].read.params@.len(),
        prog[me as int].read.body matches ReadBody::Record(steps, _) && read_steps(
            prog,
            me,
            steps,
            order,
            ctx,
            Seq::empty(),
            bits,
        ).result is Err,
    ensures
        read_procedure(prog, me, order, ctx, bits).result == Err::<ValueView, ParselyErrorView>(
            read_steps(
                prog,
                me,
                prog[me as int].read.body->Record_0,
                order,
                ctx,
                Seq::empty(),
                bits,
            ).result->Err_0,
        ),
{
}

/// Where the guard of an optional is false, the value is absent and no bit is consumed.
pub proof fn law_optional_is_absent_when_guard_is_false(
    prog: Seq<Codec>,
    me: nat,
    f: ParselyReadFieldData,
    order: ByteOrder,
    ctx: Seq<Datum>,
    fields: Seq<ValueView>,
    bits: Seq<bool>,
)
    requires
        reads_plainly(f),
        f.common.fixed is None,
        f.common.ty is Optional,
        spec_eval(f.when->Some_0, scope_of(ctx, fields, None, remaining_of(bits))) == Some(
            Datum::Bool(false),
        ),
    ensures
        read_op(prog, me, f.spec_read_op(), order, ctx, fields, bits) == read_ok(
            ValueView::Optional(None),
            bits,
        ),
{
}

/// Where the guard of an optional is true, the value is what reading the inner type
/// yields, and exactly the bits of that read are consumed.
pub proof fn law_optional_is_present_when_guard_is_true(
    prog: Seq<Codec>,
    me: nat,
    f: ParselyReadFieldData,
    order: ByteOrder,
    ctx: Seq<Datum>,
    fields: Seq<ValueView>,
    bits: Seq<bool>,
)
    requires
        reads_plainly(f),
        f.common.fixed is None,
        f.common.ty is Optional,
        spec_eval(f.when->Some_0, scope_of(ctx, fields, None, remaining_of(bits))) == Some(
            Datum::Bool(true),
        ),
    ensures
        read_op(prog, me, f.spec_read_op(), order, ctx, fields, bits) == present_outcome(
            read_in_context(
                read_op(
                    prog,
                    me,
                    ReadOp::Decode { ty: f.common.ty->Optional_0, args: Args::Nil },
                    order,
                    ctx,
                    fields,
                    bits,
                ),
                label_text(Label::ReadingField(f.common.ident)),
            ),
        ),
{
    reveal_with_fuel(read_op, 2);
}

/// An optional primitive that is present consumes exactly its width.
pub proof fn law_present_primitive_consumes_its_width(
    prog: Seq<Codec>,
    me: nat,
    f: ParselyReadFieldData,
    order: ByteOrder,
    ctx: Seq<Datum>,
    fields: Seq<ValueView>,
    bits: Seq<bool>,
)
    requires
        reads_plainly(f),
        f.common.fixed is None,
        f.common.ty matches TypeClass::Optional(TypeRef::Primitive(p)) && bits.len()
            >= p.spec_width(),
        spec_eval(f.when->Some_0, scope_of(ctx, fields, None, remaining_of(bits))) == Some(
            Datum::Bool(true),
        ),
    ensures
        ({
            let o = read_op(prog, me, f.spec_read_op(), order, ctx, fields, bits);
            let p = f.common.ty->Optional_0->Primitive_0;
            &&& o.result matches Ok(ValueView::Optional(Some(_)))
            &&& o.rest == bits.skip(p.spec_width() as int)
        }),
{
    law_optional_is_present_when_guard_is_true(prog, me, f, order, ctx, fields, bits);
    reveal_with_fuel(read_op, 2);
}

/// A counted loop that succeeds yields a list of exactly as many elements as the count
/// says.
pub proof fn law_count_yields_exactly_the_count(
    prog: Seq<Codec>,
    me: nat,
    item: ReadOp,
    order: ByteOrder,
    ctx: Seq<Datum>,
    fields: Seq<ValueView>,
    n: u64,
    idx: u64,
    bits: Seq<bool>,
    acc: Seq<ValueView>,
)
    requires
        idx <= n,
        acc.len() == idx,
        read_count(prog, me, item, order, ctx, fields, n, idx, bits, acc).result is Ok,
    ensures
        read_count(prog, me, item, order, ctx, fields, n, idx, bits, acc).result matches Ok(
            ValueView::List(items),
        ) && items.len() == n,
    decreases n - idx,
{
    if idx < n {
        let o = read_op(prog, me, item, order, ctx, fields, bits);
        law_count_yields_exactly_the_count(
            prog,
            me,
            item,
            order,
            ctx,
            fields,
            n,
            (idx + 1) as u64,
            o.rest,
            acc.push(o.result->Ok_0),
        );
    }
}

/// A counted loop that succeeds yields its elements in the order in which they were
/// read: the elements collected so far come first, and the next one is what the item
/// yields on the bits that are left.
pub proof fn law_count_keeps_the_order_of_reading(
    prog: Seq<Codec>,
    me: nat,
    item: ReadOp,
    order: ByteOrder,
    ctx: Seq<Datum>,
    fields: Seq<ValueView>,
    n: u64,
    idx: u64,
    bits: Seq<bool>,
    acc: Seq<ValueView>,
)
    requires
        idx <= n,
        acc.len() == idx,
        read_count(prog, me, item, order, ctx, fields, n, idx, bits, acc).result is Ok,
    ensures
        ({
            let o = read_count(prog, me, item, order, ctx, fields, n, idx, bits, acc);
            let first = read_op(prog, me, item, order, ctx, fields, bits);
            &&& o.result->Ok_0 is List
            &&& o.result->Ok_0->List_0.len() == n
            &&& o.result->Ok_0->List_0.take(idx as int) == acc
            &&& idx < n ==> first.result is Ok && o.result->Ok_0->List_0[idx as int]
                == first.result->Ok_0
        }),
    decreases n - idx,
{
    let o = read_count(prog, me, item, order, ctx, fields, n, idx, bits, acc);
    if idx < n {
        let first = read_op(prog, me, item, order, ctx, fields, bits);
        let next = acc.push(first.result->Ok_0);
        law_count_keeps_the_order_of_reading(
            prog,
            me,
            item,
            order,
            ctx,
            fields,
            n,
            (idx + 1) as u64,
            first.rest,
            next,
        );
        let items = o.result->Ok_0->List_0;
        assert(items.take(idx + 1) == next);
        assert(items[idx as int] == items.take(idx + 1)[idx as int]);
        assert(items.take(idx as int) =~= items.take(idx + 1).take(idx as int));
        assert(next.take(idx as int) =~= acc);
    } else {
        assert(acc.take(idx as int) =~= acc);
    }
}

/// Where enough bits are left, a counted loop over a primitive succeeds and consumes
/// exactly the count times the width; what follows is left unconsumed.
pub proof fn law_counted_primitives_consume_their_widths(
    prog: Seq<Codec>,
    me: nat,
    p: Primitive,
    order: ByteOrder,
    ctx: Seq<Datum>,
    fields: Seq<ValueView>,
    n: u64,
    idx: u64,
    bits: Seq<bool>,
    acc: Seq<ValueView>,
)
    requires
        p.wf(),
        idx <= n,
        bits.len() >= (n - idx) * p.spec_width(),
    ensures
        ({
            let item = ReadOp::Decode { ty: TypeRef::Primitive(p), args: Args::Nil };
            let o = read_count(prog, me, item, order, ctx, fields, n, idx, bits, acc);
            &&& o.result is Ok
            &&& o.rest == bits.skip((n - idx) * p.spec_width())
        }),
    decreases n - idx,
{
    let item = ReadOp::Decode { ty: TypeRef::Primitive(p), args: Args::Nil };
    let w = p.spec_width() as int;
    if idx < n {
        assert((n - idx) * w == w + (n - idx - 1) * w) by (nonlinear_arith);
        assert((n - idx - 1) * w >= 0) by (nonlinear_arith)
            requires
                idx < n,
                w >= 0,
        ;
        let o = read_op(prog, me, item, order, ctx, fields, bits);
        assert(o == read_scalar(p, order, bits));
        assert(o.result is Ok && o.rest == bits.skip(w));
        law_counted_primitives_consume_their_widths(
            prog,
            me,
            p,
            order,
            ctx,
            fields,
            n,
            (idx + 1) as u64,
            o.rest,
            acc.push(o.result->Ok_0),
        );
        assert(n - (idx + 1) as u64 == n - idx - 1);
        assert(bits.skip(w).skip((n - idx - 1) * w) =~= bits.skip((n - idx) * w));
    } else {
        assert((n - idx) * w == 0) by (nonlinear_arith)
            requires
                n == idx,
        ;
        assert(bits.skip(0) =~= bits);
    }
}

/// Padding that is consumed with success leaves the bytes consumed since the start a
/// multiple of the alignment, and consumes whole bytes from the front only.
pub proof fn law_read_padding_aligns(alignment: u64, before: nat, bits: Seq<bool>)
    requires
        alignment >= 1,
        !pad_read(alignment, before, bits).failed,
    ensures
        consumed_bytes(before, pad_read(alignment, before, bits).rest) % (alignment as nat) == 0,
        pad_read(alignment, before, bits).rest.len() <= bits.len(),
        (bits.len() - pad_read(alignment, before, bits).rest.len()) % 8 == 0,
        pad_read(alignment, before, bits).rest == bits.skip(
            bits.len() - pad_read(alignment, before, bits).rest.len(),
        ),
    decreases bits.len(),
{
    if consumed_bytes(before, bits) % (alignment as nat) == 0 {
        assert(bits.skip(0) =~= bits);
    } else {
        law_read_padding_aligns(alignment, before, bits.skip(8));
        let rest = pad_read(alignment, before, bits.skip(8)).rest;
        assert(bits.skip(8).skip(bits.skip(8).len() - rest.len()) =~= bits.skip(
            bits.len() - rest.len(),
        ));
    }
}

/// Padding that is emitted with success leaves the bytes written since the start a
/// multiple of the alignment, and what it appends is zero bits only.
pub proof fn law_write_padding_aligns(alignment: u64, before: nat, out: Seq<bool>)
    requires
        alignment >= 1,
        !pad_write(alignment, before, out).failed,
    ensures
        written_bytes(before, pad_write(alignment, before, out).rest) % (alignment as nat) == 0,
        pad_write(alignment, before, out).rest.len() >= out.len(),
        pad_write(alignment, before, out).rest.take(out.len() as int) == out,
        forall|i: int|
            out.len() <= i < pad_write(alignment, before, out).rest.len() ==> !pad_write(
                alignment,
                before,
                out,
            ).rest[i],
    decreases usize::MAX - out.len(),
{
    if written_bytes(before, out) % (alignment as nat) == 0 {
        assert(out.take(out.len() as int) =~= out);
    } else {
        let next = out + zero_byte();
        law_write_padding_aligns(alignment, before, next);
        let last = pad_write(alignment, before, next).rest;
        assert(last.take(out.len() as int) =~= last.take(next.len() as int).take(
            out.len() as int,
        ));
        assert(next.take(out.len() as int) =~= out);
        assert forall|i: int| out.len() <= i < last.len() implies !last[i] by {
            if i < next.len() {
                assert(last[i] == last.take(next.len() as int)[i]);
                assert(next[i] == zero_byte()[i - out.len()]);
            }
        }
    }
}

/// An expression that refers to parameters and literals only.
pub open spec fn reads_parameters_only(e: Expr) -> bool
    decreases e,
{
    match e {
        Expr::Lit(_) => true,
        Expr::Flag(_) => true,
        Expr::Ctx(_) => true,
        Expr::Not(a) => reads_parameters_only(*a),
        Expr::Binary(_, a, b) => reads_parameters_only(*a) && reads_parameters_only(*b),
        _ => false,
    }
}

/// The value of an expression over parameters only does not depend on anything else.
pub proof fn lemma_parameters_only(e: Expr, a: ScopeView, b: ScopeView)
    requires
        reads_parameters_only(e),
        a.ctx == b.ctx,
    ensures
        spec_eval(e, a) == spec_eval(e, b),
    decreases e,
{
    match e {
        Expr::Not(x) => {
            lemma_parameters_only(*x, a, b);
        },
        Expr::Binary(_, x, y) => {
            lemma_parameters_only(*x, a, b);
            lemma_parameters_only(*y, a, b);
        },
        _ => {},
    }
}

/// Synchronizing the field at position `k` changes no other field and not the number of
/// fields.
pub proof fn lemma_sync_step_touches_one_field(
    prog: Seq<Codec>,
    me: nat,
    op: SyncOp,
    ctx: Seq<Datum>,
    fields: Seq<ValueView>,
    k: nat,
)
    requires
        k < fields.len(),
        sync_step(prog, me, op, ctx, fields, k) is Ok,
    ensures
        sync_step(prog, me, op, ctx, fields, k)->Ok_0.len() == fields.len(),
        forall|i: int|
            0 <= i < fields.len() && i != k ==> sync_step(prog, me, op, ctx, fields, k)->Ok_0[i]
                == fields[i],
{
}

/// The synchronize steps from position `k` on leave the fields before `k` and the number
/// of fields as they are.
pub proof fn lemma_sync_keeps_earlier_fields(
    prog: Seq<Codec>,
    me: nat,
    steps: SyncSteps,
    ctx: Seq<Datum>,
    fields: Seq<ValueView>,
    k: nat,
)
    requires
        sync_steps(prog, me, steps, ctx, fields, k) is Ok,
    ensures
        sync_steps(prog, me, steps, ctx, fields, k)->Ok_0.len() == fields.len(),
        forall|i: int|
            0 <= i < k && i < fields.len() ==> sync_steps(prog, me, steps, ctx, fields, k)->Ok_0[i]
                == fields[i],
    decreases steps,
{
    match steps {
        SyncSteps::Done => {},
        SyncSteps::Step { op, rest } => {
            let next = sync_step(prog, me, op, ctx, fields, k)->Ok_0;
            lemma_sync_step_touches_one_field(prog, me, op, ctx, fields, k);
            lemma_sync_keeps_earlier_fields(prog, me, *rest, ctx, next, k + 1);
            let last = sync_steps(prog, me, *rest, ctx, next, k + 1)->Ok_0;
            assert(sync_steps(prog, me, steps, ctx, fields, k) == Ok::<
                Seq<ValueView>,
                ParselyErrorView,
            >(last));
            assert forall|i: int| 0 <= i < k && i < fields.len() implies last[i] == fields[i] by {
                assert(last[i] == next[i]);
            }
        },
    }
}

/// After the synchronization steps from position `k` on have run, the field at `k`, if
/// it is synchronized from an expression over the arguments, holds exactly that
/// expression's value, whatever any field held before.
pub proof fn law_sync_assigns_the_derived_value(
    prog: Seq<Codec>,
    me: nat,
    expr: Expr,
    field: crate::member::Member,
    rest: SyncSteps,
    ctx: Seq<Datum>,
    fields: Seq<ValueView>,
    k: nat,
)
    requires
        k < fields.len(),
        reads_parameters_only(expr),
        sync_steps(
            prog,
            me,
            SyncSteps::Step { op: SyncOp::Assign { expr, field }, rest: Box::new(rest) },
            ctx,
            fields,
            k,
        ) is Ok,
    ensures
        spec_eval(expr, scope_of(ctx, Seq::empty(), None, 0)) is Some,
        sync_steps(
            prog,
            me,
            SyncSteps::Step { op: SyncOp::Assign { expr, field }, rest: Box::new(rest) },
            ctx,
            fields,
            k,
        )->Ok_0[k as int] == ValueView::Scalar(
            spec_eval(expr, scope_of(ctx, Seq::empty(), None, 0))->Some_0,
        ),
{
    lemma_parameters_only(
        expr,
        scope_of(ctx, fields, None, 0),
        scope_of(ctx, Seq::empty(), None, 0),
    );
    let op = SyncOp::Assign { expr, field };
    let next = sync_step(prog, me, op, ctx, fields, k)->Ok_0;
    lemma_sync_keeps_earlier_fields(prog, me, rest, ctx, next, k + 1);
    let last = sync_steps(prog, me, rest, ctx, next, k + 1)->Ok_0;
    assert(last[k as int] == next[k as int]);
}

/// Failures name their field: whatever goes wrong while the value of a field is read or
/// checked, the failure leaves the field under the context `Reading field '<name>'`, put
/// on outside every context that it passed before.
pub proof fn law_read_failures_name_the_field(
    prog: Seq<Codec>,
    me: nat,
    f: ParselyReadFieldData,
    order: ByteOrder,
    ctx: Seq<Datum>,
    fields: Seq<ValueView>,
    bits: Seq<bool>,
)
    requires
        read_op(prog, me, f.spec_labelled(), order, ctx, fields, bits).result is Err,
    ensures
        ({
            let e = read_op(prog, me, f.spec_labelled(), order, ctx, fields, bits).result->Err_0;
            e.context.len() > 0 && e.context.last() == label_text(
                Label::ReadingField(f.common.ident),
            )
        }),
{
}

/// Failures name their field: whatever goes wrong while a primitive, nested or optional
/// field without a mapping is written, the failure leaves the field under the context
/// `Writing field '<name>'`, put on outside every context that it passed before.
pub proof fn law_write_failures_name_the_field(
    prog: Seq<Codec>,
    me: nat,
    ty: TypeRef,
    args: Args,
    ident: crate::member::Member,
    order: ByteOrder,
    ctx: Seq<Datum>,
    fields: Seq<ValueView>,
    subject: ValueView,
    out: Seq<bool>,
)
    requires
        write_op(
            prog,
            me,
            spec_labelled_encode(ty, args, ident),
            order,
            ctx,
            fields,
            subject,
            out,
        ).result is Err,
    ensures
        ({
            let e = write_op(
                prog,
                me,
                spec_labelled_encode(ty, args, ident),
                order,
                ctx,
                fields,
                subject,
                out,
            ).result->Err_0;
            e.context.len() > 0 && e.context.last() == label_text(Label::WritingField(ident))
        }),
{
}

/// Collections may be empty: a count of zero yields the empty list and consumes nothing.
pub proof fn law_count_of_zero_is_empty(
    prog: Seq<Codec>,
    me: nat,
    count: Expr,
    item: ReadOp,
    order: ByteOrder,
    ctx: Seq<Datum>,
    fields: Seq<ValueView>,
    bits: Seq<bool>,
)
    requires
        spec_eval(count, scope_of(ctx, fields, None, remaining_of(bits))) == Some(Datum::UInt(0)),
    ensures
        read_op(
            prog,
            me,
            ReadOp::Count { count, item: Box::new(item) },
            order,
            ctx,
            fields,
            bits,
        ) == read_ok(ValueView::List(Seq::empty()), bits),
{
    assert(read_count(prog, me, item, order, ctx, fields, 0, 0, bits, Seq::empty()) == read_ok(
        ValueView::List(Seq::empty()),
        bits,
    ));
}

/// Collections may be empty: a predicate that does not hold at the start yields the empty
/// list and consumes nothing; no terminator is read.
pub proof fn law_while_not_entered_is_empty(
    prog: Seq<Codec>,
    me: nat,
    pred: Expr,
    item: ReadOp,
    order: ByteOrder,
    ctx: Seq<Datum>,
    fields: Seq<ValueView>,
    bits: Seq<bool>,
)
    requires
        spec_eval(pred, scope_of(ctx, fields, None, remaining_of(bits))) == Some(
            Datum::Bool(false),
        ),
    ensures
        read_op(
            prog,
            me,
            ReadOp::While { pred, item: Box::new(item) },
            order,
            ctx,
            fields,
            bits,
        ) == read_ok(ValueView::List(Seq::empty()), bits),
{
    assert(crate::decode::read_while(
        prog,
        me,
        item,
        pred,
        order,
        ctx,
        fields,
        0,
        bits,
        Seq::empty(),
    ) == read_ok(ValueView::List(Seq::empty()), bits));
}

/// The first match wins: an arm whose tag equals the discriminant decides the outcome,
/// whatever arms follow it.
pub proof fn law_first_matching_arm_wins(
    prog: Seq<Codec>,
    me: nat,
    tag: Expr,
    variant: String,
    body: ReadArmBody,
    rest: ReadArms,
    other: ReadArms,
    index: nat,
    key: Datum,
    order: ByteOrder,
    ctx: Seq<Datum>,
    bits: Seq<bool>,
)
    requires
        spec_eval(tag, scope_of(ctx, Seq::empty(), None, remaining_of(bits))) == Some(key),
    ensures
        read_arms(
            prog,
            me,
            ReadArms::Arm { tag, variant, body, rest: Box::new(rest) },
            index,
            key,
            order,
            ctx,
            bits,
        ) == read_arms(
            prog,
            me,
            ReadArms::Arm { tag, variant, body, rest: Box::new(other) },
            index,
            key,
            order,
            ctx,
            bits,
        ),
{
}

/// No match is an error: where no arm is left, the dispatch fails with the
/// no-arm-matched error and consumes nothing.
pub proof fn law_no_matching_arm_is_an_error(
    prog: Seq<Codec>,
    me: nat,
    index: nat,
    key: Datum,
    order: ByteOrder,
    ctx: Seq<Datum>,
    bits: Seq<bool>,
)
    ensures
        read_arms(prog, me, ReadArms::NoMatch, index, key, order, ctx, bits).result matches Err(
            e,
        ) && e.kind == ErrorKind::NoArmMatched,
        read_arms(prog, me, ReadArms::NoMatch, index, key, order, ctx, bits).rest == bits,
{
}

/// The procedure of a nested type runs with exactly the values that the context
/// expressions have in the enclosing scope, in their order.
pub proof fn law_context_reaches_the_nested_procedure(
    prog: Seq<Codec>,
    me: nat,
    callee: usize,
    args: Args,
    order: ByteOrder,
    ctx: Seq<Datum>,
    fields: Seq<ValueView>,
    bits: Seq<bool>,
)
    requires
        callee < me,
        callee < prog.len(),
        eval_args(args, scope_of(ctx, fields, None, remaining_of(bits))) is Ok,
    ensures
        read_op(
            prog,
            me,
            ReadOp::Decode { ty: TypeRef::Named(callee), args },
            order,
            ctx,
            fields,
            bits,
        ) == read_procedure(
            prog,
            callee as nat,
            order,
            eval_args(args, scope_of(ctx, fields, None, remaining_of(bits)))->Ok_0,
            bits,
        ),
{
}

/// Half of the first parameter of the enclosing record, rounded down.
pub open spec fn half_of_the_parameter() -> Expr {
    Expr::Binary(BinOp::Div, Box::new(Expr::Ctx(0)), Box::new(Expr::Lit(2)))
}

/// A field that is read as the record at `callee` and nothing else, and hands half of the
/// first parameter of its own record on to it.
pub open spec fn hands_on_half(f: ParselyReadFieldData, callee: usize) -> bool {
    &&& f.assign_from is None
    &&& f.common.map is None
    &&& f.reader is None
    &&& f.common.assertion is None
    &&& f.common.fixed is None
    &&& f.common.alignment is None
    &&& f.common.after is None
    &&& f.common.ty == TypeClass::Other(callee)
    &&& f.common.context is Some
    &&& f.common.context->Some_0.0@ == seq![half_of_the_parameter()]
}

/// A record of one parameter and one collection, which has as many elements as the
/// parameter says.
pub open spec fn counts_by_its_parameter(r: ParselyReadStructData) -> bool {
    &&& r.required_context.0@.len() == 1
    &&& r.alignment is None
    &&& r.fields@.len() == 1
    &&& reads_plainly(r.fields@[0])
    &&& r.fields@[0].common.fixed is None
    &&& r.fields@[0].common.ty is Collection
    &&& r.fields@[0].collection_limit == Some(CollectionLimit::Count(Expr::Ctx(0)))
}

/// Where a record is handed `size` and hands half of it on to a nested record that counts
/// its collection by what it is handed, a read that succeeds yields a nested collection
/// of exactly `size / 2` elements, rounded down.
pub proof fn law_nested_collection_has_half_the_outer_size(
    prog: Seq<Codec>,
    me: nat,
    callee: usize,
    outer: ParselyReadFieldData,
    inner: ParselyReadStructData,
    order: ByteOrder,
    size: u64,
    fields: Seq<ValueView>,
    bits: Seq<bool>,
)
    requires
        callee < me,
        callee < prog.len(),
        hands_on_half(outer, callee),
        counts_by_its_parameter(inner),
        prog[callee as int].read.params@ == inner.required_context.0@,
        prog[callee as int].read.alignment == inner.alignment,
        prog[callee as int].read.body == ReadBody::Record(
            spec_read_steps(inner.fields@, 0),
            shape_of_style(inner.style),
        ),
        read_op(
            prog,
            me,
            outer.spec_read_op(),
            order,
            seq![Datum::UInt(size)],
            fields,
            bits,
        ).result is Ok,
    ensures
        ({
            let o = read_op(
                prog,
                me,
                outer.spec_read_op(),
                order,
                seq![Datum::UInt(size)],
                fields,
                bits,
            );
            &&& o.result matches Ok(ValueView::Record(fs))
            &&& fs.len() == 1
            &&& fs[0] is List
            &&& fs[0]->List_0.len() == size / 2
        }),
{
    let ctx = seq![Datum::UInt(size)];
    let scope = scope_of(ctx, fields, None, remaining_of(bits));
    let half = Datum::UInt(size / 2);
    let label = Label::ReadContext(outer.common.ident);
    let args = spec_args(outer.common.context->Some_0.0@, label, 0);
    reveal_with_fuel(spec_args, 3);
    reveal_with_fuel(eval_args, 3);
    reveal_with_fuel(spec_eval, 3);
    assert(spec_eval(half_of_the_parameter(), scope) == Some(half));
    assert(eval_args(args, scope) == Ok::<Seq<Datum>, ParselyErrorView>(seq![half])) by {
        assert(seq![half] + Seq::<Datum>::empty() =~= seq![half]);
    }
    let decode = ReadOp::Decode { ty: TypeRef::Named(callee), args };
    assert(outer.spec_read_op() == ReadOp::Context {
        label: Label::ReadingField(outer.common.ident),
        inner: Box::new(decode),
    });
    reveal_with_fuel(read_op, 3);
    let nested = read_procedure(prog, callee as nat, order, seq![half], bits);
    assert(read_op(prog, me, decode, order, ctx, fields, bits) == nested);
    assert(nested.result is Ok);
    let field = inner.fields@[0];
    let steps = spec_read_steps(inner.fields@, 0);
    reveal_with_fuel(spec_read_steps, 3);
    reveal_with_fuel(read_steps, 3);
    let item = ReadOp::Decode { ty: field.common.ty.spec_buffer_type(), args: Args::Nil };
    let counted = ReadOp::Count { count: Expr::Ctx(0), item: Box::new(item) };
    assert(field.spec_read_op() == ReadOp::Context {
        label: Label::ReadingField(field.common.ident),
        inner: Box::new(counted),
    });
    let start = scope_of(seq![half], Seq::empty(), None, remaining_of(bits));
    assert(spec_eval(Expr::Ctx(0), start) == Some(half));
    let rounds = read_count(
        prog,
        callee as nat,
        item,
        order,
        seq![half],
        Seq::empty(),
        (size / 2) as u64,
        0,
        bits,
        Seq::empty(),
    );
    assert(read_op(prog, callee as nat, counted, order, seq![half], Seq::empty(), bits) == rounds);
    let read = read_op(
        prog,
        callee as nat,
        field.spec_read_op(),
        order,
        seq![half],
        Seq::empty(),
        bits,
    );
    assert(read == read_in_context(rounds, label_text(Label::ReadingField(field.common.ident))));
    let body = read_body(
        prog,
        callee as nat,
        prog[callee as int].read.body,
        prog[callee as int].read.name@,
        order,
        seq![half],
        bits,
    );
    assert(body.result is Ok);
    assert(rounds.result is Ok);
    law_count_yields_exactly_the_count(
        prog,
        callee as nat,
        item,
        order,
        seq![half],
        Seq::empty(),
        (size / 2) as u64,
        0,
        bits,
        Seq::empty(),
    );
    assert(Seq::<ValueView>::empty().push(read.result->Ok_0).len() == 1);
}

/// Where synchronizing one field succeeds, the fields as it leaves them are its result.
pub proof fn lemma_sync_step_reaches_its_result(
    prog: Seq<Codec>,
    me: nat,
    op: SyncOp,
    ctx: Seq<Datum>,
    fields: Seq<ValueView>,
    k: nat,
)
    requires
        sync_step(prog, me, op, ctx, fields, k) is Ok,
    ensures
        sync_step_reached(prog, me, op, ctx, fields, k) == sync_step(
            prog,
            me,
            op,
            ctx,
            fields,
            k,
        )->Ok_0,
    decreases me, 1nat, op, 0nat,
{
    let scope = scope_of(ctx, fields, None, 0);
    match op {
        SyncOp::Delegate { ty, args, field } => {
            if let Ok(actuals) = eval_args(args, scope) {
                if let TypeRef::Named(callee) = ty {
                    if callee < me && callee < prog.len() {
                        lemma_sync_procedure_reaches_its_result(
                            prog,
                            callee as nat,
                            actuals,
                            fields[k as int],
                        );
                    }
                }
            }
        },
        _ => {},
    }
}

/// Where the synchronize steps succeed, the fields as they leave them are their result.
pub proof fn lemma_sync_steps_reach_their_result(
    prog: Seq<Codec>,
    me: nat,
    steps: SyncSteps,
    ctx: Seq<Datum>,
    fields: Seq<ValueView>,
    k: nat,
)
    requires
        sync_steps(prog, me, steps, ctx, fields, k) is Ok,
    ensures
        sync_steps_reached(prog, me, steps, ctx, fields, k) == sync_steps(
            prog,
            me,
            steps,
            ctx,
            fields,
            k,
        )->Ok_0,
    decreases me, 2nat, steps, 0nat,
{
    match steps {
        SyncSteps::Done => {},
        SyncSteps::Step { op, rest } => {
            lemma_sync_step_reaches_its_result(prog, me, op, ctx, fields, k);
            let next = sync_step(prog, me, op, ctx, fields, k)->Ok_0;
            lemma_sync_steps_reach_their_result(prog, me, *rest, ctx, next, k + 1);
        },
    }
}

/// Where a synchronize procedure succeeds, the value as it leaves it is its result.
pub proof fn lemma_sync_procedure_reaches_its_result(
    prog: Seq<Codec>,
    me: nat,
    ctx: Seq<Datum>,
    subject: ValueView,
)
    requires
        sync_procedure(prog, me, ctx, subject) is Ok,
    ensures
        sync_procedure_reached(prog, me, ctx, subject) == sync_procedure(
            prog,
            me,
            ctx,
            subject,
        )->Ok_0,
    decreases me, 3nat, SyncSteps::Done, 0nat,
{
    match prog[me as int].sync.steps {
        SyncSteps::Done => {},
        steps => {
            lemma_sync_steps_reach_their_result(prog, me, steps, ctx, subject->Record_0, 0);
        },
    }
}

/// Whether they succeed or fail, the synchronize steps from position `k` on leave the
/// fields before `k` and the number of fields as they are.
pub proof fn lemma_sync_leaves_earlier_fields(
    prog: Seq<Codec>,
    me: nat,
    steps: SyncSteps,
    ctx: Seq<Datum>,
    fields: Seq<ValueView>,
    k: nat,
)
    ensures
        sync_steps_reached(prog, me, steps, ctx, fields, k).len() == fields.len(),
        forall|i: int|
            0 <= i < k && i < fields.len() ==> sync_steps_reached(
                prog,
                me,
                steps,
                ctx,
                fields,
                k,
            )[i] == fields[i],
    decreases steps,
{
    match steps {
        SyncSteps::Done => {},
        SyncSteps::Step { op, rest } => {
            if k < fields.len() {
                let next = sync_step_reached(prog, me, op, ctx, fields, k);
                assert(next.len() == fields.len());
                assert forall|i: int| 0 <= i < fields.len() && i != k implies next[i]
                    == fields[i] by {}
                if sync_step(prog, me, op, ctx, fields, k) is Ok {
                    lemma_sync_leaves_earlier_fields(prog, me, *rest, ctx, next, k + 1);
                    let last = sync_steps_reached(prog, me, *rest, ctx, next, k + 1);
                    assert forall|i: int| 0 <= i < k && i < fields.len() implies last[i]
                        == fields[i] by {
                        assert(last[i] == next[i]);
                    }
                }
            }
        },
    }
}

/// A failed synchronization undoes nothing: where the field at position `k` was
/// synchronized, it holds its new value in the fields that the run leaves behind,
/// whichever later field fails. Where the field at `k` itself fails by its expression,
/// the run stops there and every field holds what it held before that step.
pub proof fn law_failed_sync_keeps_what_was_synchronized(
    prog: Seq<Codec>,
    me: nat,
    op: SyncOp,
    rest: SyncSteps,
    ctx: Seq<Datum>,
    fields: Seq<ValueView>,
    k: nat,
)
    requires
        k < fields.len(),
    ensures
        ({
            let steps = SyncSteps::Step { op, rest: Box::new(rest) };
            let left = sync_steps_reached(prog, me, steps, ctx, fields, k);
            match sync_step(prog, me, op, ctx, fields, k) {
                Ok(next) => left[k as int] == next[k as int],
                Err(_) => left == sync_step_reached(prog, me, op, ctx, fields, k) && (op is Assign
                    ==> left == fields),
            }
        }),
{
    if sync_step(prog, me, op, ctx, fields, k) is Ok {
        let next = sync_step(prog, me, op, ctx, fields, k)->Ok_0;
        lemma_sync_step_reaches_its_result(prog, me, op, ctx, fields, k);
        lemma_sync_step_touches_one_field(prog, me, op, ctx, fields, k);
        lemma_sync_leaves_earlier_fields(prog, me, rest, ctx, next, k + 1);
    }
}

} // verus!
