//! The induction behind the round-trip law: over the program, the fields of a type and
//! the elements of a collection.

use crate::bits::ByteOrder;
use crate::decode::{
    after_outcome, assert_outcome, eval_args, fixed_outcome, read_aligned, read_arms, read_body,
    read_count, read_err, read_in_context, read_ok, read_op, read_procedure, read_scalar,
    read_steps, remaining_of, FieldsOutcome,
};
use crate::encode::{
    after_write, pad_write, write_aligned, write_arm, write_arms, write_body, write_each,
    write_in_context, write_op, write_procedure, write_scalar, write_steps,
};
use crate::expr::{scope_of, spec_eval};
use crate::plan::{
    label_text, Args, Codec, Label, ReadBody, ReadOp, TagSource, TypeRef, WriteArmBody, WriteBody,
    WriteOp,
};
use crate::read_gen::{spec_read_arms, spec_read_steps};
use crate::round_trip::{
    lemma_read_in_place_within, read_in_place,
    appended, args_look_back, coherent, coherent_field, coherent_fields, coherent_ref, count_of,
    extends, kept_whole, lemma_alignment_round_trip, lemma_args_look_back, lemma_extends_itself,
    lemma_extends_twice, lemma_kept_whole_itself, lemma_kept_whole_twice, lemma_looks_back,
    lemma_scalar_round_trip, mirrored_field, mirrored_fields, mirrored_program, mirrored_variant,
    plain_decode, plain_encode, refers_back, tags_differ, Declaration,
};
use crate::schema::{
    ParselyReadFieldData, ParselyWriteFieldData, ReadVariantView, TypeClass, WriteVariantView,
};
use crate::value::{Datum, ValueView};
use crate::wire::{spec_remaining_mut_bytes, spec_write_primitive};
use crate::write_gen::{spec_write_arms, spec_write_steps};
use vstd::prelude::*;

verus! {

/// The round trip of one value of a type that the field at position `k` of the type at
/// `me` holds, called with the context arguments `args`.
pub proof fn lemma_ref_round_trip(
    prog: Seq<Codec>,
    decls: Seq<Declaration>,
    padded: bool,
    me: nat,
    ty: TypeRef,
    args: Args,
    k: nat,
    order: ByteOrder,
    ctx: Seq<Datum>,
    fs: Seq<ValueView>,
    x: ValueView,
    out: Seq<bool>,
    tail: Seq<bool>,
)
    requires
        mirrored_program(prog, decls, padded),
        read_in_place(order, write_op(prog, me, plain_encode(ty, args), order, ctx, fs, x, out).out, tail),
        me <= prog.len(),
        refers_back(ty, me, padded),
        args_look_back(args, k),
        k <= fs.len(),
        coherent_ref(decls, me, ty, eval_args(args, scope_of(ctx, fs, None, 0)), x),
        padded ==> out.len() <= usize::MAX,
        write_op(prog, me, plain_encode(ty, args), order, ctx, fs, x, out).result is Ok,
    ensures
        extends(out, write_op(prog, me, plain_encode(ty, args), order, ctx, fs, x, out).out),
        kept_whole(
            padded,
            out,
            write_op(prog, me, plain_encode(ty, args), order, ctx, fs, x, out).out,
        ),
        read_op(
            prog,
            me,
            plain_decode(ty, args),
            order,
            ctx,
            fs.take(k as int),
            appended(out, write_op(prog, me, plain_encode(ty, args), order, ctx, fs, x, out).out)
                + tail,
        ) == read_ok(x, tail),
    decreases me, 0nat, 0nat,
{
    let wo = write_op(prog, me, plain_encode(ty, args), order, ctx, fs, x, out);
    let bits = appended(out, wo.out) + tail;
    let shared = scope_of(ctx, fs, None, 0);
    lemma_args_look_back(args, k, scope_of(ctx, fs, crate::decode::datum_of(x), 0), shared);
    lemma_args_look_back(
        args,
        k,
        scope_of(ctx, fs.take(k as int), None, remaining_of(bits)),
        shared,
    );
    let actuals = eval_args(args, shared)->Ok_0;
    match ty {
        TypeRef::Primitive(p) => {
            lemma_scalar_round_trip(padded, p, order, x, out, tail);
        },
        TypeRef::Named(j) => {
            lemma_value_round_trip(prog, decls, padded, j as nat, order, actuals, x, out, tail);
        },
    }
}

/// The round trip of the elements of a counted collection from position `idx` on.
pub proof fn lemma_items_round_trip(
    prog: Seq<Codec>,
    decls: Seq<Declaration>,
    padded: bool,
    me: nat,
    inner: TypeRef,
    args: Args,
    k: nat,
    order: ByteOrder,
    ctx: Seq<Datum>,
    fs: Seq<ValueView>,
    items: Seq<ValueView>,
    idx: nat,
    out: Seq<bool>,
    tail: Seq<bool>,
)
    requires
        mirrored_program(prog, decls, padded),
        read_in_place(order, write_each(prog, me, plain_encode(inner, args), order, ctx, fs, items, idx, out).out, tail),
        me <= prog.len(),
        refers_back(inner, me, padded),
        args_look_back(args, k),
        k <= fs.len(),
        forall|i: int|
            0 <= i < items.len() ==> coherent_ref(
                decls,
                me,
                inner,
                eval_args(args, scope_of(ctx, fs, None, 0)),
                #[trigger] items[i],
            ),
        idx <= items.len() <= u64::MAX,
        padded ==> out.len() <= usize::MAX,
        write_each(prog, me, plain_encode(inner, args), order, ctx, fs, items, idx, out).result
            is Ok,
    ensures
        extends(
            out,
            write_each(prog, me, plain_encode(inner, args), order, ctx, fs, items, idx, out).out,
        ),
        kept_whole(
            padded,
            out,
            write_each(prog, me, plain_encode(inner, args), order, ctx, fs, items, idx, out).out,
        ),
        read_count(
            prog,
            me,
            plain_decode(inner, args),
            order,
            ctx,
            fs.take(k as int),
            items.len() as u64,
            idx as u64,
            appended(
                out,
                write_each(prog, me, plain_encode(inner, args), order, ctx, fs, items, idx, out).out,
            ) + tail,
            items.take(idx as int),
        ) == read_ok(ValueView::List(items), tail),
    decreases me, 1nat, items.len() - idx,
{
    let last = write_each(prog, me, plain_encode(inner, args), order, ctx, fs, items, idx, out).out;
    if idx >= items.len() {
        lemma_extends_itself(out, tail);
        lemma_kept_whole_itself(padded, out);
        assert(items.take(idx as int) =~= items);
    } else {
        let x = items[idx as int];
        let one = write_op(prog, me, plain_encode(inner, args), order, ctx, fs, x, out);
        crate::progress::law_write_op_appends(
            prog,
            me,
            plain_encode(inner, args),
            order,
            ctx,
            fs,
            x,
            out,
        );
        lemma_items_round_trip(
            prog,
            decls,
            padded,
            me,
            inner,
            args,
            k,
            order,
            ctx,
            fs,
            items,
            idx + 1,
            one.out,
            tail,
        );
        let later = appended(one.out, last) + tail;
        lemma_read_in_place_within(order, one.out, last, tail);
        lemma_ref_round_trip(
            prog,
            decls,
            padded,
            me,
            inner,
            args,
            k,
            order,
            ctx,
            fs,
            x,
            out,
            later,
        );
        lemma_extends_twice(out, one.out, last);
        lemma_kept_whole_twice(padded, out, one.out, last);
        assert(appended(out, last) + tail =~= appended(out, one.out) + later);
        assert(items.take(idx as int).push(x) =~= items.take(idx + 1 as int));
    }
}

/// The round trip of an optional field at position `k`, without alignment and hook.
pub proof fn lemma_optional_round_trip(
    prog: Seq<Codec>,
    decls: Seq<Declaration>,
    padded: bool,
    me: nat,
    r: ParselyReadFieldData,
    w: ParselyWriteFieldData,
    k: nat,
    order: ByteOrder,
    ctx: Seq<Datum>,
    fs: Seq<ValueView>,
    out: Seq<bool>,
    tail: Seq<bool>,
)
    requires
        mirrored_program(prog, decls, padded),
        read_in_place(order, write_op(prog, me, w.spec_checked_write(), order, ctx, fs, fs[k as int], out).out, tail),
        me < prog.len(),
        mirrored_field(r, w, k, me, padded),
        r.common.ty is Optional,
        k < fs.len(),
        coherent_field(decls, me, r, ctx, fs, k as int),
        padded ==> out.len() <= usize::MAX,
        write_op(prog, me, w.spec_checked_write(), order, ctx, fs, fs[k as int], out).result is Ok,
    ensures
        extends(
            out,
            write_op(prog, me, w.spec_checked_write(), order, ctx, fs, fs[k as int], out).out,
        ),
        kept_whole(
            padded,
            out,
            write_op(prog, me, w.spec_checked_write(), order, ctx, fs, fs[k as int], out).out,
        ),
        read_op(
            prog,
            me,
            r.spec_guarded(),
            order,
            ctx,
            fs.take(k as int),
            appended(
                out,
                write_op(prog, me, w.spec_checked_write(), order, ctx, fs, fs[k as int], out).out,
            ) + tail,
        ) == read_ok(fs[k as int], tail),
    decreases me, 2nat, 0nat,
{
    let inner = r.common.ty->Optional_0;
    let subject = fs[k as int];
    let before = fs.take(k as int);
    let wop = w.spec_checked_write();
    let wo = write_op(prog, me, wop, order, ctx, fs, subject, out);
    let bits = appended(out, wo.out) + tail;
    let rlabel = Label::ReadingField(r.common.ident);
    let wlabel = Label::WritingField(w.common.ident);
    let guard = r.when->Some_0;
    let args = r.common.spec_context_values();
    let wrapped = WriteOp::Context { label: wlabel, inner: Box::new(plain_encode(inner, args)) };
    assert(wop == WriteOp::IfPresent { inner: Box::new(wrapped) });
    let labelled = ReadOp::Context { label: rlabel, inner: Box::new(plain_decode(inner, args)) };
    assert(r.spec_labelled() == labelled);
    assert(r.spec_guarded() == ReadOp::When { guard, inner: Box::new(labelled) });
    lemma_looks_back(
        guard,
        k,
        false,
        scope_of(ctx, before, None, remaining_of(bits)),
        scope_of(ctx, fs, None, 0),
    );
    match subject {
        ValueView::Optional(None) => {
            assert(wo.out == out);
            lemma_extends_itself(out, tail);
            lemma_kept_whole_itself(padded, out);
        },
        ValueView::Optional(Some(x)) => {
            let inner_wo = write_op(prog, me, plain_encode(inner, args), order, ctx, fs, *x, out);
            assert(write_op(prog, me, wrapped, order, ctx, fs, *x, out) == write_in_context(
                inner_wo,
                label_text(wlabel),
            ));
            assert(wo == write_op(prog, me, wrapped, order, ctx, fs, *x, out));
            lemma_ref_round_trip(
                prog,
                decls,
                padded,
                me,
                inner,
                args,
                k,
                order,
                ctx,
                fs,
                *x,
                out,
                tail,
            );
            assert(read_op(prog, me, labelled, order, ctx, before, bits) == read_in_context(
                read_op(prog, me, plain_decode(inner, args), order, ctx, before, bits),
                label_text(rlabel),
            ));
        },
        _ => {},
    }
}

/// The round trip of a counted collection field at position `k`, without alignment and
/// hook.
pub proof fn lemma_collection_round_trip(
    prog: Seq<Codec>,
    decls: Seq<Declaration>,
    padded: bool,
    me: nat,
    r: ParselyReadFieldData,
    w: ParselyWriteFieldData,
    k: nat,
    order: ByteOrder,
    ctx: Seq<Datum>,
    fs: Seq<ValueView>,
    out: Seq<bool>,
    tail: Seq<bool>,
)
    requires
        mirrored_program(prog, decls, padded),
        read_in_place(order, write_op(prog, me, w.spec_checked_write(), order, ctx, fs, fs[k as int], out).out, tail),
        me < prog.len(),
        mirrored_field(r, w, k, me, padded),
        r.common.ty is Collection,
        k < fs.len(),
        coherent_field(decls, me, r, ctx, fs, k as int),
        padded ==> out.len() <= usize::MAX,
        write_op(prog, me, w.spec_checked_write(), order, ctx, fs, fs[k as int], out).result is Ok,
    ensures
        extends(
            out,
            write_op(prog, me, w.spec_checked_write(), order, ctx, fs, fs[k as int], out).out,
        ),
        kept_whole(
            padded,
            out,
            write_op(prog, me, w.spec_checked_write(), order, ctx, fs, fs[k as int], out).out,
        ),
        read_op(
            prog,
            me,
            r.spec_guarded(),
            order,
            ctx,
            fs.take(k as int),
            appended(
                out,
                write_op(prog, me, w.spec_checked_write(), order, ctx, fs, fs[k as int], out).out,
            ) + tail,
        ) == read_ok(fs[k as int], tail),
    decreases me, 2nat, 0nat,
{
    let inner = r.common.ty->Collection_0;
    let subject = fs[k as int];
    let before = fs.take(k as int);
    let wop = w.spec_checked_write();
    let wo = write_op(prog, me, wop, order, ctx, fs, subject, out);
    let bits = appended(out, wo.out) + tail;
    let rlabel = Label::ReadingField(r.common.ident);
    let wlabel = Label::WritingField(w.common.ident);
    let count = count_of(r.collection_limit);
    let args = r.common.spec_context_values();
    let each = WriteOp::Each { item: Box::new(plain_encode(inner, args)) };
    assert(wop == WriteOp::Context { label: wlabel, inner: Box::new(each) });
    let counted = ReadOp::Count { count, item: Box::new(plain_decode(inner, args)) };
    assert(r.spec_value_source() == counted);
    assert(r.spec_guarded() == ReadOp::Context { label: rlabel, inner: Box::new(counted) });
    lemma_looks_back(
        count,
        k,
        false,
        scope_of(ctx, before, None, remaining_of(bits)),
        scope_of(ctx, fs, None, 0),
    );
    let items = subject->List_0;
    let each_wo = write_each(prog, me, plain_encode(inner, args), order, ctx, fs, items, 0, out);
    assert(write_op(prog, me, each, order, ctx, fs, subject, out) == each_wo);
    assert(wo == write_in_context(each_wo, label_text(wlabel)));
    lemma_items_round_trip(
        prog,
        decls,
        padded,
        me,
        inner,
        args,
        k,
        order,
        ctx,
        fs,
        items,
        0,
        out,
        tail,
    );
    assert(items.take(0) =~= Seq::<ValueView>::empty());
    assert(read_op(prog, me, counted, order, ctx, before, bits) == read_count(
        prog,
        me,
        plain_decode(inner, args),
        order,
        ctx,
        before,
        items.len() as u64,
        0,
        bits,
        Seq::empty(),
    ));
    assert(read_op(prog, me, r.spec_guarded(), order, ctx, before, bits) == read_in_context(
        read_op(prog, me, counted, order, ctx, before, bits),
        label_text(rlabel),
    ));
}

/// The round trip of a primitive or nested field at position `k`, with its fixed value
/// and its assertion, without alignment and hook.
pub proof fn lemma_plain_round_trip(
    prog: Seq<Codec>,
    decls: Seq<Declaration>,
    padded: bool,
    me: nat,
    r: ParselyReadFieldData,
    w: ParselyWriteFieldData,
    k: nat,
    order: ByteOrder,
    ctx: Seq<Datum>,
    fs: Seq<ValueView>,
    out: Seq<bool>,
    tail: Seq<bool>,
)
    requires
        mirrored_program(prog, decls, padded),
        read_in_place(order, write_op(prog, me, w.spec_checked_write(), order, ctx, fs, fs[k as int], out).out, tail),
        me < prog.len(),
        mirrored_field(r, w, k, me, padded),
        r.common.ty is Scalar || r.common.ty is Other,
        k < fs.len(),
        coherent_field(decls, me, r, ctx, fs, k as int),
        padded ==> out.len() <= usize::MAX,
        write_op(prog, me, w.spec_checked_write(), order, ctx, fs, fs[k as int], out).result is Ok,
    ensures
        extends(
            out,
            write_op(prog, me, w.spec_checked_write(), order, ctx, fs, fs[k as int], out).out,
        ),
        kept_whole(
            padded,
            out,
            write_op(prog, me, w.spec_checked_write(), order, ctx, fs, fs[k as int], out).out,
        ),
        read_op(
            prog,
            me,
            r.spec_guarded(),
            order,
            ctx,
            fs.take(k as int),
            appended(
                out,
                write_op(prog, me, w.spec_checked_write(), order, ctx, fs, fs[k as int], out).out,
            ) + tail,
        ) == read_ok(fs[k as int], tail),
    decreases me, 2nat, 0nat,
{
    let subject = fs[k as int];
    let before = fs.take(k as int);
    let wop = w.spec_checked_write();
    let wo = write_op(prog, me, wop, order, ctx, fs, subject, out);
    let rlabel = Label::ReadingField(r.common.ident);
    let wlabel = Label::WritingField(w.common.ident);
    let ty = r.common.ty.spec_buffer_type();
    let args = r.common.spec_context_values();
    let action = WriteOp::Context { label: wlabel, inner: Box::new(plain_encode(ty, args)) };
    assert(w.spec_write_action() == action);
    let source = plain_decode(ty, args);
    assert(r.spec_value_source() == source);
    // The write: the checks pass and leave the action.
    let fixed_w = match w.common.fixed {
        Some(expected) => WriteOp::Fixed { expected, inner: Box::new(action) },
        None => action,
    };
    assert(wop == match w.common.assertion {
        Some(assertion) => WriteOp::Assert {
            assertion,
            field: w.common.ident,
            inner: Box::new(fixed_w),
        },
        None => fixed_w,
    });
    assert(wo == write_op(prog, me, fixed_w, order, ctx, fs, subject, out));
    assert(write_op(prog, me, fixed_w, order, ctx, fs, subject, out) == write_op(
        prog,
        me,
        action,
        order,
        ctx,
        fs,
        subject,
        out,
    ));
    let inner_wo = write_op(prog, me, plain_encode(ty, args), order, ctx, fs, subject, out);
    assert(write_op(prog, me, action, order, ctx, fs, subject, out) == write_in_context(
        inner_wo,
        label_text(wlabel),
    ));
    lemma_ref_round_trip(
        prog,
        decls,
        padded,
        me,
        ty,
        args,
        k,
        order,
        ctx,
        fs,
        subject,
        out,
        tail,
    );
    let bits = appended(out, wo.out) + tail;
    let decoded = read_op(prog, me, source, order, ctx, before, bits);
    assert(decoded == read_ok(subject, tail));
    // The read: the same checks pass on the value that was read.
    let asserted_r = match r.common.assertion {
        Some(assertion) => ReadOp::Assert {
            inner: Box::new(source),
            assertion,
            field: r.common.ident,
        },
        None => source,
    };
    assert(read_op(prog, me, asserted_r, order, ctx, before, bits) == decoded) by {
        if let Some(assertion) = r.common.assertion {
            lemma_looks_back(
                assertion.predicate,
                k,
                true,
                scope_of(ctx, before, crate::decode::datum_of(subject), remaining_of(tail)),
                scope_of(ctx, fs, crate::decode::datum_of(subject), 0),
            );
            assert(read_op(prog, me, asserted_r, order, ctx, before, bits) == assert_outcome(
                decoded,
                assertion.predicate,
                assertion.source@,
                r.common.ident@,
                ctx,
                before,
            ));
        }
    }
    let checked_r = match r.common.fixed {
        Some(expected) => ReadOp::Fixed { inner: Box::new(asserted_r), expected },
        None => asserted_r,
    };
    assert(r.spec_checked() == checked_r);
    assert(read_op(prog, me, checked_r, order, ctx, before, bits) == decoded) by {
        if let Some(expected) = r.common.fixed {
            assert(read_op(prog, me, checked_r, order, ctx, before, bits) == fixed_outcome(
                read_op(prog, me, asserted_r, order, ctx, before, bits),
                expected,
            ));
        }
    }
    assert(r.spec_guarded() == ReadOp::Context { label: rlabel, inner: Box::new(checked_r) });
    assert(read_op(prog, me, r.spec_guarded(), order, ctx, before, bits) == read_in_context(
        read_op(prog, me, checked_r, order, ctx, before, bits),
        label_text(rlabel),
    ));
}

/// The round trip of the field at position `k`, without alignment and hook.
pub proof fn lemma_guarded_round_trip(
    prog: Seq<Codec>,
    decls: Seq<Declaration>,
    padded: bool,
    me: nat,
    r: ParselyReadFieldData,
    w: ParselyWriteFieldData,
    k: nat,
    order: ByteOrder,
    ctx: Seq<Datum>,
    fs: Seq<ValueView>,
    out: Seq<bool>,
    tail: Seq<bool>,
)
    requires
        mirrored_program(prog, decls, padded),
        read_in_place(order, write_op(prog, me, w.spec_checked_write(), order, ctx, fs, fs[k as int], out).out, tail),
        me < prog.len(),
        mirrored_field(r, w, k, me, padded),
        k < fs.len(),
        coherent_field(decls, me, r, ctx, fs, k as int),
        padded ==> out.len() <= usize::MAX,
        write_op(prog, me, w.spec_checked_write(), order, ctx, fs, fs[k as int], out).result is Ok,
    ensures
        extends(
            out,
            write_op(prog, me, w.spec_checked_write(), order, ctx, fs, fs[k as int], out).out,
        ),
        kept_whole(
            padded,
            out,
            write_op(prog, me, w.spec_checked_write(), order, ctx, fs, fs[k as int], out).out,
        ),
        read_op(
            prog,
            me,
            r.spec_guarded(),
            order,
            ctx,
            fs.take(k as int),
            appended(
                out,
                write_op(prog, me, w.spec_checked_write(), order, ctx, fs, fs[k as int], out).out,
            ) + tail,
        ) == read_ok(fs[k as int], tail),
    decreases me, 3nat, 0nat,
{
    match r.common.ty {
        TypeClass::Optional(_) => {
            lemma_optional_round_trip(
                prog,
                decls,
                padded,
                me,
                r,
                w,
                k,
                order,
                ctx,
                fs,
                out,
                tail,
            );
        },
        TypeClass::Collection(_) => {
            lemma_collection_round_trip(
                prog,
                decls,
                padded,
                me,
                r,
                w,
                k,
                order,
                ctx,
                fs,
                out,
                tail,
            );
        },
        _ => {
            lemma_plain_round_trip(
                prog,
                decls,
                padded,
                me,
                r,
                w,
                k,
                order,
                ctx,
                fs,
                out,
                tail,
            );
        },
    }
}

/// The round trip of the field at position `k`, with its alignment, without its hook.
pub proof fn lemma_padded_round_trip(
    prog: Seq<Codec>,
    decls: Seq<Declaration>,
    padded: bool,
    me: nat,
    r: ParselyReadFieldData,
    w: ParselyWriteFieldData,
    k: nat,
    order: ByteOrder,
    ctx: Seq<Datum>,
    fs: Seq<ValueView>,
    out: Seq<bool>,
    tail: Seq<bool>,
)
    requires
        mirrored_program(prog, decls, padded),
        read_in_place(order, write_op(prog, me, w.spec_padded_write(), order, ctx, fs, fs[k as int], out).out, tail),
        me < prog.len(),
        mirrored_field(r, w, k, me, padded),
        k < fs.len(),
        coherent_field(decls, me, r, ctx, fs, k as int),
        padded ==> out.len() <= usize::MAX,
        write_op(prog, me, w.spec_padded_write(), order, ctx, fs, fs[k as int], out).result is Ok,
    ensures
        extends(
            out,
            write_op(prog, me, w.spec_padded_write(), order, ctx, fs, fs[k as int], out).out,
        ),
        kept_whole(
            padded,
            out,
            write_op(prog, me, w.spec_padded_write(), order, ctx, fs, fs[k as int], out).out,
        ),
        read_op(
            prog,
            me,
            r.spec_padded(),
            order,
            ctx,
            fs.take(k as int),
            appended(
                out,
                write_op(prog, me, w.spec_padded_write(), order, ctx, fs, fs[k as int], out).out,
            ) + tail,
        ) == read_ok(fs[k as int], tail),
    decreases me, 4nat, 0nat,
{
    let subject = fs[k as int];
    let before = fs.take(k as int);
    let inner_w = w.spec_checked_write();
    let inner_r = r.spec_guarded();
    let mid = write_op(prog, me, inner_w, order, ctx, fs, subject, out);
    match r.common.alignment {
        None => {
            lemma_guarded_round_trip(
                prog,
                decls,
                padded,
                me,
                r,
                w,
                k,
                order,
                ctx,
                fs,
                out,
                tail,
            );
        },
        Some(alignment) => {
            let wop = WriteOp::Align { alignment, inner: Box::new(inner_w) };
            let rop = ReadOp::Align { alignment, inner: Box::new(inner_r) };
            assert(w.spec_padded_write() == wop);
            assert(r.spec_padded() == rop);
            let wo = write_op(prog, me, wop, order, ctx, fs, subject, out);
            assert(wo == write_aligned(Some(alignment), spec_remaining_mut_bytes(out), mid));
            let last = pad_write(alignment, spec_remaining_mut_bytes(out), mid.out).rest;
            assert(wo.out == last);
            let later = appended(mid.out, last) + tail;
            crate::progress::lemma_pad_write_appends(
                alignment,
                spec_remaining_mut_bytes(out),
                mid.out,
            );
            lemma_read_in_place_within(order, mid.out, last, tail);
            lemma_guarded_round_trip(
                prog,
                decls,
                padded,
                me,
                r,
                w,
                k,
                order,
                ctx,
                fs,
                out,
                later,
            );
            lemma_alignment_round_trip(alignment, out, mid.out, tail);
            let bits = appended(out, last) + tail;
            assert(read_op(prog, me, rop, order, ctx, before, bits) == read_aligned(
                Some(alignment),
                bits.len() / 8,
                read_op(prog, me, inner_r, order, ctx, before, bits),
            ));
        },
    }
}

/// The round trip of the field at position `k` of the fields `fs` of the type at `me`.
pub proof fn lemma_field_round_trip(
    prog: Seq<Codec>,
    decls: Seq<Declaration>,
    padded: bool,
    me: nat,
    r: ParselyReadFieldData,
    w: ParselyWriteFieldData,
    k: nat,
    order: ByteOrder,
    ctx: Seq<Datum>,
    fs: Seq<ValueView>,
    out: Seq<bool>,
    tail: Seq<bool>,
)
    requires
        mirrored_program(prog, decls, padded),
        read_in_place(order, write_op(prog, me, w.spec_write_op(), order, ctx, fs, fs[k as int], out).out, tail),
        me < prog.len(),
        mirrored_field(r, w, k, me, padded),
        k < fs.len(),
        coherent_field(decls, me, r, ctx, fs, k as int),
        padded ==> out.len() <= usize::MAX,
        write_op(prog, me, w.spec_write_op(), order, ctx, fs, fs[k as int], out).result is Ok,
    ensures
        extends(out, write_op(prog, me, w.spec_write_op(), order, ctx, fs, fs[k as int], out).out),
        kept_whole(
            padded,
            out,
            write_op(prog, me, w.spec_write_op(), order, ctx, fs, fs[k as int], out).out,
        ),
        read_op(
            prog,
            me,
            r.spec_read_op(),
            order,
            ctx,
            fs.take(k as int),
            appended(
                out,
                write_op(prog, me, w.spec_write_op(), order, ctx, fs, fs[k as int], out).out,
            ) + tail,
        ) == read_ok(fs[k as int], tail),
    decreases me, 5nat, 0nat,
{
    let subject = fs[k as int];
    let before = fs.take(k as int);
    match r.common.after {
        None => {
            lemma_padded_round_trip(
                prog,
                decls,
                padded,
                me,
                r,
                w,
                k,
                order,
                ctx,
                fs,
                out,
                tail,
            );
        },
        Some(hook) => {
            let inner_w = w.spec_padded_write();
            let inner_r = r.spec_padded();
            let wop = WriteOp::After { inner: Box::new(inner_w), hook };
            let rop = ReadOp::After { inner: Box::new(inner_r), hook };
            assert(w.spec_write_op() == wop);
            assert(r.spec_read_op() == rop);
            let mid = write_op(prog, me, inner_w, order, ctx, fs, subject, out);
            let wo = write_op(prog, me, wop, order, ctx, fs, subject, out);
            assert(wo == after_write(mid, hook, ctx, fs, subject));
            lemma_padded_round_trip(
                prog,
                decls,
                padded,
                me,
                r,
                w,
                k,
                order,
                ctx,
                fs,
                out,
                tail,
            );
            let bits = appended(out, wo.out) + tail;
            lemma_looks_back(
                hook,
                k,
                true,
                scope_of(ctx, before, crate::decode::datum_of(subject), remaining_of(tail)),
                scope_of(ctx, fs, crate::decode::datum_of(subject), 0),
            );
            assert(read_op(prog, me, rop, order, ctx, before, bits) == after_outcome(
                read_op(prog, me, inner_r, order, ctx, before, bits),
                hook,
                ctx,
                before,
            ));
        },
    }
}

/// The round trip of the fields from position `k` on of a record or variant of the type
/// at `me`.
pub proof fn lemma_steps_round_trip(
    prog: Seq<Codec>,
    decls: Seq<Declaration>,
    padded: bool,
    me: nat,
    rfields: Seq<ParselyReadFieldData>,
    wfields: Seq<ParselyWriteFieldData>,
    k: nat,
    order: ByteOrder,
    ctx: Seq<Datum>,
    fs: Seq<ValueView>,
    out: Seq<bool>,
    tail: Seq<bool>,
)
    requires
        mirrored_program(prog, decls, padded),
        read_in_place(order, write_steps(prog, me, spec_write_steps(wfields, k), order, ctx, fs, k, out).out, tail),
        me < prog.len(),
        mirrored_fields(rfields, wfields, me, padded),
        coherent_fields(decls, me, rfields, ctx, fs),
        k <= fs.len(),
        padded ==> out.len() <= usize::MAX,
        write_steps(prog, me, spec_write_steps(wfields, k), order, ctx, fs, k, out).result is Ok,
    ensures
        extends(
            out,
            write_steps(prog, me, spec_write_steps(wfields, k), order, ctx, fs, k, out).out,
        ),
        kept_whole(
            padded,
            out,
            write_steps(prog, me, spec_write_steps(wfields, k), order, ctx, fs, k, out).out,
        ),
        read_steps(
            prog,
            me,
            spec_read_steps(rfields, k),
            order,
            ctx,
            fs.take(k as int),
            appended(
                out,
                write_steps(prog, me, spec_write_steps(wfields, k), order, ctx, fs, k, out).out,
            ) + tail,
        ) == (FieldsOutcome { result: Ok(fs), rest: tail }),
    decreases me, 6nat, fs.len() - k,
{
    let last = write_steps(prog, me, spec_write_steps(wfields, k), order, ctx, fs, k, out).out;
    if k >= fs.len() {
        lemma_extends_itself(out, tail);
        lemma_kept_whole_itself(padded, out);
        assert(fs.take(k as int) =~= fs);
    } else {
        let r = rfields[k as int];
        let w = wfields[k as int];
        let one = write_op(prog, me, w.spec_write_op(), order, ctx, fs, fs[k as int], out);
        assert(mirrored_field(r, w, k, me, padded));
        assert(coherent_field(decls, me, r, ctx, fs, k as int));
        crate::progress::law_write_op_appends(
            prog,
            me,
            w.spec_write_op(),
            order,
            ctx,
            fs,
            fs[k as int],
            out,
        );
        lemma_steps_round_trip(
            prog,
            decls,
            padded,
            me,
            rfields,
            wfields,
            k + 1,
            order,
            ctx,
            fs,
            one.out,
            tail,
        );
        let later = appended(one.out, last) + tail;
        lemma_read_in_place_within(order, one.out, last, tail);
        lemma_field_round_trip(
            prog,
            decls,
            padded,
            me,
            r,
            w,
            k,
            order,
            ctx,
            fs,
            out,
            later,
        );
        lemma_extends_twice(out, one.out, last);
        lemma_kept_whole_twice(padded, out, one.out, last);
        assert(appended(out, last) + tail =~= appended(out, one.out) + later);
        assert(fs.take(k as int).push(fs[k as int]) =~= fs.take(k + 1 as int));
    }
}

/// Writing the variant `skip` places after position `from` runs that variant's arm.
pub proof fn lemma_write_arms_reach_the_variant(
    prog: Seq<Codec>,
    me: nat,
    variants: Seq<WriteVariantView>,
    from: nat,
    skip: nat,
    key: TagSource,
    order: ByteOrder,
    ctx: Seq<Datum>,
    fs: Seq<ValueView>,
    out: Seq<bool>,
)
    requires
        from + skip < variants.len(),
    ensures
        write_arms(prog, me, spec_write_arms(variants, from), skip, key, order, ctx, fs, out)
            == write_arm(
            prog,
            me,
            variants[(from + skip) as int].id,
            variants[(from + skip) as int].ident@,
            variants[(from + skip) as int].spec_arm_body(),
            key,
            order,
            ctx,
            fs,
            out,
        ),
    decreases skip,
{
    if skip > 0 {
        lemma_write_arms_reach_the_variant(
            prog,
            me,
            variants,
            from + 1,
            (skip - 1) as nat,
            key,
            order,
            ctx,
            fs,
            out,
        );
    }
}

/// Reading the discriminant of the variant at position `target` passes the arms before
/// it, whose tags differ, and runs that variant's arm.
pub proof fn lemma_read_arms_reach_the_variant(
    prog: Seq<Codec>,
    me: nat,
    variants: Seq<ReadVariantView>,
    from: nat,
    target: nat,
    order: ByteOrder,
    ctx: Seq<Datum>,
    bits: Seq<bool>,
)
    requires
        from <= target < variants.len() <= usize::MAX,
        forall|i: int| 0 <= i < variants.len() ==> (#[trigger] variants[i]).id is Lit,
        tags_differ(variants),
        variants[target as int].discriminant is None,
    ensures
        read_arms(
            prog,
            me,
            spec_read_arms(variants, from),
            from,
            Datum::UInt(variants[target as int].id->Lit_0),
            order,
            ctx,
            bits,
        ) == ({
            let o = read_steps(
                prog,
                me,
                spec_read_steps(variants[target as int].fields, 0),
                order,
                ctx,
                Seq::empty(),
                bits,
            );
            match o.result {
                Ok(fs) => read_ok(ValueView::Variant(target, fs), o.rest),
                Err(e) => read_err(e, o.rest),
            }
        }),
    decreases target - from,
{
    assert(variants[from as int].id is Lit);
    if from < target {
        assert(variants[from as int].id != variants[target as int].id) by {
            reveal(tags_differ);
        }
        lemma_read_arms_reach_the_variant(prog, me, variants, from + 1, target, order, ctx, bits);
    }
}

/// What writing the body of the variant at position `i` of a mirrored union comes to: the
/// tag as the key's primitive, then the fields.
pub proof fn lemma_union_write_unfolds(
    prog: Seq<Codec>,
    me: nat,
    padded: bool,
    decl: Declaration,
    i: nat,
    order: ByteOrder,
    ctx: Seq<Datum>,
    fs: Seq<ValueView>,
    out: Seq<bool>,
)
    requires
        me < prog.len(),
        decl is Union,
        decl.compiles_to(prog[me as int]),
        decl.mirrored(me, padded),
        i < decl->Union_writes.len(),
        write_body(
            prog,
            me,
            prog[me as int].write.body,
            order,
            ctx,
            ValueView::Variant(i, fs),
            out,
        ).result is Ok,
    ensures
        ({
            let key = Datum::UInt(decl->Union_reads[i as int].id->Lit_0);
            let tagged = write_scalar(decl->key, order, ValueView::Scalar(key), out);
            &&& tagged.result is Ok
            &&& write_body(
                prog,
                me,
                prog[me as int].write.body,
                order,
                ctx,
                ValueView::Variant(i, fs),
                out,
            ) == write_steps(
                prog,
                me,
                spec_write_steps(decl->Union_writes[i as int].fields, 0),
                order,
                ctx,
                fs,
                0,
                tagged.out,
            )
        }),
{
    let reads = decl->Union_reads;
    let writes = decl->Union_writes;
    let rv = reads[i as int];
    let wv = writes[i as int];
    assert(mirrored_variant(rv, wv, me, padded));
    let key = Datum::UInt(rv.id->Lit_0);
    let tag = TagSource::Typed(decl->key);
    lemma_write_arms_reach_the_variant(prog, me, writes, 0, i, tag, order, ctx, fs, out);
    assert(spec_eval(wv.id, scope_of(ctx, fs, None, 0)) == Some(key));
    assert(wv.spec_arm_body() == WriteArmBody::Fields(
        spec_write_steps(wv.fields, 0),
        wv.spec_shape(),
    ));
    assert(prog[me as int].write.body == (WriteBody::Dispatch {
        tag,
        arms: spec_write_arms(writes, 0),
    }));
}

/// What reading the body of a mirrored union comes to, where the buffer begins with the
/// tag of the variant at position `i`: the fields of that variant.
pub proof fn lemma_union_read_unfolds(
    prog: Seq<Codec>,
    me: nat,
    padded: bool,
    decl: Declaration,
    i: nat,
    order: ByteOrder,
    ctx: Seq<Datum>,
    bits: Seq<bool>,
    later: Seq<bool>,
)
    requires
        me < prog.len(),
        decl is Union,
        decl.compiles_to(prog[me as int]),
        decl.mirrored(me, padded),
        i < decl->Union_reads.len(),
        read_scalar(decl->key, order, bits) == read_ok(
            ValueView::Scalar(Datum::UInt(decl->Union_reads[i as int].id->Lit_0)),
            later,
        ),
    ensures
        read_body(
            prog,
            me,
            prog[me as int].read.body,
            prog[me as int].read.name@,
            order,
            ctx,
            bits,
        ) == ({
            let o = read_steps(
                prog,
                me,
                spec_read_steps(decl->Union_reads[i as int].fields, 0),
                order,
                ctx,
                Seq::empty(),
                later,
            );
            match o.result {
                Ok(fs) => read_ok(ValueView::Variant(i, fs), o.rest),
                Err(e) => read_err(e, o.rest),
            }
        }),
{
    let reads = decl->Union_reads;
    let writes = decl->Union_writes;
    assert forall|j: int| 0 <= j < reads.len() implies (#[trigger] reads[j]).id is Lit by {
        assert(mirrored_variant(reads[j], writes[j], me, padded));
    }
    assert(mirrored_variant(reads[i as int], writes[i as int], me, padded));
    lemma_read_arms_reach_the_variant(prog, me, reads, 0, i, order, ctx, later);
    assert(prog[me as int].read.body == (ReadBody::Dispatch {
        tag: TagSource::Typed(decl->key),
        arms: spec_read_arms(reads, 0),
    }));
}

/// The round trip of the body of a value of the record at `me`, without the record's own
/// alignment.
pub proof fn lemma_record_body_round_trip(
    prog: Seq<Codec>,
    decls: Seq<Declaration>,
    padded: bool,
    me: nat,
    order: ByteOrder,
    ctx: Seq<Datum>,
    fs: Seq<ValueView>,
    out: Seq<bool>,
    tail: Seq<bool>,
)
    requires
        mirrored_program(prog, decls, padded),
        read_in_place(
            order,
            write_body(
                prog,
                me,
                prog[me as int].write.body,
                order,
                ctx,
                ValueView::Record(fs),
                out,
            ).out,
            tail,
        ),
        me < prog.len(),
        decls[me as int] is Record,
        coherent_fields(decls, me, decls[me as int]->Record_reads, ctx, fs),
        padded ==> out.len() <= usize::MAX,
        write_body(
            prog,
            me,
            prog[me as int].write.body,
            order,
            ctx,
            ValueView::Record(fs),
            out,
        ).result is Ok,
    ensures
        ({
            let wo = write_body(
                prog,
                me,
                prog[me as int].write.body,
                order,
                ctx,
                ValueView::Record(fs),
                out,
            );
            &&& extends(out, wo.out)
            &&& kept_whole(padded, out, wo.out)
            &&& read_body(
                prog,
                me,
                prog[me as int].read.body,
                prog[me as int].read.name@,
                order,
                ctx,
                appended(out, wo.out) + tail,
            ) == read_ok(ValueView::Record(fs), tail)
        }),
    decreases me, 7nat, 0nat,
{
    let decl = decls[me as int];
    assert(decl.compiles_to(prog[me as int]) && decl.mirrored(me, padded));
    lemma_steps_round_trip(
        prog,
        decls,
        padded,
        me,
        decl->Record_reads,
        decl->Record_writes,
        0,
        order,
        ctx,
        fs,
        out,
        tail,
    );
    assert(fs.take(0) =~= Seq::<ValueView>::empty());
}

/// The round trip of the body of a value of the tagged union at `me`, without the
/// union's own alignment.
#[verifier::rlimit(100)]
#[verifier::spinoff_prover]
pub proof fn lemma_union_body_round_trip(
    prog: Seq<Codec>,
    decls: Seq<Declaration>,
    padded: bool,
    me: nat,
    order: ByteOrder,
    ctx: Seq<Datum>,
    i: nat,
    fs: Seq<ValueView>,
    out: Seq<bool>,
    tail: Seq<bool>,
)
    requires
        mirrored_program(prog, decls, padded),
        read_in_place(
            order,
            write_body(
                prog,
                me,
                prog[me as int].write.body,
                order,
                ctx,
                ValueView::Variant(i, fs),
                out,
            ).out,
            tail,
        ),
        me < prog.len(),
        decls[me as int] is Union,
        i < decls[me as int]->Union_reads.len(),
        coherent_fields(decls, me, decls[me as int]->Union_reads[i as int].fields, ctx, fs),
        padded ==> out.len() <= usize::MAX,
        write_body(
            prog,
            me,
            prog[me as int].write.body,
            order,
            ctx,
            ValueView::Variant(i, fs),
            out,
        ).result is Ok,
    ensures
        ({
            let wo = write_body(
                prog,
                me,
                prog[me as int].write.body,
                order,
                ctx,
                ValueView::Variant(i, fs),
                out,
            );
            &&& extends(out, wo.out)
            &&& kept_whole(padded, out, wo.out)
            &&& read_body(
                prog,
                me,
                prog[me as int].read.body,
                prog[me as int].read.name@,
                order,
                ctx,
                appended(out, wo.out) + tail,
            ) == read_ok(ValueView::Variant(i, fs), tail)
        }),
    decreases me, 7nat, 0nat,
{
    let decl = decls[me as int];
    assert(decl.compiles_to(prog[me as int]) && decl.mirrored(me, padded));
    let v = ValueView::Variant(i, fs);
    let last = write_body(prog, me, prog[me as int].write.body, order, ctx, v, out).out;
    let p = decl->key;
    let rv = decl->Union_reads[i as int];
    let wv = decl->Union_writes[i as int];
    assert(mirrored_variant(rv, wv, me, padded));
    let key = Datum::UInt(rv.id->Lit_0);
    let tagged = write_scalar(p, order, ValueView::Scalar(key), out);
    lemma_union_write_unfolds(prog, me, padded, decl, i, order, ctx, fs, out);
    crate::progress::lemma_write_scalar_appends(p, order, ValueView::Scalar(key), out);
    lemma_steps_round_trip(
        prog,
        decls,
        padded,
        me,
        rv.fields,
        wv.fields,
        0,
        order,
        ctx,
        fs,
        tagged.out,
        tail,
    );
    let later = appended(tagged.out, last) + tail;
    lemma_read_in_place_within(order, tagged.out, last, tail);
    lemma_scalar_round_trip(padded, p, order, ValueView::Scalar(key), out, later);
    lemma_extends_twice(out, tagged.out, last);
    lemma_kept_whole_twice(padded, out, tagged.out, last);
    let bits = appended(out, last) + tail;
    assert(bits =~= appended(out, tagged.out) + later);
    assert(fs.take(0) =~= Seq::<ValueView>::empty());
    lemma_union_read_unfolds(prog, me, padded, decl, i, order, ctx, bits, later);
}

/// The round trip of a value of the type at `me`.
#[verifier::spinoff_prover]
pub proof fn lemma_value_round_trip(
    prog: Seq<Codec>,
    decls: Seq<Declaration>,
    padded: bool,
    me: nat,
    order: ByteOrder,
    ctx: Seq<Datum>,
    v: ValueView,
    out: Seq<bool>,
    tail: Seq<bool>,
)
    requires
        mirrored_program(prog, decls, padded),
        read_in_place(order, write_procedure(prog, me, order, ctx, v, out).out, tail),
        me < prog.len(),
        coherent(decls, me, ctx, v),
        padded ==> out.len() <= usize::MAX,
        write_procedure(prog, me, order, ctx, v, out).result is Ok,
    ensures
        extends(out, write_procedure(prog, me, order, ctx, v, out).out),
        kept_whole(padded, out, write_procedure(prog, me, order, ctx, v, out).out),
        read_procedure(
            prog,
            me,
            order,
            ctx,
            appended(out, write_procedure(prog, me, order, ctx, v, out).out) + tail,
        ) == read_ok(v, tail),
    decreases me, 8nat, 0nat,
{
    let decl = decls[me as int];
    assert(decl.compiles_to(prog[me as int]) && decl.mirrored(me, padded));
    let codec = prog[me as int];
    let mid = write_body(prog, me, codec.write.body, order, ctx, v, out);
    let wo = write_procedure(prog, me, order, ctx, v, out);
    assert(ctx.len() == codec.write.params@.len());
    assert(wo == write_aligned(codec.write.alignment, spec_remaining_mut_bytes(out), mid));
    let later = match codec.write.alignment {
        Some(a) => appended(mid.out, pad_write(a, spec_remaining_mut_bytes(out), mid.out).rest)
            + tail,
        None => tail,
    };
    assert(read_in_place(order, mid.out, later)) by {
        match codec.write.alignment {
            Some(a) => {
                let last = pad_write(a, spec_remaining_mut_bytes(out), mid.out).rest;
                crate::progress::lemma_pad_write_appends(
                    a,
                    spec_remaining_mut_bytes(out),
                    mid.out,
                );
                assert(wo.out == last);
                lemma_read_in_place_within(order, mid.out, last, tail);
            },
            None => {
                assert(wo.out == mid.out);
            },
        }
    }
    match decl {
        Declaration::Record { .. } => {
            lemma_record_body_round_trip(
                prog,
                decls,
                padded,
                me,
                order,
                ctx,
                v->Record_0,
                out,
                later,
            );
        },
        Declaration::Union { .. } => {
            lemma_union_body_round_trip(
                prog,
                decls,
                padded,
                me,
                order,
                ctx,
                v->Variant_0,
                v->Variant_1,
                out,
                later,
            );
        },
    }
    if let Some(a) = codec.write.alignment {
        lemma_alignment_round_trip(a, out, mid.out, tail);
    }
    let bits = appended(out, wo.out) + tail;
    assert(read_procedure(prog, me, order, ctx, bits) == read_aligned(
        codec.read.alignment,
        bits.len() / 8,
        read_body(prog, me, codec.read.body, codec.read.name@, order, ctx, bits),
    ));
}

/// The tags of two variants of a mirrored tagged union are literals that differ.
pub proof fn lemma_union_tags_differ(me: nat, padded: bool, decl: Declaration, i: nat, j: nat)
    requires
        decl is Union,
        decl.mirrored(me, padded),
        i < decl->Union_reads.len(),
        j < decl->Union_reads.len(),
        j != i,
    ensures
        decl->Union_reads[i as int].id is Lit,
        decl->Union_reads[j as int].id is Lit,
        decl->Union_reads[i as int].id->Lit_0 != decl->Union_reads[j as int].id->Lit_0,
{
    let reads = decl->Union_reads;
    let writes = decl->Union_writes;
    assert(mirrored_variant(reads[i as int], writes[i as int], me, padded));
    assert(mirrored_variant(reads[j as int], writes[j as int], me, padded));
    reveal(tags_differ);
    if i < j {
        assert(reads[i as int].id != reads[j as int].id);
    } else {
        assert(reads[j as int].id != reads[i as int].id);
    }
}

/// What encoding a value of a tagged union appends begins with its own variant's tag as
/// the key type spells it.
pub proof fn lemma_union_begins_with_its_tag(
    prog: Seq<Codec>,
    me: nat,
    padded: bool,
    decl: Declaration,
    i: nat,
    order: ByteOrder,
    ctx: Seq<Datum>,
    fs: Seq<ValueView>,
    out: Seq<bool>,
)
    requires
        me < prog.len(),
        decl is Union,
        decl.compiles_to(prog[me as int]),
        decl.mirrored(me, padded),
        i < decl->Union_writes.len(),
        write_body(
            prog,
            me,
            prog[me as int].write.body,
            order,
            ctx,
            ValueView::Variant(i, fs),
            out,
        ).result is Ok,
    ensures
        ({
            let wo = write_body(
                prog,
                me,
                prog[me as int].write.body,
                order,
                ctx,
                ValueView::Variant(i, fs),
                out,
            );
            let own = Datum::UInt(decl->Union_reads[i as int].id->Lit_0);
            let tag = spec_write_primitive(decl->key, order, own, out.len());
            &&& extends(out, wo.out)
            &&& tag is Some
            &&& appended(out, wo.out).len() >= tag->Some_0.len()
            &&& appended(out, wo.out).take(tag->Some_0.len() as int) == tag->Some_0
        }),
{
    let p = decl->key;
    let own = Datum::UInt(decl->Union_reads[i as int].id->Lit_0);
    let wo = write_body(
        prog,
        me,
        prog[me as int].write.body,
        order,
        ctx,
        ValueView::Variant(i, fs),
        out,
    );
    let tagged = write_scalar(p, order, ValueView::Scalar(own), out);
    lemma_union_write_unfolds(prog, me, padded, decl, i, order, ctx, fs, out);
    crate::progress::lemma_write_steps_append(
        prog,
        me,
        spec_write_steps(decl->Union_writes[i as int].fields, 0),
        order,
        ctx,
        fs,
        0,
        tagged.out,
    );
    crate::progress::lemma_write_scalar_appends(p, order, ValueView::Scalar(own), out);
    let tag = spec_write_primitive(p, order, own, out.len())->Some_0;
    assert(tagged.out == out + tag);
    lemma_extends_twice(out, tagged.out, wo.out);
    assert(wo.out.take(tagged.out.len() as int) == tagged.out);
    assert(appended(out, wo.out).take(tag.len() as int) =~= tag) by {
        assert(tagged.out.skip(out.len() as int) =~= tag);
        assert(wo.out.take(tagged.out.len() as int).skip(out.len() as int) =~= wo.out.skip(
            out.len() as int,
        ).take(tag.len() as int));
    }
}

/// What encoding a value of a tagged union appends begins with its own variant's tag as
/// the key type spells it, and no other variant's tag is spelled by those bits.
pub proof fn law_union_begins_with_its_own_tag(
    prog: Seq<Codec>,
    decls: Seq<Declaration>,
    padded: bool,
    me: nat,
    order: ByteOrder,
    ctx: Seq<Datum>,
    i: nat,
    j: nat,
    fs: Seq<ValueView>,
    out: Seq<bool>,
)
    requires
        mirrored_program(prog, decls, padded),
        me < prog.len(),
        decls[me as int] is Union,
        i < decls[me as int]->Union_reads.len(),
        j < decls[me as int]->Union_reads.len(),
        j != i,
        write_body(
            prog,
            me,
            prog[me as int].write.body,
            order,
            ctx,
            ValueView::Variant(i, fs),
            out,
        ).result is Ok,
    ensures
        ({
            let decl = decls[me as int];
            let wo = write_body(
                prog,
                me,
                prog[me as int].write.body,
                order,
                ctx,
                ValueView::Variant(i, fs),
                out,
            );
            let own = Datum::UInt(decl->Union_reads[i as int].id->Lit_0);
            let other = Datum::UInt(decl->Union_reads[j as int].id->Lit_0);
            let tag = spec_write_primitive(decl->key, order, own, out.len());
            &&& extends(out, wo.out)
            &&& tag is Some
            &&& appended(out, wo.out).len() >= tag->Some_0.len()
            &&& appended(out, wo.out).take(tag->Some_0.len() as int) == tag->Some_0
            &&& spec_write_primitive(decl->key, order, other, out.len()) != tag
        }),
{
    let decl = decls[me as int];
    assert(decl.compiles_to(prog[me as int]) && decl.mirrored(me, padded));
    lemma_union_tags_differ(me, padded, decl, i, j);
    lemma_union_begins_with_its_tag(prog, me, padded, decl, i, order, ctx, fs, out);
    crate::round_trip::lemma_numbers_are_spelled_apart(
        decl->key,
        order,
        decl->Union_reads[i as int].id->Lit_0,
        decl->Union_reads[j as int].id->Lit_0,
        out.len(),
    );
}

} // verus!
