//! The round-trip law: what encoding wrote, decoding reads back.

use crate::bits::{
    bits_at, lemma_pow2_monotonic, lemma_round_trip_at, pow2, value_at, ByteOrder,
};
use crate::decode::{
    consumed_bytes, eval_args, pad_read, read_ok, read_procedure, read_scalar, PadOutcome,
};
use crate::encode::{pad_write, write_procedure, write_scalar, written_bytes, zero_byte};
use crate::error::ParselyErrorView;
use crate::expr::{scope_of, spec_eval, Expr, ScopeView};
use crate::plan::{Args, Codec, ReadBody, ReadOp, TagSource, TypeRef, WriteBody, WriteOp};
use crate::read_gen::{spec_read_arms, spec_read_steps};
use crate::schema::{
    CollectionLimit, ParselyReadFieldData, ParselyWriteFieldData, ReadVariantView, TypeClass,
    WriteVariantView,
};
use crate::value::{Datum, ValueView};
use crate::wire::{
    filler, lead_of, spec_remaining_mut_bytes, spec_write_primitive, Primitive,
};
use crate::write_gen::{spec_write_arms, spec_write_steps};
use vstd::prelude::*;

verus! {

/// Whether `after` is `before` with something appended.
pub open spec fn extends(before: Seq<bool>, after: Seq<bool>) -> bool {
    after.len() >= before.len() && after.take(before.len() as int) == before
}

/// What was appended to `before` to give `after`.
pub open spec fn appended(before: Seq<bool>, after: Seq<bool>) -> Seq<bool> {
    after.skip(before.len() as int)
}

/// Appending twice appends the two pieces in order.
pub proof fn lemma_extends_twice(a: Seq<bool>, b: Seq<bool>, c: Seq<bool>)
    requires
        extends(a, b),
        extends(b, c),
    ensures
        extends(a, c),
        appended(a, c) == appended(a, b) + appended(b, c),
{
    assert(c.take(a.len() as int) =~= c.take(b.len() as int).take(a.len() as int));
    assert(appended(a, c) =~= appended(a, b) + appended(b, c)) by {
        assert forall|i: int| 0 <= i < appended(a, b).len() implies appended(a, c)[i] == appended(
            a,
            b,
        )[i] by {
            assert(c[a.len() + i] == c.take(b.len() as int)[a.len() + i]);
        }
    }
}

/// Everything extends itself, by nothing.
pub proof fn lemma_extends_itself(a: Seq<bool>, tail: Seq<bool>)
    ensures
        extends(a, a),
        appended(a, a) + tail == tail,
{
    assert(a.take(a.len() as int) =~= a);
    assert(appended(a, a) + tail =~= tail);
}

/// An expression that looks back only: at parameters, literals and the fields before
/// position `k`; if `at_input`, also at the value under test.
pub open spec fn looks_back(e: Expr, k: nat, at_input: bool) -> bool
    decreases e,
{
    match e {
        Expr::Lit(_) => true,
        Expr::Flag(_) => true,
        Expr::Ctx(_) => true,
        Expr::Field(i) => i < k,
        Expr::Count(i) => i < k,
        Expr::Present(i) => i < k,
        Expr::Input => at_input,
        Expr::Remaining => false,
        Expr::Opaque(_) => false,
        Expr::Not(a) => looks_back(*a, k, at_input),
        Expr::Binary(_, a, b) => looks_back(*a, k, at_input) && looks_back(*b, k, at_input),
    }
}

/// The value of an expression that looks back only depends on the parameters, the fields
/// before `k` and, if it looks at it, the value under test alone.
pub proof fn lemma_looks_back(e: Expr, k: nat, at_input: bool, a: ScopeView, b: ScopeView)
    requires
        looks_back(e, k, at_input),
        a.ctx == b.ctx,
        at_input ==> a.input == b.input,
        a.fields.len() >= k,
        b.fields.len() >= k,
        forall|i: int| 0 <= i < k ==> a.fields[i] == b.fields[i],
    ensures
        spec_eval(e, a) == spec_eval(e, b),
    decreases e,
{
    match e {
        Expr::Not(x) => {
            lemma_looks_back(*x, k, at_input, a, b);
        },
        Expr::Binary(_, x, y) => {
            lemma_looks_back(*x, k, at_input, a, b);
            lemma_looks_back(*y, k, at_input, a, b);
        },
        _ => {},
    }
}

/// Context arguments that all look back only.
pub open spec fn args_look_back(args: Args, k: nat) -> bool
    decreases args,
{
    match args {
        Args::Nil => true,
        Args::Cons { expr, rest, .. } => looks_back(expr, k, false) && args_look_back(*rest, k),
    }
}

/// The values of context arguments that look back only depend on the parameters and the
/// fields before `k` alone.
pub proof fn lemma_args_look_back(args: Args, k: nat, a: ScopeView, b: ScopeView)
    requires
        args_look_back(args, k),
        a.ctx == b.ctx,
        a.fields.len() >= k,
        b.fields.len() >= k,
        forall|i: int| 0 <= i < k ==> a.fields[i] == b.fields[i],
    ensures
        eval_args(args, a) == eval_args(args, b),
    decreases args,
{
    match args {
        Args::Nil => {},
        Args::Cons { expr, rest, .. } => {
            lemma_looks_back(expr, k, false, a, b);
            lemma_args_look_back(*rest, k, a, b);
        },
    }
}

/// An optional expression that, if there is one, looks back only.
pub open spec fn may_look_back(e: Option<Expr>, k: nat, at_input: bool) -> bool {
    match e {
        Some(x) => looks_back(x, k, at_input),
        None => true,
    }
}

/// A type that a field of the type at `me` may hold: a supported primitive, of whole
/// bytes if `padded`, or a type that comes earlier in the program.
pub open spec fn refers_back(ty: TypeRef, me: nat, padded: bool) -> bool {
    match ty {
        TypeRef::Primitive(p) => p.wf() && (padded ==> p.spec_width() % 8 == 0),
        TypeRef::Named(j) => j < me,
    }
}

/// Whether a collection is counted by an expression that looks back only.
pub open spec fn counted_looking_back(limit: Option<CollectionLimit>, k: nat) -> bool {
    match limit {
        Some(CollectionLimit::Count(c)) => looks_back(c, k, false),
        _ => false,
    }
}

/// The count expression of a counted collection.
pub open spec fn count_of(limit: Option<CollectionLimit>) -> Expr {
    match limit {
        Some(CollectionLimit::Count(c)) => c,
        _ => Expr::Lit(0),
    }
}

/// A field, declared at position `k` of the type at `me`, that is read and written
/// alike: no assigned expression, mapping, or custom reader or writer; the same context
/// arguments, fixed value, assertion, alignment and hook in both directions. Context
/// arguments, the guard of an optional and the count of a collection look back only;
/// assertions and hooks look at the value and back only; only a primitive is fixed or
/// asserted on. In a `padded` program primitives are whole bytes; only there may a field
/// be aligned.
pub open spec fn mirrored_field(
    r: ParselyReadFieldData,
    w: ParselyWriteFieldData,
    k: nat,
    me: nat,
    padded: bool,
) -> bool {
    &&& r.wf()
    &&& w.wf()
    &&& r.common.ty == w.common.ty
    &&& r.common.ident == w.common.ident
    &&& r.assign_from is None
    &&& r.reader is None
    &&& w.writer is None
    &&& r.common.map is None && w.common.map is None
    &&& r.common.spec_context_values() == w.common.spec_context_values()
    &&& args_look_back(r.common.spec_context_values(), k)
    &&& r.common.fixed == w.common.fixed
    &&& (r.common.fixed is Some ==> r.common.ty is Scalar)
    &&& r.common.assertion == w.common.assertion
    &&& (r.common.assertion matches Some(a) ==> r.common.ty is Scalar && looks_back(
        a.predicate,
        k,
        true,
    ))
    &&& r.common.alignment == w.common.alignment
    &&& (r.common.alignment is Some ==> padded)
    &&& r.common.after == w.common.after
    &&& may_look_back(r.common.after, k, true)
    &&& refers_back(r.common.ty.spec_buffer_type(), me, padded)
    &&& (r.common.ty is Optional ==> looks_back(r.when->Some_0, k, false))
    &&& (r.common.ty is Collection ==> counted_looking_back(r.collection_limit, k))
}

/// Fields of the type at `me` that are mirrored, position by position.
pub open spec fn mirrored_fields(
    r: Seq<ParselyReadFieldData>,
    w: Seq<ParselyWriteFieldData>,
    me: nat,
    padded: bool,
) -> bool {
    &&& r.len() == w.len()
    &&& forall|k: int|
        0 <= k < r.len() ==> mirrored_field(#[trigger] r[k], w[k], k as nat, me, padded)
}

/// A variant whose tag is a literal, whose payload is not computed and whose fields are
/// all mirrored.
pub open spec fn mirrored_variant(
    r: ReadVariantView,
    w: WriteVariantView,
    me: nat,
    padded: bool,
) -> bool {
    &&& r.id is Lit
    &&& r.id == w.id
    &&& r.ident == w.ident
    &&& r.discriminant is None
    &&& w.discriminant is None
    &&& mirrored_fields(r.fields, w.fields, me, padded)
}

/// Whether the tags of the variants differ from each other.
#[verifier::opaque]
pub open spec fn tags_differ(variants: Seq<ReadVariantView>) -> bool {
    forall|i: int, j: int|
        0 <= i < j < variants.len() ==> (#[trigger] variants[i]).id != (#[trigger] variants[j]).id
}

/// What a type declares, in both directions, as far as the round trip looks at it.
#[allow(inconsistent_fields)]
pub enum Declaration {
    /// A record: its alignment and the data of its fields.
    Record {
        alignment: Option<u64>,
        reads: Seq<ParselyReadFieldData>,
        writes: Seq<ParselyWriteFieldData>,
    },
    /// A tagged union: its alignment, the primitive that its discriminant travels as and
    /// the data of its variants.
    Union {
        alignment: Option<u64>,
        key: Primitive,
        reads: Seq<ReadVariantView>,
        writes: Seq<WriteVariantView>,
    },
}

impl Declaration {
    /// The alignment of the type.
    pub open spec fn alignment(self) -> Option<u64> {
        match self {
            Declaration::Record { alignment, .. } => alignment,
            Declaration::Union { alignment, .. } => alignment,
        }
    }

    /// Whether `codec` holds the decode and encode procedures that the declaration
    /// compiles to, with as many parameters in one direction as in the other.
    pub open spec fn compiles_to(self, codec: Codec) -> bool {
        &&& codec.read.params@.len() == codec.write.params@.len()
        &&& codec.read.alignment == self.alignment()
        &&& codec.write.alignment == self.alignment()
        &&& match self {
            Declaration::Record { reads, writes, .. } => {
                &&& codec.read.body is Record
                &&& codec.read.body->Record_0 == spec_read_steps(reads, 0)
                &&& codec.write.body == WriteBody::Record(spec_write_steps(writes, 0))
            },
            Declaration::Union { key, reads, writes, .. } => {
                &&& codec.read.body == (ReadBody::Dispatch {
                    tag: TagSource::Typed(key),
                    arms: spec_read_arms(reads, 0),
                })
                &&& codec.write.body == (WriteBody::Dispatch {
                    tag: TagSource::Typed(key),
                    arms: spec_write_arms(writes, 0),
                })
            },
        }
    }

    /// Whether the type, declared at position `me`, is read and written alike: its
    /// fields are all mirrored; the variants of a tagged union have literal tags that
    /// differ from each other and no computed payloads, and its discriminant travels as
    /// a supported primitive. Only in a `padded` program may the type be aligned.
    pub open spec fn mirrored(self, me: nat, padded: bool) -> bool {
        &&& (self.alignment() matches Some(a) ==> a >= 1 && padded)
        &&& match self {
            Declaration::Record { reads, writes, .. } => mirrored_fields(
                reads,
                writes,
                me,
                padded,
            ),
            Declaration::Union { key, reads, writes, .. } => {
                &&& refers_back(TypeRef::Primitive(key), me, padded)
                &&& reads.len() == writes.len()
                &&& reads.len() <= usize::MAX
                &&& forall|i: int|
                    0 <= i < reads.len() ==> mirrored_variant(
                        #[trigger] reads[i],
                        writes[i],
                        me,
                        padded,
                    )
                &&& tags_differ(reads)
            },
        }
    }
}

/// A program of mirrored types: the codec at each position holds what the declaration at
/// that position compiles to. In a `padded` program all primitives are whole bytes, and
/// fields and types may be aligned.
pub open spec fn mirrored_program(prog: Seq<Codec>, decls: Seq<Declaration>, padded: bool) -> bool {
    &&& decls.len() == prog.len()
    &&& forall|i: int|
        0 <= i < prog.len() ==> (#[trigger] decls[i]).compiles_to(prog[i]) && decls[i].mirrored(
            i as nat,
            padded,
        )
}

/// Whether `x` is a value that the type `ty`, used inside the type at `me` and called with
/// the context `actuals`, can have been decoded to.
pub open spec fn coherent_ref(
    decls: Seq<Declaration>,
    me: nat,
    ty: TypeRef,
    actuals: Result<Seq<Datum>, ParselyErrorView>,
    x: ValueView,
) -> bool
    decreases me, 0nat,
{
    match ty {
        TypeRef::Primitive(_) => true,
        TypeRef::Named(j) => j < me && actuals is Ok && coherent(decls, j as nat, actuals->Ok_0, x),
    }
}

/// Whether the field at position `k` of the fields `fs` is one that the declaration `r`
/// can have been decoded to.
pub open spec fn coherent_field(
    decls: Seq<Declaration>,
    me: nat,
    r: ParselyReadFieldData,
    ctx: Seq<Datum>,
    fs: Seq<ValueView>,
    k: int,
) -> bool
    decreases me, 1nat,
{
    let actuals = eval_args(r.common.spec_context_values(), scope_of(ctx, fs, None, 0));
    match r.common.ty {
        TypeClass::Scalar(_) => true,
        TypeClass::Optional(inner) => match fs[k] {
            ValueView::Optional(o) => spec_eval(r.when->Some_0, scope_of(ctx, fs, None, 0))
                == Some(Datum::Bool(o is Some)) && match o {
                Some(x) => coherent_ref(decls, me, inner, actuals, *x),
                None => true,
            },
            _ => false,
        },
        TypeClass::Collection(inner) => match fs[k] {
            ValueView::List(items) => items.len() <= u64::MAX && spec_eval(
                count_of(r.collection_limit),
                scope_of(ctx, fs, None, 0),
            ) == Some(Datum::UInt(items.len() as u64)) && forall|i: int|
                0 <= i < items.len() ==> coherent_ref(
                    decls,
                    me,
                    inner,
                    actuals,
                    #[trigger] items[i],
                ),
            _ => false,
        },
        TypeClass::Other(j) => coherent_ref(decls, me, TypeRef::Named(j), actuals, fs[k]),
    }
}

/// Whether `fs` are fields that the declarations `r`, of the type at `me`, can have been
/// decoded to.
pub open spec fn coherent_fields(
    decls: Seq<Declaration>,
    me: nat,
    r: Seq<ParselyReadFieldData>,
    ctx: Seq<Datum>,
    fs: Seq<ValueView>,
) -> bool
    decreases me, 2nat,
{
    &&& fs.len() == r.len()
    &&& forall|k: int| 0 <= k < fs.len() ==> coherent_field(decls, me, #[trigger] r[k], ctx, fs, k)
}

/// Whether `v` is a value that the type at `me` can have been decoded to. A record holds
/// one field for each declared field; a variant is one of the declared variants and
/// holds one field for each of its declared fields; each optional is present exactly if
/// its guard holds; each collection has exactly as many elements as its count says; and
/// the same holds of every nested value, under the context that it is called with. `ctx`
/// holds the parameters of the type.
pub open spec fn coherent(decls: Seq<Declaration>, me: nat, ctx: Seq<Datum>, v: ValueView) -> bool
    decreases me, 3nat,
{
    &&& me < decls.len()
    &&& match (decls[me as int], v) {
        (Declaration::Record { reads, .. }, ValueView::Record(fs)) => coherent_fields(
            decls,
            me,
            reads,
            ctx,
            fs,
        ),
        (Declaration::Union { reads, .. }, ValueView::Variant(i, fs)) => i < reads.len()
            && coherent_fields(decls, me, reads[i as int].fields, ctx, fs),
        _ => false,
    }
}

/// The read of one value of `ty` with the context arguments `args`.
pub open spec fn plain_decode(ty: TypeRef, args: Args) -> ReadOp {
    ReadOp::Decode { ty, args }
}

/// The write of one value of `ty` with the context arguments `args`.
pub open spec fn plain_encode(ty: TypeRef, args: Args) -> WriteOp {
    WriteOp::Encode { ty, args }
}

/// Whether a write that began at `before` and arrived at `after` kept, in a padded
/// program, the buffer's length countable by the machine and appended whole bytes.
#[verifier::opaque]
pub open spec fn kept_whole(padded: bool, before: Seq<bool>, after: Seq<bool>) -> bool {
    padded ==> after.len() <= usize::MAX && (after.len() - before.len()) % 8 == 0
}

/// Nothing appended keeps the buffer whole.
pub proof fn lemma_kept_whole_itself(padded: bool, a: Seq<bool>)
    requires
        padded ==> a.len() <= usize::MAX,
    ensures
        kept_whole(padded, a, a),
{
    reveal(kept_whole);
}

/// Whole bytes after whole bytes are whole bytes.
pub proof fn lemma_kept_whole_twice(padded: bool, a: Seq<bool>, b: Seq<bool>, c: Seq<bool>)
    requires
        kept_whole(padded, a, b),
        kept_whole(padded, b, c),
    ensures
        kept_whole(padded, a, c),
        padded ==> c.len() <= usize::MAX,
{
    reveal(kept_whole);
}

/// Whether what a write left at `last` is read, with `tail` behind it, at the place in the
/// stored bytes at which it was written. The most significant byte first, the place does
/// not matter. The least significant byte first it does: there the buffer that is read
/// must end where a stored byte ends, as the buffer that was written does once `tail` is
/// behind `last`.
#[verifier::opaque]
pub open spec fn read_in_place(order: ByteOrder, last: Seq<bool>, tail: Seq<bool>) -> bool {
    order is BigEndian || (last.len() + tail.len()) % 8 == 0
}

/// A part of what was written is read in place if the whole is.
pub proof fn lemma_read_in_place_within(
    order: ByteOrder,
    mid: Seq<bool>,
    last: Seq<bool>,
    tail: Seq<bool>,
)
    requires
        extends(mid, last),
        read_in_place(order, last, tail),
    ensures
        read_in_place(order, mid, appended(mid, last) + tail),
{
    reveal(read_in_place);
}

/// Where a buffer that holds `a` bits and a buffer with `m` bits left end at the same
/// place in a stored byte, they stand at the same place in it.
pub proof fn lemma_leads_agree(a: nat, m: nat)
    requires
        (a + m) % 8 == 0,
    ensures
        lead_of_length(m) == a % 8,
{
}

/// How far into its stored byte the next bit stands when `m` bits are left up to the end
/// of a stored byte.
pub open spec fn lead_of_length(m: nat) -> nat {
    ((8 - m % 8) % 8) as nat
}

/// What is read at the place at which it was written spells the number that was written.
pub proof fn lemma_value_is_read_in_place(
    order: ByteOrder,
    raw: nat,
    n: nat,
    out: Seq<bool>,
    tail: Seq<bool>,
)
    requires
        raw < pow2(n),
        read_in_place(order, out + bits_at(order, raw, n, out.len() % 8), tail),
    ensures
        bits_at(order, raw, n, out.len() % 8).len() == n,
        value_at(
            order,
            bits_at(order, raw, n, out.len() % 8),
            lead_of(bits_at(order, raw, n, out.len() % 8) + tail),
        ) == raw,
{
    let bits = bits_at(order, raw, n, out.len() % 8);
    lemma_round_trip_at(order, raw, n, out.len() % 8);
    match order {
        ByteOrder::BigEndian => {},
        ByteOrder::LittleEndian => {
            reveal(read_in_place);
            assert((out + bits).len() == out.len() + n);
            assert((bits + tail).len() == n + tail.len());
            lemma_leads_agree(out.len(), n + tail.len());
            assert(lead_of(bits + tail) == lead_of_length(n + tail.len()));
        },
    }
}

/// Two numbers that differ are not spelled by the same bits at the same place.
pub proof fn lemma_numbers_are_spelled_apart(p: Primitive, order: ByteOrder, a: u64, b: u64, at: nat)
    requires
        a != b,
        spec_write_primitive(p, order, Datum::UInt(a), at) is Some,
    ensures
        spec_write_primitive(p, order, Datum::UInt(b), at) != spec_write_primitive(
            p,
            order,
            Datum::UInt(a),
            at,
        ),
{
    let n = p.spec_width();
    if p.spec_encode(Datum::UInt(b)) is Some {
        lemma_round_trip_at(order, a as nat, n, at % 8);
        lemma_round_trip_at(order, b as nat, n, at % 8);
    }
}

/// A primitive that was written is read back: the write appends exactly the bits that the
/// read consumes, and the read yields the value.
pub proof fn lemma_scalar_round_trip(
    padded: bool,
    p: Primitive,
    order: ByteOrder,
    v: ValueView,
    out: Seq<bool>,
    tail: Seq<bool>,
)
    requires
        padded ==> p.spec_width() % 8 == 0,
        read_in_place(order, write_scalar(p, order, v, out).out, tail),
        write_scalar(p, order, v, out).result is Ok,
    ensures
        extends(out, write_scalar(p, order, v, out).out),
        kept_whole(padded, out, write_scalar(p, order, v, out).out),
        read_scalar(p, order, appended(out, write_scalar(p, order, v, out).out) + tail)
            == read_ok(v, tail),
{
    reveal(kept_whole);
    let d = v->Scalar_0;
    let n = p.spec_width();
    let raw = p.spec_encode(d)->Some_0;
    let bits = bits_at(order, raw, n, out.len() % 8);
    assert(raw < pow2(n)) by {
        match p {
            Primitive::Bool(_) => {
                lemma_pow2_monotonic(1, n);
                assert(pow2(1) == 2) by {
                    reveal_with_fuel(pow2, 2);
                }
            },
            Primitive::UInt(_) => {},
        }
    }
    assert(spec_write_primitive(p, order, d, out.len()) == Some(bits));
    crate::bits::lemma_bits_at_len(order, raw, n, out.len() % 8);
    let after = out + bits;
    assert(write_scalar(p, order, v, out).out == after);
    lemma_value_is_read_in_place(order, raw, n, out, tail);
    assert(after.take(out.len() as int) =~= out);
    assert(appended(out, after) =~= bits);
    let input = bits + tail;
    assert(input.take(n as int) =~= bits);
    assert(input.skip(n as int) =~= tail);
    assert(p.spec_decode(raw) == d);
}

/// The padding that a write emitted is the padding that the read consumes, where both
/// have moved the same number of bytes since they began.
pub proof fn lemma_padding_is_read_back(
    alignment: u64,
    wrote_from: nat,
    read_from: nat,
    cur: Seq<bool>,
    tail: Seq<bool>,
)
    requires
        alignment >= 1,
        cur.len() <= usize::MAX,
        !pad_write(alignment, wrote_from, cur).failed,
        wrote_from >= spec_remaining_mut_bytes(cur),
        read_from >= (pad_write(alignment, wrote_from, cur).rest.len() - cur.len() + tail.len())
            / 8,
        wrote_from - spec_remaining_mut_bytes(cur) == read_from - (pad_write(
            alignment,
            wrote_from,
            cur,
        ).rest.len() - cur.len() + tail.len()) / 8,
    ensures
        extends(cur, pad_write(alignment, wrote_from, cur).rest),
        pad_write(alignment, wrote_from, cur).rest.len() <= usize::MAX,
        (pad_write(alignment, wrote_from, cur).rest.len() - cur.len()) % 8 == 0,
        pad_read(
            alignment,
            read_from,
            appended(cur, pad_write(alignment, wrote_from, cur).rest) + tail,
        ) == (PadOutcome { failed: false, rest: tail }),
    decreases usize::MAX - cur.len(),
{
    let fin = pad_write(alignment, wrote_from, cur).rest;
    crate::progress::lemma_pad_write_appends(alignment, wrote_from, cur);
    let rest = appended(cur, fin) + tail;
    assert(rest.len() == fin.len() - cur.len() + tail.len());
    if written_bytes(wrote_from, cur) % (alignment as nat) == 0 {
        lemma_extends_itself(cur, tail);
        assert(consumed_bytes(read_from, rest) == written_bytes(wrote_from, cur));
    } else {
        let next = cur + zero_byte();
        assert(pad_write(alignment, wrote_from, next).rest == fin);
        crate::progress::lemma_pad_write_appends(alignment, wrote_from, next);
        assert(spec_remaining_mut_bytes(next) == spec_remaining_mut_bytes(cur) - 1);
        lemma_padding_is_read_back(alignment, wrote_from, read_from, next, tail);
        assert(appended(next, fin) + tail =~= rest.skip(8));
        assert(consumed_bytes(read_from, rest) == written_bytes(wrote_from, cur));
    }
}

/// The outcome of an aligned write is read back by the aligned read: after a write of
/// whole bytes from `out` to `mid`, the padding that follows is consumed again, and what
/// is left is `tail`.
pub proof fn lemma_alignment_round_trip(
    alignment: u64,
    out: Seq<bool>,
    mid: Seq<bool>,
    tail: Seq<bool>,
)
    requires
        alignment >= 1,
        extends(out, mid),
        kept_whole(true, out, mid),
        !pad_write(alignment, spec_remaining_mut_bytes(out), mid).failed,
    ensures
        ({
            let last = pad_write(alignment, spec_remaining_mut_bytes(out), mid).rest;
            let bits = appended(out, last) + tail;
            &&& extends(mid, last)
            &&& extends(out, last)
            &&& kept_whole(true, out, last)
            &&& bits == appended(out, mid) + (appended(mid, last) + tail)
            &&& pad_read(alignment, bits.len() / 8, appended(mid, last) + tail) == (PadOutcome {
                failed: false,
                rest: tail,
            })
        }),
{
    reveal(kept_whole);
    let wrote_from = spec_remaining_mut_bytes(out);
    let last = pad_write(alignment, wrote_from, mid).rest;
    crate::progress::lemma_pad_write_appends(alignment, wrote_from, mid);
    lemma_extends_twice(out, mid, last);
    let bits = appended(out, last) + tail;
    assert(bits =~= appended(out, mid) + (appended(mid, last) + tail));
    assert(bits.len() == last.len() - out.len() + tail.len());
    let moved = (mid.len() - out.len()) / 8;
    assert(wrote_from - spec_remaining_mut_bytes(mid) == moved);
    assert(bits.len() / 8 - (last.len() - mid.len() + tail.len()) / 8 == moved);
    lemma_padding_is_read_back(alignment, wrote_from, bits.len() / 8, mid, tail);
}

/// For every program of mirrored types, every type of it, every byte order, every context
/// and every coherent value that encoding accepts, encoding appends to the buffer, and
/// decoding what it appended, at the place in the stored bytes at which it was written,
/// yields the value again and consumes exactly that: whatever follows in the buffer is
/// left untouched.
pub proof fn law_round_trip(
    prog: Seq<Codec>,
    decls: Seq<Declaration>,
    padded: bool,
    me: nat,
    order: ByteOrder,
    ctx: Seq<Datum>,
    v: ValueView,
    out: Seq<bool>,
    tail: Seq<bool>,
)
    requires
        mirrored_program(prog, decls, padded),
        read_in_place(order, write_procedure(prog, me, order, ctx, v, out).out, tail),
        me < prog.len(),
        coherent(decls, me, ctx, v),
        out.len() <= usize::MAX,
        write_procedure(prog, me, order, ctx, v, out).result is Ok,
    ensures
        extends(out, write_procedure(prog, me, order, ctx, v, out).out),
        read_procedure(
            prog,
            me,
            order,
            ctx,
            appended(out, write_procedure(prog, me, order, ctx, v, out).out) + tail,
        ) == read_ok(v, tail),
{
    crate::round_trip_lemmas::lemma_value_round_trip(
        prog,
        decls,
        padded,
        me,
        order,
        ctx,
        v,
        out,
        tail,
    );
}

/// Decoding exactly what encoding wrote into an empty buffer yields the value and leaves
/// nothing, where what was written is read in place: in whole bytes, or the most
/// significant byte first.
pub proof fn law_round_trip_exhausts_the_buffer(
    prog: Seq<Codec>,
    decls: Seq<Declaration>,
    padded: bool,
    me: nat,
    order: ByteOrder,
    ctx: Seq<Datum>,
    v: ValueView,
)
    requires
        mirrored_program(prog, decls, padded),
        read_in_place(
            order,
            write_procedure(prog, me, order, ctx, v, Seq::empty()).out,
            Seq::empty(),
        ),
        me < prog.len(),
        coherent(decls, me, ctx, v),
        write_procedure(prog, me, order, ctx, v, Seq::empty()).result is Ok,
    ensures
        read_procedure(
            prog,
            me,
            order,
            ctx,
            write_procedure(prog, me, order, ctx, v, Seq::empty()).out,
        ) == read_ok(v, Seq::empty()),
{
    law_round_trip(prog, decls, padded, me, order, ctx, v, Seq::empty(), Seq::empty());
    let out = write_procedure(prog, me, order, ctx, v, Seq::empty()).out;
    assert(appended(Seq::empty(), out) + Seq::<bool>::empty() =~= out);
}

/// In either byte order, decoding what encoding wrote into an empty buffer, filled with
/// zero bits up to the end of its last byte, yields the value and leaves the filling.
pub proof fn law_round_trip_in_whole_bytes(
    prog: Seq<Codec>,
    decls: Seq<Declaration>,
    padded: bool,
    me: nat,
    order: ByteOrder,
    ctx: Seq<Datum>,
    v: ValueView,
)
    requires
        mirrored_program(prog, decls, padded),
        me < prog.len(),
        coherent(decls, me, ctx, v),
        write_procedure(prog, me, order, ctx, v, Seq::empty()).result is Ok,
    ensures
        ({
            let out = write_procedure(prog, me, order, ctx, v, Seq::empty()).out;
            read_procedure(prog, me, order, ctx, out + filler(out)) == read_ok(v, filler(out))
        }),
{
    let out = write_procedure(prog, me, order, ctx, v, Seq::empty()).out;
    assert(read_in_place(order, out, filler(out))) by {
        reveal(read_in_place);
        assert(filler(out).len() == lead_of(out));
    }
    law_round_trip(prog, decls, padded, me, order, ctx, v, Seq::empty(), filler(out));
    assert(appended(Seq::empty(), out) + filler(out) =~= out + filler(out));
}

/// Where the type at `me` is aligned to `a` bytes, the bytes that encoding a value
/// writes, padding included, are a multiple of `a`, and decoding what was written
/// consumes all of it and yields the value: the padding that is emitted is the padding
/// that is consumed.
pub proof fn law_aligned_value_round_trips(
    prog: Seq<Codec>,
    decls: Seq<Declaration>,
    padded: bool,
    me: nat,
    a: u64,
    order: ByteOrder,
    ctx: Seq<Datum>,
    v: ValueView,
    out: Seq<bool>,
    tail: Seq<bool>,
)
    requires
        mirrored_program(prog, decls, padded),
        read_in_place(order, write_procedure(prog, me, order, ctx, v, out).out, tail),
        me < prog.len(),
        prog[me as int].write.alignment == Some(a),
        a >= 1,
        coherent(decls, me, ctx, v),
        out.len() <= usize::MAX,
        write_procedure(prog, me, order, ctx, v, out).result is Ok,
    ensures
        written_bytes(
            spec_remaining_mut_bytes(out),
            write_procedure(prog, me, order, ctx, v, out).out,
        ) % (a as nat) == 0,
        read_procedure(
            prog,
            me,
            order,
            ctx,
            appended(out, write_procedure(prog, me, order, ctx, v, out).out) + tail,
        ) == read_ok(v, tail),
{
    law_round_trip(prog, decls, padded, me, order, ctx, v, out, tail);
    let codec = prog[me as int];
    let mid = crate::encode::write_body(prog, me, codec.write.body, order, ctx, v, out);
    assert(write_procedure(prog, me, order, ctx, v, out) == crate::encode::write_aligned(
        Some(a),
        spec_remaining_mut_bytes(out),
        mid,
    ));
    crate::laws::law_write_padding_aligns(a, spec_remaining_mut_bytes(out), mid.out);
}

} // verus!
