//! Programs: the procedures compiled for a set of types, and the entry points that run
//! them.

use crate::bits::ByteOrder;
use crate::decode::read_procedure;
use crate::encode::{write_procedure, WriteOutcome};
use crate::error::ParselyResult;
use crate::faults::{raise, Fault};
use crate::generate::{
    declared_read_variants, declared_write_variants, generate_parsely_read_impl,
    generate_parsely_write_impl, is_declared_read, is_declared_write, read_declaration_error,
    spec_key, write_declaration_error, WriteImpl,
};
use crate::plan::{Codec, ReadBody, SyncSteps, WriteBody};
use crate::read::{matches_value, run_read_procedure};
use crate::read_gen::{shape_of_style, spec_read_arms, spec_read_steps};
use crate::receiver::{
    spec_params, spec_read_fields, spec_write_fields, Data, ParselyReadReceiver,
    ParselyWriteReceiver, SchemaError,
};
use crate::round_trip::{
    coherent, law_round_trip_in_whole_bytes, mirrored_program, Declaration,
};
use crate::schema::{
    read_fields_wf, read_variant_views, write_variant_views, ParselyReadEnumData,
    ParselyReadStructData,
    ParselyWriteEnumData, ParselyWriteStructData,
};
use crate::sync::{run_sync_procedure, sync_procedure, sync_procedure_reached};
use crate::value::{Datum, Value, ValueView};
use crate::wire::{
    appendable, fill_byte, filler, freeze, intact, unread_bits, writer, written_bits,
};
use crate::write::{matches_unit, run_write_procedure};
use crate::write_gen::{spec_sync_steps, spec_write_arms, spec_write_steps};
use bits_io::buf::bits::Bits;
use bits_io::buf::bits_mut::BitsMut;
use vstd::prelude::*;

verus! {

impl Codec {
    /// Whether this is what the record data compile to.
    pub open spec fn is_record(self, read: ParselyReadStructData, write: ParselyWriteStructData) -> bool {
        &&& self.read.name == read.ident
        &&& self.read.params@ == read.required_context.0@
        &&& self.read.alignment == read.alignment
        &&& self.read.body == ReadBody::Record(
            spec_read_steps(read.fields@, 0),
            shape_of_style(read.style),
        )
        &&& self.write.name == write.ident
        &&& self.write.params@ == write.required_context.0@
        &&& self.write.alignment == write.alignment
        &&& self.write.body == WriteBody::Record(spec_write_steps(write.fields@, 0))
        &&& self.sync.name == write.ident
        &&& self.sync.params@ == write.sync_args.0@
        &&& self.sync.steps == spec_sync_steps(write.fields@, 0)
    }

    /// Whether this is what the tagged-union data compile to.
    pub open spec fn is_union(self, read: ParselyReadEnumData, write: ParselyWriteEnumData) -> bool {
        &&& self.read.name == read.ident
        &&& self.read.params@ == read.required_context.0@
        &&& self.read.alignment == read.alignment
        &&& self.read.body == (ReadBody::Dispatch {
            tag: read.key,
            arms: spec_read_arms(read_variant_views(read.variants@), 0),
        })
        &&& self.write.name == write.ident
        &&& self.write.params@ == write.required_context.0@
        &&& self.write.alignment == write.alignment
        &&& self.write.body == (WriteBody::Dispatch {
            tag: write.key,
            arms: spec_write_arms(write_variant_views(write.variants@), 0),
        })
        &&& self.sync.name == write.ident
        &&& self.sync.params@ == write.sync_args.0@
        &&& self.sync.steps == SyncSteps::Done
    }

    /// Compiles a record to its three procedures.
    pub fn for_record(read: &ParselyReadStructData, write: &ParselyWriteStructData) -> (c: Codec)
        requires
            read_fields_wf(read.fields@),
        ensures
            c.is_record(*read, *write),
    {
        Codec {
            read: read.to_procedure(),
            write: write.to_procedure(),
            sync: write.to_sync_procedure(),
        }
    }

    /// Compiles a tagged union to its three procedures.
    pub fn for_union(read: &ParselyReadEnumData, write: &ParselyWriteEnumData) -> (c: Codec)
        requires
            forall|i: int| 0 <= i < read.variants@.len() ==> (#[trigger] read.variants@[i]).wf(),
        ensures
            c.is_union(*read, *write),
    {
        Codec {
            read: read.to_procedure(),
            write: write.to_procedure(),
            sync: write.to_sync_procedure(),
        }
    }
}

/// The codec of a record that is aligned alike and has as many parameters in both
/// directions holds what the record's declaration compiles to.
pub proof fn law_record_codec_is_declared(
    c: Codec,
    read: ParselyReadStructData,
    write: ParselyWriteStructData,
)
    requires
        c.is_record(read, write),
        read.alignment == write.alignment,
        read.required_context.0@.len() == write.required_context.0@.len(),
    ensures
        (Declaration::Record {
            alignment: read.alignment,
            reads: read.fields@,
            writes: write.fields@,
        }).compiles_to(c),
{
}

/// The codec of a tagged union that is aligned alike and has as many parameters in both
/// directions, and whose discriminant travels as the same primitive in both, holds what
/// the union's declaration compiles to.
pub proof fn law_union_codec_is_declared(
    c: Codec,
    read: ParselyReadEnumData,
    write: ParselyWriteEnumData,
)
    requires
        c.is_union(read, write),
        read.alignment == write.alignment,
        read.required_context.0@.len() == write.required_context.0@.len(),
        read.key == write.key,
        read.key is Typed,
    ensures
        (Declaration::Union {
            alignment: read.alignment,
            key: read.key->Typed_0,
            reads: read_variant_views(read.variants@),
            writes: write_variant_views(write.variants@),
        }).compiles_to(c),
{
}

/// What a pair of declarations of one type, of the same kind, declares for the round
/// trip. `names` holds the names of the types declared before.
pub open spec fn declaration_of(
    read: ParselyReadReceiver,
    write: ParselyWriteReceiver,
    names: Seq<String>,
) -> Declaration {
    match (read.data, write.data) {
        (Data::Enum(read_variants), Data::Enum(write_variants)) => Declaration::Union {
            alignment: read.alignment,
            key: spec_key(read.key_type, read.key, names)->Ok_0->Typed_0,
            reads: declared_read_variants(read_variants@, names),
            writes: declared_write_variants(write_variants@, names),
        },
        (Data::Struct(_, read_fields), Data::Struct(_, write_fields)) => Declaration::Record {
            alignment: read.alignment,
            reads: spec_read_fields(read_fields@, names, 0, Seq::empty())->Ok_0,
            writes: spec_write_fields(write_fields@, names, 0, Seq::empty())->Ok_0,
        },
        _ => Declaration::Record {
            alignment: read.alignment,
            reads: Seq::empty(),
            writes: Seq::empty(),
        },
    }
}

/// The codec that declarations of one type compile to holds what they declare for the
/// round trip, where they are of the same kind, aligned alike and of as many parameters,
/// and where the discriminant of a tagged union travels as the same primitive in both
/// directions.
pub proof fn law_declared_codec_is_declared(
    c: Codec,
    read: ParselyReadReceiver,
    write: ParselyWriteReceiver,
    names: Seq<String>,
)
    requires
        read_declaration_error(read, names) is None,
        write_declaration_error(write, names) is None,
        is_declared_read(c.read, read, names),
        is_declared_write(WriteImpl { write: c.write, sync: c.sync }, write, names),
        read.alignment == write.alignment,
        spec_params(read.required_context).len() == spec_params(write.required_context).len(),
        read.data is Struct <==> write.data is Struct,
        read.data is Enum ==> spec_key(read.key_type, read.key, names) == spec_key(
            write.key_type,
            write.key,
            names,
        ) && spec_key(read.key_type, read.key, names)->Ok_0 is Typed,
    ensures
        declaration_of(read, write, names).compiles_to(c),
{
}

/// Whether a write succeeded and what it wrote, filled up to the end of its last byte,
/// has a length that the machine can count.
pub open spec fn whole_bytes_fit(o: WriteOutcome) -> bool {
    o.result is Ok && o.out.len() + filler(o.out).len() <= usize::MAX
}

/// Whether a result is the value `v`.
pub open spec fn came_back(r: ParselyResult<Value>, v: ValueView) -> bool {
    r is Ok && r->Ok_0@ == v
}

/// The procedures of a set of types, with the names of the types. A procedure may call
/// those that come before it.
#[derive(Debug)]
pub struct Program {
    /// The procedures, by position.
    pub codecs: Vec<Codec>,
    /// The name of the type at each position.
    pub names: Vec<String>,
}

impl Program {
    /// A program without types.
    pub fn new() -> (p: Program)
        ensures
            p.codecs@.len() == 0,
            p.names@.len() == 0,
    {
        Program { codecs: Vec::new(), names: Vec::new() }
    }

    /// Adds the procedures of one more type and hands back its position.
    pub fn add(&mut self, codec: Codec) -> (index: usize)
        ensures
            index == old(self).codecs@.len(),
            final(self).codecs@ == old(self).codecs@.push(codec),
            final(self).names@ == old(self).names@.push(codec.read.name),
    {
        let index = self.codecs.len();
        self.names.push(codec.read.name.clone());
        self.codecs.push(codec);
        index
    }

    /// Checks the declarations of one more type against the names of the types declared
    /// so far, compiles them and adds the procedures. On success the position of the new
    /// type is handed back; a declaration that is not a schema leaves the program as it
    /// was and hands back the reason: that of the read declaration first.
    pub fn declare(&mut self, read: ParselyReadReceiver, write: ParselyWriteReceiver) -> (r:
        Result<usize, SchemaError>)
        ensures
            match (
                read_declaration_error(read, old(self).names@),
                write_declaration_error(write, old(self).names@),
            ) {
                (Some(e), _) => r == Err::<usize, SchemaError>(e) && *final(self) == *old(self),
                (None, Some(e)) => r == Err::<usize, SchemaError>(e) && *final(self) == *old(
                    self,
                ),
                (None, None) => {
                    &&& r == Ok::<usize, SchemaError>(old(self).codecs@.len() as usize)
                    &&& final(self).names@ == old(self).names@.push(read.ident)
                    &&& final(self).codecs@.len() == old(self).codecs@.len() + 1
                    &&& final(self).codecs@.drop_last() == old(self).codecs@
                    &&& is_declared_read(final(self).codecs@.last().read, read, old(self).names@)
                    &&& is_declared_write(
                        WriteImpl {
                            write: final(self).codecs@.last().write,
                            sync: final(self).codecs@.last().sync,
                        },
                        write,
                        old(self).names@,
                    )
                },
            },
    {
        let decode = match generate_parsely_read_impl(read, &self.names) {
            Ok(p) => p,
            Err(e) => {
                return Err(e);
            },
        };
        let encode = match generate_parsely_write_impl(write, &self.names) {
            Ok(p) => p,
            Err(e) => {
                return Err(e);
            },
        };
        let index = self.codecs.len();
        self.names.push(decode.name.clone());
        self.codecs.push(Codec { read: decode, write: encode.write, sync: encode.sync });
        assert(self.codecs@.drop_last() =~= old(self).codecs@);
        Ok(index)
    }

    /// Decodes one value of the type at position `index` from `buf`, with the context
    /// `ctx`. On success `buf` is left behind the value; on failure where the failure
    /// occurred.
    pub fn read(
        &self,
        index: usize,
        buf: &mut Bits,
        order: ByteOrder,
        ctx: &Vec<Datum>,
    ) -> (r: ParselyResult<Value>)
        requires
            intact(*old(buf)),
        ensures
            intact(*final(buf)),
            matches_value(
                r,
                read_procedure(
                    self.codecs@,
                    index as nat,
                    order,
                    ctx@,
                    unread_bits(*old(buf)),
                ).result,
            ),
            unread_bits(*final(buf)) == read_procedure(
                self.codecs@,
                index as nat,
                order,
                ctx@,
                unread_bits(*old(buf)),
            ).rest,
    {
        run_read_procedure(&self.codecs, index, order, ctx, buf)
    }

    /// Appends the encoding of `value`, as the type at position `index`, to `buf`, with
    /// the context `ctx`. On failure `buf` holds what was written before the failure.
    pub fn write(
        &self,
        index: usize,
        value: &Value,
        buf: &mut BitsMut,
        order: ByteOrder,
        ctx: &Vec<Datum>,
    ) -> (r: ParselyResult<()>)
        requires
            appendable(*old(buf)),
        ensures
            appendable(*final(buf)),
            matches_unit(
                r,
                write_procedure(
                    self.codecs@,
                    index as nat,
                    order,
                    ctx@,
                    value@,
                    written_bits(*old(buf)),
                ).result,
            ),
            written_bits(*final(buf)) == write_procedure(
                self.codecs@,
                index as nat,
                order,
                ctx@,
                value@,
                written_bits(*old(buf)),
            ).out,
    {
        run_write_procedure(&self.codecs, index, order, ctx, value, buf)
    }

    /// Encodes `value`, as the type at position `index`, into a buffer of its own, fills
    /// the last byte with zero bits, and decodes what the buffer then holds. A failure to
    /// encode is handed back as it is; otherwise the outcome is that of decoding. Where
    /// the program is one of mirrored types and the value is coherent, the value comes
    /// back, in either byte order.
    pub fn round_trip(
        &self,
        index: usize,
        value: &Value,
        order: ByteOrder,
        ctx: &Vec<Datum>,
    ) -> (r: ParselyResult<Value>)
        ensures
            match write_procedure(
                self.codecs@,
                index as nat,
                order,
                ctx@,
                value@,
                Seq::empty(),
            ) {
                WriteOutcome { result: Err(e), .. } => r matches Err(f) && f@ == e,
                WriteOutcome { result: Ok(_), out } => if out.len() + filler(out).len()
                    <= usize::MAX {
                    matches_value(
                        r,
                        read_procedure(
                            self.codecs@,
                            index as nat,
                            order,
                            ctx@,
                            out + filler(out),
                        ).result,
                    )
                } else {
                    r is Err
                },
            },
            forall|decls: Seq<Declaration>, padded: bool|
                #[trigger] mirrored_program(self.codecs@, decls, padded) && coherent(
                    decls,
                    index as nat,
                    ctx@,
                    value@,
                ) && whole_bytes_fit(
                    write_procedure(self.codecs@, index as nat, order, ctx@, value@, Seq::empty()),
                ) ==> came_back(r, value@),
    {
        let mut out = writer();
        match self.write(index, value, &mut out, order, ctx) {
            Err(e) => Err(e),
            Ok(_) => {
                let ghost written = written_bits(out);
                if !fill_byte(&mut out) {
                    return Err(raise(Fault::NoRoom));
                }
                let mut back = freeze(out);
                let r = self.read(index, &mut back, order, ctx);
                proof {
                    assert forall|decls: Seq<Declaration>, padded: bool|
                        #[trigger] mirrored_program(self.codecs@, decls, padded) && coherent(
                            decls,
                            index as nat,
                            ctx@,
                            value@,
                        ) implies came_back(r, value@) by {
                        if index < self.codecs@.len() {
                            law_round_trip_in_whole_bytes(
                                self.codecs@,
                                decls,
                                padded,
                                index as nat,
                                order,
                                ctx@,
                                value@,
                            );
                        }
                    }
                }
                r
            },
        }
    }

    /// Brings `value`, of the type at position `index`, up to date with the arguments
    /// `args`, in place and in declaration order. On success `value` holds the
    /// synchronized fields. A failure stops the run and undoes nothing: the fields
    /// before the failing one keep their new values, the others their old ones.
    pub fn sync(&self, index: usize, value: &mut Value, args: &Vec<Datum>) -> (r: ParselyResult<()>)
        ensures
            match sync_procedure(self.codecs@, index as nat, args@, old(value)@) {
                Ok(v) => r is Ok && final(value)@ == v,
                Err(e) => r matches Err(f) && f@ == e,
            },
            final(value)@ == sync_procedure_reached(
                self.codecs@,
                index as nat,
                args@,
                old(value)@,
            ),
    {
        run_sync_procedure(&self.codecs, index, args, value)
    }
}

} // verus!
