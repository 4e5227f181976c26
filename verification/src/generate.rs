//! From declarations to procedures: the checks for tagged unions, and the entry points
//! that check a declaration and compile it.

use crate::expr::Expr;
use crate::plan::{
    ReadBody, ReadProcedure, SyncProcedure, SyncSteps, TagSource, TypeRef, WriteBody,
    WriteProcedure,
};
use crate::read_gen::{shape_of_style, spec_read_arms, spec_read_steps};
use crate::receiver::{
    read_fields, resolve, spec_alignment, spec_params, spec_read_fields, spec_resolve,
    spec_write_fields, write_fields, Data, ParselyReadReceiver, ParselyReadVariantReceiver,
    ParselyWriteReceiver, ParselyWriteVariantReceiver, SchemaError,
};
use crate::schema::{
    read_variant_views, write_variant_views, ParselyReadEnumData, ParselyReadFieldData,
    ParselyReadStructData, ParselyReadVariantData, ParselyWriteEnumData, ParselyWriteFieldData,
    ParselyWriteStructData, ParselyWriteVariantData, ReadVariantView, TypedFnArgList,
    WriteVariantView,
};
use crate::shape::TypeShape;
use crate::write_gen::{spec_sync_steps, spec_write_arms, spec_write_steps};
use vstd::prelude::*;

verus! {

/// How the discriminant of a tagged union is obtained: decoded as the key type if one is
/// declared, which must be a primitive; else the value of the key expression.
pub open spec fn spec_key(
    key_type: Option<TypeShape>,
    key: Option<Expr>,
    names: Seq<String>,
) -> Result<TagSource, SchemaError> {
    match key_type {
        Some(t) => match spec_resolve(t, names) {
            Some(TypeRef::Primitive(p)) => Ok(TagSource::Typed(p)),
            _ => Err(SchemaError::KeyNotPrimitive),
        },
        None => match key {
            Some(e) => Ok(TagSource::Computed(e)),
            None => Err(SchemaError::MissingKey),
        },
    }
}

fn key_of(key_type: Option<TypeShape>, key: Option<Expr>, names: &Vec<String>) -> (r: Result<
    TagSource,
    SchemaError,
>)
    ensures
        r == spec_key(key_type, key, names@),
        r matches Ok(TagSource::Typed(p)) ==> p.wf(),
{
    match key_type {
        Some(t) => {
            proof {
                if let Some(name) = t.spec_bare_name() {
                    crate::receiver::lemma_named_primitive_is_supported(name@);
                }
            }
            match resolve(&t, names) {
                Some(TypeRef::Primitive(p)) => Ok(TagSource::Typed(p)),
                _ => Err(SchemaError::KeyNotPrimitive),
            }
        },
        None => match key {
            Some(e) => Ok(TagSource::Computed(e)),
            None => Err(SchemaError::MissingKey),
        },
    }
}

/// Whether `d` is the read data of the variant declared by `v` inside the tagged union
/// `enum_name`.
pub open spec fn is_read_variant(
    d: ParselyReadVariantData,
    v: ParselyReadVariantReceiver,
    enum_name: String,
    names: Seq<String>,
) -> bool {
    &&& d.wf()
    &&& d.enum_name == enum_name
    &&& d.ident == v.ident
    &&& d.id == v.id
    &&& d.discriminant == v.discriminant
    &&& spec_read_fields(v.fields@, names, 0, Seq::empty()) == Ok::<
        Seq<ParselyReadFieldData>,
        SchemaError,
    >(d.fields@)
}

/// Whether `d` is the write data of the variant declared by `v` inside the tagged union
/// `enum_name`.
pub open spec fn is_write_variant(
    d: ParselyWriteVariantData,
    v: ParselyWriteVariantReceiver,
    enum_name: String,
    names: Seq<String>,
) -> bool {
    &&& d.enum_name == enum_name
    &&& d.ident == v.ident
    &&& d.id == v.id
    &&& d.discriminant == v.discriminant
    &&& write_fields_are(d, v, names)
}

/// Whether the fields of `d` are the write data of the fields that `v` declares.
pub open spec fn write_fields_are(
    d: ParselyWriteVariantData,
    v: ParselyWriteVariantReceiver,
    names: Seq<String>,
) -> bool {
    spec_write_fields(v.fields@, names, 0, Seq::empty()) == Ok::<
        Seq<ParselyWriteFieldData>,
        SchemaError,
    >(d.fields@)
}

/// Why the first bad variant from position `from` on is not one, if any is bad.
pub open spec fn first_read_variant_error(
    variants: Seq<ParselyReadVariantReceiver>,
    names: Seq<String>,
    from: nat,
) -> Option<SchemaError>
    decreases variants.len() - from,
{
    if from >= variants.len() {
        None
    } else {
        match spec_read_fields(variants[from as int].fields@, names, 0, Seq::empty()) {
            Err(e) => Some(e),
            Ok(_) => first_read_variant_error(variants, names, from + 1),
        }
    }
}

/// Why the first bad variant from position `from` on is not one, if any is bad: its fields
/// are bad, or its computed payload travels as an unsupported primitive.
pub open spec fn first_write_variant_error(
    variants: Seq<ParselyWriteVariantReceiver>,
    names: Seq<String>,
    from: nat,
) -> Option<SchemaError>
    decreases variants.len() - from,
{
    if from >= variants.len() {
        None
    } else {
        match spec_write_fields(variants[from as int].fields@, names, 0, Seq::empty()) {
            Err(e) => Some(e),
            Ok(_) => if variants[from as int].discriminant matches Some(d) && !d.ty.wf() {
                Some(SchemaError::UnknownType)
            } else {
                first_write_variant_error(variants, names, from + 1)
            },
        }
    }
}

/// Checks the declarations of variants, in order, and builds their read data.
#[verifier::loop_isolation(false)]
pub fn read_variants(
    variants: Vec<ParselyReadVariantReceiver>,
    enum_name: &String,
    names: &Vec<String>,
) -> (r: Result<Vec<ParselyReadVariantData>, SchemaError>)
    ensures
        match first_read_variant_error(variants@, names@, 0) {
            Some(e) => r == Err::<Vec<ParselyReadVariantData>, SchemaError>(e),
            None => r matches Ok(out) && out@.len() == variants@.len() && forall|i: int|
                0 <= i < out@.len() ==> is_read_variant(
                    #[trigger] out@[i],
                    variants@[i],
                    *enum_name,
                    names@,
                ),
        },
{
    let ghost all = variants@;
    let total = variants.len();
    let mut rest = variants;
    let mut out: Vec<ParselyReadVariantData> = Vec::new();
    let mut index: usize = 0;
    while rest.len() > 0
        invariant
            index + rest@.len() == all.len(),
            rest@ == all.skip(index as int),
            out@.len() == index,
            forall|i: int|
                0 <= i < out@.len() ==> is_read_variant(
                    #[trigger] out@[i],
                    all[i],
                    *enum_name,
                    names@,
                ),
            first_read_variant_error(all, names@, index as nat) == first_read_variant_error(
                all,
                names@,
                0,
            ),
        decreases rest@.len(),
    {
        assert(index < total == all.len());
        let v = rest.remove(0);
        assert(v == all[index as int]);
        let ParselyReadVariantReceiver { ident, discriminant, id, fields } = v;
        match read_fields(fields, names) {
            Ok(data_fields) => {
                out.push(
                    ParselyReadVariantData {
                        enum_name: enum_name.clone(),
                        ident,
                        id,
                        discriminant,
                        fields: data_fields,
                    },
                );
            },
            Err(e) => {
                return Err(e);
            },
        }
        assert(rest@ =~= all.skip(index + 1));
        index = index + 1;
    }
    Ok(out)
}

/// Checks the declarations of variants, in order, and builds their write data.
#[verifier::loop_isolation(false)]
pub fn write_variants(
    variants: Vec<ParselyWriteVariantReceiver>,
    enum_name: &String,
    names: &Vec<String>,
) -> (r: Result<Vec<ParselyWriteVariantData>, SchemaError>)
    ensures
        match first_write_variant_error(variants@, names@, 0) {
            Some(e) => r == Err::<Vec<ParselyWriteVariantData>, SchemaError>(e),
            None => r matches Ok(out) && out@.len() == variants@.len() && forall|i: int|
                0 <= i < out@.len() ==> (#[trigger] out@[i]).wf() && is_write_variant(
                    out@[i],
                    variants@[i],
                    *enum_name,
                    names@,
                ),
        },
{
    let ghost all = variants@;
    let total = variants.len();
    let mut rest = variants;
    let mut out: Vec<ParselyWriteVariantData> = Vec::new();
    let mut index: usize = 0;
    while rest.len() > 0
        invariant
            index + rest@.len() == all.len(),
            rest@ == all.skip(index as int),
            out@.len() == index,
            forall|i: int|
                0 <= i < out@.len() ==> (#[trigger] out@[i]).wf() && is_write_variant(
                    out@[i],
                    all[i],
                    *enum_name,
                    names@,
                ),
            first_write_variant_error(all, names@, index as nat) == first_write_variant_error(
                all,
                names@,
                0,
            ),
        decreases rest@.len(),
    {
        assert(index < total == all.len());
        let v = rest.remove(0);
        assert(v == all[index as int]);
        let ParselyWriteVariantReceiver { ident, discriminant, id, fields } = v;
        match write_fields(fields, names) {
            Ok(data_fields) => {
                if let Some(d) = &discriminant {
                    if !d.ty.is_supported() {
                        return Err(SchemaError::UnknownType);
                    }
                }
                out.push(
                    ParselyWriteVariantData {
                        enum_name: enum_name.clone(),
                        ident,
                        id,
                        discriminant,
                        fields: data_fields,
                    },
                );
            },
            Err(e) => {
                return Err(e);
            },
        }
        assert(rest@ =~= all.skip(index + 1));
        index = index + 1;
    }
    Ok(out)
}

impl ParselyReadEnumData {
    /// Checks the declaration of a tagged union and builds its read data: the declaration
    /// must be a tagged union with a key, its alignment not zero, and each field of each
    /// variant must pass the checks for fields; the first failure is handed back.
    pub fn try_from(value: ParselyReadReceiver, names: &Vec<String>) -> (r: Result<
        ParselyReadEnumData,
        SchemaError,
    >)
        ensures
            match value.data {
                Data::Struct(_, _) => r == Err::<ParselyReadEnumData, SchemaError>(
                    SchemaError::NotAnEnum,
                ),
                Data::Enum(variants) => match spec_key(value.key_type, value.key, names@) {
                    Err(e) => r == Err::<ParselyReadEnumData, SchemaError>(e),
                    Ok(key) => match spec_alignment(value.alignment) {
                        Err(e) => r == Err::<ParselyReadEnumData, SchemaError>(e),
                        Ok(alignment) => match first_read_variant_error(variants@, names@, 0) {
                            Some(e) => r == Err::<ParselyReadEnumData, SchemaError>(e),
                            None => r matches Ok(d) && d.wf() && d.ident == value.ident && d.key
                                == key && d.alignment == alignment && d.required_context.0@
                                == spec_params(value.required_context) && d.variants@.len()
                                == variants@.len() && forall|i: int|
                                0 <= i < variants@.len() ==> is_read_variant(
                                    #[trigger] d.variants@[i],
                                    variants@[i],
                                    value.ident,
                                    names@,
                                ),
                        },
                    },
                },
            },
    {
        let ParselyReadReceiver { ident, required_context, alignment, key, key_type, data } = value;
        match data {
            Data::Struct(_, _) => Err(SchemaError::NotAnEnum),
            Data::Enum(variants) => {
                let key = match key_of(key_type, key, names) {
                    Ok(k) => k,
                    Err(e) => {
                        return Err(e);
                    },
                };
                let alignment = match alignment {
                    Some(0) => {
                        return Err(SchemaError::ZeroAlignment);
                    },
                    a => a,
                };
                match read_variants(variants, &ident, names) {
                    Ok(data_variants) => Ok(
                        ParselyReadEnumData {
                            ident,
                            required_context: match required_context {
                                Some(l) => l,
                                None => TypedFnArgList(Vec::new()),
                            },
                            alignment,
                            key,
                            variants: data_variants,
                        },
                    ),
                    Err(e) => Err(e),
                }
            },
        }
    }
}

impl ParselyWriteEnumData {
    /// Checks the declaration of a tagged union and builds its write data: the
    /// declaration must be a tagged union with a key, its alignment not zero, and each
    /// field of each variant must pass the checks for fields; the first failure is handed
    /// back.
    pub fn try_from(value: ParselyWriteReceiver, names: &Vec<String>) -> (r: Result<
        ParselyWriteEnumData,
        SchemaError,
    >)
        ensures
            match value.data {
                Data::Struct(_, _) => r == Err::<ParselyWriteEnumData, SchemaError>(
                    SchemaError::NotAnEnum,
                ),
                Data::Enum(variants) => match spec_key(value.key_type, value.key, names@) {
                    Err(e) => r == Err::<ParselyWriteEnumData, SchemaError>(e),
                    Ok(key) => match spec_alignment(value.alignment) {
                        Err(e) => r == Err::<ParselyWriteEnumData, SchemaError>(e),
                        Ok(alignment) => match first_write_variant_error(variants@, names@, 0) {
                            Some(e) => r == Err::<ParselyWriteEnumData, SchemaError>(e),
                            None => r matches Ok(d) && d.wf() && d.ident == value.ident && d.key
                                == key && d.alignment == alignment && d.required_context.0@
                                == spec_params(value.required_context) && d.sync_args.0@
                                == spec_params(value.sync_args) && d.variants@.len()
                                == variants@.len() && forall|i: int|
                                0 <= i < variants@.len() ==> is_write_variant(
                                    #[trigger] d.variants@[i],
                                    variants@[i],
                                    value.ident,
                                    names@,
                                ),
                        },
                    },
                },
            },
    {
        let ParselyWriteReceiver {
            ident,
            required_context,
            sync_args,
            alignment,
            key,
            key_type,
            data,
        } = value;
        match data {
            Data::Struct(_, _) => Err(SchemaError::NotAnEnum),
            Data::Enum(variants) => {
                let key = match key_of(key_type, key, names) {
                    Ok(k) => k,
                    Err(e) => {
                        return Err(e);
                    },
                };
                let alignment = match alignment {
                    Some(0) => {
                        return Err(SchemaError::ZeroAlignment);
                    },
                    a => a,
                };
                match write_variants(variants, &ident, names) {
                    Ok(data_variants) => Ok(
                        ParselyWriteEnumData {
                            ident,
                            required_context: match required_context {
                                Some(l) => l,
                                None => TypedFnArgList(Vec::new()),
                            },
                            alignment,
                            sync_args: match sync_args {
                                Some(l) => l,
                                None => TypedFnArgList(Vec::new()),
                            },
                            key,
                            variants: data_variants,
                        },
                    ),
                    Err(e) => Err(e),
                }
            },
        }
    }
}

/// The values of the variants that the declarations compile to, in order.
pub open spec fn declared_read_variants(
    variants: Seq<ParselyReadVariantReceiver>,
    names: Seq<String>,
) -> Seq<ReadVariantView> {
    Seq::new(
        variants.len(),
        |i: int|
            ReadVariantView {
                ident: variants[i].ident,
                id: variants[i].id,
                discriminant: variants[i].discriminant,
                fields: spec_read_fields(variants[i].fields@, names, 0, Seq::empty())->Ok_0,
            },
    )
}

/// The values of the variants that the declarations compile to, in order.
pub open spec fn declared_write_variants(
    variants: Seq<ParselyWriteVariantReceiver>,
    names: Seq<String>,
) -> Seq<WriteVariantView> {
    Seq::new(
        variants.len(),
        |i: int|
            WriteVariantView {
                ident: variants[i].ident,
                id: variants[i].id,
                discriminant: variants[i].discriminant,
                fields: spec_write_fields(variants[i].fields@, names, 0, Seq::empty())->Ok_0,
            },
    )
}

/// The values of checked variants are the values that their declarations compile to.
pub proof fn lemma_read_variants_are_declared(
    data: Seq<ParselyReadVariantData>,
    variants: Seq<ParselyReadVariantReceiver>,
    enum_name: String,
    names: Seq<String>,
)
    requires
        data.len() == variants.len(),
        forall|i: int|
            0 <= i < data.len() ==> is_read_variant(#[trigger] data[i], variants[i], enum_name, names),
    ensures
        read_variant_views(data) == declared_read_variants(variants, names),
{
    assert forall|i: int| 0 <= i < data.len() implies read_variant_views(data)[i]
        == declared_read_variants(variants, names)[i] by {
        assert(is_read_variant(data[i], variants[i], enum_name, names));
    }
    assert(read_variant_views(data) =~= declared_read_variants(variants, names));
}

/// The values of checked variants are the values that their declarations compile to.
pub proof fn lemma_write_variants_are_declared(
    data: Seq<ParselyWriteVariantData>,
    variants: Seq<ParselyWriteVariantReceiver>,
    enum_name: String,
    names: Seq<String>,
)
    requires
        data.len() == variants.len(),
        forall|i: int|
            0 <= i < data.len() ==> is_write_variant(
                #[trigger] data[i],
                variants[i],
                enum_name,
                names,
            ),
    ensures
        write_variant_views(data) == declared_write_variants(variants, names),
{
    assert forall|i: int| 0 <= i < data.len() implies write_variant_views(data)[i]
        == declared_write_variants(variants, names)[i] by {
        assert(is_write_variant(data[i], variants[i], enum_name, names));
    }
    assert(write_variant_views(data) =~= declared_write_variants(variants, names));
}

/// Why a read declaration is not a schema, if it is not one. The checks come in this
/// order: for a record its alignment, then its fields; for a tagged union its key, then
/// its alignment, then its variants.
pub open spec fn read_declaration_error(data: ParselyReadReceiver, names: Seq<String>) -> Option<
    SchemaError,
> {
    match data.data {
        Data::Struct(_, fields) => match spec_alignment(data.alignment) {
            Err(e) => Some(e),
            Ok(_) => match spec_read_fields(fields@, names, 0, Seq::empty()) {
                Err(e) => Some(e),
                Ok(_) => None,
            },
        },
        Data::Enum(variants) => match spec_key(data.key_type, data.key, names) {
            Err(e) => Some(e),
            Ok(_) => match spec_alignment(data.alignment) {
                Err(e) => Some(e),
                Ok(_) => first_read_variant_error(variants@, names, 0),
            },
        },
    }
}

/// The body of the decode procedure that a read declaration compiles to.
pub open spec fn declared_read_body(data: ParselyReadReceiver, names: Seq<String>) -> ReadBody {
    match data.data {
        Data::Struct(style, fields) => ReadBody::Record(
            spec_read_steps(spec_read_fields(fields@, names, 0, Seq::empty())->Ok_0, 0),
            shape_of_style(style),
        ),
        Data::Enum(variants) => ReadBody::Dispatch {
            tag: spec_key(data.key_type, data.key, names)->Ok_0,
            arms: spec_read_arms(declared_read_variants(variants@, names), 0),
        },
    }
}

/// Whether `p` is the decode procedure that a read declaration compiles to.
pub open spec fn is_declared_read(
    p: ReadProcedure,
    data: ParselyReadReceiver,
    names: Seq<String>,
) -> bool {
    &&& p.name == data.ident
    &&& p.params@ == spec_params(data.required_context)
    &&& p.alignment == data.alignment
    &&& p.body == declared_read_body(data, names)
}

/// Why a write declaration is not a schema, if it is not one. The checks come in the same
/// order as for a read declaration.
pub open spec fn write_declaration_error(
    data: ParselyWriteReceiver,
    names: Seq<String>,
) -> Option<SchemaError> {
    match data.data {
        Data::Struct(_, fields) => match spec_alignment(data.alignment) {
            Err(e) => Some(e),
            Ok(_) => match spec_write_fields(fields@, names, 0, Seq::empty()) {
                Err(e) => Some(e),
                Ok(_) => None,
            },
        },
        Data::Enum(variants) => match spec_key(data.key_type, data.key, names) {
            Err(e) => Some(e),
            Ok(_) => match spec_alignment(data.alignment) {
                Err(e) => Some(e),
                Ok(_) => first_write_variant_error(variants@, names, 0),
            },
        },
    }
}

/// The body of the encode procedure that a write declaration compiles to.
pub open spec fn declared_write_body(data: ParselyWriteReceiver, names: Seq<String>) -> WriteBody {
    match data.data {
        Data::Struct(_, fields) => WriteBody::Record(
            spec_write_steps(spec_write_fields(fields@, names, 0, Seq::empty())->Ok_0, 0),
        ),
        Data::Enum(variants) => WriteBody::Dispatch {
            tag: spec_key(data.key_type, data.key, names)->Ok_0,
            arms: spec_write_arms(declared_write_variants(variants@, names), 0),
        },
    }
}

/// The steps of the synchronize procedure that a write declaration compiles to: one for
/// each field of a record, none for a tagged union.
pub open spec fn declared_sync_steps(data: ParselyWriteReceiver, names: Seq<String>) -> SyncSteps {
    match data.data {
        Data::Struct(_, fields) => spec_sync_steps(
            spec_write_fields(fields@, names, 0, Seq::empty())->Ok_0,
            0,
        ),
        Data::Enum(_) => SyncSteps::Done,
    }
}

/// The encode and synchronize procedures of one type.
#[derive(Debug)]
pub struct WriteImpl {
    pub write: WriteProcedure,
    pub sync: SyncProcedure,
}

/// Whether `p` holds the encode and synchronize procedures that a write declaration
/// compiles to.
pub open spec fn is_declared_write(
    p: WriteImpl,
    data: ParselyWriteReceiver,
    names: Seq<String>,
) -> bool {
    &&& p.write.name == data.ident
    &&& p.write.params@ == spec_params(data.required_context)
    &&& p.write.alignment == data.alignment
    &&& p.write.body == declared_write_body(data, names)
    &&& p.sync.name == data.ident
    &&& p.sync.params@ == spec_params(data.sync_args)
    &&& p.sync.steps == declared_sync_steps(data, names)
}

/// Checks a declaration and compiles it to its decode procedure. `names` holds the names
/// of the types declared before, in their order in the program. A declaration that is
/// not a schema yields the reason and no procedure.
pub fn generate_parsely_read_impl(data: ParselyReadReceiver, names: &Vec<String>) -> (r: Result<
    ReadProcedure,
    SchemaError,
>)
    ensures
        match read_declaration_error(data, names@) {
            Some(e) => r == Err::<ReadProcedure, SchemaError>(e),
            None => r matches Ok(p) && is_declared_read(p, data, names@),
        },
{
    if data.data.is_struct() {
        match ParselyReadStructData::try_from(data, names) {
            Ok(struct_data) => Ok(struct_data.to_procedure()),
            Err(e) => Err(e),
        }
    } else {
        let ghost declared = data.data->Enum_0@;
        let ghost name = data.ident;
        match ParselyReadEnumData::try_from(data, names) {
            Ok(enum_data) => {
                proof {
                    lemma_read_variants_are_declared(enum_data.variants@, declared, name, names@);
                }
                Ok(enum_data.to_procedure())
            },
            Err(e) => Err(e),
        }
    }
}

/// Checks a declaration and compiles it to its encode and synchronize procedures. `names`
/// holds the names of the types declared before, in their order in the program. A
/// declaration that is not a schema yields the reason and no procedure.
pub fn generate_parsely_write_impl(data: ParselyWriteReceiver, names: &Vec<String>) -> (r: Result<
    WriteImpl,
    SchemaError,
>)
    ensures
        match write_declaration_error(data, names@) {
            Some(e) => r == Err::<WriteImpl, SchemaError>(e),
            None => r matches Ok(p) && is_declared_write(p, data, names@),
        },
{
    if data.data.is_struct() {
        match ParselyWriteStructData::try_from(data, names) {
            Ok(struct_data) => Ok(
                WriteImpl {
                    write: struct_data.to_procedure(),
                    sync: struct_data.to_sync_procedure(),
                },
            ),
            Err(e) => Err(e),
        }
    } else {
        let ghost declared = data.data->Enum_0@;
        let ghost name = data.ident;
        match ParselyWriteEnumData::try_from(data, names) {
            Ok(enum_data) => {
                proof {
                    lemma_write_variants_are_declared(enum_data.variants@, declared, name, names@);
                }
                Ok(
                    WriteImpl {
                        write: enum_data.to_procedure(),
                        sync: enum_data.to_sync_procedure(),
                    },
                )
            },
            Err(e) => Err(e),
        }
    }
}

} // verus!
