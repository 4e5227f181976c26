//! Declarations as they arrive from the front end, and the checks that turn them into
//! schema data.

use crate::expr::Expr;
use crate::member::Member;
use crate::plan::{Assertion, TypeRef, TypedFnArg};
use crate::schema::{
    CollectionLimit, ComputedPayload, Context, MapExpr, ParselyCommonFieldData,
    ParselyReadFieldData, ParselyReadStructData, ParselyWriteFieldData, ParselyWriteStructData,
    Style, TypeClass, TypedFnArgList,
};
use crate::shape::{
    position_of, spec_position_of, spec_primitive_named, spec_type_named, spec_unsigned_named,
    type_named, TypeShape,
};
use crate::value::Datum;
use crate::wire::Primitive;
use vstd::prelude::*;

verus! {

/// Why a declaration is not a schema.
#[derive(Clone, Copy, Debug, PartialEq, Eq, Structural)]
pub enum SchemaError {
    /// A record was asked for, but the declaration is a tagged union.
    NotAStruct,
    /// A tagged union was asked for, but the declaration is a record.
    NotAnEnum,
    /// A tagged union declares neither a key type nor a key expression.
    MissingKey,
    /// The key type of a tagged union is not a primitive.
    KeyNotPrimitive,
    /// A collection declares neither a count nor a predicate.
    MissingLimit,
    /// An optional without a mapping declares no guard.
    MissingWhen,
    /// An optional or a collection does not name the one type it wraps.
    MissingInnerType,
    /// A type is neither a primitive nor declared before the type that uses it.
    UnknownType,
    /// A custom reader or writer is not declared before the type that uses it.
    UnknownProcedure,
    /// An alignment of zero bytes.
    ZeroAlignment,
    /// More fields than positions can be numbered.
    TooManyFields,
}

impl SchemaError {
    /// The text of the error.
    pub open spec fn spec_message(self) -> Seq<char> {
        match self {
            SchemaError::NotAStruct => "Not a struct"@,
            SchemaError::NotAnEnum => "Not an enum"@,
            SchemaError::MissingKey => "'key_type' attribute is required on enums"@,
            SchemaError::KeyNotPrimitive => "'key_type' must name a primitive"@,
            SchemaError::MissingLimit => "Collection type must have 'count' or 'while' attribute"@,
            SchemaError::MissingWhen => "Option field must have 'when' attribute"@,
            SchemaError::MissingInnerType => "Option or collection has no inner type"@,
            SchemaError::UnknownType => "Type is not known"@,
            SchemaError::UnknownProcedure => "Reader or writer is not known"@,
            SchemaError::ZeroAlignment => "Alignment must be at least one byte"@,
            SchemaError::TooManyFields => "Too many fields"@,
        }
    }

    /// The error as text.
    pub fn message(&self) -> (s: String)
        ensures
            s@ == self.spec_message(),
    {
        match self {
            SchemaError::NotAStruct => String::from_str("Not a struct"),
            SchemaError::NotAnEnum => String::from_str("Not an enum"),
            SchemaError::MissingKey => String::from_str("'key_type' attribute is required on enums"),
            SchemaError::KeyNotPrimitive => String::from_str("'key_type' must name a primitive"),
            SchemaError::MissingLimit => String::from_str(
                "Collection type must have 'count' or 'while' attribute",
            ),
            SchemaError::MissingWhen => String::from_str("Option field must have 'when' attribute"),
            SchemaError::MissingInnerType => String::from_str(
                "Option or collection has no inner type",
            ),
            SchemaError::UnknownType => String::from_str("Type is not known"),
            SchemaError::UnknownProcedure => String::from_str("Reader or writer is not known"),
            SchemaError::ZeroAlignment => String::from_str("Alignment must be at least one byte"),
            SchemaError::TooManyFields => String::from_str("Too many fields"),
        }
    }
}

/// What a field declares for reading and writing alike.
#[derive(Debug)]
pub struct ParselyCommonFieldReceiver {
    pub assertion: Option<Assertion>,
    /// Values that are handed to the field's own read or write procedure.
    pub context: Option<Context>,
    /// A mapping between the wire representation and the field.
    pub map: Option<MapExpr>,
    /// The byte multiple the field is padded to.
    pub alignment: Option<u64>,
    /// The literal the field must hold.
    pub fixed: Option<Datum>,
    /// An expression evaluated once the field has been read or written.
    pub after: Option<Expr>,
}

/// What a field declares for reading.
#[derive(Debug)]
pub struct ParselyReadFieldReceiver {
    pub ident: Option<String>,
    pub ty: TypeShape,
    pub common: ParselyCommonFieldReceiver,
    /// How many elements a collection has.
    pub count: Option<Expr>,
    /// For how long elements of a collection are read.
    pub while_pred: Option<Expr>,
    /// An expression that supplies the value instead of the buffer.
    pub assign_from: Option<Expr>,
    /// Whether an optional is there.
    pub when: Option<Expr>,
    /// The name of a type whose procedure reads the field in place of its own.
    pub reader: Option<String>,
}

/// What a variant declares for reading.
#[derive(Debug)]
pub struct ParselyReadVariantReceiver {
    pub ident: String,
    pub discriminant: Option<Expr>,
    pub id: Expr,
    pub fields: Vec<ParselyReadFieldReceiver>,
}

/// What a field declares for writing and synchronizing.
#[derive(Debug)]
pub struct ParselyWriteFieldReceiver {
    pub ident: Option<String>,
    pub ty: TypeShape,
    pub common: ParselyCommonFieldReceiver,
    /// An expression whose value is assigned to the field when its parent is synchronized.
    pub sync_expr: Option<Expr>,
    /// Expressions handed to the field's own synchronization.
    pub sync_with: Context,
    /// The name of a type whose procedure writes the field in place of its own.
    pub writer: Option<String>,
}

/// What a variant declares for writing.
#[derive(Debug)]
pub struct ParselyWriteVariantReceiver {
    pub ident: String,
    pub discriminant: Option<ComputedPayload>,
    pub id: Expr,
    pub fields: Vec<ParselyWriteFieldReceiver>,
}

/// The body of a declaration: the variants of a tagged union, or the fields of a record.
#[derive(Debug)]
pub enum Data<V, F> {
    Enum(Vec<V>),
    Struct(Style, Vec<F>),
}

impl<V, F> Data<V, F> {
    /// Whether the declaration is a record.
    pub fn is_struct(&self) -> (b: bool)
        ensures
            b == (self is Struct),
    {
        matches!(self, Data::Struct(_, _))
    }

    /// Whether the declaration is a tagged union.
    pub fn is_enum(&self) -> (b: bool)
        ensures
            b == (self is Enum),
    {
        matches!(self, Data::Enum(_))
    }
}

/// What a type declares for reading.
#[derive(Debug)]
pub struct ParselyReadReceiver {
    pub ident: String,
    pub required_context: Option<TypedFnArgList>,
    pub alignment: Option<u64>,
    /// An expression that yields the discriminant of a tagged union.
    pub key: Option<Expr>,
    /// The type that the discriminant of a tagged union is decoded as.
    pub key_type: Option<TypeShape>,
    pub data: Data<ParselyReadVariantReceiver, ParselyReadFieldReceiver>,
}

/// What a type declares for writing and synchronizing.
#[derive(Debug)]
pub struct ParselyWriteReceiver {
    pub ident: String,
    pub required_context: Option<TypedFnArgList>,
    pub sync_args: Option<TypedFnArgList>,
    pub alignment: Option<u64>,
    /// An expression that yields the discriminant of a tagged union; nothing travels for it.
    pub key: Option<Expr>,
    /// The type that the discriminant of a tagged union is encoded as.
    pub key_type: Option<TypeShape>,
    pub data: Data<ParselyWriteVariantReceiver, ParselyWriteFieldReceiver>,
}

/// The wire type that a declared type stands for, if it is a bare name that is known.
pub open spec fn spec_resolve(ty: TypeShape, names: Seq<String>) -> Option<TypeRef> {
    match ty.spec_bare_name() {
        Some(name) => spec_type_named(name@, names),
        None => None,
    }
}

/// The class of a declared type: an optional or a collection of a known type, a
/// primitive, or a type declared before.
pub open spec fn spec_classify(ty: TypeShape, names: Seq<String>) -> Result<
    TypeClass,
    SchemaError,
> {
    if ty.spec_is_wrapped() {
        match ty.spec_inner_type() {
            None => Err(SchemaError::MissingInnerType),
            Some(inner) => match spec_resolve(inner, names) {
                None => Err(SchemaError::UnknownType),
                Some(t) => if ty.spec_is_option() {
                    Ok(TypeClass::Optional(t))
                } else {
                    Ok(TypeClass::Collection(t))
                },
            },
        }
    } else {
        match spec_resolve(ty, names) {
            None => Err(SchemaError::UnknownType),
            Some(TypeRef::Primitive(p)) => Ok(TypeClass::Scalar(p)),
            Some(TypeRef::Named(index)) => Ok(TypeClass::Other(index)),
        }
    }
}

/// An unsigned primitive that has a name has a supported width.
pub proof fn lemma_named_unsigned_is_supported(name: Seq<char>, from: nat)
    requires
        1 <= from,
    ensures
        spec_unsigned_named(name, from) matches Some(p) ==> p.wf(),
    decreases 33 - from,
{
    if from <= 32 {
        lemma_named_unsigned_is_supported(name, from + 1);
    }
}

/// A primitive that has a name has a supported width.
pub proof fn lemma_named_primitive_is_supported(name: Seq<char>)
    ensures
        spec_primitive_named(name) matches Some(p) ==> p.wf(),
{
    lemma_named_unsigned_is_supported(name, 1);
}

/// A class that a declared type has names supported primitives only.
pub proof fn lemma_classified_is_well_formed(ty: TypeShape, names: Seq<String>)
    ensures
        spec_classify(ty, names) matches Ok(c) ==> c.wf(),
{
    if ty.spec_is_wrapped() {
        if let Some(inner) = ty.spec_inner_type() {
            if let Some(name) = inner.spec_bare_name() {
                lemma_named_primitive_is_supported(name@);
            }
        }
    } else {
        if let Some(name) = ty.spec_bare_name() {
            lemma_named_primitive_is_supported(name@);
        }
    }
}

/// Resolves a declared type to a wire type.
pub fn resolve(ty: &TypeShape, names: &Vec<String>) -> (r: Option<TypeRef>)
    ensures
        r == spec_resolve(*ty, names@),
{
    match ty.bare_name() {
        Some(name) => type_named(name, names),
        None => None,
    }
}

/// Decides the class of a declared type, once, when the schema is built.
pub fn classify(ty: &TypeShape, names: &Vec<String>) -> (r: Result<TypeClass, SchemaError>)
    ensures
        r == spec_classify(*ty, names@),
        r matches Ok(c) ==> c.wf(),
{
    proof {
        lemma_classified_is_well_formed(*ty, names@);
    }
    if ty.is_wrapped() {
        match ty.inner_type() {
            None => Err(SchemaError::MissingInnerType),
            Some(inner) => match resolve(inner, names) {
                None => Err(SchemaError::UnknownType),
                Some(t) => if ty.is_option() {
                    Ok(TypeClass::Optional(t))
                } else {
                    Ok(TypeClass::Collection(t))
                },
            },
        }
    } else {
        match resolve(ty, names) {
            None => Err(SchemaError::UnknownType),
            Some(TypeRef::Primitive(p)) => Ok(TypeClass::Scalar(p)),
            Some(TypeRef::Named(index)) => Ok(TypeClass::Other(index)),
        }
    }
}

/// The position of a named procedure, if one is named.
pub open spec fn spec_procedure(name: Option<String>, names: Seq<String>) -> Result<
    Option<usize>,
    SchemaError,
> {
    match name {
        None => Ok(None),
        Some(n) => match spec_position_of(names, n@, 0) {
            Some(index) => Ok(Some(index)),
            None => Err(SchemaError::UnknownProcedure),
        },
    }
}

fn procedure(name: &Option<String>, names: &Vec<String>) -> (r: Result<Option<usize>, SchemaError>)
    ensures
        r == spec_procedure(*name, names@),
{
    match name {
        None => Ok(None),
        Some(n) => match position_of(names, n) {
            Some(index) => Ok(Some(index)),
            None => Err(SchemaError::UnknownProcedure),
        },
    }
}

/// The common data of a field of class `ty`, or why its declaration is not one: an
/// alignment of zero, or a mapping through an unsupported primitive.
pub open spec fn spec_common(
    ident: Member,
    ty: TypeClass,
    receiver: ParselyCommonFieldReceiver,
) -> Result<ParselyCommonFieldData, SchemaError> {
    if receiver.alignment == Some(0u64) {
        Err(SchemaError::ZeroAlignment)
    } else if receiver.map is Some && receiver.map->Some_0.raw is Some
        && !receiver.map->Some_0.raw->Some_0.wf() {
        Err(SchemaError::UnknownType)
    } else {
        Ok(
            ParselyCommonFieldData {
                ident,
                ty,
                assertion: receiver.assertion,
                context: receiver.context,
                map: receiver.map,
                alignment: receiver.alignment,
                fixed: receiver.fixed,
                after: receiver.after,
            },
        )
    }
}

fn common_data(ident: Member, ty: TypeClass, receiver: ParselyCommonFieldReceiver) -> (r: Result<
    ParselyCommonFieldData,
    SchemaError,
>)
    requires
        ty.wf(),
    ensures
        r == spec_common(ident, ty, receiver),
        r matches Ok(c) ==> c.wf(),
{
    if let Some(a) = receiver.alignment {
        if a == 0 {
            return Err(SchemaError::ZeroAlignment);
        }
    }
    if let Some(m) = &receiver.map {
        if let Some(p) = m.raw {
            if !p.is_supported() {
                return Err(SchemaError::UnknownType);
            }
        }
    }
    Ok(
        ParselyCommonFieldData {
            ident,
            ty,
            assertion: receiver.assertion,
            context: receiver.context,
            map: receiver.map,
            alignment: receiver.alignment,
            fixed: receiver.fixed,
            after: receiver.after,
        },
    )
}

/// The limit of a collection: the count if one is declared, else the predicate.
pub open spec fn spec_limit(ty: TypeClass, count: Option<Expr>, while_pred: Option<Expr>) -> Result<
    Option<CollectionLimit>,
    SchemaError,
> {
    if ty.spec_is_collection() {
        match (count, while_pred) {
            (Some(c), _) => Ok(Some(CollectionLimit::Count(c))),
            (None, Some(w)) => Ok(Some(CollectionLimit::While(w))),
            (None, None) => Err(SchemaError::MissingLimit),
        }
    } else {
        Ok(None)
    }
}

/// The guard of an optional without a mapping; no other field keeps one.
pub open spec fn spec_when(ty: TypeClass, mapped: bool, when: Option<Expr>) -> Result<
    Option<Expr>,
    SchemaError,
> {
    if ty.spec_is_option() && !mapped {
        match when {
            Some(w) => Ok(Some(w)),
            None => Err(SchemaError::MissingWhen),
        }
    } else {
        Ok(None)
    }
}

/// The read data of a field, or why its declaration is not one. The checks come in this
/// order: the type, the limit, the guard, the custom reader, the common options.
pub open spec fn spec_read_field(
    field_ident: Member,
    receiver: ParselyReadFieldReceiver,
    names: Seq<String>,
) -> Result<ParselyReadFieldData, SchemaError> {
    match spec_classify(receiver.ty, names) {
        Err(e) => Err(e),
        Ok(ty) => match spec_limit(ty, receiver.count, receiver.while_pred) {
            Err(e) => Err(e),
            Ok(collection_limit) => match spec_when(ty, receiver.common.map is Some, receiver.when) {
                Err(e) => Err(e),
                Ok(when) => match spec_procedure(receiver.reader, names) {
                    Err(e) => Err(e),
                    Ok(reader) => match spec_common(field_ident, ty, receiver.common) {
                        Err(e) => Err(e),
                        Ok(common) => Ok(
                            ParselyReadFieldData {
                                common,
                                collection_limit,
                                assign_from: receiver.assign_from,
                                when,
                                reader,
                            },
                        ),
                    },
                },
            },
        },
    }
}

/// The write data of a field, or why its declaration is not one.
pub open spec fn spec_write_field(
    field_ident: Member,
    receiver: ParselyWriteFieldReceiver,
    names: Seq<String>,
) -> Result<ParselyWriteFieldData, SchemaError> {
    match spec_classify(receiver.ty, names) {
        Err(e) => Err(e),
        Ok(ty) => match spec_procedure(receiver.writer, names) {
            Err(e) => Err(e),
            Ok(writer) => match spec_common(field_ident, ty, receiver.common) {
                Err(e) => Err(e),
                Ok(common) => Ok(
                    ParselyWriteFieldData {
                        common,
                        sync_expr: receiver.sync_expr,
                        sync_with: receiver.sync_with,
                        writer,
                    },
                ),
            },
        },
    }
}

impl ParselyReadFieldData {
    /// Checks the declaration of a field and builds its read data. `names` holds the names
    /// of the types declared before, in their order in the program.
    pub fn from_receiver(
        field_ident: Member,
        receiver: ParselyReadFieldReceiver,
        names: &Vec<String>,
    ) -> (r: Result<ParselyReadFieldData, SchemaError>)
        ensures
            r == spec_read_field(field_ident, receiver, names@),
            r matches Ok(d) ==> d.wf(),
    {
        let ParselyReadFieldReceiver {
            ident,
            ty,
            common,
            count,
            while_pred,
            assign_from,
            when,
            reader,
        } = receiver;
        let class = match classify(&ty, names) {
            Ok(c) => c,
            Err(e) => {
                return Err(e);
            },
        };
        let collection_limit = if class.is_collection() {
            if let Some(count) = count {
                Some(CollectionLimit::Count(count))
            } else if let Some(while_pred) = while_pred {
                Some(CollectionLimit::While(while_pred))
            } else {
                return Err(SchemaError::MissingLimit);
            }
        } else {
            None
        };
        let when = if class.is_option() && common.map.is_none() {
            match when {
                Some(w) => Some(w),
                None => {
                    return Err(SchemaError::MissingWhen);
                },
            }
        } else {
            None
        };
        let reader = match procedure(&reader, names) {
            Ok(r) => r,
            Err(e) => {
                return Err(e);
            },
        };
        match common_data(field_ident, class, common) {
            Ok(common) => Ok(
                ParselyReadFieldData { common, collection_limit, assign_from, when, reader },
            ),
            Err(e) => Err(e),
        }
    }
}

impl ParselyWriteFieldData {
    /// Checks the declaration of a field and builds its write data. `names` holds the
    /// names of the types declared before, in their order in the program.
    pub fn from_receiver(
        field_ident: Member,
        receiver: ParselyWriteFieldReceiver,
        names: &Vec<String>,
    ) -> (r: Result<ParselyWriteFieldData, SchemaError>)
        ensures
            r == spec_write_field(field_ident, receiver, names@),
            r matches Ok(d) ==> d.wf(),
    {
        let ParselyWriteFieldReceiver { ident, ty, common, sync_expr, sync_with, writer } =
            receiver;
        let class = match classify(&ty, names) {
            Ok(c) => c,
            Err(e) => {
                return Err(e);
            },
        };
        let writer = match procedure(&writer, names) {
            Ok(w) => w,
            Err(e) => {
                return Err(e);
            },
        };
        match common_data(field_ident, class, common) {
            Ok(common) => Ok(ParselyWriteFieldData { common, sync_expr, sync_with, writer }),
            Err(e) => Err(e),
        }
    }
}

/// The identity of the field at position `index`: its name, or the position.
pub open spec fn spec_member(ident: Option<String>, index: nat) -> Member {
    match ident {
        Some(name) => Member::Named(name),
        None => Member::Unnamed(index as u32),
    }
}

/// The read data of the fields from position `from` on, after `acc`, or why the first
/// bad declaration among them is not one.
pub open spec fn spec_read_fields(
    receivers: Seq<ParselyReadFieldReceiver>,
    names: Seq<String>,
    from: nat,
    acc: Seq<ParselyReadFieldData>,
) -> Result<Seq<ParselyReadFieldData>, SchemaError>
    decreases receivers.len() - from,
{
    if from >= receivers.len() {
        Ok(acc)
    } else if from > u32::MAX {
        Err(SchemaError::TooManyFields)
    } else {
        match spec_read_field(
            spec_member(receivers[from as int].ident, from),
            receivers[from as int],
            names,
        ) {
            Err(e) => Err(e),
            Ok(d) => spec_read_fields(receivers, names, from + 1, acc.push(d)),
        }
    }
}

/// The write data of the fields from position `from` on, after `acc`, or why the first
/// bad declaration among them is not one.
pub open spec fn spec_write_fields(
    receivers: Seq<ParselyWriteFieldReceiver>,
    names: Seq<String>,
    from: nat,
    acc: Seq<ParselyWriteFieldData>,
) -> Result<Seq<ParselyWriteFieldData>, SchemaError>
    decreases receivers.len() - from,
{
    if from >= receivers.len() {
        Ok(acc)
    } else if from > u32::MAX {
        Err(SchemaError::TooManyFields)
    } else {
        match spec_write_field(
            spec_member(receivers[from as int].ident, from),
            receivers[from as int],
            names,
        ) {
            Err(e) => Err(e),
            Ok(d) => spec_write_fields(receivers, names, from + 1, acc.push(d)),
        }
    }
}

fn name_of(ident: &Option<String>) -> (r: Option<String>)
    ensures
        r == *ident,
{
    match ident {
        Some(name) => Some(name.clone()),
        None => None,
    }
}

/// Checks the declarations of fields, in order, and builds their read data.
#[verifier::loop_isolation(false)]
pub fn read_fields(receivers: Vec<ParselyReadFieldReceiver>, names: &Vec<String>) -> (r: Result<
    Vec<ParselyReadFieldData>,
    SchemaError,
>)
    ensures
        match spec_read_fields(receivers@, names@, 0, Seq::empty()) {
            Ok(ds) => r matches Ok(out) && out@ == ds && crate::schema::read_fields_wf(out@),
            Err(e) => r == Err::<Vec<ParselyReadFieldData>, SchemaError>(e),
        },
{
    let ghost all = receivers@;
    let total = receivers.len();
    let mut rest = receivers;
    let mut out: Vec<ParselyReadFieldData> = Vec::new();
    let mut index: usize = 0;
    while rest.len() > 0
        invariant
            index + rest@.len() == all.len(),
            rest@ == all.skip(index as int),
            crate::schema::read_fields_wf(out@),
            spec_read_fields(all, names@, index as nat, out@) == spec_read_fields(
                all,
                names@,
                0,
                Seq::empty(),
            ),
        decreases rest@.len(),
    {
        if index > u32::MAX as usize {
            return Err(SchemaError::TooManyFields);
        }
        assert(index < total == all.len());
        let field = rest.remove(0);
        assert(field == all[index as int]);
        let ident = Member::from_ident_or_index(name_of(&field.ident), index as u32);
        match ParselyReadFieldData::from_receiver(ident, field, names) {
            Ok(d) => {
                out.push(d);
            },
            Err(e) => {
                return Err(e);
            },
        }
        assert(rest@ =~= all.skip(index + 1));
        index = index + 1;
    }
    Ok(out)
}

/// Checks the declarations of fields, in order, and builds their write data.
#[verifier::loop_isolation(false)]
pub fn write_fields(receivers: Vec<ParselyWriteFieldReceiver>, names: &Vec<String>) -> (r: Result<
    Vec<ParselyWriteFieldData>,
    SchemaError,
>)
    ensures
        match spec_write_fields(receivers@, names@, 0, Seq::empty()) {
            Ok(ds) => r matches Ok(out) && out@ == ds && crate::schema::write_fields_wf(out@),
            Err(e) => r == Err::<Vec<ParselyWriteFieldData>, SchemaError>(e),
        },
{
    let ghost all = receivers@;
    let total = receivers.len();
    let mut rest = receivers;
    let mut out: Vec<ParselyWriteFieldData> = Vec::new();
    let mut index: usize = 0;
    while rest.len() > 0
        invariant
            index + rest@.len() == all.len(),
            rest@ == all.skip(index as int),
            crate::schema::write_fields_wf(out@),
            spec_write_fields(all, names@, index as nat, out@) == spec_write_fields(
                all,
                names@,
                0,
                Seq::empty(),
            ),
        decreases rest@.len(),
    {
        if index > u32::MAX as usize {
            return Err(SchemaError::TooManyFields);
        }
        assert(index < total == all.len());
        let field = rest.remove(0);
        assert(field == all[index as int]);
        let ident = Member::from_ident_or_index(name_of(&field.ident), index as u32);
        match ParselyWriteFieldData::from_receiver(ident, field, names) {
            Ok(d) => {
                out.push(d);
            },
            Err(e) => {
                return Err(e);
            },
        }
        assert(rest@ =~= all.skip(index + 1));
        index = index + 1;
    }
    Ok(out)
}

/// The parameters that a type declares, none if it declares no list.
pub open spec fn spec_params(list: Option<TypedFnArgList>) -> Seq<TypedFnArg> {
    match list {
        Some(l) => l.0@,
        None => Seq::empty(),
    }
}

fn params_of(list: Option<TypedFnArgList>) -> (r: TypedFnArgList)
    ensures
        r.0@ == spec_params(list),
{
    match list {
        Some(l) => l,
        None => TypedFnArgList(Vec::new()),
    }
}

/// The alignment of a type, which may not be zero.
pub open spec fn spec_alignment(alignment: Option<u64>) -> Result<Option<u64>, SchemaError> {
    if alignment == Some(0u64) {
        Err(SchemaError::ZeroAlignment)
    } else {
        Ok(alignment)
    }
}

fn checked_alignment(alignment: Option<u64>) -> (r: Result<Option<u64>, SchemaError>)
    ensures
        r == spec_alignment(alignment),
{
    match alignment {
        Some(0) => Err(SchemaError::ZeroAlignment),
        _ => Ok(alignment),
    }
}

impl ParselyReadStructData {
    /// Checks the declaration of a record and builds its read data: the declaration must
    /// be a record, its alignment not zero, and each of its fields must pass
    /// [`ParselyReadFieldData::from_receiver`]; the first failure is handed back.
    pub fn try_from(value: ParselyReadReceiver, names: &Vec<String>) -> (r: Result<
        ParselyReadStructData,
        SchemaError,
    >)
        ensures
            match value.data {
                Data::Enum(_) => r == Err::<ParselyReadStructData, SchemaError>(
                    SchemaError::NotAStruct,
                ),
                Data::Struct(style, fields) => match spec_alignment(value.alignment) {
                    Err(e) => r == Err::<ParselyReadStructData, SchemaError>(e),
                    Ok(alignment) => match spec_read_fields(fields@, names@, 0, Seq::empty()) {
                        Err(e) => r == Err::<ParselyReadStructData, SchemaError>(e),
                        Ok(ds) => r matches Ok(d) && d.wf() && d.ident == value.ident && d.style
                            == style && d.required_context.0@ == spec_params(
                            value.required_context,
                        ) && d.alignment == alignment && d.fields@ == ds,
                    },
                },
            },
    {
        let ParselyReadReceiver { ident, required_context, alignment, key, key_type, data } = value;
        match data {
            Data::Enum(_) => Err(SchemaError::NotAStruct),
            Data::Struct(style, struct_receiver_fields) => {
                let alignment = match checked_alignment(alignment) {
                    Ok(a) => a,
                    Err(e) => {
                        return Err(e);
                    },
                };
                match read_fields(struct_receiver_fields, names) {
                    Ok(data_fields) => Ok(
                        ParselyReadStructData {
                            ident,
                            style,
                            required_context: params_of(required_context),
                            alignment,
                            fields: data_fields,
                        },
                    ),
                    Err(e) => Err(e),
                }
            },
        }
    }
}

impl ParselyWriteStructData {
    /// Checks the declaration of a record and builds its write data: the declaration must
    /// be a record, its alignment not zero, and each of its fields must pass
    /// [`ParselyWriteFieldData::from_receiver`]; the first failure is handed back.
    pub fn try_from(value: ParselyWriteReceiver, names: &Vec<String>) -> (r: Result<
        ParselyWriteStructData,
        SchemaError,
    >)
        ensures
            match value.data {
                Data::Enum(_) => r == Err::<ParselyWriteStructData, SchemaError>(
                    SchemaError::NotAStruct,
                ),
                Data::Struct(style, fields) => match spec_alignment(value.alignment) {
                    Err(e) => r == Err::<ParselyWriteStructData, SchemaError>(e),
                    Ok(alignment) => match spec_write_fields(fields@, names@, 0, Seq::empty()) {
                        Err(e) => r == Err::<ParselyWriteStructData, SchemaError>(e),
                        Ok(ds) => r matches Ok(d) && d.wf() && d.ident == value.ident
                            && d.required_context.0@ == spec_params(value.required_context)
                            && d.sync_args.0@ == spec_params(value.sync_args) && d.alignment
                            == alignment && d.fields@ == ds,
                    },
                },
            },
    {
        let ParselyWriteReceiver {
            ident,
            required_context,
            sync_args,
            alignment,
            key,
            key_type,
            data,
        } = value;
        match data {
            Data::Enum(_) => Err(SchemaError::NotAStruct),
            Data::Struct(_, struct_receiver_fields) => {
                let alignment = match checked_alignment(alignment) {
                    Ok(a) => a,
                    Err(e) => {
                        return Err(e);
                    },
                };
                match write_fields(struct_receiver_fields, names) {
                    Ok(data_fields) => Ok(
                        ParselyWriteStructData {
                            ident,
                            required_context: params_of(required_context),
                            alignment,
                            sync_args: params_of(sync_args),
                            fields: data_fields,
                        },
                    ),
                    Err(e) => Err(e),
                }
            },
        }
    }
}

} // verus!
