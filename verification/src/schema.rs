//! The schema model: what a declaration says about a record or tagged union and its
//! fields, once it has been checked.

use crate::expr::Expr;
use crate::member::Member;
use crate::plan::{Assertion, TagSource, TypeRef, TypedFnArg};
use crate::value::Datum;
use crate::wire::Primitive;
use vstd::prelude::*;

verus! {

/// Which strategy a field's declared type calls for.
#[derive(Clone, Copy, Debug, PartialEq, Eq, Structural)]
pub enum TypeClass {
    /// A primitive.
    Scalar(Primitive),
    /// An optional value of the inner type.
    Optional(TypeRef),
    /// A growable sequence of values of the inner type.
    Collection(TypeRef),
    /// Any other type: a record or tagged union of the program.
    Other(usize),
}

impl TypeClass {
    /// Whether the type is an optional.
    pub open spec fn spec_is_option(self) -> bool {
        self is Optional
    }

    /// Whether the type is a collection.
    pub open spec fn spec_is_collection(self) -> bool {
        self is Collection
    }

    /// Whether the type wraps another: an optional or a collection.
    pub open spec fn spec_is_wrapped(self) -> bool {
        self.spec_is_option() || self.spec_is_collection()
    }

    /// The type that travels: the inner type of a wrapper, the type itself otherwise.
    pub open spec fn spec_buffer_type(self) -> TypeRef {
        match self {
            TypeClass::Scalar(p) => TypeRef::Primitive(p),
            TypeClass::Optional(inner) => inner,
            TypeClass::Collection(inner) => inner,
            TypeClass::Other(index) => TypeRef::Named(index),
        }
    }

    /// Every primitive that the type names has a supported width.
    pub open spec fn wf(self) -> bool {
        match self.spec_buffer_type() {
            TypeRef::Primitive(p) => p.wf(),
            TypeRef::Named(_) => true,
        }
    }

    /// Whether the type is an optional.
    pub fn is_option(&self) -> (b: bool)
        ensures
            b == self.spec_is_option(),
    {
        matches!(self, TypeClass::Optional(_))
    }

    /// Whether the type is a collection.
    pub fn is_collection(&self) -> (b: bool)
        ensures
            b == self.spec_is_collection(),
    {
        matches!(self, TypeClass::Collection(_))
    }

    /// Whether the type wraps another: an optional or a collection.
    pub fn is_wrapped(&self) -> (b: bool)
        ensures
            b == self.spec_is_wrapped(),
    {
        self.is_option() || self.is_collection()
    }

    /// The type that is read from or written to the buffer.
    pub fn buffer_type(&self) -> (t: TypeRef)
        ensures
            t == self.spec_buffer_type(),
    {
        match self {
            TypeClass::Scalar(p) => TypeRef::Primitive(*p),
            TypeClass::Optional(inner) => *inner,
            TypeClass::Collection(inner) => *inner,
            TypeClass::Other(index) => TypeRef::Named(*index),
        }
    }
}

/// How many elements a collection field has.
#[derive(Debug)]
pub enum CollectionLimit {
    /// Exactly as many as the expression says.
    Count(Expr),
    /// As many as can be read while the predicate holds.
    While(Expr),
}

/// A typed parameter list: the required context of a procedure, or its synchronization
/// arguments.
#[derive(Debug)]
pub struct TypedFnArgList(pub Vec<TypedFnArg>);

/// An ordered list of context expressions.
#[derive(Debug)]
pub struct Context(pub Vec<Expr>);

impl Context {
    /// Whether no expression was given.
    pub fn is_empty(&self) -> (b: bool)
        ensures
            b == (self.0@.len() == 0),
    {
        self.0.len() == 0
    }
}

/// A one-way transform between the wire representation and the field's value.
#[derive(Debug)]
pub struct MapExpr {
    /// The primitive that travels, where the declaration names it. Where it does not,
    /// the type is whatever the transform takes or yields, which is not known here: the
    /// mapping compiles all the same, and raises where it is run.
    pub raw: Option<Primitive>,
    /// The transform; its input is the raw value on decoding and the field on encoding.
    pub transform: Expr,
}

/// How the fields of a record were declared.
#[derive(Clone, Copy, Debug, PartialEq, Eq, Structural)]
pub enum Style {
    Struct,
    Tuple,
    Unit,
}

/// What reading and writing a field have in common.
#[derive(Debug)]
pub struct ParselyCommonFieldData {
    pub ident: Member,
    /// The class of the field's type.
    pub ty: TypeClass,
    pub assertion: Option<Assertion>,
    /// Expressions whose values are handed to the field's own procedure.
    pub context: Option<Context>,
    /// A mapping between the wire representation and the field.
    pub map: Option<MapExpr>,
    /// The byte multiple the field is padded to.
    pub alignment: Option<u64>,
    /// The literal the field must hold.
    pub fixed: Option<Datum>,
    /// An expression evaluated once the field has been read or written.
    pub after: Option<Expr>,
}

impl ParselyCommonFieldData {
    /// Widths are supported, an alignment is at least one byte, and a mapping goes through
    /// a supported primitive.
    pub open spec fn wf(self) -> bool {
        &&& self.ty.wf()
        &&& (self.alignment matches Some(a) ==> a >= 1)
        &&& (self.map matches Some(m) ==> (m.raw matches Some(p) ==> p.wf()))
    }

    /// The type that is read from or written to the buffer: for a wrapper, its inner type.
    pub fn buffer_type(&self) -> (t: TypeRef)
        ensures
            t == self.ty.spec_buffer_type(),
    {
        self.ty.buffer_type()
    }
}

/// All that is needed to read one field.
#[derive(Debug)]
pub struct ParselyReadFieldData {
    pub common: ParselyCommonFieldData,
    /// Set for a collection.
    pub collection_limit: Option<CollectionLimit>,
    /// An expression that supplies the value instead of the buffer.
    pub assign_from: Option<Expr>,
    /// Set for an optional without a mapping: whether the value is there.
    pub when: Option<Expr>,
    /// A procedure that reads the field in place of its type's own.
    pub reader: Option<usize>,
}

impl ParselyReadFieldData {
    /// A collection has its limit; an optional without a mapping has its guard, and no
    /// other field has one.
    pub open spec fn wf(self) -> bool {
        &&& self.common.wf()
        &&& (self.common.ty.spec_is_collection() ==> self.collection_limit is Some)
        &&& (self.when is Some <==> self.common.ty.spec_is_option() && self.common.map is None)
    }

    /// The type that is read from the buffer: for a wrapper, its inner type.
    pub fn buffer_type(&self) -> (t: TypeRef)
        ensures
            t == self.common.ty.spec_buffer_type(),
    {
        self.common.ty.buffer_type()
    }
}

/// What a field is kept in step with.
#[derive(Debug)]
pub struct ParselyWriteFieldData {
    pub common: ParselyCommonFieldData,
    /// An expression whose value is assigned to the field when its parent is synchronized.
    pub sync_expr: Option<Expr>,
    /// Expressions handed to the field's own synchronization.
    pub sync_with: Context,
    /// A procedure that writes the field in place of its type's own.
    pub writer: Option<usize>,
}

impl ParselyWriteFieldData {
    /// The common data is well formed.
    pub open spec fn wf(self) -> bool {
        self.common.wf()
    }
}

/// All that is needed to read a record.
#[derive(Debug)]
pub struct ParselyReadStructData {
    pub ident: String,
    pub style: Style,
    pub required_context: TypedFnArgList,
    pub alignment: Option<u64>,
    pub fields: Vec<ParselyReadFieldData>,
}

/// Every element of `fields` is well formed.
pub open spec fn read_fields_wf(fields: Seq<ParselyReadFieldData>) -> bool {
    forall|i: int| 0 <= i < fields.len() ==> (#[trigger] fields[i]).wf()
}

/// Every element of `fields` is well formed.
pub open spec fn write_fields_wf(fields: Seq<ParselyWriteFieldData>) -> bool {
    forall|i: int| 0 <= i < fields.len() ==> (#[trigger] fields[i]).wf()
}

impl ParselyReadStructData {
    /// Every field is well formed, and an alignment is at least one byte.
    pub open spec fn wf(self) -> bool {
        &&& read_fields_wf(self.fields@)
        &&& (self.alignment matches Some(a) ==> a >= 1)
    }
}

/// All that is needed to read one variant of a tagged union.
#[derive(Debug)]
pub struct ParselyReadVariantData {
    pub enum_name: String,
    pub ident: String,
    /// The value of the discriminant that selects the variant.
    pub id: Expr,
    /// An expression that yields the payload in place of reading the fields.
    pub discriminant: Option<Expr>,
    pub fields: Vec<ParselyReadFieldData>,
}

impl ParselyReadVariantData {
    /// Every field is well formed.
    pub open spec fn wf(self) -> bool {
        read_fields_wf(self.fields@)
    }
}

/// The mathematical value of the read data of a variant.
pub struct ReadVariantView {
    pub ident: String,
    pub id: Expr,
    pub discriminant: Option<Expr>,
    pub fields: Seq<ParselyReadFieldData>,
}

impl View for ParselyReadVariantData {
    type V = ReadVariantView;

    open spec fn view(&self) -> ReadVariantView {
        ReadVariantView {
            ident: self.ident,
            id: self.id,
            discriminant: self.discriminant,
            fields: self.fields@,
        }
    }
}

/// The values of variants, in order.
pub open spec fn read_variant_views(variants: Seq<ParselyReadVariantData>) -> Seq<
    ReadVariantView,
> {
    Seq::new(variants.len(), |i: int| variants[i]@)
}

/// All that is needed to read a tagged union.
#[derive(Debug)]
pub struct ParselyReadEnumData {
    pub ident: String,
    pub required_context: TypedFnArgList,
    pub alignment: Option<u64>,
    /// How the discriminant is obtained.
    pub key: TagSource,
    pub variants: Vec<ParselyReadVariantData>,
}

impl ParselyReadEnumData {
    /// Every variant is well formed, an alignment is at least one byte, and a discriminant
    /// that travels does so as a supported primitive.
    pub open spec fn wf(self) -> bool {
        &&& forall|i: int| 0 <= i < self.variants@.len() ==> (#[trigger] self.variants@[i]).wf()
        &&& (self.alignment matches Some(a) ==> a >= 1)
        &&& (self.key matches TagSource::Typed(p) ==> p.wf())
    }
}

/// All that is needed to write and synchronize a record.
#[derive(Debug)]
pub struct ParselyWriteStructData {
    pub ident: String,
    pub required_context: TypedFnArgList,
    pub alignment: Option<u64>,
    pub sync_args: TypedFnArgList,
    pub fields: Vec<ParselyWriteFieldData>,
}

impl ParselyWriteStructData {
    /// Every field is well formed, and an alignment is at least one byte.
    pub open spec fn wf(self) -> bool {
        &&& write_fields_wf(self.fields@)
        &&& (self.alignment matches Some(a) ==> a >= 1)
    }
}

/// A payload that is computed instead of held in fields, and the primitive it travels as.
#[derive(Debug)]
pub struct ComputedPayload {
    pub expr: Expr,
    pub ty: Primitive,
}

/// All that is needed to write one variant of a tagged union.
#[derive(Debug)]
pub struct ParselyWriteVariantData {
    pub enum_name: String,
    pub ident: String,
    /// The value of the discriminant that stands for the variant.
    pub id: Expr,
    /// A computed payload that is written in place of the fields.
    pub discriminant: Option<ComputedPayload>,
    pub fields: Vec<ParselyWriteFieldData>,
}

impl ParselyWriteVariantData {
    /// Every field is well formed, and a computed payload travels as a supported primitive.
    pub open spec fn wf(self) -> bool {
        &&& write_fields_wf(self.fields@)
        &&& (self.discriminant matches Some(d) ==> d.ty.wf())
    }
}

/// The mathematical value of the write data of a variant.
pub struct WriteVariantView {
    pub ident: String,
    pub id: Expr,
    pub discriminant: Option<ComputedPayload>,
    pub fields: Seq<ParselyWriteFieldData>,
}

impl View for ParselyWriteVariantData {
    type V = WriteVariantView;

    open spec fn view(&self) -> WriteVariantView {
        WriteVariantView {
            ident: self.ident,
            id: self.id,
            discriminant: self.discriminant,
            fields: self.fields@,
        }
    }
}

/// The values of variants, in order.
pub open spec fn write_variant_views(variants: Seq<ParselyWriteVariantData>) -> Seq<
    WriteVariantView,
> {
    Seq::new(variants.len(), |i: int| variants[i]@)
}

/// All that is needed to write and synchronize a tagged union.
#[derive(Debug)]
pub struct ParselyWriteEnumData {
    pub ident: String,
    pub required_context: TypedFnArgList,
    pub alignment: Option<u64>,
    pub sync_args: TypedFnArgList,
    /// How the discriminant travels.
    pub key: TagSource,
    pub variants: Vec<ParselyWriteVariantData>,
}

impl ParselyWriteEnumData {
    /// Every variant is well formed, an alignment is at least one byte, and a discriminant
    /// that travels does so as a supported primitive.
    pub open spec fn wf(self) -> bool {
        &&& forall|i: int| 0 <= i < self.variants@.len() ==> (#[trigger] self.variants@[i]).wf()
        &&& (self.alignment matches Some(a) ==> a >= 1)
        &&& (self.key matches TagSource::Typed(p) ==> p.wf())
    }
}

/// Whether any field is named.
pub open spec fn any_named_read(fields: Seq<ParselyReadFieldData>) -> bool {
    exists|i: int| 0 <= i < fields.len() && (#[trigger] fields[i]).common.ident is Named
}

/// Whether any field is named.
pub open spec fn any_named_write(fields: Seq<ParselyWriteFieldData>) -> bool {
    exists|i: int| 0 <= i < fields.len() && (#[trigger] fields[i]).common.ident is Named
}

impl ParselyReadVariantData {
    /// Whether the variant holds named fields.
    pub fn named_fields(&self) -> (b: bool)
        ensures
            b == any_named_read(self.fields@),
    {
        let mut i: usize = 0;
        while i < self.fields.len()
            invariant
                i <= self.fields.len(),
                forall|k: int| 0 <= k < i ==> !((#[trigger] self.fields@[k]).common.ident is Named),
            decreases self.fields.len() - i,
        {
            if self.fields[i].common.ident.is_named() {
                return true;
            }
            i = i + 1;
        }
        false
    }
}

impl ParselyWriteVariantData {
    /// Whether the variant holds named fields.
    pub fn named_fields(&self) -> (b: bool)
        ensures
            b == any_named_write(self.fields@),
    {
        let mut i: usize = 0;
        while i < self.fields.len()
            invariant
                i <= self.fields.len(),
                forall|k: int| 0 <= k < i ==> !((#[trigger] self.fields@[k]).common.ident is Named),
            decreases self.fields.len() - i,
        {
            if self.fields[i].common.ident.is_named() {
                return true;
            }
            i = i + 1;
        }
        false
    }
}

impl TypedFnArgList {
    /// The number of parameters.
    pub fn len(&self) -> (n: usize)
        ensures
            n == self.0@.len(),
    {
        self.0.len()
    }

    /// The declared types, in order.
    pub fn types(&self) -> (r: Vec<String>)
        ensures
            r@.len() == self.0@.len(),
            forall|i: int| 0 <= i < r@.len() ==> #[trigger] r@[i] == self.0@[i].ty,
    {
        let mut out: Vec<String> = Vec::new();
        let mut i: usize = 0;
        while i < self.0.len()
            invariant
                i <= self.0.len(),
                out@.len() == i,
                forall|k: int| 0 <= k < i ==> #[trigger] out@[k] == self.0@[k].ty,
            decreases self.0.len() - i,
        {
            out.push(self.0[i].ty.clone());
            i = i + 1;
        }
        out
    }

    /// The declared names, in order.
    pub fn names(&self) -> (r: Vec<String>)
        ensures
            r@.len() == self.0@.len(),
            forall|i: int| 0 <= i < r@.len() ==> #[trigger] r@[i] == self.0@[i].name,
    {
        let mut out: Vec<String> = Vec::new();
        let mut i: usize = 0;
        while i < self.0.len()
            invariant
                i <= self.0.len(),
                out@.len() == i,
                forall|k: int| 0 <= k < i ==> #[trigger] out@[k] == self.0@[k].name,
            decreases self.0.len() - i,
        {
            out.push(self.0[i].name.clone());
            i = i + 1;
        }
        out
    }
}

} // verus!
