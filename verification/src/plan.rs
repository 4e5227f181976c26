//! Procedures: what a schema compiles to. A procedure is a tree of primitive operations
//! (read, write, branch, loop, check, raise) that an evaluator runs and that a code
//! generator can render into any target language.

use crate::expr::Expr;
use crate::member::Member;
use crate::text::{decimal, join3, spec_decimal, spec_join3};
use crate::value::Datum;
use crate::wire::Primitive;
use vstd::prelude::*;

verus! {

/// The type that a field is decoded or encoded as.
#[derive(Clone, Copy, Debug, PartialEq, Eq, Structural)]
pub enum TypeRef {
    /// A primitive.
    Primitive(Primitive),
    /// Another record or tagged union, by its position in the program.
    Named(usize),
}

/// A context that is attached to a failure on its way out.
#[derive(Debug)]
pub enum Label {
    /// `Reading field '<name>'`
    ReadingField(Member),
    /// `Reading raw value for field '<name>'`
    ReadingRaw(Member),
    /// `Mapping raw value for field '<name>'`
    MappingRaw(Member),
    /// `Writing field '<name>'`
    WritingField(Member),
    /// `Writing mapped value for field '<name>'`
    WritingMapped(Member),
    /// `Syncing field '<name>'`
    SyncingField(Member),
    /// `Read context for field '<name>'`
    ReadContext(Member),
    /// `Sync context for field '<name>'`
    SyncContext(Member),
    /// `Tag for enum '<name>'`
    Tag(String),
    /// `Writing discriminant value of variant <name>`
    Discriminant(String),
    /// `<label>: expression <index>`
    Expression(Box<Label>, u64),
    /// `Index <index>`
    Index(u64),
    /// `Read <index>`
    Read(u64),
    /// `padding`
    Padding,
}

/// The text of a label.
pub open spec fn label_text(l: Label) -> Seq<char>
    decreases l,
{
    match l {
        Label::ReadingField(m) => spec_join3("Reading field '"@, m@.friendly(), "'"@),
        Label::ReadingRaw(m) => spec_join3("Reading raw value for field '"@, m@.friendly(), "'"@),
        Label::MappingRaw(m) => spec_join3("Mapping raw value for field '"@, m@.friendly(), "'"@),
        Label::WritingField(m) => spec_join3("Writing field '"@, m@.friendly(), "'"@),
        Label::WritingMapped(m) => spec_join3(
            "Writing mapped value for field '"@,
            m@.friendly(),
            "'"@,
        ),
        Label::SyncingField(m) => spec_join3("Syncing field '"@, m@.friendly(), "'"@),
        Label::ReadContext(m) => spec_join3("Read context for field '"@, m@.friendly(), "'"@),
        Label::SyncContext(m) => spec_join3("Sync context for field '"@, m@.friendly(), "'"@),
        Label::Tag(name) => spec_join3("Tag for enum '"@, name@, "'"@),
        Label::Discriminant(name) => "Writing discriminant value of variant "@ + name@,
        Label::Expression(base, index) => spec_join3(
            label_text(*base),
            ": expression "@,
            spec_decimal(index as nat),
        ),
        Label::Index(index) => "Index "@ + spec_decimal(index as nat),
        Label::Read(index) => "Read "@ + spec_decimal(index as nat),
        Label::Padding => "padding"@,
    }
}

impl Label {
    /// A copy of this label.
    pub fn duplicate(&self) -> (l: Label)
        ensures
            l == *self,
        decreases self,
    {
        match self {
            Label::ReadingField(m) => Label::ReadingField(m.duplicate()),
            Label::ReadingRaw(m) => Label::ReadingRaw(m.duplicate()),
            Label::MappingRaw(m) => Label::MappingRaw(m.duplicate()),
            Label::WritingField(m) => Label::WritingField(m.duplicate()),
            Label::WritingMapped(m) => Label::WritingMapped(m.duplicate()),
            Label::SyncingField(m) => Label::SyncingField(m.duplicate()),
            Label::ReadContext(m) => Label::ReadContext(m.duplicate()),
            Label::SyncContext(m) => Label::SyncContext(m.duplicate()),
            Label::Tag(name) => Label::Tag(name.clone()),
            Label::Discriminant(name) => Label::Discriminant(name.clone()),
            Label::Expression(base, index) => Label::Expression(Box::new(base.duplicate()), *index),
            Label::Index(index) => Label::Index(*index),
            Label::Read(index) => Label::Read(*index),
            Label::Padding => Label::Padding,
        }
    }

    /// The text of this label.
    pub fn render(&self) -> (s: String)
        ensures
            s@ == label_text(*self),
        decreases self,
    {
        match self {
            Label::ReadingField(m) => join3("Reading field '", m.as_friendly_string().as_str(), "'"),
            Label::ReadingRaw(m) => join3(
                "Reading raw value for field '",
                m.as_friendly_string().as_str(),
                "'",
            ),
            Label::MappingRaw(m) => join3(
                "Mapping raw value for field '",
                m.as_friendly_string().as_str(),
                "'",
            ),
            Label::WritingField(m) => join3("Writing field '", m.as_friendly_string().as_str(), "'"),
            Label::WritingMapped(m) => join3(
                "Writing mapped value for field '",
                m.as_friendly_string().as_str(),
                "'",
            ),
            Label::SyncingField(m) => join3("Syncing field '", m.as_friendly_string().as_str(), "'"),
            Label::ReadContext(m) => join3(
                "Read context for field '",
                m.as_friendly_string().as_str(),
                "'",
            ),
            Label::SyncContext(m) => join3(
                "Sync context for field '",
                m.as_friendly_string().as_str(),
                "'",
            ),
            Label::Tag(name) => join3("Tag for enum '", name.as_str(), "'"),
            Label::Discriminant(name) => {
                let mut s = String::from_str("Writing discriminant value of variant ");
                s.append(name.as_str());
                s
            },
            Label::Expression(base, index) => join3(
                base.render().as_str(),
                ": expression ",
                decimal(*index).as_str(),
            ),
            Label::Index(index) => crate::text::numbered("Index ", *index),
            Label::Read(index) => crate::text::numbered("Read ", *index),
            Label::Padding => String::from_str("padding"),
        }
    }
}

/// A predicate over a field's value, with the text it was declared as.
#[derive(Debug)]
pub struct Assertion {
    /// The predicate; the value under test is its input.
    pub predicate: Expr,
    /// The predicate as it was written, for messages.
    pub source: String,
}

impl Assertion {
    /// A copy of this assertion.
    pub fn duplicate(&self) -> (a: Assertion)
        ensures
            a == *self,
    {
        Assertion { predicate: self.predicate.duplicate(), source: self.source.clone() }
    }
}

/// Context arguments: expressions evaluated in the enclosing scope, in order, each with
/// the label a failure to evaluate it is raised under.
#[derive(Debug)]
pub enum Args {
    Nil,
    Cons { expr: Expr, label: Label, rest: Box<Args> },
}

/// An operation that yields one field's value while decoding.
#[derive(Debug)]
pub enum ReadOp {
    /// Evaluate an expression; the buffer is not touched.
    Assign(Expr),
    /// Decode `raw` with no context, then pass it through `transform`. Without a named
    /// `raw` the type is left to the transform.
    Mapped { raw: Option<Primitive>, transform: Expr, field: Member },
    /// Evaluate the arguments, then decode a value of type `ty` with them.
    Decode { ty: TypeRef, args: Args },
    /// Evaluate `count` once, then run `item` that many times and collect the results.
    Count { count: Expr, item: Box<ReadOp> },
    /// Run `item` for as long as `pred`, evaluated before each round, holds.
    While { pred: Expr, item: Box<ReadOp> },
    /// Run `inner`, then raise unless its value passes the assertion.
    Assert { inner: Box<ReadOp>, assertion: Assertion, field: Member },
    /// Run `inner`, then raise unless its value is `expected`.
    Fixed { inner: Box<ReadOp>, expected: Datum },
    /// Run `inner`; attach `label` to its failure.
    Context { label: Label, inner: Box<ReadOp> },
    /// Evaluate `guard`; run `inner` and yield its value as present, or yield absent.
    When { guard: Expr, inner: Box<ReadOp> },
    /// Run `inner`, then consume padding bytes until the bytes consumed since the start
    /// are a multiple of `alignment`.
    Align { alignment: u64, inner: Box<ReadOp> },
    /// Run `inner`, then evaluate `hook` with the new value as its input and drop the result.
    After { inner: Box<ReadOp>, hook: Expr },
}

/// The field reads of a record or variant, in wire order.
#[derive(Debug)]
pub enum ReadSteps {
    Done,
    Bind { target: Member, op: ReadOp, rest: Box<ReadSteps> },
}

/// How the decoded fields are put together.
#[derive(Clone, Copy, Debug, PartialEq, Eq, Structural)]
pub enum Shape {
    /// No fields.
    Unit,
    /// Positional fields.
    Tuple,
    /// Named fields.
    Named,
}

/// What the arm of a tag dispatch does once its tag matched.
#[derive(Debug)]
pub enum ReadArmBody {
    /// The payload is the value of an expression.
    Computed(Expr),
    /// The payload is decoded field by field.
    Fields(ReadSteps, Shape),
}

/// The arms of a tag dispatch, in declaration order; the first match wins.
#[derive(Debug)]
pub enum ReadArms {
    /// No arm is left: raise.
    NoMatch,
    Arm { tag: Expr, variant: String, body: ReadArmBody, rest: Box<ReadArms> },
}

/// How a discriminant is obtained.
#[derive(Debug)]
pub enum TagSource {
    /// It is decoded from the buffer as this primitive; on encoding it is written as this
    /// primitive.
    Typed(Primitive),
    /// It is the value of an expression over the context; nothing travels for it.
    Computed(Expr),
}

/// The body of a decode procedure.
#[derive(Debug)]
pub enum ReadBody {
    /// A record: run the steps, build the record.
    Record(ReadSteps, Shape),
    /// A tagged union: obtain the discriminant, run the first arm that matches it.
    Dispatch { tag: TagSource, arms: ReadArms },
}

/// A parameter of a procedure.
#[derive(Debug)]
pub struct TypedFnArg {
    pub name: String,
    pub ty: String,
}

impl TypedFnArg {
    /// A copy of this parameter.
    pub fn duplicate(&self) -> (a: TypedFnArg)
        ensures
            a == *self,
    {
        TypedFnArg { name: self.name.clone(), ty: self.ty.clone() }
    }
}

/// Copies of `params`, in order.
pub fn duplicate_params(params: &Vec<TypedFnArg>) -> (r: Vec<TypedFnArg>)
    ensures
        r@ == params@,
{
    let mut out: Vec<TypedFnArg> = Vec::new();
    let mut i: usize = 0;
    while i < params.len()
        invariant
            i <= params.len(),
            out@ == params@.take(i as int),
        decreases params.len() - i,
    {
        out.push(params[i].duplicate());
        assert(out@ =~= params@.take(i + 1));
        i = i + 1;
    }
    assert(params@.take(i as int) =~= params@);
    out
}

/// A decode procedure.
#[derive(Debug)]
pub struct ReadProcedure {
    /// The name of the type that is decoded.
    pub name: String,
    /// The parameters, bound by position from the context handed in.
    pub params: Vec<TypedFnArg>,
    /// The alignment of the whole value, if any.
    pub alignment: Option<u64>,
    pub body: ReadBody,
}

/// An operation that writes one field's value while encoding.
#[derive(Debug)]
pub enum WriteOp {
    /// Evaluate the arguments, then encode the value as `ty` with them.
    Encode { ty: TypeRef, args: Args },
    /// Pass the value through `transform`, then encode the result as `raw` with no context.
    /// Without a named `raw` the type is left to the transform.
    Mapped { transform: Expr, raw: Option<Primitive>, field: Member },
    /// Run `inner` on the payload if the value is present; do nothing if it is absent.
    IfPresent { inner: Box<WriteOp> },
    /// Run `item` on each element, in order.
    Each { item: Box<WriteOp> },
    /// Run `inner`; attach `label` to its failure.
    Context { label: Label, inner: Box<WriteOp> },
    /// Raise unless the value passes the assertion, then run `inner`.
    Assert { assertion: Assertion, field: Member, inner: Box<WriteOp> },
    /// Raise unless the value is `expected`, then run `inner`.
    Fixed { expected: Datum, inner: Box<WriteOp> },
    /// Run `inner`, then emit zero bytes until the bytes written since the start are a
    /// multiple of `alignment`.
    Align { alignment: u64, inner: Box<WriteOp> },
    /// Run `inner`, then evaluate `hook` with the value as its input and drop the result.
    After { inner: Box<WriteOp>, hook: Expr },
}

/// The field writes of a record or variant, in wire order.
#[derive(Debug)]
pub enum WriteSteps {
    Done,
    Put { source: Member, op: WriteOp, rest: Box<WriteSteps> },
}

/// What the arm of a write dispatch does after the tag.
#[derive(Debug)]
pub enum WriteArmBody {
    /// Write the value of an expression as a primitive.
    Computed(Expr, Primitive),
    /// Write the fields.
    Fields(WriteSteps, Shape),
}

/// The arms of a write dispatch, one for each variant in declaration order.
#[derive(Debug)]
pub enum WriteArms {
    /// No arm is left: raise.
    NoMatch,
    Arm { tag: Expr, variant: String, body: WriteArmBody, rest: Box<WriteArms> },
}

/// The body of an encode procedure.
#[derive(Debug)]
pub enum WriteBody {
    Record(WriteSteps),
    Dispatch { tag: TagSource, arms: WriteArms },
}

/// An encode procedure.
#[derive(Debug)]
pub struct WriteProcedure {
    pub name: String,
    pub params: Vec<TypedFnArg>,
    pub alignment: Option<u64>,
    pub body: WriteBody,
}

/// An operation that brings one field up to date before encoding.
#[derive(Debug)]
pub enum SyncOp {
    /// Assign the value of an expression to the field.
    Assign { expr: Expr, field: Member },
    /// Leave the field alone.
    Skip,
    /// Evaluate the arguments and run the synchronize procedure of the field's own type
    /// with them; a primitive has nothing to synchronize.
    Delegate { ty: TypeRef, args: Args, field: Member },
}

/// The field synchronizations of a record, in declaration order.
#[derive(Debug)]
pub enum SyncSteps {
    Done,
    Step { op: SyncOp, rest: Box<SyncSteps> },
}

/// A synchronize procedure.
#[derive(Debug)]
pub struct SyncProcedure {
    pub name: String,
    pub params: Vec<TypedFnArg>,
    pub steps: SyncSteps,
}

/// Everything that was compiled for one type.
#[derive(Debug)]
pub struct Codec {
    pub read: ReadProcedure,
    pub write: WriteProcedure,
    pub sync: SyncProcedure,
}

} // verus!
