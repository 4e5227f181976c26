//! The read path of the compiler: from field, record and tagged-union data to decode
//! procedures.

use crate::expr::Expr;
use crate::member::Member;
use crate::plan::{
    duplicate_params, Args, Assertion, Label, ReadArmBody, ReadArms, ReadBody, ReadOp,
    ReadProcedure, ReadSteps, Shape, TagSource, TypeRef,
};
use crate::schema::{
    any_named_read, read_fields_wf, read_variant_views, CollectionLimit, MapExpr,
    ParselyReadEnumData, ParselyReadFieldData, ParselyReadStructData, ParselyReadVariantData,
    ReadVariantView, Style,
};
use vstd::prelude::*;

verus! {

/// A plain read: decode one value of `ty` with the given arguments.
pub open spec fn spec_plain_read(ty: TypeRef, context_values: Args) -> ReadOp {
    ReadOp::Decode { ty, args: context_values }
}

/// A collection read: a plain read of the element type under the strategy that `limit`
/// names.
pub open spec fn spec_collection_read(
    limit: CollectionLimit,
    ty: TypeRef,
    context_values: Args,
) -> ReadOp {
    match limit {
        CollectionLimit::Count(count) => ReadOp::Count {
            count,
            item: Box::new(spec_plain_read(ty, context_values)),
        },
        CollectionLimit::While(pred) => ReadOp::While {
            pred,
            item: Box::new(spec_plain_read(ty, context_values)),
        },
    }
}

/// Generates the plain read of a value of type `ty`.
pub fn generate_plain_read(ty: TypeRef, context_values: Args) -> (op: ReadOp)
    ensures
        op == spec_plain_read(ty, context_values),
{
    ReadOp::Decode { ty, args: context_values }
}

/// Generates the read of a collection of `ty`: by count, a loop that runs the plain read
/// exactly as often as the count expression says; by predicate, a loop that runs it while
/// the predicate holds.
pub fn generate_collection_read(limit: &CollectionLimit, ty: TypeRef, context_values: Args) -> (op:
    ReadOp)
    ensures
        op == spec_collection_read(*limit, ty, context_values),
{
    let plain_read = generate_plain_read(ty, context_values);
    match limit {
        CollectionLimit::Count(count) => ReadOp::Count {
            count: count.duplicate(),
            item: Box::new(plain_read),
        },
        CollectionLimit::While(pred) => ReadOp::While {
            pred: pred.duplicate(),
            item: Box::new(plain_read),
        },
    }
}

/// Wraps a read so that it runs only when `when_expr` holds and yields an optional.
pub fn wrap_in_optional(when_expr: &Expr, inner: ReadOp) -> (op: ReadOp)
    ensures
        op == (ReadOp::When { guard: *when_expr, inner: Box::new(inner) }),
{
    ReadOp::When { guard: when_expr.duplicate(), inner: Box::new(inner) }
}

/// Wraps a read so that padding is consumed after it, up to a multiple of `alignment`
/// bytes counted from where the read began.
pub fn wrap_read_with_padding_handling(alignment: u64, inner: ReadOp) -> (op: ReadOp)
    ensures
        op == (ReadOp::Align { alignment, inner: Box::new(inner) }),
{
    ReadOp::Align { alignment, inner: Box::new(inner) }
}

impl MapExpr {
    /// The mapped read of a field: decode the raw primitive, then transform it.
    pub fn to_read_map_op(&self, field_name: &Member) -> (op: ReadOp)
        ensures
            op == (ReadOp::Mapped { raw: self.raw, transform: self.transform, field: *field_name }),
    {
        ReadOp::Mapped {
            raw: self.raw,
            transform: self.transform.duplicate(),
            field: field_name.duplicate(),
        }
    }
}

impl Assertion {
    /// The check of a value that was just read against this assertion.
    pub fn to_read_assertion_op(&self, field_name: &Member, inner: ReadOp) -> (op: ReadOp)
        ensures
            op == (ReadOp::Assert {
                inner: Box::new(inner),
                assertion: *self,
                field: *field_name,
            }),
    {
        ReadOp::Assert {
            inner: Box::new(inner),
            assertion: self.duplicate(),
            field: field_name.duplicate(),
        }
    }
}

impl ParselyReadFieldData {
    /// Where the value comes from. The first that is declared wins: an assigned
    /// expression, a mapping, a custom reader, the collection strategy, a plain read.
    pub open spec fn spec_value_source(self) -> ReadOp {
        if let Some(assign_expr) = self.assign_from {
            ReadOp::Assign(assign_expr)
        } else if let Some(map_expr) = self.common.map {
            ReadOp::Mapped {
                raw: map_expr.raw,
                transform: map_expr.transform,
                field: self.common.ident,
            }
        } else if let Some(reader) = self.reader {
            spec_plain_read(TypeRef::Named(reader), self.common.spec_context_values())
        } else if self.common.ty.spec_is_collection() && self.collection_limit is Some {
            spec_collection_read(
                self.collection_limit->Some_0,
                self.common.ty.spec_buffer_type(),
                self.common.spec_context_values(),
            )
        } else {
            spec_plain_read(self.common.ty.spec_buffer_type(), self.common.spec_context_values())
        }
    }

    /// The value source under the declared assertion and fixed value.
    pub open spec fn spec_checked(self) -> ReadOp {
        let source = self.spec_value_source();
        let asserted = match self.common.assertion {
            Some(assertion) => ReadOp::Assert {
                inner: Box::new(source),
                assertion,
                field: self.common.ident,
            },
            None => source,
        };
        match self.common.fixed {
            Some(expected) => ReadOp::Fixed { inner: Box::new(asserted), expected },
            None => asserted,
        }
    }

    /// The checked value source, labelled `Reading field '<name>'`.
    pub open spec fn spec_labelled(self) -> ReadOp {
        ReadOp::Context {
            label: Label::ReadingField(self.common.ident),
            inner: Box::new(self.spec_checked()),
        }
    }

    /// The labelled read; for an optional without a mapping, under its guard.
    pub open spec fn spec_guarded(self) -> ReadOp {
        if self.common.ty.spec_is_option() && self.common.map is None && self.when is Some {
            ReadOp::When { guard: self.when->Some_0, inner: Box::new(self.spec_labelled()) }
        } else {
            self.spec_labelled()
        }
    }

    /// The guarded read, padded to the declared alignment.
    pub open spec fn spec_padded(self) -> ReadOp {
        match self.common.alignment {
            Some(alignment) => ReadOp::Align { alignment, inner: Box::new(self.spec_guarded()) },
            None => self.spec_guarded(),
        }
    }

    /// The operation that reads the field: the checked value source, labelled
    /// `Reading field '<name>'`; for an optional without a mapping, under its guard; then
    /// padded to the declared alignment; then followed by the declared hook.
    pub open spec fn spec_read_op(self) -> ReadOp {
        match self.common.after {
            Some(hook) => ReadOp::After { inner: Box::new(self.spec_padded()), hook },
            None => self.spec_padded(),
        }
    }

    /// Compiles the field to the operation that reads it. The field must be well formed: a
    /// collection without a limit and an optional without a guard are no schema.
    pub fn to_read_op(&self) -> (op: ReadOp)
        requires
            self.wf(),
        ensures
            op == self.spec_read_op(),
    {
        let mut output = if let Some(assign_expr) = &self.assign_from {
            ReadOp::Assign(assign_expr.duplicate())
        } else if let Some(map_expr) = &self.common.map {
            map_expr.to_read_map_op(&self.common.ident)
        } else if let Some(reader) = &self.reader {
            generate_plain_read(TypeRef::Named(*reader), self.context_values())
        } else if self.common.ty.is_collection() {
            match &self.collection_limit {
                Some(limit) => generate_collection_read(
                    limit,
                    self.buffer_type(),
                    self.context_values(),
                ),
                None => generate_plain_read(self.buffer_type(), self.context_values()),
            }
        } else {
            generate_plain_read(self.buffer_type(), self.context_values())
        };
        if let Some(assertion) = &self.common.assertion {
            output = assertion.to_read_assertion_op(&self.common.ident, output);
        }
        if let Some(expected) = &self.common.fixed {
            output = ReadOp::Fixed { inner: Box::new(output), expected: *expected };
        }
        output = ReadOp::Context {
            label: Label::ReadingField(self.common.ident.duplicate()),
            inner: Box::new(output),
        };
        if self.common.ty.is_option() && self.common.map.is_none() {
            if let Some(when_expr) = &self.when {
                output = wrap_in_optional(when_expr, output);
            }
        }
        if let Some(alignment) = self.common.alignment {
            output = wrap_read_with_padding_handling(alignment, output);
        }
        if let Some(hook) = &self.common.after {
            output = ReadOp::After { inner: Box::new(output), hook: hook.duplicate() };
        }
        output
    }
}

/// The reads of the fields from `from` on, in declaration order.
pub open spec fn spec_read_steps(fields: Seq<ParselyReadFieldData>, from: nat) -> ReadSteps
    decreases fields.len() - from,
{
    if from >= fields.len() {
        ReadSteps::Done
    } else {
        ReadSteps::Bind {
            target: fields[from as int].common.ident,
            op: fields[from as int].spec_read_op(),
            rest: Box::new(spec_read_steps(fields, from + 1)),
        }
    }
}

/// Compiles the reads of all fields, in declaration order.
pub fn read_steps(fields: &Vec<ParselyReadFieldData>) -> (steps: ReadSteps)
    requires
        read_fields_wf(fields@),
    ensures
        steps == spec_read_steps(fields@, 0),
{
    let mut steps = ReadSteps::Done;
    let mut i: usize = fields.len();
    while i > 0
        invariant
            read_fields_wf(fields@),
            i <= fields.len(),
            steps == spec_read_steps(fields@, i as nat),
        decreases i,
    {
        i = i - 1;
        steps = ReadSteps::Bind {
            target: fields[i].common.ident.duplicate(),
            op: fields[i].to_read_op(),
            rest: Box::new(steps),
        };
    }
    steps
}

/// How a record of the given style is put together.
pub open spec fn shape_of_style(style: Style) -> Shape {
    match style {
        Style::Struct => Shape::Named,
        Style::Tuple => Shape::Tuple,
        Style::Unit => Shape::Unit,
    }
}

impl ParselyReadStructData {
    /// Compiles the record to its decode procedure: the fields in declaration order, the
    /// whole under the record's alignment.
    pub fn to_procedure(&self) -> (p: ReadProcedure)
        requires
            read_fields_wf(self.fields@),
        ensures
            p.name == self.ident,
            p.params@ == self.required_context.0@,
            p.alignment == self.alignment,
            p.body == ReadBody::Record(
                spec_read_steps(self.fields@, 0),
                shape_of_style(self.style),
            ),
    {
        let shape = match self.style {
            Style::Struct => Shape::Named,
            Style::Tuple => Shape::Tuple,
            Style::Unit => Shape::Unit,
        };
        ReadProcedure {
            name: self.ident.clone(),
            params: duplicate_params(&self.required_context.0),
            alignment: self.alignment,
            body: ReadBody::Record(read_steps(&self.fields), shape),
        }
    }
}

impl ReadVariantView {
    /// How the variant is put together: without fields a unit, with any named field a
    /// named variant, a tuple otherwise.
    pub open spec fn spec_shape(self) -> Shape {
        if self.fields.len() == 0 {
            Shape::Unit
        } else if any_named_read(self.fields) {
            Shape::Named
        } else {
            Shape::Tuple
        }
    }

    /// What the variant's arm does once its tag matched: evaluate the computed payload, or
    /// read the fields.
    pub open spec fn spec_arm_body(self) -> ReadArmBody {
        match self.discriminant {
            Some(payload) => ReadArmBody::Computed(payload),
            None => ReadArmBody::Fields(spec_read_steps(self.fields, 0), self.spec_shape()),
        }
    }
}

impl ParselyReadVariantData {
    /// Compiles the body of the variant's arm.
    pub fn to_arm_body(&self) -> (body: ReadArmBody)
        requires
            self.wf(),
        ensures
            body == self@.spec_arm_body(),
    {
        match &self.discriminant {
            Some(payload) => ReadArmBody::Computed(payload.duplicate()),
            None => {
                let shape = if self.fields.len() == 0 {
                    Shape::Unit
                } else if self.named_fields() {
                    Shape::Named
                } else {
                    Shape::Tuple
                };
                ReadArmBody::Fields(read_steps(&self.fields), shape)
            },
        }
    }
}

/// The arms for the variants from `from` on, in declaration order.
pub open spec fn spec_read_arms(variants: Seq<ReadVariantView>, from: nat) -> ReadArms
    decreases variants.len() - from,
{
    if from >= variants.len() {
        ReadArms::NoMatch
    } else {
        ReadArms::Arm {
            tag: variants[from as int].id,
            variant: variants[from as int].ident,
            body: variants[from as int].spec_arm_body(),
            rest: Box::new(spec_read_arms(variants, from + 1)),
        }
    }
}

impl TagSource {
    /// A copy of this tag source.
    pub fn duplicate(&self) -> (t: TagSource)
        ensures
            t == *self,
    {
        match self {
            TagSource::Typed(p) => TagSource::Typed(*p),
            TagSource::Computed(e) => TagSource::Computed(e.duplicate()),
        }
    }
}

impl ParselyReadEnumData {
    /// Compiles the tagged union to its decode procedure: obtain the discriminant, then
    /// dispatch over the variants in declaration order.
    pub fn to_procedure(&self) -> (p: ReadProcedure)
        requires
            forall|i: int| 0 <= i < self.variants@.len() ==> (#[trigger] self.variants@[i]).wf(),
        ensures
            p.name == self.ident,
            p.params@ == self.required_context.0@,
            p.alignment == self.alignment,
            p.body == (ReadBody::Dispatch {
                tag: self.key,
                arms: spec_read_arms(read_variant_views(self.variants@), 0),
            }),
    {
        let mut arms = ReadArms::NoMatch;
        let mut i: usize = self.variants.len();
        while i > 0
            invariant
                forall|j: int|
                    0 <= j < self.variants@.len() ==> (#[trigger] self.variants@[j]).wf(),
                i <= self.variants.len(),
                arms == spec_read_arms(read_variant_views(self.variants@), i as nat),
            decreases i,
        {
            i = i - 1;
            arms = ReadArms::Arm {
                tag: self.variants[i].id.duplicate(),
                variant: self.variants[i].ident.clone(),
                body: self.variants[i].to_arm_body(),
                rest: Box::new(arms),
            };
        }
        ReadProcedure {
            name: self.ident.clone(),
            params: duplicate_params(&self.required_context.0),
            alignment: self.alignment,
            body: ReadBody::Dispatch { tag: self.key.duplicate(), arms },
        }
    }
}

} // verus!
