//! The write path of the compiler: from field, record and tagged-union data to encode
//! and synchronize procedures.

use crate::member::Member;
use crate::plan::{
    duplicate_params, Args, Assertion, Label, Shape, SyncOp, SyncProcedure, SyncSteps, TypeRef,
    WriteArmBody, WriteArms, WriteBody, WriteOp, WriteProcedure, WriteSteps,
};
use crate::schema::{
    any_named_write, write_variant_views, MapExpr, ParselyWriteEnumData, ParselyWriteFieldData,
    ParselyWriteStructData, ParselyWriteVariantData, TypeClass, WriteVariantView,
};
use vstd::prelude::*;

verus! {

/// Wraps a write so that zero bytes are emitted after it, up to a multiple of `alignment`
/// bytes counted from where the write began.
pub fn wrap_write_with_padding_handling(alignment: u64, inner: WriteOp) -> (op: WriteOp)
    ensures
        op == (WriteOp::Align { alignment, inner: Box::new(inner) }),
{
    WriteOp::Align { alignment, inner: Box::new(inner) }
}

impl MapExpr {
    /// The mapped write of a field: transform the field, then encode the raw primitive.
    pub fn to_write_map_op(&self, field_ident: &Member) -> (op: WriteOp)
        ensures
            op == (WriteOp::Mapped {
                transform: self.transform,
                raw: self.raw,
                field: *field_ident,
            }),
    {
        WriteOp::Mapped {
            transform: self.transform.duplicate(),
            raw: self.raw,
            field: field_ident.duplicate(),
        }
    }
}

impl Assertion {
    /// The check of a value that is about to be written against this assertion.
    pub fn to_write_assertion_op(&self, field_ident: &Member, inner: WriteOp) -> (op: WriteOp)
        ensures
            op == (WriteOp::Assert {
                assertion: *self,
                field: *field_ident,
                inner: Box::new(inner),
            }),
    {
        WriteOp::Assert {
            assertion: self.duplicate(),
            field: field_ident.duplicate(),
            inner: Box::new(inner),
        }
    }
}

/// The write of one value of `ty`, labelled `Writing field '<name>'`.
pub open spec fn spec_labelled_encode(ty: TypeRef, args: Args, ident: Member) -> WriteOp {
    WriteOp::Context {
        label: Label::WritingField(ident),
        inner: Box::new(WriteOp::Encode { ty, args }),
    }
}

impl ParselyWriteFieldData {
    /// What is written. The first that applies wins: a custom writer, a mapping, the
    /// payload of an optional if present, each element of a collection, a plain write.
    pub open spec fn spec_write_action(self) -> WriteOp {
        let ident = self.common.ident;
        let args = self.common.spec_context_values();
        if let Some(writer) = self.writer {
            spec_labelled_encode(TypeRef::Named(writer), args, ident)
        } else if let Some(map_expr) = self.common.map {
            WriteOp::Mapped { transform: map_expr.transform, raw: map_expr.raw, field: ident }
        } else {
            match self.common.ty {
                TypeClass::Optional(inner) => WriteOp::IfPresent {
                    inner: Box::new(spec_labelled_encode(inner, args, ident)),
                },
                TypeClass::Collection(inner) => WriteOp::Context {
                    label: Label::WritingField(ident),
                    inner: Box::new(
                        WriteOp::Each { item: Box::new(WriteOp::Encode { ty: inner, args }) },
                    ),
                },
                _ => spec_labelled_encode(self.common.ty.spec_buffer_type(), args, ident),
            }
        }
    }

    /// The write action behind the checks: the declared assertion, then the declared
    /// fixed value, are held against the field before anything is written.
    pub open spec fn spec_checked_write(self) -> WriteOp {
        let action = self.spec_write_action();
        let fixed = match self.common.fixed {
            Some(expected) => WriteOp::Fixed { expected, inner: Box::new(action) },
            None => action,
        };
        match self.common.assertion {
            Some(assertion) => WriteOp::Assert {
                assertion,
                field: self.common.ident,
                inner: Box::new(fixed),
            },
            None => fixed,
        }
    }

    /// The checked write, padded to the declared alignment.
    pub open spec fn spec_padded_write(self) -> WriteOp {
        match self.common.alignment {
            Some(alignment) => WriteOp::Align {
                alignment,
                inner: Box::new(self.spec_checked_write()),
            },
            None => self.spec_checked_write(),
        }
    }

    /// The operation that writes the field: the declared assertion and fixed value are
    /// checked before anything is written; the whole is padded to the declared alignment
    /// and followed by the declared hook.
    pub open spec fn spec_write_op(self) -> WriteOp {
        match self.common.after {
            Some(hook) => WriteOp::After { inner: Box::new(self.spec_padded_write()), hook },
            None => self.spec_padded_write(),
        }
    }

    /// How the field is brought up to date: by its expression; not at all for a wrapper
    /// without arguments; by its own type's synchronization otherwise.
    pub open spec fn spec_sync_op(self) -> SyncOp {
        if let Some(expr) = self.sync_expr {
            SyncOp::Assign { expr, field: self.common.ident }
        } else if self.sync_with.0@.len() == 0 && self.common.ty.spec_is_wrapped() {
            SyncOp::Skip
        } else {
            SyncOp::Delegate {
                ty: self.common.ty.spec_buffer_type(),
                args: self.spec_sync_with_expressions(),
                field: self.common.ident,
            }
        }
    }

    fn labelled_encode(&self, ty: TypeRef) -> (op: WriteOp)
        ensures
            op == spec_labelled_encode(ty, self.common.spec_context_values(), self.common.ident),
    {
        WriteOp::Context {
            label: Label::WritingField(self.common.ident.duplicate()),
            inner: Box::new(WriteOp::Encode { ty, args: self.common.context_values() }),
        }
    }

    /// Compiles the field to the operation that writes it.
    pub fn to_write_op(&self) -> (op: WriteOp)
        ensures
            op == self.spec_write_op(),
    {
        let mut output = if let Some(writer) = &self.writer {
            self.labelled_encode(TypeRef::Named(*writer))
        } else if let Some(map_expr) = &self.common.map {
            map_expr.to_write_map_op(&self.common.ident)
        } else {
            match &self.common.ty {
                TypeClass::Optional(inner) => WriteOp::IfPresent {
                    inner: Box::new(self.labelled_encode(*inner)),
                },
                TypeClass::Collection(inner) => WriteOp::Context {
                    label: Label::WritingField(self.common.ident.duplicate()),
                    inner: Box::new(
                        WriteOp::Each {
                            item: Box::new(
                                WriteOp::Encode {
                                    ty: *inner,
                                    args: self.common.context_values(),
                                },
                            ),
                        },
                    ),
                },
                _ => self.labelled_encode(self.common.buffer_type()),
            }
        };
        if let Some(expected) = &self.common.fixed {
            output = WriteOp::Fixed { expected: *expected, inner: Box::new(output) };
        }
        if let Some(assertion) = &self.common.assertion {
            output = assertion.to_write_assertion_op(&self.common.ident, output);
        }
        if let Some(alignment) = self.common.alignment {
            output = wrap_write_with_padding_handling(alignment, output);
        }
        if let Some(hook) = &self.common.after {
            output = WriteOp::After { inner: Box::new(output), hook: hook.duplicate() };
        }
        output
    }

    /// Compiles the field to the operation that synchronizes it.
    pub fn to_sync_call_op(&self) -> (op: SyncOp)
        ensures
            op == self.spec_sync_op(),
    {
        if let Some(sync_expr) = &self.sync_expr {
            SyncOp::Assign { expr: sync_expr.duplicate(), field: self.common.ident.duplicate() }
        } else if self.sync_with.is_empty() && self.common.ty.is_wrapped() {
            SyncOp::Skip
        } else {
            SyncOp::Delegate {
                ty: self.common.buffer_type(),
                args: self.sync_with_expressions(),
                field: self.common.ident.duplicate(),
            }
        }
    }
}

/// The writes of the fields from `from` on, in declaration order.
pub open spec fn spec_write_steps(fields: Seq<ParselyWriteFieldData>, from: nat) -> WriteSteps
    decreases fields.len() - from,
{
    if from >= fields.len() {
        WriteSteps::Done
    } else {
        WriteSteps::Put {
            source: fields[from as int].common.ident,
            op: fields[from as int].spec_write_op(),
            rest: Box::new(spec_write_steps(fields, from + 1)),
        }
    }
}

/// The synchronizations of the fields from `from` on, in declaration order.
pub open spec fn spec_sync_steps(fields: Seq<ParselyWriteFieldData>, from: nat) -> SyncSteps
    decreases fields.len() - from,
{
    if from >= fields.len() {
        SyncSteps::Done
    } else {
        SyncSteps::Step {
            op: fields[from as int].spec_sync_op(),
            rest: Box::new(spec_sync_steps(fields, from + 1)),
        }
    }
}

/// Compiles the writes of all fields, in declaration order.
pub fn write_steps(fields: &Vec<ParselyWriteFieldData>) -> (steps: WriteSteps)
    ensures
        steps == spec_write_steps(fields@, 0),
{
    let mut steps = WriteSteps::Done;
    let mut i: usize = fields.len();
    while i > 0
        invariant
            i <= fields.len(),
            steps == spec_write_steps(fields@, i as nat),
        decreases i,
    {
        i = i - 1;
        steps = WriteSteps::Put {
            source: fields[i].common.ident.duplicate(),
            op: fields[i].to_write_op(),
            rest: Box::new(steps),
        };
    }
    steps
}

/// Compiles the synchronizations of all fields, in declaration order.
pub fn sync_steps(fields: &Vec<ParselyWriteFieldData>) -> (steps: SyncSteps)
    ensures
        steps == spec_sync_steps(fields@, 0),
{
    let mut steps = SyncSteps::Done;
    let mut i: usize = fields.len();
    while i > 0
        invariant
            i <= fields.len(),
            steps == spec_sync_steps(fields@, i as nat),
        decreases i,
    {
        i = i - 1;
        steps = SyncSteps::Step { op: fields[i].to_sync_call_op(), rest: Box::new(steps) };
    }
    steps
}

impl ParselyWriteStructData {
    /// Compiles the record to its encode procedure: the fields in declaration order, the
    /// whole under the record's alignment.
    pub fn to_procedure(&self) -> (p: WriteProcedure)
        ensures
            p.name == self.ident,
            p.params@ == self.required_context.0@,
            p.alignment == self.alignment,
            p.body == WriteBody::Record(spec_write_steps(self.fields@, 0)),
    {
        WriteProcedure {
            name: self.ident.clone(),
            params: duplicate_params(&self.required_context.0),
            alignment: self.alignment,
            body: WriteBody::Record(write_steps(&self.fields)),
        }
    }

    /// Compiles the record to its synchronize procedure: each field in declaration order,
    /// with the synchronization arguments as parameters.
    pub fn to_sync_procedure(&self) -> (p: SyncProcedure)
        ensures
            p.name == self.ident,
            p.params@ == self.sync_args.0@,
            p.steps == spec_sync_steps(self.fields@, 0),
    {
        SyncProcedure {
            name: self.ident.clone(),
            params: duplicate_params(&self.sync_args.0),
            steps: sync_steps(&self.fields),
        }
    }
}

impl WriteVariantView {
    /// How the variant is taken apart: without fields a unit, with any named field a
    /// named variant, a tuple otherwise.
    pub open spec fn spec_shape(self) -> Shape {
        if self.fields.len() == 0 {
            Shape::Unit
        } else if any_named_write(self.fields) {
            Shape::Named
        } else {
            Shape::Tuple
        }
    }

    /// What the variant's arm writes after the tag: the computed payload, or the fields.
    pub open spec fn spec_arm_body(self) -> WriteArmBody {
        match self.discriminant {
            Some(payload) => WriteArmBody::Computed(payload.expr, payload.ty),
            None => WriteArmBody::Fields(spec_write_steps(self.fields, 0), self.spec_shape()),
        }
    }
}

impl ParselyWriteVariantData {
    /// Compiles the body of the variant's arm.
    pub fn to_arm_body(&self) -> (body: WriteArmBody)
        ensures
            body == self@.spec_arm_body(),
    {
        match &self.discriminant {
            Some(payload) => WriteArmBody::Computed(payload.expr.duplicate(), payload.ty),
            None => {
                let shape = if self.fields.len() == 0 {
                    Shape::Unit
                } else if self.named_fields() {
                    Shape::Named
                } else {
                    Shape::Tuple
                };
                WriteArmBody::Fields(write_steps(&self.fields), shape)
            },
        }
    }
}

/// The arms for the variants from `from` on, in declaration order.
pub open spec fn spec_write_arms(variants: Seq<WriteVariantView>, from: nat) -> WriteArms
    decreases variants.len() - from,
{
    if from >= variants.len() {
        WriteArms::NoMatch
    } else {
        WriteArms::Arm {
            tag: variants[from as int].id,
            variant: variants[from as int].ident,
            body: variants[from as int].spec_arm_body(),
            rest: Box::new(spec_write_arms(variants, from + 1)),
        }
    }
}

impl ParselyWriteEnumData {
    /// Compiles the tagged union to its encode procedure: one arm for each variant, in
    /// declaration order, each writing the tag and then the payload.
    pub fn to_procedure(&self) -> (p: WriteProcedure)
        ensures
            p.name == self.ident,
            p.params@ == self.required_context.0@,
            p.alignment == self.alignment,
            p.body == (WriteBody::Dispatch {
                tag: self.key,
                arms: spec_write_arms(write_variant_views(self.variants@), 0),
            }),
    {
        let mut arms = WriteArms::NoMatch;
        let mut i: usize = self.variants.len();
        while i > 0
            invariant
                i <= self.variants.len(),
                arms == spec_write_arms(write_variant_views(self.variants@), i as nat),
            decreases i,
        {
            i = i - 1;
            arms = WriteArms::Arm {
                tag: self.variants[i].id.duplicate(),
                variant: self.variants[i].ident.clone(),
                body: self.variants[i].to_arm_body(),
                rest: Box::new(arms),
            };
        }
        WriteProcedure {
            name: self.ident.clone(),
            params: duplicate_params(&self.required_context.0),
            alignment: self.alignment,
            body: WriteBody::Dispatch { tag: self.key.duplicate(), arms },
        }
    }

    /// Compiles the tagged union to its synchronize procedure, which has nothing to do.
    pub fn to_sync_procedure(&self) -> (p: SyncProcedure)
        ensures
            p.name == self.ident,
            p.params@ == self.sync_args.0@,
            p.steps == SyncSteps::Done,
    {
        SyncProcedure {
            name: self.ident.clone(),
            params: duplicate_params(&self.sync_args.0),
            steps: SyncSteps::Done,
        }
    }
}

} // verus!
