//! Synchronization: bringing the fields of a value up to date before it is encoded.

use crate::decode::eval_args;
use crate::error::{ParselyErrorView, ParselyResult};
use crate::expr::{scope_of, spec_eval};
use crate::faults::{fault_error, raise, Fault};
use crate::member::Member;
use crate::plan::{label_text, Codec, Label, SyncOp, SyncSteps, TypeRef};
use crate::read::run_args;
use crate::text::join3;
use crate::value::{
    duplicate_all, lemma_view_values, lemma_view_values_update, view_values, Datum, Value,
    ValueView,
};
use vstd::prelude::*;

verus! {

/// The result with `label` attached to its failure, if it is one.
pub open spec fn fields_in_context(
    r: Result<Seq<ValueView>, ParselyErrorView>,
    label: Seq<char>,
) -> Result<Seq<ValueView>, ParselyErrorView> {
    match r {
        Ok(_) => r,
        Err(e) => Err(e.with_context(label)),
    }
}

/// What synchronizing the field at position `k` yields: the fields after it. A failure is
/// raised under `Syncing field '<name>'`.
pub open spec fn sync_step(
    prog: Seq<Codec>,
    me: nat,
    op: SyncOp,
    ctx: Seq<Datum>,
    fields: Seq<ValueView>,
    k: nat,
) -> Result<Seq<ValueView>, ParselyErrorView>
    recommends
        k < fields.len(),
    decreases me, 1nat, op, 0nat,
{
    let scope = scope_of(ctx, fields, None, 0);
    match op {
        SyncOp::Assign { expr, field } => match spec_eval(expr, scope) {
            Some(d) => Ok(fields.update(k as int, ValueView::Scalar(d))),
            None => Err(
                fault_error(Fault::Evaluation).with_context(label_text(Label::SyncingField(field))),
            ),
        },
        SyncOp::Skip => Ok(fields),
        SyncOp::Delegate { ty, args, field } => fields_in_context(
            match eval_args(args, scope) {
                Err(e) => Err(e),
                Ok(actuals) => match ty {
                    TypeRef::Primitive(_) => Ok(fields),
                    TypeRef::Named(callee) => if callee < me && callee < prog.len() {
                        match sync_procedure(prog, callee as nat, actuals, fields[k as int]) {
                            Ok(v) => Ok(fields.update(k as int, v)),
                            Err(e) => Err(e),
                        }
                    } else {
                        Err(fault_error(Fault::NoProcedure))
                    },
                },
            },
            label_text(Label::SyncingField(field)),
        ),
    }
}

/// What synchronizing the fields from the first of `steps` on, which stands for the field
/// at position `k`, yields.
pub open spec fn sync_steps(
    prog: Seq<Codec>,
    me: nat,
    steps: SyncSteps,
    ctx: Seq<Datum>,
    fields: Seq<ValueView>,
    k: nat,
) -> Result<Seq<ValueView>, ParselyErrorView>
    decreases me, 2nat, steps, 0nat,
{
    match steps {
        SyncSteps::Done => Ok(fields),
        SyncSteps::Step { op, rest } => if k < fields.len() {
            match sync_step(prog, me, op, ctx, fields, k) {
                Ok(next) => sync_steps(prog, me, *rest, ctx, next, k + 1),
                Err(e) => Err(e),
            }
        } else {
            Err(fault_error(Fault::Mismatch))
        },
    }
}

/// What running the synchronize procedure at position `me` on `subject` yields: the
/// value with its fields brought up to date, in declaration order. The arguments must
/// hold one value for each parameter. A procedure without steps leaves any value as it
/// is.
pub open spec fn sync_procedure(
    prog: Seq<Codec>,
    me: nat,
    ctx: Seq<Datum>,
    subject: ValueView,
) -> Result<ValueView, ParselyErrorView>
    decreases me, 3nat, SyncSteps::Done, 0nat,
{
    if me < prog.len() {
        if ctx.len() != prog[me as int].sync.params@.len() {
            Err(fault_error(Fault::ContextMismatch))
        } else {
            match prog[me as int].sync.steps {
                SyncSteps::Done => Ok(subject),
                steps => match subject {
                    ValueView::Record(fields) => match sync_steps(
                        prog,
                        me,
                        steps,
                        ctx,
                        fields,
                        0,
                    ) {
                        Ok(next) => Ok(ValueView::Record(next)),
                        Err(e) => Err(e),
                    },
                    _ => Err(fault_error(Fault::Mismatch)),
                },
            }
        }
    } else {
        Err(fault_error(Fault::NoProcedure))
    }
}

/// The fields as synchronizing the field at position `k` leaves them, whether it succeeds
/// or fails: a field whose expression or arguments cannot be evaluated keeps its value; a
/// nested value is left as its own synchronization leaves it.
pub open spec fn sync_step_reached(
    prog: Seq<Codec>,
    me: nat,
    op: SyncOp,
    ctx: Seq<Datum>,
    fields: Seq<ValueView>,
    k: nat,
) -> Seq<ValueView>
    recommends
        k < fields.len(),
    decreases me, 1nat, op, 0nat,
{
    let scope = scope_of(ctx, fields, None, 0);
    match op {
        SyncOp::Assign { expr, field } => match spec_eval(expr, scope) {
            Some(d) => fields.update(k as int, ValueView::Scalar(d)),
            None => fields,
        },
        SyncOp::Skip => fields,
        SyncOp::Delegate { ty, args, field } => match eval_args(args, scope) {
            Err(_) => fields,
            Ok(actuals) => match ty {
                TypeRef::Primitive(_) => fields,
                TypeRef::Named(callee) => if callee < me && callee < prog.len() {
                    fields.update(
                        k as int,
                        sync_procedure_reached(prog, callee as nat, actuals, fields[k as int]),
                    )
                } else {
                    fields
                },
            },
        },
    }
}

/// The fields as the steps from the first of `steps` on, which stands for the field at
/// position `k`, leave them: the steps run in order and stop at the first that fails.
/// The fields synchronized before it keep their new values, and those after it their
/// old ones.
pub open spec fn sync_steps_reached(
    prog: Seq<Codec>,
    me: nat,
    steps: SyncSteps,
    ctx: Seq<Datum>,
    fields: Seq<ValueView>,
    k: nat,
) -> Seq<ValueView>
    decreases me, 2nat, steps, 0nat,
{
    match steps {
        SyncSteps::Done => fields,
        SyncSteps::Step { op, rest } => if k < fields.len() {
            let next = sync_step_reached(prog, me, op, ctx, fields, k);
            if sync_step(prog, me, op, ctx, fields, k) is Ok {
                sync_steps_reached(prog, me, *rest, ctx, next, k + 1)
            } else {
                next
            }
        } else {
            fields
        },
    }
}

/// The value as running the synchronize procedure at position `me` on `subject` leaves
/// it, whether the procedure succeeds or fails. There is no rollback: what was
/// synchronized before a failure stays synchronized.
pub open spec fn sync_procedure_reached(
    prog: Seq<Codec>,
    me: nat,
    ctx: Seq<Datum>,
    subject: ValueView,
) -> ValueView
    decreases me, 3nat, SyncSteps::Done, 0nat,
{
    if me < prog.len() && ctx.len() == prog[me as int].sync.params@.len() {
        match prog[me as int].sync.steps {
            SyncSteps::Done => subject,
            steps => match subject {
                ValueView::Record(fields) => ValueView::Record(
                    sync_steps_reached(prog, me, steps, ctx, fields, 0),
                ),
                _ => subject,
            },
        }
    } else {
        subject
    }
}

/// `Syncing field '<name>'`
fn syncing_label(field: &Member) -> (s: String)
    ensures
        s@ == label_text(Label::SyncingField(*field)),
{
    join3("Syncing field '", field.as_friendly_string().as_str(), "'")
}

/// Synchronizes the field at position `k` of `fields`, in place. On failure the field
/// keeps its value, but for a nested value, which is left as its own synchronization
/// left it.
pub fn run_sync_step(
    prog: &Vec<Codec>,
    me: usize,
    op: &SyncOp,
    ctx: &Vec<Datum>,
    fields: &mut Vec<Value>,
    k: usize,
) -> (r: ParselyResult<()>)
    requires
        k < old(fields).len(),
    ensures
        match sync_step(prog@, me as nat, *op, ctx@, view_values(old(fields)@), k as nat) {
            Ok(next) => r is Ok && view_values(final(fields)@) == next,
            Err(e) => r matches Err(f) && f@ == e,
        },
        view_values(final(fields)@) == sync_step_reached(
            prog@,
            me as nat,
            *op,
            ctx@,
            view_values(old(fields)@),
            k as nat,
        ),
        final(fields).len() == old(fields).len(),
    decreases me, 1nat, op, 0nat,
{
    proof {
        lemma_view_values(fields@);
    }
    match op {
        SyncOp::Assign { expr, field } => match expr.eval(ctx, fields, None, 0) {
            Some(d) => {
                proof {
                    lemma_view_values_update(fields@, k as int, Value::Scalar(d));
                }
                fields.set(k, Value::Scalar(d));
                Ok(())
            },
            None => Err(raise(Fault::Evaluation).with_context(syncing_label(field))),
        },
        SyncOp::Skip => Ok(()),
        SyncOp::Delegate { ty, args, field } => match run_args(args, ctx, fields, None, 0) {
            Err(e) => Err(e.with_context(syncing_label(field))),
            Ok(actuals) => match ty {
                TypeRef::Primitive(_) => Ok(()),
                TypeRef::Named(callee) => if *callee < me && *callee < prog.len() {
                    let mut nested = fields[k].duplicate();
                    let r = run_sync_procedure(prog, *callee, &actuals, &mut nested);
                    proof {
                        lemma_view_values_update(fields@, k as int, nested);
                    }
                    fields.set(k, nested);
                    match r {
                        Ok(_) => Ok(()),
                        Err(e) => Err(e.with_context(syncing_label(field))),
                    }
                } else {
                    Err(raise(Fault::NoProcedure).with_context(syncing_label(field)))
                },
            },
        },
    }
}

/// Runs the synchronize procedure at position `me` of `prog` with the arguments `ctx` on
/// `subject`, in place: the fields are brought up to date in declaration order. A failure
/// stops the run and undoes nothing: the fields before the failing one keep their new
/// values.
#[verifier::loop_isolation(false)]
pub fn run_sync_procedure(prog: &Vec<Codec>, me: usize, ctx: &Vec<Datum>, subject: &mut Value) -> (r:
    ParselyResult<()>)
    ensures
        match sync_procedure(prog@, me as nat, ctx@, old(subject)@) {
            Ok(v) => r is Ok && final(subject)@ == v,
            Err(e) => r matches Err(f) && f@ == e,
        },
        final(subject)@ == sync_procedure_reached(prog@, me as nat, ctx@, old(subject)@),
    decreases me, 3nat, SyncSteps::Done, 0nat,
{
    if me >= prog.len() {
        return Err(raise(Fault::NoProcedure));
    }
    if ctx.len() != prog[me].sync.params.len() {
        return Err(raise(Fault::ContextMismatch));
    }
    let steps = &prog[me].sync.steps;
    if let SyncSteps::Done = steps {
        return Ok(());
    }
    let mut fields = match subject {
        Value::Record(given) => duplicate_all(given),
        _ => {
            return Err(raise(Fault::Mismatch));
        },
    };
    let ghost given = old(subject)@->Record_0;
    let mut cur: &SyncSteps = steps;
    let mut k: usize = 0;
    let ghost goal = sync_steps(prog@, me as nat, *steps, ctx@, given, 0);
    let ghost reached = sync_steps_reached(prog@, me as nat, *steps, ctx@, given, 0);
    let mut outcome: ParselyResult<()> = Ok(());
    let mut running = true;
    while running
        invariant
            running ==> outcome is Ok,
            running ==> sync_steps(prog@, me as nat, *cur, ctx@, view_values(fields@), k as nat)
                == goal,
            running ==> sync_steps_reached(
                prog@,
                me as nat,
                *cur,
                ctx@,
                view_values(fields@),
                k as nat,
            ) == reached,
            !running ==> view_values(fields@) == reached,
            !running ==> match goal {
                Ok(next) => outcome is Ok && view_values(fields@) == next,
                Err(e) => outcome matches Err(f) && f@ == e,
            },
        decreases
            (if running {
                1int
            } else {
                0int
            }),
            *cur,
    {
        match cur {
            SyncSteps::Done => {
                running = false;
            },
            SyncSteps::Step { op, rest } => {
                proof {
                    lemma_view_values(fields@);
                }
                if k < fields.len() {
                    match run_sync_step(prog, me, op, ctx, &mut fields, k) {
                        Ok(_) => {
                            k = k + 1;
                            cur = rest;
                        },
                        Err(e) => {
                            outcome = Err(e);
                            running = false;
                        },
                    }
                } else {
                    outcome = Err(raise(Fault::Mismatch));
                    running = false;
                }
            },
        }
    }
    *subject = Value::Record(fields);
    outcome
}

} // verus!
