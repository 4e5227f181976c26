//! The context resolver: turns declared context expressions into the arguments that a
//! nested procedure is called with.

use crate::expr::Expr;
use crate::plan::{Args, Label};
use crate::schema::{
    Context, ParselyCommonFieldData, ParselyReadFieldData, ParselyWriteFieldData,
};
use vstd::prelude::*;

verus! {

/// The arguments for the expressions from `from` on: each is raised under `base` followed
/// by its position among all the expressions.
pub open spec fn spec_args(exprs: Seq<Expr>, base: Label, from: nat) -> Args
    decreases exprs.len() - from,
{
    if from >= exprs.len() {
        Args::Nil
    } else {
        Args::Cons {
            expr: exprs[from as int],
            label: Label::Expression(Box::new(base), from as u64),
            rest: Box::new(spec_args(exprs, base, from + 1)),
        }
    }
}

/// How many arguments there are.
pub open spec fn args_len(args: Args) -> nat
    decreases args,
{
    match args {
        Args::Nil => 0,
        Args::Cons { rest, .. } => 1 + args_len(*rest),
    }
}

impl Context {
    /// The expressions as arguments, in order, each labelled `<label>: expression <index>`.
    pub fn expressions(&self, label: &Label) -> (args: Args)
        ensures
            args == spec_args(self.0@, *label, 0),
    {
        let mut args = Args::Nil;
        let mut i: usize = self.0.len();
        while i > 0
            invariant
                i <= self.0.len(),
                args == spec_args(self.0@, *label, i as nat),
            decreases i,
        {
            i = i - 1;
            args = Args::Cons {
                expr: self.0[i].duplicate(),
                label: Label::Expression(Box::new(label.duplicate()), i as u64),
                rest: Box::new(args),
            };
        }
        args
    }
}

impl ParselyCommonFieldData {
    /// The arguments that the field's own procedure is called with.
    pub open spec fn spec_context_values(self) -> Args {
        match self.context {
            Some(c) => spec_args(c.0@, Label::ReadContext(self.ident), 0),
            None => Args::Nil,
        }
    }

    /// The arguments that the field's own read or write procedure is called with: the
    /// declared context expressions, labelled `Read context for field '<name>'`.
    pub fn context_values(&self) -> (args: Args)
        ensures
            args == self.spec_context_values(),
    {
        match &self.context {
            Some(c) => c.expressions(&Label::ReadContext(self.ident.duplicate())),
            None => Args::Nil,
        }
    }
}

impl ParselyReadFieldData {
    /// The arguments that the field's own read procedure is called with: those of the
    /// common data.
    pub fn context_values(&self) -> (args: Args)
        ensures
            args == self.common.spec_context_values(),
    {
        self.common.context_values()
    }
}

impl ParselyWriteFieldData {
    /// The arguments that the field's own synchronization is called with.
    pub open spec fn spec_sync_with_expressions(self) -> Args {
        spec_args(self.sync_with.0@, Label::SyncContext(self.common.ident), 0)
    }

    /// The arguments that the field's own synchronization is called with: the declared
    /// expressions, labelled `Sync context for field '<name>'`.
    pub fn sync_with_expressions(&self) -> (args: Args)
        ensures
            args == self.spec_sync_with_expressions(),
    {
        self.sync_with.expressions(&Label::SyncContext(self.common.ident.duplicate()))
    }
}

} // verus!
