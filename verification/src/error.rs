//! Failures of decoding, encoding and synchronizing, with the trail of contexts they
//! passed on their way out.

use crate::value::{Datum, Value};
use vstd::prelude::*;
use vstd::std_specs::convert::IntoSpec;

verus! {

/// What went wrong.
#[derive(Clone, Copy, Debug, PartialEq, Eq, Structural)]
pub enum ErrorKind {
    /// A value did not pass the assertion declared for its field.
    Assertion,
    /// A value differs from the literal its field is fixed to.
    FixedValue,
    /// No variant matches the discriminant, or the value that is written is no variant.
    NoArmMatched,
    /// A context, mapping, guard, count or synchronization expression could not be evaluated.
    Evaluation,
    /// The buffer ran out, or a value cannot travel as the primitive it is declared as.
    Primitive,
}

/// A failure: its kind, its message and the contexts attached on the way out, innermost first.
#[derive(Debug, PartialEq, Eq)]
pub struct ParselyError {
    pub kind: ErrorKind,
    pub message: String,
    pub context: Vec<String>,
}

/// The mathematical value of a [`ParselyError`].
pub struct ParselyErrorView {
    pub kind: ErrorKind,
    pub message: Seq<char>,
    pub context: Seq<Seq<char>>,
}

pub type ParselyResult<T> = Result<T, ParselyError>;

/// The texts of a sequence of strings.
pub open spec fn view_strings(items: Seq<String>) -> Seq<Seq<char>> {
    Seq::new(items.len(), |i: int| items[i]@)
}

impl View for ParselyError {
    type V = ParselyErrorView;

    open spec fn view(&self) -> ParselyErrorView {
        ParselyErrorView {
            kind: self.kind,
            message: self.message@,
            context: view_strings(self.context@),
        }
    }
}

impl ParselyErrorView {
    /// A failure that has passed no context yet.
    pub open spec fn new(kind: ErrorKind, message: Seq<char>) -> ParselyErrorView {
        ParselyErrorView { kind, message, context: Seq::empty() }
    }

    /// The same failure after it passed one more context.
    pub open spec fn with_context(self, label: Seq<char>) -> ParselyErrorView {
        ParselyErrorView { context: self.context.push(label), ..self }
    }

    /// The contexts from `upto` down to the innermost, each followed by `": "`.
    pub open spec fn trail(self, upto: nat) -> Seq<char>
        decreases upto,
    {
        if upto == 0 || upto > self.context.len() {
            Seq::empty()
        } else {
            self.context[upto - 1] + ": "@ + self.trail((upto - 1) as nat)
        }
    }

    /// The failure as one line: the contexts, outermost first, then the message.
    pub open spec fn describe(self) -> Seq<char> {
        self.trail(self.context.len()) + self.message
    }
}

impl ParselyError {
    /// A failure of the given kind that has passed no context yet.
    pub fn new(kind: ErrorKind, message: String) -> (e: ParselyError)
        ensures
            e@ == ParselyErrorView::new(kind, message@),
    {
        let e = ParselyError { kind, message, context: Vec::new() };
        assert(e@.context =~= Seq::empty());
        e
    }

    /// Attaches one more context, outside those attached before.
    pub fn with_context(self, label: String) -> (e: ParselyError)
        ensures
            e@ == self@.with_context(label@),
    {
        let ParselyError { kind, message, context } = self;
        let mut context = context;
        context.push(label);
        let e = ParselyError { kind, message, context };
        assert(e@.context =~= self@.context.push(label@));
        e
    }

    /// The failure as one line: the contexts, outermost first, then the message, joined by
    /// `": "`.
    pub fn describe(&self) -> (s: String)
        ensures
            s@ == self@.describe(),
    {
        let mut s = String::new();
        let mut i: usize = self.context.len();
        let ghost total = self@.trail(self.context.len() as nat);
        assert(s@ + self@.trail(i as nat) =~= total);
        while i > 0
            invariant
                i <= self.context.len(),
                s@ + self@.trail(i as nat) == total,
            decreases i,
        {
            let ghost before = s@;
            s.append(self.context[i - 1].as_str());
            s.append(": ");
            assert(s@ + self@.trail((i - 1) as nat) =~= before + self@.trail(i as nat));
            i = i - 1;
        }
        assert(s@ =~= total);
        s.append(self.message.as_str());
        s
    }
}

/// Attaches a context to a failure and leaves a success alone.
pub fn in_context<T>(r: ParselyResult<T>, label: String) -> (out: ParselyResult<T>)
    ensures
        match r {
            Ok(v) => out == Ok::<T, ParselyError>(v),
            Err(e) => out matches Err(f) && f@ == e@.with_context(label@),
        },
{
    match r {
        Ok(v) => Ok(v),
        Err(e) => Err(e.with_context(label)),
    }
}

/// Marks the types whose values can be written to a buffer.
pub trait ParselyWritable {

}

impl ParselyWritable for Datum {

}

impl ParselyWritable for Value {

}

/// Coerces either a plain value or a fallible result into a [`ParselyResult`], so that the
/// result of an expression can always be handled through one error channel.
pub trait IntoParselyResult<T>: Sized {
    /// What `r` must be for it to be the coercion of `self`.
    spec fn coerces_to(self, r: ParselyResult<T>) -> bool;

    fn into_parsely_result_read(self) -> (r: ParselyResult<T>)
        ensures
            self.coerces_to(r),
    ;
}

impl<T> IntoParselyResult<T> for T {
    /// A plain value succeeds as itself.
    open spec fn coerces_to(self, r: ParselyResult<T>) -> bool {
        r == Ok::<T, ParselyError>(self)
    }

    fn into_parsely_result_read(self) -> (r: ParselyResult<T>) {
        Ok(self)
    }
}

impl<T, E: Into<ParselyError>> IntoParselyResult<T> for Result<T, E> {
    /// A success stays a success; a failure is converted into the library's error.
    open spec fn coerces_to(self, r: ParselyResult<T>) -> bool {
        match self {
            Ok(v) => r == Ok::<T, ParselyError>(v),
            Err(e) => r is Err && (E::obeys_into_spec() ==> r->Err_0 == e.into_spec()),
        }
    }

    fn into_parsely_result_read(self) -> (r: ParselyResult<T>) {
        match self {
            Ok(v) => Ok(v),
            Err(e) => Err(e.into()),
        }
    }
}

/// The same coercion for values that are about to be written: a plain value must be of a
/// writable type. `B` names the buffer the value is meant for.
pub trait IntoWritableParselyResult<T, B>: Sized {
    /// What `r` must be for it to be the coercion of `self`.
    spec fn coerces_to_writable(self, r: ParselyResult<T>) -> bool;

    fn into_writable_parsely_result(self) -> (r: ParselyResult<T>)
        ensures
            self.coerces_to_writable(r),
    ;
}

impl<T: ParselyWritable, B> IntoWritableParselyResult<T, B> for T {
    /// A writable value succeeds as itself.
    open spec fn coerces_to_writable(self, r: ParselyResult<T>) -> bool {
        r == Ok::<T, ParselyError>(self)
    }

    fn into_writable_parsely_result(self) -> (r: ParselyResult<T>) {
        Ok(self)
    }
}

impl<T, E: Into<ParselyError>, B> IntoWritableParselyResult<T, B> for Result<T, E> {
    /// A success stays a success; a failure is converted into the library's error.
    open spec fn coerces_to_writable(self, r: ParselyResult<T>) -> bool {
        match self {
            Ok(v) => r == Ok::<T, ParselyError>(v),
            Err(e) => r is Err && (E::obeys_into_spec() ==> r->Err_0 == e.into_spec()),
        }
    }

    fn into_writable_parsely_result(self) -> (r: ParselyResult<T>) {
        match self {
            Ok(v) => Ok(v),
            Err(e) => Err(e.into()),
        }
    }
}

} // verus!
