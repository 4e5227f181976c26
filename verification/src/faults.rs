//! The failures that running a procedure can raise, and their messages.

use crate::error::{ErrorKind, ParselyError, ParselyErrorView};
use crate::member::{Member, MemberView};
use crate::render::{datum_text, render_datum, render_value, value_text};
use crate::value::{Datum, Value, ValueView};
use vstd::prelude::*;

verus! {

/// A failure whose message does not depend on the data at hand.
#[derive(Clone, Copy, Debug, PartialEq, Eq, Structural)]
pub enum Fault {
    /// An expression has no value in its scope.
    Evaluation,
    /// The buffer holds fewer bits than the primitive takes.
    EndOfData,
    /// A primitive is narrower than one bit or wider than thirty-two.
    UnsupportedWidth,
    /// The buffer cannot grow any further.
    NoRoom,
    /// The value is of the wrong kind for the primitive, or too large for its width.
    Unencodable,
    /// The value does not have the shape that the procedure takes apart.
    Mismatch,
    /// A procedure is called that does not come before its caller in the program.
    NoProcedure,
    /// A procedure is handed a context that does not hold one value for each of its
    /// parameters.
    ContextMismatch,
    /// A round of a predicate loop consumed nothing, so the loop would never end.
    NoProgress,
    /// No variant's tag equals the discriminant.
    NoArmValue,
    /// The value that is written is not one of the variants.
    NoArmSelf,
}

/// The kind of failure that a fault raises.
pub open spec fn fault_kind(f: Fault) -> ErrorKind {
    match f {
        Fault::Evaluation => ErrorKind::Evaluation,
        Fault::NoProcedure => ErrorKind::Evaluation,
        Fault::ContextMismatch => ErrorKind::Evaluation,
        Fault::NoArmValue => ErrorKind::NoArmMatched,
        Fault::NoArmSelf => ErrorKind::NoArmMatched,
        _ => ErrorKind::Primitive,
    }
}

/// The message of the failure that a fault raises.
pub open spec fn fault_message(f: Fault) -> Seq<char> {
    match f {
        Fault::Evaluation => "expression could not be evaluated"@,
        Fault::EndOfData => "not enough data left in the buffer"@,
        Fault::UnsupportedWidth => "unsupported primitive width"@,
        Fault::NoRoom => "no room left in the buffer"@,
        Fault::Unencodable => "value cannot be written as the declared primitive"@,
        Fault::Mismatch => "value does not match the declared type"@,
        Fault::NoProcedure => "no such procedure"@,
        Fault::ContextMismatch => "context does not match the declared parameters"@,
        Fault::NoProgress => "loop round consumed no data"@,
        Fault::NoArmValue => "No arms matched value"@,
        Fault::NoArmSelf => "No arms matched self"@,
    }
}

/// The failure that a fault raises, before it passes any context.
pub open spec fn fault_error(f: Fault) -> ParselyErrorView {
    ParselyErrorView::new(fault_kind(f), fault_message(f))
}

/// The failure of an assertion on a field's value.
pub open spec fn assertion_failure(
    field: MemberView,
    value: ValueView,
    source: Seq<char>,
) -> ParselyErrorView {
    ParselyErrorView::new(
        ErrorKind::Assertion,
        "Assertion failed: value of field '"@ + field.friendly() + "' ('"@ + value_text(value)
            + "') didn't pass assertion: '"@ + source + "'"@,
    )
}

/// The failure of a field whose value is not the literal it is fixed to.
pub open spec fn fixed_failure(expected: Datum, found: ValueView) -> ParselyErrorView {
    ParselyErrorView::new(
        ErrorKind::FixedValue,
        "Fixed value mismatch: expected '"@ + datum_text(expected) + "', found '"@ + value_text(
            found,
        ) + "'"@,
    )
}

/// Raises a fault.
pub fn raise(f: Fault) -> (e: ParselyError)
    ensures
        e@ == fault_error(f),
{
    let (kind, message) = match f {
        Fault::Evaluation => (ErrorKind::Evaluation, "expression could not be evaluated"),
        Fault::EndOfData => (ErrorKind::Primitive, "not enough data left in the buffer"),
        Fault::UnsupportedWidth => (ErrorKind::Primitive, "unsupported primitive width"),
        Fault::NoRoom => (ErrorKind::Primitive, "no room left in the buffer"),
        Fault::Unencodable => (
            ErrorKind::Primitive,
            "value cannot be written as the declared primitive",
        ),
        Fault::Mismatch => (ErrorKind::Primitive, "value does not match the declared type"),
        Fault::NoProcedure => (ErrorKind::Evaluation, "no such procedure"),
        Fault::ContextMismatch => (
            ErrorKind::Evaluation,
            "context does not match the declared parameters",
        ),
        Fault::NoProgress => (ErrorKind::Primitive, "loop round consumed no data"),
        Fault::NoArmValue => (ErrorKind::NoArmMatched, "No arms matched value"),
        Fault::NoArmSelf => (ErrorKind::NoArmMatched, "No arms matched self"),
    };
    ParselyError::new(kind, String::from_str(message))
}

/// Raises the failure of an assertion.
pub fn assertion_failed(field: &Member, value: &Value, source: &str) -> (e: ParselyError)
    ensures
        e@ == assertion_failure(field@, value@, source@),
{
    let mut message = String::from_str("Assertion failed: value of field '");
    message.append(field.as_friendly_string().as_str());
    message.append("' ('");
    message.append(render_value(value).as_str());
    message.append("') didn't pass assertion: '");
    message.append(source);
    message.append("'");
    ParselyError::new(ErrorKind::Assertion, message)
}

/// Raises the failure of a fixed value.
pub fn fixed_mismatch(expected: Datum, found: &Value) -> (e: ParselyError)
    ensures
        e@ == fixed_failure(expected, found@),
{
    let mut message = String::from_str("Fixed value mismatch: expected '");
    message.append(render_datum(expected).as_str());
    message.append("', found '");
    message.append(render_value(found).as_str());
    message.append("'");
    ParselyError::new(ErrorKind::FixedValue, message)
}

} // verus!
