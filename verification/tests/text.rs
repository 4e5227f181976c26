use parsely::error::{in_context, ErrorKind, IntoParselyResult, IntoWritableParselyResult, ParselyError, ParselyResult};
use parsely::faults::{assertion_failed, fixed_mismatch, raise, Fault};
use parsely::member::Member;
use parsely::plan::Label;
use parsely::render::{render_datum, render_value};
use parsely::text::{decimal, join3, numbered};
use parsely::value::{duplicate_all, Datum, Value};

#[test]
fn decimal_renders_numbers_without_leading_zeros() {
    assert_eq!(decimal(0), "0");
    assert_eq!(decimal(7), "7");
    assert_eq!(decimal(10), "10");
    assert_eq!(decimal(4096), "4096");
    assert_eq!(decimal(u64::MAX), "18446744073709551615");
}

#[test]
fn numbered_and_join3_concatenate() {
    assert_eq!(numbered("Index ", 12), "Index 12");
    assert_eq!(join3("a", "", "c"), "ac");
}

#[test]
fn member_from_ident_or_index_prefers_the_name() {
    assert!(matches!(
        Member::from_ident_or_index(Some("len".to_string()), 3),
        Member::Named(name) if name == "len"
    ));
    assert!(matches!(Member::from_ident_or_index(None, 3), Member::Unnamed(3)));
}

#[test]
fn member_names_for_people_and_for_locals() {
    let named = Member::Named("len".to_string());
    assert_eq!(named.as_friendly_string(), "len");
    assert_eq!(named.as_variable_name(), "len");
    assert!(named.is_named());
    let positional = Member::Unnamed(2);
    assert_eq!(positional.as_friendly_string(), "Field 2");
    assert_eq!(positional.as_variable_name(), "field_2");
    assert!(!positional.is_named());
    assert!(matches!(positional.duplicate(), Member::Unnamed(2)));
}

#[test]
fn labels_render_their_texts() {
    let field = || Member::Named("x".to_string());
    assert_eq!(Label::ReadingField(field()).render(), "Reading field 'x'");
    assert_eq!(Label::ReadingRaw(field()).render(), "Reading raw value for field 'x'");
    assert_eq!(Label::MappingRaw(field()).render(), "Mapping raw value for field 'x'");
    assert_eq!(Label::WritingField(field()).render(), "Writing field 'x'");
    assert_eq!(Label::WritingMapped(field()).render(), "Writing mapped value for field 'x'");
    assert_eq!(Label::SyncingField(field()).render(), "Syncing field 'x'");
    assert_eq!(Label::ReadContext(field()).render(), "Read context for field 'x'");
    assert_eq!(Label::SyncContext(field()).render(), "Sync context for field 'x'");
    assert_eq!(Label::Tag("Foo".to_string()).render(), "Tag for enum 'Foo'");
    assert_eq!(
        Label::Discriminant("One".to_string()).render(),
        "Writing discriminant value of variant One"
    );
    assert_eq!(
        Label::Expression(Box::new(Label::ReadContext(field())), 1).render(),
        "Read context for field 'x': expression 1"
    );
    assert_eq!(Label::Index(4).render(), "Index 4");
    assert_eq!(Label::Read(5).render(), "Read 5");
    assert_eq!(Label::Padding.render(), "padding");
    assert_eq!(Label::Index(4).duplicate().render(), "Index 4");
}

#[test]
fn values_render_like_debug_output() {
    assert_eq!(render_datum(Datum::Bool(true)), "true");
    assert_eq!(render_datum(Datum::Bool(false)), "false");
    assert_eq!(render_datum(Datum::UInt(42)), "42");
    let value = Value::Record(vec![
        Value::Scalar(Datum::UInt(1)),
        Value::Optional(None),
        Value::Optional(Some(Box::new(Value::Scalar(Datum::Bool(true))))),
        Value::List(vec![Value::Scalar(Datum::UInt(2)), Value::Scalar(Datum::UInt(3))]),
        Value::Variant(2, vec![]),
    ]);
    assert_eq!(render_value(&value), "{1, None, Some(true), [2, 3], #2()}");
}

#[test]
fn duplicates_are_equal_to_their_originals() {
    let value = Value::List(vec![
        Value::Optional(Some(Box::new(Value::Scalar(Datum::UInt(9))))),
        Value::Record(vec![Value::Variant(1, vec![Value::Scalar(Datum::Bool(false))])]),
    ]);
    assert_eq!(value.duplicate(), value);
    assert_eq!(duplicate_all(&vec![value.duplicate()]), vec![value]);
}

#[test]
fn errors_describe_their_contexts_outermost_first() {
    let error = ParselyError::new(ErrorKind::Primitive, "boom".to_string())
        .with_context("inner".to_string())
        .with_context("outer".to_string());
    assert_eq!(error.context, vec!["inner".to_string(), "outer".to_string()]);
    assert_eq!(error.describe(), "outer: inner: boom");
    assert_eq!(ParselyError::new(ErrorKind::Primitive, "boom".to_string()).describe(), "boom");
}

#[test]
fn in_context_labels_failures_only() {
    let ok: ParselyResult<u8> = Ok(3);
    assert_eq!(in_context(ok, "x".to_string()), Ok(3));
    let err: ParselyResult<u8> = Err(raise(Fault::EndOfData));
    let labelled = in_context(err, "x".to_string()).unwrap_err();
    assert_eq!(labelled.context, vec!["x".to_string()]);
}

#[test]
fn faults_have_their_kinds_and_messages() {
    let cases = [
        (Fault::Evaluation, ErrorKind::Evaluation, "expression could not be evaluated"),
        (Fault::EndOfData, ErrorKind::Primitive, "not enough data left in the buffer"),
        (Fault::UnsupportedWidth, ErrorKind::Primitive, "unsupported primitive width"),
        (Fault::NoRoom, ErrorKind::Primitive, "no room left in the buffer"),
        (
            Fault::Unencodable,
            ErrorKind::Primitive,
            "value cannot be written as the declared primitive",
        ),
        (Fault::Mismatch, ErrorKind::Primitive, "value does not match the declared type"),
        (Fault::NoProcedure, ErrorKind::Evaluation, "no such procedure"),
        (
            Fault::ContextMismatch,
            ErrorKind::Evaluation,
            "context does not match the declared parameters",
        ),
        (Fault::NoProgress, ErrorKind::Primitive, "loop round consumed no data"),
        (Fault::NoArmValue, ErrorKind::NoArmMatched, "No arms matched value"),
        (Fault::NoArmSelf, ErrorKind::NoArmMatched, "No arms matched self"),
    ];
    for (fault, kind, message) in cases {
        let error = raise(fault);
        assert_eq!(error.kind, kind);
        assert_eq!(error.message, message);
        assert!(error.context.is_empty());
    }
}

#[test]
fn assertion_and_fixed_failures_quote_the_value() {
    let error = assertion_failed(
        &Member::Named("value".to_string()),
        &Value::Scalar(Datum::UInt(3)),
        "|v: &u8| *v % 2 == 0",
    );
    assert_eq!(error.kind, ErrorKind::Assertion);
    assert_eq!(
        error.message,
        "Assertion failed: value of field 'value' ('3') didn't pass assertion: '|v: &u8| *v % 2 == 0'"
    );
    let error = fixed_mismatch(Datum::Bool(true), &Value::Scalar(Datum::Bool(false)));
    assert_eq!(error.kind, ErrorKind::FixedValue);
    assert_eq!(error.message, "Fixed value mismatch: expected 'true', found 'false'");
}

#[test]
fn plain_values_coerce_to_success() {
    let r: ParselyResult<u8> = 5u8.into_parsely_result_read();
    assert_eq!(r, Ok(5));
    let r: ParselyResult<Datum> =
        <Datum as IntoWritableParselyResult<Datum, ()>>::into_writable_parsely_result(Datum::UInt(5));
    assert_eq!(r, Ok(Datum::UInt(5)));
}

#[test]
fn results_coerce_by_converting_the_failure() {
    let ok: Result<u8, ParselyError> = Ok(5);
    let r: ParselyResult<u8> = ok.into_parsely_result_read();
    assert_eq!(r, Ok(5));
    let err: Result<u8, ParselyError> = Err(raise(Fault::Mismatch));
    let r: ParselyResult<u8> = err.into_parsely_result_read();
    assert_eq!(r.unwrap_err().message, "value does not match the declared type");
    let err: Result<u8, ParselyError> = Err(raise(Fault::NoRoom));
    let r: ParselyResult<u8> =
        <Result<u8, ParselyError> as IntoWritableParselyResult<u8, ()>>::into_writable_parsely_result(err);
    assert_eq!(r.unwrap_err().kind, ErrorKind::Primitive);
}
