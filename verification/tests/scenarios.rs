use bits_io::buf::bit_buf::BitBuf;
use parsely::bits::ByteOrder;
use parsely::error::ErrorKind;
use parsely::expr::{BinOp, Expr};
use parsely::member::Member;
use parsely::plan::{Codec, TagSource, TypeRef, TypedFnArg};
use parsely::program::Program;
use parsely::schema::{
    CollectionLimit, Context, ParselyCommonFieldData, ParselyReadEnumData, ParselyReadFieldData,
    ParselyReadStructData, ParselyReadVariantData, ParselyWriteEnumData, ParselyWriteFieldData,
    ParselyWriteStructData, ParselyWriteVariantData, Style, TypeClass, TypedFnArgList,
};
use parsely::value::{Datum, Value};
use parsely::wire::{reader, remaining_bytes, writer, Primitive};

fn u8_type() -> TypeClass {
    TypeClass::Scalar(Primitive::UInt(8))
}

fn common(name: &str, ty: TypeClass) -> ParselyCommonFieldData {
    ParselyCommonFieldData {
        ident: Member::Named(name.to_string()),
        ty,
        assertion: None,
        context: None,
        map: None,
        alignment: None,
        fixed: None,
        after: None,
    }
}

fn read_field(name: &str, ty: TypeClass) -> ParselyReadFieldData {
    ParselyReadFieldData {
        common: common(name, ty),
        collection_limit: None,
        assign_from: None,
        when: None,
        reader: None,
    }
}

fn write_field(name: &str, ty: TypeClass) -> ParselyWriteFieldData {
    ParselyWriteFieldData {
        common: common(name, ty),
        sync_expr: None,
        sync_with: Context(vec![]),
        writer: None,
    }
}

fn params(names: &[&str]) -> TypedFnArgList {
    TypedFnArgList(
        names
            .iter()
            .map(|n| TypedFnArg { name: n.to_string(), ty: "u32".to_string() })
            .collect(),
    )
}

fn record(
    name: &str,
    alignment: Option<u64>,
    context: &[&str],
    sync_args: &[&str],
    reads: Vec<ParselyReadFieldData>,
    writes: Vec<ParselyWriteFieldData>,
) -> Codec {
    let read = ParselyReadStructData {
        ident: name.to_string(),
        style: Style::Struct,
        required_context: params(context),
        alignment,
        fields: reads,
    };
    let write = ParselyWriteStructData {
        ident: name.to_string(),
        required_context: params(context),
        alignment,
        sync_args: params(sync_args),
        fields: writes,
    };
    Codec::for_record(&read, &write)
}

fn uint(n: u64) -> Value {
    Value::Scalar(Datum::UInt(n))
}

fn flag(b: bool) -> Value {
    Value::Scalar(Datum::Bool(b))
}

fn bytes_of(buf: bits_io::buf::bits_mut::BitsMut) -> Vec<u8> {
    let mut frozen = buf.freeze();
    let mut out = Vec::new();
    while remaining_bytes(&frozen) > 0 {
        out.push(bits_io::buf::bit_buf_exts::BitBufExts::get_u8(&mut frozen).unwrap());
    }
    assert_eq!(frozen.remaining_bits(), 0);
    out
}

fn gated_program() -> Program {
    let mut value = read_field("value", TypeClass::Optional(TypeRef::Primitive(Primitive::UInt(8))));
    value.when = Some(Expr::Field(0));
    let mut program = Program::new();
    program.add(record(
        "Gated",
        None,
        &[],
        &[],
        vec![read_field("has_value", TypeClass::Scalar(Primitive::Bool(8))), value],
        vec![
            write_field("has_value", TypeClass::Scalar(Primitive::Bool(8))),
            write_field("value", TypeClass::Optional(TypeRef::Primitive(Primitive::UInt(8)))),
        ],
    ));
    program
}

#[test]
fn optional_is_absent_when_the_flag_byte_is_zero() {
    let program = gated_program();
    let mut buf = reader(&vec![0]);
    let value = program.read(0, &mut buf, ByteOrder::BigEndian, &vec![]).unwrap();
    assert_eq!(value, Value::Record(vec![flag(false), Value::Optional(None)]));
    assert_eq!(buf.remaining_bits(), 0);
}

#[test]
fn optional_is_present_when_the_flag_byte_is_one() {
    let program = gated_program();
    let mut buf = reader(&vec![1, 42]);
    let value = program.read(0, &mut buf, ByteOrder::BigEndian, &vec![]).unwrap();
    assert_eq!(
        value,
        Value::Record(vec![flag(true), Value::Optional(Some(Box::new(uint(42))))])
    );
    assert_eq!(buf.remaining_bits(), 0);
}

#[test]
fn gated_record_round_trips() {
    let program = gated_program();
    for bytes in [vec![0u8], vec![1u8, 42u8]] {
        let mut buf = reader(&bytes);
        let value = program.read(0, &mut buf, ByteOrder::BigEndian, &vec![]).unwrap();
        let mut out = writer();
        program.write(0, &value, &mut out, ByteOrder::BigEndian, &vec![]).unwrap();
        assert_eq!(bytes_of(out), bytes);
    }
}

fn counted_program() -> Program {
    let mut data = read_field("data", TypeClass::Collection(TypeRef::Primitive(Primitive::UInt(8))));
    data.collection_limit = Some(CollectionLimit::Count(Expr::Field(0)));
    let mut program = Program::new();
    program.add(record(
        "Counted",
        None,
        &[],
        &[],
        vec![read_field("len", u8_type()), data],
        vec![
            write_field("len", u8_type()),
            write_field("data", TypeClass::Collection(TypeRef::Primitive(Primitive::UInt(8)))),
        ],
    ));
    program
}

#[test]
fn collection_by_count_reads_exactly_the_count() {
    let program = counted_program();
    let mut buf = reader(&vec![2, 1, 2, 3]);
    let value = program.read(0, &mut buf, ByteOrder::BigEndian, &vec![]).unwrap();
    assert_eq!(value, Value::Record(vec![uint(2), Value::List(vec![uint(1), uint(2)])]));
    assert_eq!(remaining_bytes(&buf), 1);
    assert_eq!(bits_io::buf::bit_buf_exts::BitBufExts::get_u8(&mut buf).unwrap(), 3);
}

#[test]
fn collection_by_count_of_zero_is_empty() {
    let program = counted_program();
    let mut buf = reader(&vec![0, 9]);
    let value = program.read(0, &mut buf, ByteOrder::BigEndian, &vec![]).unwrap();
    assert_eq!(value, Value::Record(vec![uint(0), Value::List(vec![])]));
    assert_eq!(remaining_bytes(&buf), 1);
}

#[test]
fn collection_failure_names_the_index_and_the_field() {
    let program = counted_program();
    let mut buf = reader(&vec![3, 1, 2]);
    let error = program.read(0, &mut buf, ByteOrder::BigEndian, &vec![]).unwrap_err();
    assert_eq!(error.kind, ErrorKind::Primitive);
    assert_eq!(
        error.context,
        vec!["Index 2".to_string(), "Reading field 'data'".to_string()]
    );
    assert_eq!(
        error.describe(),
        "Reading field 'data': Index 2: not enough data left in the buffer"
    );
}

fn aligned_program() -> Program {
    let mut program = Program::new();
    program.add(record(
        "Foo",
        Some(4),
        &[],
        &[],
        vec![read_field("one", u8_type())],
        vec![write_field("one", u8_type())],
    ));
    program
}

#[test]
fn aligned_record_consumes_its_padding() {
    let program = aligned_program();
    let mut buf = reader(&vec![42, 0, 0, 0]);
    let value = program.read(0, &mut buf, ByteOrder::BigEndian, &vec![]).unwrap();
    assert_eq!(value, Value::Record(vec![uint(42)]));
    assert_eq!(remaining_bytes(&buf), 0);
}

#[test]
fn aligned_record_emits_its_padding() {
    let program = aligned_program();
    let mut out = writer();
    program
        .write(0, &Value::Record(vec![uint(42)]), &mut out, ByteOrder::BigEndian, &vec![])
        .unwrap();
    assert_eq!(bytes_of(out), vec![42, 0, 0, 0]);
}

#[test]
fn aligned_record_fails_when_the_padding_is_missing() {
    let program = aligned_program();
    let mut buf = reader(&vec![42, 0]);
    let error = program.read(0, &mut buf, ByteOrder::BigEndian, &vec![]).unwrap_err();
    assert_eq!(error.kind, ErrorKind::Primitive);
    assert_eq!(error.context, vec!["padding".to_string()]);
}

fn variant_read(name: &str, id: u64, fields: Vec<ParselyReadFieldData>) -> ParselyReadVariantData {
    ParselyReadVariantData {
        enum_name: "Foo".to_string(),
        ident: name.to_string(),
        id: Expr::Lit(id),
        discriminant: None,
        fields,
    }
}

fn variant_write(name: &str, id: u64, fields: Vec<ParselyWriteFieldData>) -> ParselyWriteVariantData {
    ParselyWriteVariantData {
        enum_name: "Foo".to_string(),
        ident: name.to_string(),
        id: Expr::Lit(id),
        discriminant: None,
        fields,
    }
}

fn positional_read(index: u32, ty: TypeClass) -> ParselyReadFieldData {
    let mut f = read_field("", ty);
    f.common.ident = Member::Unnamed(index);
    f
}

fn positional_write(index: u32, ty: TypeClass) -> ParselyWriteFieldData {
    let mut f = write_field("", ty);
    f.common.ident = Member::Unnamed(index);
    f
}

fn tagged_program() -> Program {
    let u16_type = TypeClass::Scalar(Primitive::UInt(16));
    let read = ParselyReadEnumData {
        ident: "Foo".to_string(),
        required_context: params(&[]),
        alignment: None,
        key: TagSource::Typed(Primitive::UInt(8)),
        variants: vec![
            variant_read("One", 1, vec![]),
            variant_read("Two", 2, vec![positional_read(0, u8_type())]),
            variant_read(
                "Three",
                3,
                vec![read_field("bar", u8_type()), read_field("baz", u16_type)],
            ),
        ],
    };
    let write = ParselyWriteEnumData {
        ident: "Foo".to_string(),
        required_context: params(&[]),
        alignment: None,
        sync_args: params(&[]),
        key: TagSource::Typed(Primitive::UInt(8)),
        variants: vec![
            variant_write("One", 1, vec![]),
            variant_write("Two", 2, vec![positional_write(0, u8_type())]),
            variant_write(
                "Three",
                3,
                vec![write_field("bar", u8_type()), write_field("baz", u16_type)],
            ),
        ],
    };
    let mut program = Program::new();
    program.add(Codec::for_union(&read, &write));
    program
}

#[test]
fn enum_tag_selects_the_variant() {
    let program = tagged_program();
    let bytes = vec![1, 2, 1, 3, 1, 0, 42];
    let mut buf = reader(&bytes);
    let one = program.read(0, &mut buf, ByteOrder::BigEndian, &vec![]).unwrap();
    assert_eq!(one, Value::Variant(0, vec![]));
    let two = program.read(0, &mut buf, ByteOrder::BigEndian, &vec![]).unwrap();
    assert_eq!(two, Value::Variant(1, vec![uint(1)]));
    let three = program.read(0, &mut buf, ByteOrder::BigEndian, &vec![]).unwrap();
    assert_eq!(three, Value::Variant(2, vec![uint(1), uint(42)]));
    assert_eq!(buf.remaining_bits(), 0);

    let mut out = writer();
    program.write(0, &one, &mut out, ByteOrder::BigEndian, &vec![]).unwrap();
    program.write(0, &two, &mut out, ByteOrder::BigEndian, &vec![]).unwrap();
    program.write(0, &three, &mut out, ByteOrder::BigEndian, &vec![]).unwrap();
    assert_eq!(bytes_of(out), bytes);
}

#[test]
fn enum_tag_without_a_variant_is_an_error() {
    let program = tagged_program();
    let mut buf = reader(&vec![9, 1]);
    let error = program.read(0, &mut buf, ByteOrder::BigEndian, &vec![]).unwrap_err();
    assert_eq!(error.kind, ErrorKind::NoArmMatched);
    assert_eq!(error.message, "No arms matched value");
}

#[test]
fn enum_tag_failure_names_the_enum() {
    let program = tagged_program();
    let mut buf = reader(&vec![]);
    let error = program.read(0, &mut buf, ByteOrder::BigEndian, &vec![]).unwrap_err();
    assert_eq!(error.context, vec!["Tag for enum 'Foo'".to_string()]);
}

#[test]
fn enum_field_failure_names_the_positional_field() {
    let program = tagged_program();
    let mut buf = reader(&vec![2]);
    let error = program.read(0, &mut buf, ByteOrder::BigEndian, &vec![]).unwrap_err();
    assert_eq!(error.context, vec!["Reading field 'Field 0'".to_string()]);
}

#[test]
fn writing_a_value_that_is_no_variant_is_an_error() {
    let program = tagged_program();
    let mut out = writer();
    let error = program
        .write(0, &Value::Variant(7, vec![]), &mut out, ByteOrder::BigEndian, &vec![])
        .unwrap_err();
    assert_eq!(error.kind, ErrorKind::NoArmMatched);
    assert_eq!(error.message, "No arms matched self");
}

fn packet_program() -> Program {
    let u16_type = TypeClass::Scalar(Primitive::UInt(16));
    let mut length = write_field("length_bytes", u16_type);
    length.sync_expr = Some(Expr::Binary(
        BinOp::Add,
        Box::new(Expr::Ctx(0)),
        Box::new(Expr::Lit(4)),
    ));
    let mut program = Program::new();
    let header = program.add(record(
        "Header",
        None,
        &[],
        &["payload_length_bytes"],
        vec![
            read_field("version", u8_type()),
            read_field("packet_type", u8_type()),
            read_field("length_bytes", u16_type),
        ],
        vec![write_field("version", u8_type()), write_field("packet_type", u8_type()), length],
    ));
    let mut header_field = write_field("header", TypeClass::Other(header));
    header_field.sync_with = Context(vec![Expr::Count(1)]);
    let mut data = read_field("data", TypeClass::Collection(TypeRef::Primitive(Primitive::UInt(8))));
    data.collection_limit = Some(CollectionLimit::While(Expr::Binary(
        BinOp::Gt,
        Box::new(Expr::Remaining),
        Box::new(Expr::Lit(0)),
    )));
    program.add(record(
        "Packet",
        None,
        &[],
        &[],
        vec![read_field("header", TypeClass::Other(header)), data],
        vec![
            header_field,
            write_field("data", TypeClass::Collection(TypeRef::Primitive(Primitive::UInt(8)))),
        ],
    ));
    program
}

#[test]
fn sync_recomputes_the_length_from_the_payload() {
    let program = packet_program();
    let mut packet = Value::Record(vec![
        Value::Record(vec![uint(1), uint(2), uint(0)]),
        Value::List(vec![uint(1), uint(2), uint(3), uint(4)]),
    ]);
    program.sync(1, &mut packet, &vec![]).unwrap();
    assert_eq!(
        packet,
        Value::Record(vec![
            Value::Record(vec![uint(1), uint(2), uint(8)]),
            Value::List(vec![uint(1), uint(2), uint(3), uint(4)]),
        ])
    );
}

#[test]
fn sync_does_not_depend_on_the_prior_length() {
    let program = packet_program();
    for prior in [0u64, 8, 65535] {
        let mut header = Value::Record(vec![uint(1), uint(2), uint(prior)]);
        program.sync(0, &mut header, &vec![Datum::UInt(10)]).unwrap();
        assert_eq!(header, Value::Record(vec![uint(1), uint(2), uint(14)]));
    }
}

#[test]
fn sync_failure_names_the_field() {
    let program = packet_program();
    let mut header = Value::Record(vec![uint(1), uint(2), uint(0)]);
    let before = header.duplicate();
    let error = program.sync(0, &mut header, &vec![Datum::UInt(u64::MAX)]).unwrap_err();
    assert_eq!(error.kind, ErrorKind::Evaluation);
    assert_eq!(error.context, vec!["Syncing field 'length_bytes'".to_string()]);
    assert_eq!(header, before);
    let error = program.sync(0, &mut header, &vec![]).unwrap_err();
    assert_eq!(error.message, "context does not match the declared parameters");
    assert_eq!(header, before);
}

#[test]
fn failed_sync_keeps_the_fields_synchronized_before_it() {
    let mut first = write_field("first", u8_type());
    first.sync_expr = Some(Expr::Lit(5));
    let mut second = write_field("second", u8_type());
    second.sync_expr =
        Some(Expr::Binary(BinOp::Div, Box::new(Expr::Lit(1)), Box::new(Expr::Lit(0))));
    let mut third = write_field("third", u8_type());
    third.sync_expr = Some(Expr::Lit(7));
    let mut program = Program::new();
    let inner = program.add(record(
        "Inner",
        None,
        &[],
        &[],
        vec![
            read_field("first", u8_type()),
            read_field("second", u8_type()),
            read_field("third", u8_type()),
        ],
        vec![first, second, third],
    ));
    let mut value = Value::Record(vec![uint(0), uint(1), uint(2)]);
    let error = program.sync(inner, &mut value, &vec![]).unwrap_err();
    assert_eq!(error.kind, ErrorKind::Evaluation);
    assert_eq!(error.context, vec!["Syncing field 'second'".to_string()]);
    assert_eq!(value, Value::Record(vec![uint(5), uint(1), uint(2)]));

    let mut before = write_field("before", u8_type());
    before.sync_expr = Some(Expr::Lit(9));
    let outer = program.add(record(
        "Outer",
        None,
        &[],
        &[],
        vec![read_field("before", u8_type()), read_field("inner", TypeClass::Other(inner))],
        vec![before, write_field("inner", TypeClass::Other(inner))],
    ));
    let mut value =
        Value::Record(vec![uint(0), Value::Record(vec![uint(0), uint(1), uint(2)])]);
    let error = program.sync(outer, &mut value, &vec![]).unwrap_err();
    assert_eq!(
        error.context,
        vec!["Syncing field 'second'".to_string(), "Syncing field 'inner'".to_string()]
    );
    assert_eq!(
        value,
        Value::Record(vec![uint(9), Value::Record(vec![uint(5), uint(1), uint(2)])])
    );
}

#[test]
fn packet_round_trips_with_a_predicate_collection() {
    let program = packet_program();
    let bytes = vec![1, 2, 0, 8, 1, 2, 3, 4];
    let mut buf = reader(&bytes);
    let packet = program.read(1, &mut buf, ByteOrder::BigEndian, &vec![]).unwrap();
    assert_eq!(
        packet,
        Value::Record(vec![
            Value::Record(vec![uint(1), uint(2), uint(8)]),
            Value::List(vec![uint(1), uint(2), uint(3), uint(4)]),
        ])
    );
    let mut out = writer();
    program.write(1, &packet, &mut out, ByteOrder::BigEndian, &vec![]).unwrap();
    assert_eq!(bytes_of(out), bytes);
}

fn nested_context_program() -> Program {
    let bytes_type = TypeClass::Collection(TypeRef::Primitive(Primitive::UInt(8)));
    let mut data = read_field("data", bytes_type);
    data.collection_limit = Some(CollectionLimit::Count(Expr::Ctx(0)));
    let mut data2 = read_field("data2", bytes_type);
    data2.collection_limit = Some(CollectionLimit::Count(Expr::Ctx(1)));
    let mut program = Program::new();
    let inner = program.add(record(
        "Inner",
        None,
        &["size_one", "size_two"],
        &[],
        vec![data, data2],
        vec![write_field("data", bytes_type), write_field("data2", bytes_type)],
    ));
    let mut outer_data = read_field("data", bytes_type);
    outer_data.collection_limit = Some(CollectionLimit::Count(Expr::Ctx(0)));
    let mut inner_field = read_field("inner", TypeClass::Other(inner));
    let half = || Expr::Binary(BinOp::Div, Box::new(Expr::Ctx(0)), Box::new(Expr::Lit(2)));
    inner_field.common.context = Some(Context(vec![half(), half()]));
    program.add(record(
        "Foo",
        None,
        &["size"],
        &[],
        vec![outer_data, inner_field],
        vec![write_field("data", bytes_type), write_field("inner", TypeClass::Other(inner))],
    ));
    program
}

#[test]
fn context_is_threaded_to_the_inner_record() {
    let program = nested_context_program();
    let mut buf = reader(&vec![1, 2, 3, 4]);
    let value = program.read(1, &mut buf, ByteOrder::BigEndian, &vec![Datum::UInt(2)]).unwrap();
    assert_eq!(
        value,
        Value::Record(vec![
            Value::List(vec![uint(1), uint(2)]),
            Value::Record(vec![Value::List(vec![uint(3)]), Value::List(vec![uint(4)])]),
        ])
    );
}

#[test]
fn context_halving_truncates_an_odd_size() {
    let program = nested_context_program();
    let mut buf = reader(&vec![1, 2, 3, 4, 5, 6]);
    let value = program.read(1, &mut buf, ByteOrder::BigEndian, &vec![Datum::UInt(3)]).unwrap();
    assert_eq!(
        value,
        Value::Record(vec![
            Value::List(vec![uint(1), uint(2), uint(3)]),
            Value::Record(vec![Value::List(vec![uint(4)]), Value::List(vec![uint(5)])]),
        ])
    );
    assert_eq!(remaining_bytes(&buf), 1);
}

#[test]
fn missing_context_is_an_evaluation_failure() {
    let program = nested_context_program();
    let mut buf = reader(&vec![1, 2, 3, 4]);
    let error = program.read(1, &mut buf, ByteOrder::BigEndian, &vec![]).unwrap_err();
    assert_eq!(error.kind, ErrorKind::Evaluation);
    assert_eq!(error.message, "context does not match the declared parameters");
    assert!(error.context.is_empty());
    assert_eq!(remaining_bytes(&buf), 4);
}
