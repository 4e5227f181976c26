use bits_io::buf::bit_buf::BitBuf;
use bits_io::buf::bit_buf_exts::BitBufExts;
use bits_io::buf::bit_buf_mut_exts::BitBufMutExts;
use parsely::bits::ByteOrder;
use parsely::error::ErrorKind;
use parsely::expr::{BinOp, Expr};
use parsely::member::Member;
use parsely::plan::{Assertion, Codec, Label, ReadOp, TagSource, TypeRef, TypedFnArg, WriteOp};
use parsely::program::Program;
use parsely::schema::{
    CollectionLimit, ComputedPayload, Context, MapExpr, ParselyCommonFieldData,
    ParselyReadEnumData, ParselyReadFieldData, ParselyReadStructData, ParselyReadVariantData,
    ParselyWriteEnumData, ParselyWriteFieldData, ParselyWriteStructData,
    ParselyWriteVariantData, Style, TypeClass, TypedFnArgList,
};
use parsely::value::{Datum, Value};
use parsely::wire::{reader, remaining_bytes, writer, Primitive};

const BE: ByteOrder = ByteOrder::BigEndian;

fn byte() -> TypeClass {
    TypeClass::Scalar(Primitive::UInt(8))
}

fn bytes() -> TypeClass {
    TypeClass::Collection(TypeRef::Primitive(Primitive::UInt(8)))
}

fn common(name: &str, ty: TypeClass) -> ParselyCommonFieldData {
    ParselyCommonFieldData {
        ident: Member::Named(name.to_string()),
        ty,
        assertion: None,
        context: None,
        map: None,
        alignment: None,
        fixed: None,
        after: None,
    }
}

fn rf(name: &str, ty: TypeClass) -> ParselyReadFieldData {
    ParselyReadFieldData {
        common: common(name, ty),
        collection_limit: None,
        assign_from: None,
        when: None,
        reader: None,
    }
}

fn wf(name: &str, ty: TypeClass) -> ParselyWriteFieldData {
    ParselyWriteFieldData {
        common: common(name, ty),
        sync_expr: None,
        sync_with: Context(vec![]),
        writer: None,
    }
}

fn no_params() -> TypedFnArgList {
    TypedFnArgList(vec![])
}

fn one_param(name: &str) -> TypedFnArgList {
    TypedFnArgList(vec![TypedFnArg { name: name.to_string(), ty: "u8".to_string() }])
}

fn record_with(
    context: fn() -> TypedFnArgList,
    reads: Vec<ParselyReadFieldData>,
    writes: Vec<ParselyWriteFieldData>,
) -> Codec {
    Codec::for_record(
        &ParselyReadStructData {
            ident: "Rec".to_string(),
            style: Style::Struct,
            required_context: context(),
            alignment: None,
            fields: reads,
        },
        &ParselyWriteStructData {
            ident: "Rec".to_string(),
            required_context: context(),
            alignment: None,
            sync_args: no_params(),
            fields: writes,
        },
    )
}

fn record(reads: Vec<ParselyReadFieldData>, writes: Vec<ParselyWriteFieldData>) -> Codec {
    record_with(no_params, reads, writes)
}

fn one_value() -> TypedFnArgList {
    one_param("p")
}

fn single(read: ParselyReadFieldData, write: ParselyWriteFieldData) -> Program {
    let mut program = Program::new();
    program.add(record(vec![read], vec![write]));
    program
}

fn uint(n: u64) -> Value {
    Value::Scalar(Datum::UInt(n))
}

fn rec(fields: Vec<Value>) -> Value {
    Value::Record(fields)
}

fn bin(op: BinOp, a: Expr, b: Expr) -> Expr {
    Expr::Binary(op, Box::new(a), Box::new(b))
}

fn even() -> Assertion {
    Assertion {
        predicate: bin(BinOp::Eq, bin(BinOp::Rem, Expr::Input, Expr::Lit(2)), Expr::Lit(0)),
        source: "|v: &u8| *v % 2 == 0".to_string(),
    }
}

fn written(program: &Program, index: usize, value: &Value, ctx: &Vec<Datum>) -> Vec<u8> {
    let mut out = writer();
    program.write(index, value, &mut out, BE, ctx).unwrap();
    let mut frozen = out.freeze();
    let mut bytes = Vec::new();
    while frozen.remaining_bits() >= 8 {
        bytes.push(frozen.get_u8().unwrap());
    }
    assert_eq!(frozen.remaining_bits(), 0);
    bytes
}

#[test]
fn assigned_field_takes_its_value_from_the_context() {
    let mut read = rf("one", byte());
    read.assign_from = Some(Expr::Ctx(0));
    let mut program = Program::new();
    program.add(record_with(one_value, vec![read], vec![wf("one", byte())]));
    let mut buf = reader(&vec![]);
    let value = program.read(0, &mut buf, BE, &vec![Datum::UInt(42)]).unwrap();
    assert_eq!(value, rec(vec![uint(42)]));
}

#[test]
fn assigned_field_fails_under_its_label_when_the_expression_has_no_value() {
    let mut read = rf("one", byte());
    read.assign_from = Some(Expr::Ctx(3));
    let program = single(read, wf("one", byte()));
    let mut buf = reader(&vec![1]);
    let error = program.read(0, &mut buf, BE, &vec![]).unwrap_err();
    assert_eq!(error.kind, ErrorKind::Evaluation);
    assert_eq!(error.context, vec!["Reading field 'one'".to_string()]);
    assert_eq!(remaining_bytes(&buf), 1);
}

#[test]
fn mapped_field_transforms_in_both_directions() {
    let mut read = rf("value", byte());
    read.common.map = Some(MapExpr {
        raw: Some(Primitive::UInt(8)),
        transform: bin(BinOp::Add, Expr::Input, Expr::Lit(100)),
    });
    let mut write = wf("value", byte());
    write.common.map = Some(MapExpr {
        raw: Some(Primitive::UInt(8)),
        transform: bin(BinOp::Sub, Expr::Input, Expr::Lit(100)),
    });
    let program = single(read, write);
    let mut buf = reader(&vec![42]);
    let value = program.read(0, &mut buf, BE, &vec![]).unwrap();
    assert_eq!(value, rec(vec![uint(142)]));
    assert_eq!(written(&program, 0, &value, &vec![]), vec![42]);
}

#[test]
fn mapped_field_labels_the_raw_read_and_the_mapping() {
    let mut read = rf("value", byte());
    read.common.map = Some(MapExpr {
        raw: Some(Primitive::UInt(8)),
        transform: bin(BinOp::Div, Expr::Lit(100), Expr::Input),
    });
    let program = single(read, wf("value", byte()));
    let error = program.read(0, &mut reader(&vec![]), BE, &vec![]).unwrap_err();
    assert_eq!(
        error.context,
        vec![
            "Reading raw value for field 'value'".to_string(),
            "Reading field 'value'".to_string()
        ]
    );
    let error = program.read(0, &mut reader(&vec![0]), BE, &vec![]).unwrap_err();
    assert_eq!(error.kind, ErrorKind::Evaluation);
    assert_eq!(
        error.context,
        vec!["Mapping raw value for field 'value'".to_string(), "Reading field 'value'".to_string()]
    );
}

#[test]
fn mapped_write_labels_the_mapping_and_the_write() {
    let mut write = wf("value", byte());
    write.common.map = Some(MapExpr {
        raw: Some(Primitive::UInt(8)),
        transform: bin(BinOp::Sub, Expr::Input, Expr::Lit(100)),
    });
    let program = single(rf("value", byte()), write);
    let mut out = writer();
    let error = program.write(0, &rec(vec![uint(5)]), &mut out, BE, &vec![]).unwrap_err();
    assert_eq!(error.kind, ErrorKind::Evaluation);
    assert_eq!(error.context, vec!["Mapping raw value for field 'value'".to_string()]);
    let error = program.write(0, &rec(vec![uint(1000)]), &mut out, BE, &vec![]).unwrap_err();
    assert_eq!(error.kind, ErrorKind::Primitive);
    assert_eq!(error.context, vec!["Writing mapped value for field 'value'".to_string()]);
}

#[test]
fn mapped_optional_is_not_guarded() {
    let mut read = rf("value", TypeClass::Optional(TypeRef::Primitive(Primitive::UInt(8))));
    read.common.map = Some(MapExpr { raw: Some(Primitive::UInt(8)), transform: Expr::Input });
    assert!(matches!(read.to_read_op(), ReadOp::Context { .. }));
}

#[test]
fn predicate_collection_reads_until_the_predicate_fails() {
    let mut read = rf("data", bytes());
    read.collection_limit =
        Some(CollectionLimit::While(bin(BinOp::Gt, Expr::Remaining, Expr::Lit(0))));
    let program = single(read, wf("data", bytes()));
    let mut buf = reader(&vec![2, 1, 2, 3]);
    let value = program.read(0, &mut buf, BE, &vec![]).unwrap();
    assert_eq!(value, rec(vec![Value::List(vec![uint(2), uint(1), uint(2), uint(3)])]));
    let mut empty = reader(&vec![]);
    let value = program.read(0, &mut empty, BE, &vec![]).unwrap();
    assert_eq!(value, rec(vec![Value::List(vec![])]));
}

#[test]
fn predicate_collection_labels_the_round_that_fails() {
    let mut read = rf("data", TypeClass::Collection(TypeRef::Primitive(Primitive::UInt(16))));
    read.collection_limit =
        Some(CollectionLimit::While(bin(BinOp::Gt, Expr::Remaining, Expr::Lit(0))));
    let program = single(read, wf("data", bytes()));
    let error = program.read(0, &mut reader(&vec![0, 1, 2]), BE, &vec![]).unwrap_err();
    assert_eq!(error.kind, ErrorKind::Primitive);
    assert_eq!(error.context, vec!["Read 1".to_string(), "Reading field 'data'".to_string()]);
}

#[test]
fn predicate_collection_that_makes_no_progress_is_an_error() {
    let mut program = Program::new();
    let empty = program.add(record(vec![], vec![]));
    let mut read = rf("data", TypeClass::Collection(TypeRef::Named(empty)));
    read.collection_limit = Some(CollectionLimit::While(Expr::Flag(true)));
    let outer = program.add(record(
        vec![read],
        vec![wf("data", TypeClass::Collection(TypeRef::Named(empty)))],
    ));
    let error = program.read(outer, &mut reader(&vec![1]), BE, &vec![]).unwrap_err();
    assert_eq!(error.message, "loop round consumed no data");
    assert_eq!(error.context, vec!["Read 0".to_string(), "Reading field 'data'".to_string()]);
}

#[test]
fn assertion_passes_and_fails_on_reading() {
    let mut read = rf("value", byte());
    read.common.assertion = Some(even());
    let program = single(read, wf("value", byte()));
    assert_eq!(program.read(0, &mut reader(&vec![4]), BE, &vec![]).unwrap(), rec(vec![uint(4)]));
    let error = program.read(0, &mut reader(&vec![3]), BE, &vec![]).unwrap_err();
    assert_eq!(error.kind, ErrorKind::Assertion);
    assert_eq!(
        error.describe(),
        "Reading field 'value': Assertion failed: value of field 'value' ('3') didn't pass assertion: '|v: &u8| *v % 2 == 0'"
    );
}

#[test]
fn assertion_is_checked_before_anything_is_written() {
    let mut write = wf("value", byte());
    write.common.assertion = Some(even());
    let program = single(rf("value", byte()), write);
    assert_eq!(written(&program, 0, &rec(vec![uint(4)]), &vec![]), vec![4]);
    let mut out = writer();
    let error = program.write(0, &rec(vec![uint(3)]), &mut out, BE, &vec![]).unwrap_err();
    assert_eq!(error.kind, ErrorKind::Assertion);
    assert!(error.context.is_empty());
    assert_eq!(out.len_bits(), 0);
}

#[test]
fn fixed_value_is_enforced_on_reading() {
    let mut read = rf("one", TypeClass::Scalar(Primitive::Bool(8)));
    read.common.fixed = Some(Datum::Bool(true));
    let program = single(read, wf("one", TypeClass::Scalar(Primitive::Bool(8))));
    assert_eq!(
        program.read(0, &mut reader(&vec![1]), BE, &vec![]).unwrap(),
        rec(vec![Value::Scalar(Datum::Bool(true))])
    );
    let error = program.read(0, &mut reader(&vec![0]), BE, &vec![]).unwrap_err();
    assert_eq!(error.kind, ErrorKind::FixedValue);
    assert_eq!(error.message, "Fixed value mismatch: expected 'true', found 'false'");
    assert_eq!(error.context, vec!["Reading field 'one'".to_string()]);
}

#[test]
fn fixed_value_is_enforced_on_writing() {
    let mut write = wf("one", byte());
    write.common.fixed = Some(Datum::UInt(7));
    let program = single(rf("one", byte()), write);
    assert_eq!(written(&program, 0, &rec(vec![uint(7)]), &vec![]), vec![7]);
    let mut out = writer();
    let error = program.write(0, &rec(vec![uint(8)]), &mut out, BE, &vec![]).unwrap_err();
    assert_eq!(error.kind, ErrorKind::FixedValue);
    assert_eq!(out.len_bits(), 0);
}

#[test]
fn hook_is_evaluated_after_the_field() {
    let mut read = rf("value", byte());
    read.common.after = Some(bin(BinOp::Div, Expr::Lit(10), Expr::Input));
    let mut write = wf("value", byte());
    write.common.after = Some(bin(BinOp::Div, Expr::Lit(10), Expr::Input));
    let program = single(read, write);
    assert_eq!(program.read(0, &mut reader(&vec![5]), BE, &vec![]).unwrap(), rec(vec![uint(5)]));
    let mut buf = reader(&vec![0, 9]);
    let error = program.read(0, &mut buf, BE, &vec![]).unwrap_err();
    assert_eq!(error.kind, ErrorKind::Evaluation);
    assert_eq!(remaining_bytes(&buf), 1);
    let mut out = writer();
    let error = program.write(0, &rec(vec![uint(0)]), &mut out, BE, &vec![]).unwrap_err();
    assert_eq!(error.kind, ErrorKind::Evaluation);
    assert_eq!(out.len_bits(), 8);
}

#[test]
fn field_alignment_pads_after_the_field() {
    let mut read = rf("a", byte());
    read.common.alignment = Some(2);
    let mut write = wf("a", byte());
    write.common.alignment = Some(2);
    let mut program = Program::new();
    program.add(record(vec![read, rf("b", byte())], vec![write, wf("b", byte())]));
    let mut buf = reader(&vec![1, 0, 2]);
    let value = program.read(0, &mut buf, BE, &vec![]).unwrap();
    assert_eq!(value, rec(vec![uint(1), uint(2)]));
    assert_eq!(written(&program, 0, &value, &vec![]), vec![1, 0, 2]);
}

#[test]
fn optional_is_written_only_when_present() {
    let optional = TypeClass::Optional(TypeRef::Primitive(Primitive::UInt(8)));
    let mut read = rf("value", optional);
    read.when = Some(Expr::Flag(true));
    let program = single(read, wf("value", optional));
    assert_eq!(written(&program, 0, &rec(vec![Value::Optional(None)]), &vec![]), Vec::<u8>::new());
    assert_eq!(
        written(&program, 0, &rec(vec![Value::Optional(Some(Box::new(uint(9))))]), &vec![]),
        vec![9]
    );
    let mut out = writer();
    let error = program.write(0, &rec(vec![uint(9)]), &mut out, BE, &vec![]).unwrap_err();
    assert_eq!(error.message, "value does not match the declared type");
}

#[test]
fn guard_that_is_no_flag_is_an_evaluation_failure() {
    let mut read = rf("value", TypeClass::Optional(TypeRef::Primitive(Primitive::UInt(8))));
    read.when = Some(Expr::Lit(1));
    let program = single(read, wf("value", byte()));
    let error = program.read(0, &mut reader(&vec![1]), BE, &vec![]).unwrap_err();
    assert_eq!(error.kind, ErrorKind::Evaluation);
    assert!(error.context.is_empty());
}

#[test]
fn collection_write_labels_the_index_and_the_field() {
    let program = single(rf("data", byte()), wf("data", bytes()));
    let value = rec(vec![Value::List(vec![uint(1), uint(300)])]);
    let mut out = writer();
    let error = program.write(0, &value, &mut out, BE, &vec![]).unwrap_err();
    assert_eq!(error.message, "value cannot be written as the declared primitive");
    assert_eq!(error.context, vec!["Index 1".to_string(), "Writing field 'data'".to_string()]);
    assert_eq!(out.len_bits(), 8);
}

#[test]
fn byte_order_applies_to_wide_primitives() {
    let wide = TypeClass::Scalar(Primitive::UInt(16));
    let program = single(rf("v", wide), wf("v", wide));
    let big = program.read(0, &mut reader(&vec![1, 2]), ByteOrder::BigEndian, &vec![]).unwrap();
    assert_eq!(big, rec(vec![uint(0x0102)]));
    let little =
        program.read(0, &mut reader(&vec![1, 2]), ByteOrder::LittleEndian, &vec![]).unwrap();
    assert_eq!(little, rec(vec![uint(0x0201)]));
    let mut out = writer();
    program.write(0, &little, &mut out, ByteOrder::LittleEndian, &vec![]).unwrap();
    let mut frozen = out.freeze();
    assert_eq!(frozen.get_u8().unwrap(), 1);
    assert_eq!(frozen.get_u8().unwrap(), 2);
}

#[test]
fn bit_fields_pack_most_significant_bit_first() {
    let flag = TypeClass::Scalar(Primitive::Bool(1));
    let seven = TypeClass::Optional(TypeRef::Primitive(Primitive::UInt(7)));
    let mut value = rf("value", seven);
    value.when = Some(Expr::Field(0));
    let mut program = Program::new();
    program.add(record(
        vec![rf("has_value", flag), value],
        vec![wf("has_value", flag), wf("value", seven)],
    ));
    let mut buf = reader(&vec![0b1_0000001, 2]);
    let decoded = program.read(0, &mut buf, BE, &vec![]).unwrap();
    assert_eq!(
        decoded,
        rec(vec![Value::Scalar(Datum::Bool(true)), Value::Optional(Some(Box::new(uint(1))))])
    );
    assert_eq!(remaining_bytes(&buf), 1);
    assert_eq!(written(&program, 0, &decoded, &vec![]), vec![0b1_0000001]);
}

#[test]
fn context_must_hold_one_value_for_each_parameter() {
    let mut program = Program::new();
    program.add(record_with(one_value, vec![rf("a", byte())], vec![wf("a", byte())]));
    for ctx in [vec![], vec![Datum::UInt(1), Datum::UInt(2)]] {
        let mut buf = reader(&vec![7]);
        let error = program.read(0, &mut buf, BE, &ctx).unwrap_err();
        assert_eq!(error.kind, ErrorKind::Evaluation);
        assert_eq!(error.message, "context does not match the declared parameters");
        assert_eq!(remaining_bytes(&buf), 1);
        let mut out = writer();
        let error = program.write(0, &rec(vec![uint(7)]), &mut out, BE, &ctx).unwrap_err();
        assert_eq!(error.message, "context does not match the declared parameters");
        assert_eq!(out.len_bits(), 0);
    }
    let mut buf = reader(&vec![7]);
    assert_eq!(program.read(0, &mut buf, BE, &vec![Datum::UInt(1)]).unwrap(), rec(vec![uint(7)]));
}

#[test]
fn unsupported_width_is_a_primitive_failure() {
    let wide = TypeClass::Scalar(Primitive::UInt(40));
    let mut program = Program::new();
    let read = ReadOp::Decode { ty: TypeRef::Primitive(Primitive::UInt(40)), args: parsely::plan::Args::Nil };
    let mut codec = record(vec![], vec![]);
    codec.read.body = parsely::plan::ReadBody::Record(
        parsely::plan::ReadSteps::Bind {
            target: Member::Named("v".to_string()),
            op: read,
            rest: Box::new(parsely::plan::ReadSteps::Done),
        },
        parsely::plan::Shape::Named,
    );
    codec.write.body = parsely::plan::WriteBody::Record(parsely::plan::WriteSteps::Put {
        source: Member::Named("v".to_string()),
        op: WriteOp::Encode { ty: wide.buffer_type(), args: parsely::plan::Args::Nil },
        rest: Box::new(parsely::plan::WriteSteps::Done),
    });
    program.add(codec);
    let error = program.read(0, &mut reader(&vec![1, 2, 3, 4, 5]), BE, &vec![]).unwrap_err();
    assert_eq!(error.message, "unsupported primitive width");
    let mut out = writer();
    let error = program.write(0, &rec(vec![uint(1)]), &mut out, BE, &vec![]).unwrap_err();
    assert_eq!(error.message, "unsupported primitive width");
}

#[test]
fn procedures_may_only_call_those_before_them() {
    let mut program = Program::new();
    program.add(record(vec![rf("me", TypeClass::Other(0))], vec![wf("me", TypeClass::Other(0))]));
    let error = program.read(0, &mut reader(&vec![1]), BE, &vec![]).unwrap_err();
    assert_eq!(error.message, "no such procedure");
    assert_eq!(error.context, vec!["Reading field 'me'".to_string()]);
    let mut out = writer();
    let error = program.write(0, &rec(vec![rec(vec![])]), &mut out, BE, &vec![]).unwrap_err();
    assert_eq!(error.message, "no such procedure");
    let error = program.read(5, &mut reader(&vec![1]), BE, &vec![]).unwrap_err();
    assert_eq!(error.message, "no such procedure");
    assert!(error.context.is_empty());
}

#[test]
fn custom_reader_and_writer_replace_the_types_own() {
    let mut program = Program::new();
    let wide = program.add(record(
        vec![rf("v", TypeClass::Scalar(Primitive::UInt(16)))],
        vec![wf("v", TypeClass::Scalar(Primitive::UInt(16)))],
    ));
    let mut read = rf("x", byte());
    read.reader = Some(wide);
    let mut write = wf("x", byte());
    write.writer = Some(wide);
    let outer = program.add(record(vec![read], vec![write]));
    let value = program.read(outer, &mut reader(&vec![1, 2]), BE, &vec![]).unwrap();
    assert_eq!(value, rec(vec![rec(vec![uint(0x0102)])]));
    assert_eq!(written(&program, outer, &value, &vec![]), vec![1, 2]);
}

#[test]
fn context_argument_failure_is_labelled_with_its_position() {
    let mut program = Program::new();
    let inner = program.add(record(vec![], vec![]));
    let mut read = rf("inner", TypeClass::Other(inner));
    read.common.context = Some(Context(vec![Expr::Lit(1), Expr::Ctx(9)]));
    let mut write = wf("inner", TypeClass::Other(inner));
    write.common.context = Some(Context(vec![Expr::Ctx(9)]));
    let outer = program.add(record(vec![read], vec![write]));
    let error = program.read(outer, &mut reader(&vec![]), BE, &vec![]).unwrap_err();
    assert_eq!(
        error.context,
        vec![
            "Read context for field 'inner': expression 1".to_string(),
            "Reading field 'inner'".to_string()
        ]
    );
    let mut out = writer();
    let error = program.write(outer, &rec(vec![rec(vec![])]), &mut out, BE, &vec![]).unwrap_err();
    assert_eq!(
        error.context,
        vec![
            "Read context for field 'inner': expression 0".to_string(),
            "Writing field 'inner'".to_string()
        ]
    );
}

#[test]
fn record_must_have_one_value_for_each_field() {
    let program = single(rf("a", byte()), wf("a", byte()));
    let mut out = writer();
    for value in [rec(vec![]), rec(vec![uint(1), uint(2)]), uint(1)] {
        let error = program.write(0, &value, &mut out, BE, &vec![]).unwrap_err();
        assert_eq!(error.message, "value does not match the declared type");
    }
}

fn computed_union() -> Program {
    let read = ParselyReadEnumData {
        ident: "Kind".to_string(),
        required_context: one_param("tag"),
        alignment: None,
        key: TagSource::Computed(Expr::Ctx(0)),
        variants: vec![
            ParselyReadVariantData {
                enum_name: "Kind".to_string(),
                ident: "Fixed".to_string(),
                id: Expr::Lit(1),
                discriminant: Some(bin(BinOp::Mul, Expr::Ctx(0), Expr::Lit(10))),
                fields: vec![],
            },
            ParselyReadVariantData {
                enum_name: "Kind".to_string(),
                ident: "Read".to_string(),
                id: Expr::Lit(2),
                discriminant: None,
                fields: vec![rf("v", byte())],
            },
        ],
    };
    let write = ParselyWriteEnumData {
        ident: "Kind".to_string(),
        required_context: one_param("tag"),
        alignment: None,
        sync_args: no_params(),
        key: TagSource::Computed(Expr::Ctx(0)),
        variants: vec![
            ParselyWriteVariantData {
                enum_name: "Kind".to_string(),
                ident: "Fixed".to_string(),
                id: Expr::Lit(1),
                discriminant: Some(ComputedPayload {
                    expr: bin(BinOp::Mul, Expr::Ctx(0), Expr::Lit(10)),
                    ty: Primitive::UInt(8),
                }),
                fields: vec![],
            },
            ParselyWriteVariantData {
                enum_name: "Kind".to_string(),
                ident: "Read".to_string(),
                id: Expr::Lit(2),
                discriminant: None,
                fields: vec![wf("v", byte())],
            },
        ],
    };
    let mut program = Program::new();
    program.add(Codec::for_union(&read, &write));
    program
}

#[test]
fn computed_key_and_payload_do_not_touch_the_buffer() {
    let program = computed_union();
    let mut buf = reader(&vec![7]);
    let value = program.read(0, &mut buf, BE, &vec![Datum::UInt(1)]).unwrap();
    assert_eq!(value, Value::Variant(0, vec![uint(10)]));
    assert_eq!(remaining_bytes(&buf), 1);
    let value = program.read(0, &mut buf, BE, &vec![Datum::UInt(2)]).unwrap();
    assert_eq!(value, Value::Variant(1, vec![uint(7)]));
    assert_eq!(remaining_bytes(&buf), 0);
}

#[test]
fn computed_payload_is_written_as_its_primitive() {
    let program = computed_union();
    assert_eq!(
        written(&program, 0, &Value::Variant(0, vec![uint(10)]), &vec![Datum::UInt(3)]),
        vec![30]
    );
    assert_eq!(
        written(&program, 0, &Value::Variant(1, vec![uint(5)]), &vec![Datum::UInt(3)]),
        vec![5]
    );
    let mut out = writer();
    let error = program
        .write(0, &Value::Variant(0, vec![]), &mut out, BE, &vec![Datum::UInt(100)])
        .unwrap_err();
    assert_eq!(error.context, vec!["Writing discriminant value of variant Fixed".to_string()]);
}

#[test]
fn union_value_that_is_no_variant_at_all_matches_no_arm() {
    let program = computed_union();
    let mut out = writer();
    let error = program.write(0, &uint(1), &mut out, BE, &vec![Datum::UInt(1)]).unwrap_err();
    assert_eq!(error.kind, ErrorKind::NoArmMatched);
}

#[test]
fn labels_are_part_of_the_compiled_operation() {
    let mut read = rf("x", byte());
    read.common.alignment = Some(4);
    match read.to_read_op() {
        ReadOp::Align { alignment, inner } => {
            assert_eq!(alignment, 4);
            match *inner {
                ReadOp::Context { label: Label::ReadingField(Member::Named(name)), .. } => {
                    assert_eq!(name, "x")
                }
                other => panic!("unexpected operation {:?}", other),
            }
        }
        other => panic!("unexpected operation {:?}", other),
    }
    let mut write = wf("x", bytes());
    write.common.alignment = Some(4);
    match write.to_write_op() {
        WriteOp::Align { inner, .. } => match *inner {
            WriteOp::Context { inner, .. } => assert!(matches!(*inner, WriteOp::Each { .. })),
            other => panic!("unexpected operation {:?}", other),
        },
        other => panic!("unexpected operation {:?}", other),
    }
}

#[test]
fn nested_records_round_trip() {
    let mut program = Program::new();
    let optional = TypeClass::Optional(TypeRef::Primitive(Primitive::UInt(16)));
    let mut tail = rf("tail", optional);
    tail.when = Some(bin(BinOp::Gt, Expr::Field(0), Expr::Lit(1)));
    let inner = program.add(record(
        vec![rf("kind", byte()), tail],
        vec![wf("kind", byte()), wf("tail", optional)],
    ));
    let items = TypeClass::Collection(TypeRef::Named(inner));
    let mut list = rf("items", items);
    list.collection_limit = Some(CollectionLimit::Count(Expr::Field(0)));
    let outer = program.add(record(
        vec![rf("n", byte()), list, rf("last", TypeClass::Other(inner))],
        vec![wf("n", byte()), wf("items", items), wf("last", TypeClass::Other(inner))],
    ));
    let value = rec(vec![
        uint(2),
        Value::List(vec![
            rec(vec![uint(1), Value::Optional(None)]),
            rec(vec![uint(2), Value::Optional(Some(Box::new(uint(0x0304))))]),
        ]),
        rec(vec![uint(0), Value::Optional(None)]),
    ]);
    let bytes = written(&program, outer, &value, &vec![]);
    assert_eq!(bytes, vec![2, 1, 2, 3, 4, 0]);
    let mut buf = reader(&bytes);
    assert_eq!(program.read(outer, &mut buf, BE, &vec![]).unwrap(), value);
    assert_eq!(buf.remaining_bits(), 0);
}

#[test]
fn incoherent_value_does_not_round_trip() {
    let optional = TypeClass::Optional(TypeRef::Primitive(Primitive::UInt(8)));
    let flag = TypeClass::Scalar(Primitive::Bool(8));
    let mut value = rf("value", optional);
    value.when = Some(Expr::Field(0));
    let mut program = Program::new();
    program.add(record(
        vec![rf("has_value", flag), value],
        vec![wf("has_value", flag), wf("value", optional)],
    ));
    let incoherent =
        rec(vec![Value::Scalar(Datum::Bool(false)), Value::Optional(Some(Box::new(uint(3))))]);
    let bytes = written(&program, 0, &incoherent, &vec![]);
    assert_eq!(bytes, vec![0, 3]);
    let mut buf = reader(&bytes);
    let back = program.read(0, &mut buf, BE, &vec![]).unwrap();
    assert_eq!(back, rec(vec![Value::Scalar(Datum::Bool(false)), Value::Optional(None)]));
    assert_eq!(remaining_bytes(&buf), 1);
}

#[test]
fn round_trip_hands_back_coherent_values() {
    let optional = TypeClass::Optional(TypeRef::Primitive(Primitive::UInt(8)));
    let flag = TypeClass::Scalar(Primitive::Bool(8));
    let mut value = rf("value", optional);
    value.when = Some(Expr::Field(0));
    let mut aligned = rf("pad", byte());
    aligned.common.alignment = Some(4);
    let mut aligned_write = wf("pad", byte());
    aligned_write.common.alignment = Some(4);
    let mut program = Program::new();
    program.add(record(
        vec![rf("has_value", flag), value, aligned],
        vec![wf("has_value", flag), wf("value", optional), aligned_write],
    ));
    for coherent in [
        rec(vec![Value::Scalar(Datum::Bool(false)), Value::Optional(None), uint(5)]),
        rec(vec![
            Value::Scalar(Datum::Bool(true)),
            Value::Optional(Some(Box::new(uint(3)))),
            uint(5),
        ]),
    ] {
        let back = program.round_trip(0, &coherent, BE, &vec![]).unwrap();
        assert_eq!(back, coherent);
    }
    let incoherent = rec(vec![
        Value::Scalar(Datum::Bool(false)),
        Value::Optional(Some(Box::new(uint(3)))),
        uint(5),
    ]);
    let back = program.round_trip(0, &incoherent, BE, &vec![]).unwrap();
    assert_eq!(
        back,
        rec(vec![Value::Scalar(Datum::Bool(false)), Value::Optional(None), uint(3)])
    );
}

#[test]
fn round_trip_hands_back_the_failure_to_encode() {
    let program = single(rf("a", byte()), wf("a", byte()));
    let error = program.round_trip(0, &rec(vec![uint(256)]), BE, &vec![]).unwrap_err();
    assert_eq!(error.message, "value cannot be written as the declared primitive");
    assert_eq!(error.context, vec!["Writing field 'a'".to_string()]);
    let error = program.round_trip(3, &rec(vec![uint(1)]), BE, &vec![]).unwrap_err();
    assert_eq!(error.message, "no such procedure");
}

#[test]
fn frozen_buffer_reads_what_was_written() {
    let mut out = writer();
    assert!(parsely::wire::put_bits(&mut out, &vec![true, false, true]));
    assert!(parsely::wire::fill_byte(&mut out));
    let mut frozen = parsely::wire::freeze(out);
    assert_eq!(parsely::wire::remaining_bits(&frozen), 8);
    assert_eq!(
        parsely::wire::read_primitive(&mut frozen, Primitive::UInt(3), BE),
        Some(Datum::UInt(0b101))
    );
    assert_eq!(
        parsely::wire::read_primitive(&mut frozen, Primitive::UInt(5), BE),
        Some(Datum::UInt(0))
    );
    assert_eq!(parsely::wire::remaining_bits(&frozen), 0);
}

#[test]
fn nested_call_with_the_wrong_number_of_arguments_fails_under_the_field() {
    let mut program = Program::new();
    let inner = program.add(record_with(one_value, vec![], vec![]));
    let outer = program.add(record(
        vec![rf("inner", TypeClass::Other(inner))],
        vec![wf("inner", TypeClass::Other(inner))],
    ));
    let error = program.read(outer, &mut reader(&vec![]), BE, &vec![]).unwrap_err();
    assert_eq!(error.message, "context does not match the declared parameters");
    assert_eq!(error.context, vec!["Reading field 'inner'".to_string()]);
}

#[test]
fn opaque_expression_compiles_and_raises_only_where_it_is_run() {
    let written = "| v : u8 | { v . to_string () }".to_string();
    let mut read = rf("value", byte());
    read.common.map =
        Some(MapExpr { raw: Some(Primitive::UInt(8)), transform: Expr::Opaque(written.clone()) });
    match read.to_read_op() {
        ReadOp::Context { inner, .. } => match *inner {
            ReadOp::Mapped { raw, transform: Expr::Opaque(kept), .. } => {
                assert_eq!(raw, Some(Primitive::UInt(8)));
                assert_eq!(kept, written);
            }
            other => panic!("unexpected operation {:?}", other),
        },
        other => panic!("unexpected operation {:?}", other),
    }
    let parsed = "| v : & str | { v . parse :: < u8 > () }".to_string();
    let mut write = wf("value", byte());
    write.common.map = Some(MapExpr { raw: None, transform: Expr::Opaque(parsed.clone()) });
    assert!(matches!(
        write.to_write_op(),
        WriteOp::Mapped { raw: None, transform: Expr::Opaque(_), .. }
    ));
    let program = single(read, write);

    let mut buf = reader(&vec![42]);
    let error = program.read(0, &mut buf, BE, &vec![]).unwrap_err();
    assert_eq!(error.kind, ErrorKind::Evaluation);
    assert_eq!(
        error.context,
        vec!["Mapping raw value for field 'value'".to_string(), "Reading field 'value'".to_string()]
    );
    assert_eq!(remaining_bytes(&buf), 0);

    let mut out = writer();
    let error = program.write(0, &rec(vec![uint(42)]), &mut out, BE, &vec![]).unwrap_err();
    assert_eq!(error.kind, ErrorKind::Evaluation);
    assert_eq!(error.context, vec!["Mapping raw value for field 'value'".to_string()]);
    assert_eq!(out.len_bits(), 0);
}

#[test]
fn mapping_without_a_named_raw_type_raises_where_it_is_read() {
    let mut read = rf("value", byte());
    read.common.map = Some(MapExpr { raw: None, transform: Expr::Input });
    let program = single(read, wf("value", byte()));
    let mut buf = reader(&vec![42]);
    let error = program.read(0, &mut buf, BE, &vec![]).unwrap_err();
    assert_eq!(error.kind, ErrorKind::Evaluation);
    assert_eq!(
        error.context,
        vec![
            "Reading raw value for field 'value'".to_string(),
            "Reading field 'value'".to_string()
        ]
    );
    assert_eq!(remaining_bytes(&buf), 1);
}

#[test]
fn round_trip_holds_least_significant_byte_first_off_a_byte_boundary() {
    let nibble = TypeClass::Scalar(Primitive::UInt(4));
    let twelve = TypeClass::Scalar(Primitive::UInt(12));
    let word = TypeClass::Scalar(Primitive::UInt(16));
    let mut program = Program::new();
    program.add(record(
        vec![rf("a", nibble), rf("b", twelve), rf("c", word), rf("d", nibble)],
        vec![wf("a", nibble), wf("b", twelve), wf("c", word), wf("d", nibble)],
    ));
    let value = rec(vec![uint(0xA), uint(0xBCD), uint(0x1234), uint(0x5)]);
    for order in [ByteOrder::BigEndian, ByteOrder::LittleEndian] {
        assert_eq!(program.round_trip(0, &value, order, &vec![]).unwrap(), value);
    }
    let mut out = writer();
    program.write(0, &value, &mut out, ByteOrder::LittleEndian, &vec![]).unwrap();
    let mut theirs = writer();
    theirs.put_u4(bits_io::nsw_types::u4::new(0xA)).unwrap();
    theirs.put_u12::<bits_io::buf::byte_order::LittleEndian>(bits_io::nsw_types::u12::new(0xBCD))
        .unwrap();
    theirs.put_u16::<bits_io::buf::byte_order::LittleEndian>(0x1234).unwrap();
    theirs.put_u4(bits_io::nsw_types::u4::new(0x5)).unwrap();
    assert_eq!(out.freeze(), theirs.freeze());
}

#[test]
fn fixed_value_is_enforced_under_every_other_modifier() {
    let mut read = rf("magic", byte());
    read.common.fixed = Some(Datum::UInt(7));
    read.common.assertion = Some(Assertion {
        predicate: bin(BinOp::Gt, Expr::Input, Expr::Lit(0)),
        source: "|v| v > 0".to_string(),
    });
    read.common.alignment = Some(2);
    read.common.after = Some(Expr::Input);
    let program = single(read, wf("magic", byte()));
    for later in [vec![], vec![0], vec![0, 9, 9]] {
        let mut bytes = vec![8];
        bytes.extend(later);
        let error = program.read(0, &mut reader(&bytes), BE, &vec![]).unwrap_err();
        assert_eq!(error.kind, ErrorKind::FixedValue);
        assert_eq!(error.context, vec!["Reading field 'magic'".to_string()]);
    }
    let value = program.read(0, &mut reader(&vec![7, 0]), BE, &vec![]).unwrap();
    assert_eq!(value, rec(vec![uint(7)]));
}
