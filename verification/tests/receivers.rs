use parsely::bits::ByteOrder;
use parsely::expr::Expr;
use parsely::generate::{generate_parsely_read_impl, generate_parsely_write_impl};
use parsely::member::Member;
use parsely::plan::{
    Codec, ReadArms, ReadBody, ReadSteps, Shape, SyncOp, SyncSteps, TagSource, TypeRef,
    TypedFnArg, WriteArms, WriteBody, WriteSteps,
};
use parsely::program::Program;
use parsely::receiver::{
    classify, resolve, Data, ParselyCommonFieldReceiver, ParselyReadFieldReceiver,
    ParselyReadReceiver, ParselyReadVariantReceiver, ParselyWriteFieldReceiver,
    ParselyWriteReceiver, ParselyWriteVariantReceiver, SchemaError,
};
use parsely::schema::{
    CollectionLimit, ComputedPayload, Context, MapExpr, ParselyReadEnumData,
    ParselyReadFieldData, ParselyReadStructData, ParselyWriteEnumData, ParselyWriteFieldData,
    ParselyWriteStructData, Style, TypeClass, TypedFnArgList,
};
use parsely::shape::{
    position_of, primitive_named, type_named, GenericArgument, PathSegment, TypeShape,
};
use parsely::value::{Datum, Value};
use parsely::wire::{reader, writer, Primitive};

fn path(name: &str) -> TypeShape {
    TypeShape::Path {
        qualified: false,
        segments: vec![PathSegment { ident: name.to_string(), arguments: None }],
    }
}

fn wrapper(name: &str, inner: TypeShape) -> TypeShape {
    TypeShape::Path {
        qualified: false,
        segments: vec![PathSegment {
            ident: name.to_string(),
            arguments: Some(vec![GenericArgument::Type(inner)]),
        }],
    }
}

fn names() -> Vec<String> {
    vec!["Header".to_string(), "Body".to_string()]
}

fn no_common() -> ParselyCommonFieldReceiver {
    ParselyCommonFieldReceiver {
        assertion: None,
        context: None,
        map: None,
        alignment: None,
        fixed: None,
        after: None,
    }
}

fn read_field(name: Option<&str>, ty: TypeShape) -> ParselyReadFieldReceiver {
    ParselyReadFieldReceiver {
        ident: name.map(|n| n.to_string()),
        ty,
        common: no_common(),
        count: None,
        while_pred: None,
        assign_from: None,
        when: None,
        reader: None,
    }
}

fn write_field(name: Option<&str>, ty: TypeShape) -> ParselyWriteFieldReceiver {
    ParselyWriteFieldReceiver {
        ident: name.map(|n| n.to_string()),
        ty,
        common: no_common(),
        sync_expr: None,
        sync_with: Context(vec![]),
        writer: None,
    }
}

fn read_struct(fields: Vec<ParselyReadFieldReceiver>) -> ParselyReadReceiver {
    ParselyReadReceiver {
        ident: "Foo".to_string(),
        required_context: None,
        alignment: None,
        key: None,
        key_type: None,
        data: Data::Struct(Style::Struct, fields),
    }
}

fn write_struct(fields: Vec<ParselyWriteFieldReceiver>) -> ParselyWriteReceiver {
    ParselyWriteReceiver {
        ident: "Foo".to_string(),
        required_context: None,
        sync_args: None,
        alignment: None,
        key: None,
        key_type: None,
        data: Data::Struct(Style::Struct, fields),
    }
}

#[test]
fn option_and_vec_are_the_wrappers() {
    let option = wrapper("Option", path("u8"));
    assert!(option.is_option());
    assert!(!option.is_collection());
    assert!(option.is_wrapped());
    let vec = wrapper("Vec", path("u8"));
    assert!(vec.is_collection());
    assert!(!vec.is_option());
    assert!(vec.is_wrapped());
    assert!(!path("u8").is_wrapped());
    assert!(!TypeShape::Other.is_wrapped());
    let long = TypeShape::Path {
        qualified: false,
        segments: vec![
            PathSegment { ident: "std".to_string(), arguments: None },
            PathSegment { ident: "Option".to_string(), arguments: None },
        ],
    };
    assert!(!long.is_option());
}

#[test]
fn inner_type_is_the_single_type_argument() {
    let option = wrapper("Option", path("u8"));
    assert!(matches!(option.inner_type(), Some(t) if t.bare_name() == Some(&"u8".to_string())));
    assert!(path("u8").inner_type().is_none());
    assert!(TypeShape::Other.inner_type().is_none());
    let qualified = TypeShape::Path {
        qualified: true,
        segments: vec![PathSegment {
            ident: "Vec".to_string(),
            arguments: Some(vec![GenericArgument::Type(path("u8"))]),
        }],
    };
    assert!(qualified.inner_type().is_none());
    let two = TypeShape::Path {
        qualified: false,
        segments: vec![PathSegment {
            ident: "Map".to_string(),
            arguments: Some(vec![
                GenericArgument::Type(path("u8")),
                GenericArgument::Type(path("u8")),
            ]),
        }],
    };
    assert!(two.inner_type().is_none());
    let lifetime = TypeShape::Path {
        qualified: false,
        segments: vec![PathSegment {
            ident: "Vec".to_string(),
            arguments: Some(vec![GenericArgument::Other]),
        }],
    };
    assert!(lifetime.inner_type().is_none());
    assert!(option.bare_name().is_none());
}

#[test]
fn names_stand_for_primitives_and_declared_types() {
    assert_eq!(primitive_named(&"bool".to_string()), Some(Primitive::Bool(8)));
    assert_eq!(primitive_named(&"u1".to_string()), Some(Primitive::UInt(1)));
    assert_eq!(primitive_named(&"u24".to_string()), Some(Primitive::UInt(24)));
    assert_eq!(primitive_named(&"u32".to_string()), Some(Primitive::UInt(32)));
    assert_eq!(primitive_named(&"u33".to_string()), None);
    assert_eq!(primitive_named(&"u0".to_string()), None);
    assert_eq!(primitive_named(&"u08".to_string()), None);
    assert_eq!(primitive_named(&"i8".to_string()), None);
    assert_eq!(position_of(&names(), &"Body".to_string()), Some(1));
    assert_eq!(position_of(&names(), &"Nope".to_string()), None);
    assert_eq!(
        type_named(&"u8".to_string(), &names()),
        Some(TypeRef::Primitive(Primitive::UInt(8)))
    );
    assert_eq!(type_named(&"Header".to_string(), &names()), Some(TypeRef::Named(0)));
    assert_eq!(type_named(&"Nope".to_string(), &names()), None);
    assert_eq!(resolve(&path("Body"), &names()), Some(TypeRef::Named(1)));
    assert_eq!(resolve(&wrapper("Vec", path("u8")), &names()), None);
}

#[test]
fn classes_are_decided_from_the_shape() {
    assert_eq!(classify(&path("u16"), &names()), Ok(TypeClass::Scalar(Primitive::UInt(16))));
    assert_eq!(classify(&path("Header"), &names()), Ok(TypeClass::Other(0)));
    assert_eq!(
        classify(&wrapper("Option", path("u7")), &names()),
        Ok(TypeClass::Optional(TypeRef::Primitive(Primitive::UInt(7))))
    );
    assert_eq!(
        classify(&wrapper("Vec", path("Body")), &names()),
        Ok(TypeClass::Collection(TypeRef::Named(1)))
    );
    assert_eq!(classify(&path("Nope"), &names()), Err(SchemaError::UnknownType));
    assert_eq!(classify(&path("Option"), &names()), Err(SchemaError::MissingInnerType));
    assert_eq!(
        classify(&wrapper("Vec", path("Nope")), &names()),
        Err(SchemaError::UnknownType)
    );
    assert_eq!(classify(&TypeShape::Other, &names()), Err(SchemaError::UnknownType));
}

#[test]
fn type_classes_name_their_buffer_types() {
    let inner = TypeRef::Primitive(Primitive::UInt(8));
    assert_eq!(TypeClass::Optional(inner).buffer_type(), inner);
    assert_eq!(TypeClass::Collection(inner).buffer_type(), inner);
    assert_eq!(TypeClass::Scalar(Primitive::UInt(8)).buffer_type(), inner);
    assert_eq!(TypeClass::Other(3).buffer_type(), TypeRef::Named(3));
    assert!(TypeClass::Optional(inner).is_option());
    assert!(TypeClass::Collection(inner).is_collection());
    assert!(TypeClass::Collection(inner).is_wrapped());
    assert!(!TypeClass::Other(3).is_wrapped());
}

#[test]
fn collection_needs_a_limit() {
    let field = read_field(Some("data"), wrapper("Vec", path("u8")));
    let r = ParselyReadFieldData::from_receiver(Member::Named("data".to_string()), field, &names());
    assert_eq!(r.unwrap_err(), SchemaError::MissingLimit);

    let mut field = read_field(Some("data"), wrapper("Vec", path("u8")));
    field.while_pred = Some(Expr::Flag(false));
    let data =
        ParselyReadFieldData::from_receiver(Member::Named("data".to_string()), field, &names())
            .unwrap();
    assert!(matches!(data.collection_limit, Some(CollectionLimit::While(_))));

    let mut field = read_field(Some("data"), wrapper("Vec", path("u8")));
    field.while_pred = Some(Expr::Flag(false));
    field.count = Some(Expr::Lit(1));
    let data =
        ParselyReadFieldData::from_receiver(Member::Named("data".to_string()), field, &names())
            .unwrap();
    assert!(matches!(data.collection_limit, Some(CollectionLimit::Count(_))));
    assert_eq!(data.buffer_type(), TypeRef::Primitive(Primitive::UInt(8)));

    let mut field = read_field(Some("one"), path("u8"));
    field.count = Some(Expr::Lit(1));
    let data =
        ParselyReadFieldData::from_receiver(Member::Named("one".to_string()), field, &names())
            .unwrap();
    assert!(data.collection_limit.is_none());
}

#[test]
fn optional_needs_a_guard_unless_it_is_mapped() {
    let field = read_field(Some("v"), wrapper("Option", path("u8")));
    let r = ParselyReadFieldData::from_receiver(Member::Named("v".to_string()), field, &names());
    assert_eq!(r.unwrap_err(), SchemaError::MissingWhen);

    let mut field = read_field(Some("v"), wrapper("Option", path("u8")));
    field.when = Some(Expr::Flag(true));
    let data =
        ParselyReadFieldData::from_receiver(Member::Named("v".to_string()), field, &names())
            .unwrap();
    assert!(data.when.is_some());

    let mut field = read_field(Some("v"), wrapper("Option", path("u8")));
    field.when = Some(Expr::Flag(true));
    field.common.map = Some(MapExpr { raw: Some(Primitive::UInt(8)), transform: Expr::Input });
    let data =
        ParselyReadFieldData::from_receiver(Member::Named("v".to_string()), field, &names())
            .unwrap();
    assert!(data.when.is_none());

    let mut field = read_field(Some("v"), path("u8"));
    field.when = Some(Expr::Flag(true));
    let data =
        ParselyReadFieldData::from_receiver(Member::Named("v".to_string()), field, &names())
            .unwrap();
    assert!(data.when.is_none());
}

#[test]
fn common_options_are_checked() {
    let mut field = read_field(Some("v"), path("u8"));
    field.common.alignment = Some(0);
    let r = ParselyReadFieldData::from_receiver(Member::Named("v".to_string()), field, &names());
    assert_eq!(r.unwrap_err(), SchemaError::ZeroAlignment);

    let mut field = write_field(Some("v"), path("u8"));
    field.common.map = Some(MapExpr { raw: Some(Primitive::UInt(64)), transform: Expr::Input });
    let r = ParselyWriteFieldData::from_receiver(Member::Named("v".to_string()), field, &names());
    assert_eq!(r.unwrap_err(), SchemaError::UnknownType);

    let mut field = read_field(Some("v"), path("u8"));
    field.reader = Some("Nope".to_string());
    let r = ParselyReadFieldData::from_receiver(Member::Named("v".to_string()), field, &names());
    assert_eq!(r.unwrap_err(), SchemaError::UnknownProcedure);

    let mut field = write_field(Some("v"), path("u8"));
    field.writer = Some("Body".to_string());
    field.common.fixed = Some(Datum::UInt(1));
    let data =
        ParselyWriteFieldData::from_receiver(Member::Named("v".to_string()), field, &names())
            .unwrap();
    assert_eq!(data.writer, Some(1));
    assert_eq!(data.common.fixed, Some(Datum::UInt(1)));
    assert_eq!(data.common.buffer_type(), TypeRef::Primitive(Primitive::UInt(8)));
}

#[test]
fn record_data_keeps_the_fields_in_order() {
    let mut receiver = read_struct(vec![
        read_field(Some("a"), path("u8")),
        read_field(None, path("Header")),
        read_field(None, path("u16")),
    ]);
    receiver.alignment = Some(4);
    receiver.required_context = Some(TypedFnArgList(vec![TypedFnArg {
        name: "size".to_string(),
        ty: "u32".to_string(),
    }]));
    let data = ParselyReadStructData::try_from(receiver, &names()).unwrap();
    assert_eq!(data.ident, "Foo");
    assert_eq!(data.alignment, Some(4));
    assert_eq!(data.required_context.len(), 1);
    assert_eq!(data.required_context.names(), vec!["size".to_string()]);
    assert_eq!(data.required_context.types(), vec!["u32".to_string()]);
    assert_eq!(data.fields.len(), 3);
    assert!(matches!(&data.fields[0].common.ident, Member::Named(n) if n == "a"));
    assert!(matches!(data.fields[1].common.ident, Member::Unnamed(1)));
    assert!(matches!(data.fields[2].common.ident, Member::Unnamed(2)));
    assert_eq!(data.fields[1].common.ty, TypeClass::Other(0));
}

#[test]
fn record_data_reports_the_first_bad_field() {
    let receiver = read_struct(vec![
        read_field(Some("a"), path("u8")),
        read_field(Some("b"), wrapper("Vec", path("u8"))),
        read_field(Some("c"), path("Nope")),
    ]);
    assert_eq!(
        ParselyReadStructData::try_from(receiver, &names()).unwrap_err(),
        SchemaError::MissingLimit
    );
    let receiver = write_struct(vec![
        write_field(Some("a"), path("Nope")),
        write_field(Some("b"), path("Option")),
    ]);
    assert_eq!(
        ParselyWriteStructData::try_from(receiver, &names()).unwrap_err(),
        SchemaError::UnknownType
    );
    let mut receiver = read_struct(vec![]);
    receiver.alignment = Some(0);
    assert_eq!(
        ParselyReadStructData::try_from(receiver, &names()).unwrap_err(),
        SchemaError::ZeroAlignment
    );
    let mut receiver = write_struct(vec![]);
    receiver.alignment = Some(0);
    assert_eq!(
        ParselyWriteStructData::try_from(receiver, &names()).unwrap_err(),
        SchemaError::ZeroAlignment
    );
}

fn read_enum() -> ParselyReadReceiver {
    ParselyReadReceiver {
        ident: "Kind".to_string(),
        required_context: None,
        alignment: None,
        key: None,
        key_type: Some(path("u8")),
        data: Data::Enum(vec![
            ParselyReadVariantReceiver {
                ident: "One".to_string(),
                discriminant: None,
                id: Expr::Lit(1),
                fields: vec![],
            },
            ParselyReadVariantReceiver {
                ident: "Two".to_string(),
                discriminant: None,
                id: Expr::Lit(2),
                fields: vec![read_field(None, path("u8"))],
            },
            ParselyReadVariantReceiver {
                ident: "Three".to_string(),
                discriminant: None,
                id: Expr::Lit(3),
                fields: vec![read_field(Some("bar"), path("u8")), read_field(Some("baz"), path("u16"))],
            },
        ]),
    }
}

fn write_enum() -> ParselyWriteReceiver {
    ParselyWriteReceiver {
        ident: "Kind".to_string(),
        required_context: None,
        sync_args: None,
        alignment: None,
        key: None,
        key_type: Some(path("u8")),
        data: Data::Enum(vec![
            ParselyWriteVariantReceiver {
                ident: "One".to_string(),
                discriminant: None,
                id: Expr::Lit(1),
                fields: vec![],
            },
            ParselyWriteVariantReceiver {
                ident: "Two".to_string(),
                discriminant: None,
                id: Expr::Lit(2),
                fields: vec![write_field(None, path("u8"))],
            },
            ParselyWriteVariantReceiver {
                ident: "Three".to_string(),
                discriminant: None,
                id: Expr::Lit(3),
                fields: vec![
                    write_field(Some("bar"), path("u8")),
                    write_field(Some("baz"), path("u16")),
                ],
            },
        ]),
    }
}

#[test]
fn records_and_unions_are_told_apart() {
    assert_eq!(
        ParselyReadStructData::try_from(read_enum(), &names()).unwrap_err(),
        SchemaError::NotAStruct
    );
    assert_eq!(
        ParselyWriteStructData::try_from(write_enum(), &names()).unwrap_err(),
        SchemaError::NotAStruct
    );
    assert_eq!(
        ParselyReadEnumData::try_from(read_struct(vec![]), &names()).unwrap_err(),
        SchemaError::NotAnEnum
    );
    assert_eq!(
        ParselyWriteEnumData::try_from(write_struct(vec![]), &names()).unwrap_err(),
        SchemaError::NotAnEnum
    );
    assert!(read_enum().data.is_enum());
    assert!(!read_enum().data.is_struct());
}

#[test]
fn union_needs_a_key() {
    let mut receiver = read_enum();
    receiver.key_type = None;
    assert_eq!(
        ParselyReadEnumData::try_from(receiver, &names()).unwrap_err(),
        SchemaError::MissingKey
    );
    let mut receiver = read_enum();
    receiver.key_type = Some(path("Header"));
    assert_eq!(
        ParselyReadEnumData::try_from(receiver, &names()).unwrap_err(),
        SchemaError::KeyNotPrimitive
    );
    let mut receiver = write_enum();
    receiver.key_type = None;
    receiver.key = Some(Expr::Ctx(0));
    let data = ParselyWriteEnumData::try_from(receiver, &names()).unwrap();
    assert!(matches!(data.key, TagSource::Computed(Expr::Ctx(0))));
    let mut receiver = write_enum();
    receiver.alignment = Some(0);
    assert_eq!(
        ParselyWriteEnumData::try_from(receiver, &names()).unwrap_err(),
        SchemaError::ZeroAlignment
    );
}

#[test]
fn union_data_reports_the_first_bad_variant() {
    let mut receiver = read_enum();
    if let Data::Enum(variants) = &mut receiver.data {
        variants[1].fields.push(read_field(None, wrapper("Option", path("u8"))));
        variants[2].fields.push(read_field(None, path("Nope")));
    }
    assert_eq!(
        ParselyReadEnumData::try_from(receiver, &names()).unwrap_err(),
        SchemaError::MissingWhen
    );
    let mut receiver = write_enum();
    if let Data::Enum(variants) = &mut receiver.data {
        variants[0].discriminant =
            Some(ComputedPayload { expr: Expr::Lit(1), ty: Primitive::UInt(0) });
    }
    assert_eq!(
        ParselyWriteEnumData::try_from(receiver, &names()).unwrap_err(),
        SchemaError::UnknownType
    );
}

#[test]
fn variants_know_their_shapes() {
    let data = ParselyReadEnumData::try_from(read_enum(), &names()).unwrap();
    assert!(!data.variants[0].named_fields());
    assert!(!data.variants[1].named_fields());
    assert!(data.variants[2].named_fields());
    assert_eq!(data.variants[2].enum_name, "Kind");
    let data = ParselyWriteEnumData::try_from(write_enum(), &names()).unwrap();
    assert!(!data.variants[1].named_fields());
    assert!(data.variants[2].named_fields());
}

#[test]
fn generated_record_procedures_follow_the_declaration() {
    let mut field = read_field(Some("len"), path("u8"));
    field.common.fixed = Some(Datum::UInt(2));
    let procedure = generate_parsely_read_impl(read_struct(vec![field]), &names()).unwrap();
    assert_eq!(procedure.name, "Foo");
    assert!(procedure.params.is_empty());
    match procedure.body {
        ReadBody::Record(ReadSteps::Bind { target: Member::Named(name), rest, .. }, Shape::Named) => {
            assert_eq!(name, "len");
            assert!(matches!(*rest, ReadSteps::Done));
        }
        other => panic!("unexpected body {:?}", other),
    }
    let mut synced = write_field(Some("len"), path("u8"));
    synced.sync_expr = Some(Expr::Ctx(0));
    let mut receiver =
        write_struct(vec![synced, write_field(Some("data"), wrapper("Vec", path("u8")))]);
    receiver.sync_args = Some(TypedFnArgList(vec![TypedFnArg {
        name: "n".to_string(),
        ty: "u8".to_string(),
    }]));
    let generated = generate_parsely_write_impl(receiver, &names()).unwrap();
    assert!(matches!(generated.write.body, WriteBody::Record(WriteSteps::Put { .. })));
    assert_eq!(generated.sync.params.len(), 1);
    match generated.sync.steps {
        SyncSteps::Step { op: SyncOp::Assign { .. }, rest } => match *rest {
            SyncSteps::Step { op: SyncOp::Skip, rest } => assert!(matches!(*rest, SyncSteps::Done)),
            other => panic!("unexpected steps {:?}", other),
        },
        other => panic!("unexpected steps {:?}", other),
    }
}

#[test]
fn generated_union_procedures_dispatch_in_declaration_order() {
    let read = generate_parsely_read_impl(read_enum(), &names()).unwrap();
    match &read.body {
        ReadBody::Dispatch { tag: TagSource::Typed(Primitive::UInt(8)), arms } => match arms {
            ReadArms::Arm { variant, tag: Expr::Lit(1), .. } => assert_eq!(variant, "One"),
            other => panic!("unexpected arms {:?}", other),
        },
        other => panic!("unexpected body {:?}", other),
    }
    let write = generate_parsely_write_impl(write_enum(), &names()).unwrap();
    assert!(matches!(
        &write.write.body,
        WriteBody::Dispatch { arms: WriteArms::Arm { tag: Expr::Lit(1), .. }, .. }
    ));
    assert!(matches!(write.sync.steps, SyncSteps::Done));

    let mut program = Program::new();
    program.add(Codec { read, write: write.write, sync: write.sync });
    let bytes = vec![3, 1, 0, 42];
    let value = program.read(0, &mut reader(&bytes), ByteOrder::BigEndian, &vec![]).unwrap();
    assert_eq!(
        value,
        Value::Variant(2, vec![Value::Scalar(Datum::UInt(1)), Value::Scalar(Datum::UInt(42))])
    );
    let mut out = writer();
    program.write(0, &value, &mut out, ByteOrder::BigEndian, &vec![]).unwrap();
    assert_eq!(out.freeze(), reader(&bytes));
    let mut unchanged = value.duplicate();
    program.sync(0, &mut unchanged, &vec![]).unwrap();
    assert_eq!(unchanged, value);
}

#[test]
fn generation_hands_back_the_reason_for_a_bad_declaration() {
    let receiver = read_struct(vec![read_field(Some("v"), path("Nope"))]);
    assert_eq!(generate_parsely_read_impl(receiver, &names()).unwrap_err(), SchemaError::UnknownType);
    let mut receiver = write_enum();
    receiver.key_type = None;
    assert_eq!(
        generate_parsely_write_impl(receiver, &names()).unwrap_err(),
        SchemaError::MissingKey
    );
    for error in [
        SchemaError::NotAStruct,
        SchemaError::NotAnEnum,
        SchemaError::MissingKey,
        SchemaError::KeyNotPrimitive,
        SchemaError::MissingLimit,
        SchemaError::MissingWhen,
        SchemaError::MissingInnerType,
        SchemaError::UnknownType,
        SchemaError::UnknownProcedure,
        SchemaError::ZeroAlignment,
        SchemaError::TooManyFields,
    ] {
        assert!(!error.message().is_empty());
    }
    assert_eq!(SchemaError::NotAStruct.message(), "Not a struct");
    assert_eq!(
        SchemaError::MissingLimit.message(),
        "Collection type must have 'count' or 'while' attribute"
    );
}

#[test]
fn sync_delegates_only_where_arguments_or_a_plain_type_call_for_it() {
    let mut with_args = write_field(Some("items"), wrapper("Vec", path("Header")));
    with_args.sync_with = Context(vec![Expr::Lit(1)]);
    let receiver = write_struct(vec![
        write_field(Some("plain"), path("u8")),
        write_field(Some("nested"), path("Header")),
        write_field(Some("skipped"), wrapper("Option", path("Header"))),
        with_args,
    ]);
    let data = ParselyWriteStructData::try_from(receiver, &names()).unwrap();
    assert!(matches!(
        data.fields[0].to_sync_call_op(),
        SyncOp::Delegate { ty: TypeRef::Primitive(Primitive::UInt(8)), .. }
    ));
    assert!(matches!(
        data.fields[1].to_sync_call_op(),
        SyncOp::Delegate { ty: TypeRef::Named(0), .. }
    ));
    assert!(matches!(data.fields[2].to_sync_call_op(), SyncOp::Skip));
    assert!(matches!(
        data.fields[3].to_sync_call_op(),
        SyncOp::Delegate { ty: TypeRef::Named(0), .. }
    ));
    assert!(matches!(
        data.fields[3].sync_with_expressions(),
        parsely::plan::Args::Cons { expr: Expr::Lit(1), .. }
    ));
    assert!(data.fields[0].sync_with.is_empty());
}

#[test]
fn declared_types_are_known_by_name_to_those_declared_after() {
    let mut program = Program::new();
    let header = program
        .declare(
            read_struct(vec![
                read_field(Some("kind"), path("u8")),
                read_field(Some("size"), path("u16")),
            ]),
            write_struct(vec![
                write_field(Some("kind"), path("u8")),
                write_field(Some("size"), path("u16")),
            ]),
        )
        .unwrap();
    assert_eq!(header, 0);
    assert_eq!(program.names, vec!["Foo".to_string()]);

    let mut read = read_struct(vec![
        read_field(Some("header"), path("Foo")),
        read_field(Some("tail"), wrapper("Vec", path("u8"))),
    ]);
    read.ident = "Packet".to_string();
    if let Data::Struct(_, fields) = &mut read.data {
        fields[1].count = Some(Expr::Lit(2));
    }
    let mut write = write_struct(vec![
        write_field(Some("header"), path("Foo")),
        write_field(Some("tail"), wrapper("Vec", path("u8"))),
    ]);
    write.ident = "Packet".to_string();
    let packet = program.declare(read, write).unwrap();
    assert_eq!(packet, 1);
    assert_eq!(program.names, vec!["Foo".to_string(), "Packet".to_string()]);

    let bytes = vec![7, 1, 2, 3, 4];
    let value = program.read(packet, &mut reader(&bytes), ByteOrder::BigEndian, &vec![]).unwrap();
    assert_eq!(
        value,
        Value::Record(vec![
            Value::Record(vec![Value::Scalar(Datum::UInt(7)), Value::Scalar(Datum::UInt(0x0102))]),
            Value::List(vec![Value::Scalar(Datum::UInt(3)), Value::Scalar(Datum::UInt(4))]),
        ])
    );
    let mut out = writer();
    program.write(packet, &value, &mut out, ByteOrder::BigEndian, &vec![]).unwrap();
    assert_eq!(out.freeze(), reader(&bytes));
}

#[test]
fn a_bad_declaration_leaves_the_program_as_it_was() {
    let mut program = Program::new();
    let error = program
        .declare(
            read_struct(vec![read_field(Some("next"), path("Foo"))]),
            write_struct(vec![write_field(Some("next"), path("Foo"))]),
        )
        .unwrap_err();
    assert_eq!(error, SchemaError::UnknownType);
    assert!(program.codecs.is_empty());
    assert!(program.names.is_empty());
    let error = program
        .declare(
            read_struct(vec![read_field(Some("v"), path("u8"))]),
            write_struct(vec![write_field(Some("v"), wrapper("Option", path("Nope")))]),
        )
        .unwrap_err();
    assert_eq!(error, SchemaError::UnknownType);
    assert!(program.codecs.is_empty());
    let mut first = Program::new();
    assert_eq!(first.add(Codec::for_record(
        &ParselyReadStructData {
            ident: "Unit".to_string(),
            style: Style::Unit,
            required_context: TypedFnArgList(vec![]),
            alignment: None,
            fields: vec![],
        },
        &ParselyWriteStructData {
            ident: "Unit".to_string(),
            required_context: TypedFnArgList(vec![]),
            alignment: None,
            sync_args: TypedFnArgList(vec![]),
            fields: vec![],
        },
    )), 0);
    assert_eq!(first.names, vec!["Unit".to_string()]);
}

fn gated_declarations() -> (ParselyReadReceiver, ParselyWriteReceiver) {
    let mut value = read_field(Some("value"), wrapper("Option", path("u8")));
    value.when = Some(Expr::Field(0));
    let read = read_struct(vec![read_field(Some("has_value"), path("bool")), value]);
    let write = write_struct(vec![
        write_field(Some("has_value"), path("bool")),
        write_field(Some("value"), wrapper("Option", path("u8"))),
    ]);
    (read, write)
}

#[test]
fn declared_flag_travels_as_one_byte() {
    let flag = read_field(Some("has_value"), path("bool"));
    let data = ParselyReadFieldData::from_receiver(Member::Named("has_value".to_string()), flag, &names())
        .unwrap();
    assert_eq!(data.common.ty, TypeClass::Scalar(Primitive::Bool(8)));
    let flag = write_field(Some("has_value"), path("bool"));
    let data = ParselyWriteFieldData::from_receiver(Member::Named("has_value".to_string()), flag, &names())
        .unwrap();
    assert_eq!(data.common.ty, TypeClass::Scalar(Primitive::Bool(8)));
}

#[test]
fn declared_optional_is_gated_by_the_declared_flag() {
    let (read, write) = gated_declarations();
    let mut program = Program::new();
    let index = program.declare(read, write).unwrap();
    let order = ByteOrder::BigEndian;

    let mut absent = reader(&vec![0]);
    let value = program.read(index, &mut absent, order, &vec![]).unwrap();
    assert_eq!(
        value,
        Value::Record(vec![Value::Scalar(Datum::Bool(false)), Value::Optional(None)])
    );
    assert_eq!(parsely::wire::remaining_bits(&absent), 0);

    let mut present = reader(&vec![1, 42]);
    let value = program.read(index, &mut present, order, &vec![]).unwrap();
    assert_eq!(
        value,
        Value::Record(vec![
            Value::Scalar(Datum::Bool(true)),
            Value::Optional(Some(Box::new(Value::Scalar(Datum::UInt(42))))),
        ])
    );
    assert_eq!(parsely::wire::remaining_bits(&present), 0);

    let mut out = writer();
    program.write(index, &value, &mut out, order, &vec![]).unwrap();
    assert_eq!(out.freeze(), reader(&vec![1, 42]));
    assert_eq!(program.round_trip(index, &value, order, &vec![]).unwrap(), value);
}
