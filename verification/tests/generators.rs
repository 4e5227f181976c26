use parsely::expr::{BinOp, Expr};
use parsely::member::Member;
use parsely::plan::{
    Args, Assertion, Label, ReadArmBody, ReadBody, ReadOp, ReadSteps, Shape, SyncOp, SyncSteps,
    TypeRef, WriteArmBody, WriteBody, WriteOp, WriteSteps,
};
use parsely::read_gen::{
    generate_collection_read, generate_plain_read, read_steps, wrap_in_optional,
    wrap_read_with_padding_handling,
};
use parsely::schema::{
    CollectionLimit, ComputedPayload, Context, MapExpr, ParselyCommonFieldData,
    ParselyReadFieldData, ParselyReadStructData, ParselyReadVariantData, ParselyWriteFieldData,
    ParselyWriteStructData, ParselyWriteVariantData, Style, TypeClass, TypedFnArgList,
};
use parsely::value::Datum;
use parsely::wire::Primitive;
use parsely::write_gen::{sync_steps, wrap_write_with_padding_handling, write_steps};

fn shown<T: std::fmt::Debug>(value: &T) -> String {
    format!("{:?}", value)
}

fn u8_ref() -> TypeRef {
    TypeRef::Primitive(Primitive::UInt(8))
}

fn named(name: &str) -> Member {
    Member::Named(name.to_string())
}

fn plain() -> ReadOp {
    ReadOp::Decode { ty: u8_ref(), args: Args::Nil }
}

fn encode() -> WriteOp {
    WriteOp::Encode { ty: u8_ref(), args: Args::Nil }
}

fn positive() -> Assertion {
    Assertion {
        predicate: Expr::Binary(BinOp::Gt, Box::new(Expr::Input), Box::new(Expr::Lit(0))),
        source: "|v| v > 0".to_string(),
    }
}

fn common(name: &str, ty: TypeClass) -> ParselyCommonFieldData {
    ParselyCommonFieldData {
        ident: named(name),
        ty,
        assertion: None,
        context: None,
        map: None,
        alignment: None,
        fixed: None,
        after: None,
    }
}

fn read_field(name: &str, ty: TypeClass) -> ParselyReadFieldData {
    ParselyReadFieldData {
        common: common(name, ty),
        collection_limit: None,
        assign_from: None,
        when: None,
        reader: None,
    }
}

fn write_field(name: &str, ty: TypeClass) -> ParselyWriteFieldData {
    ParselyWriteFieldData {
        common: common(name, ty),
        sync_expr: None,
        sync_with: Context(vec![]),
        writer: None,
    }
}

fn labelled_read(name: &str, inner: ReadOp) -> ReadOp {
    ReadOp::Context { label: Label::ReadingField(named(name)), inner: Box::new(inner) }
}

fn labelled_write(name: &str, inner: WriteOp) -> WriteOp {
    WriteOp::Context { label: Label::WritingField(named(name)), inner: Box::new(inner) }
}

#[test]
fn plain_read_decodes_the_type_with_the_arguments() {
    let args = Context(vec![Expr::Ctx(0)]).expressions(&Label::ReadContext(named("v")));
    let expected = ReadOp::Decode {
        ty: TypeRef::Named(2),
        args: Args::Cons {
            expr: Expr::Ctx(0),
            label: Label::Expression(Box::new(Label::ReadContext(named("v"))), 0),
            rest: Box::new(Args::Nil),
        },
    };
    assert_eq!(shown(&generate_plain_read(TypeRef::Named(2), args)), shown(&expected));
}

#[test]
fn collection_read_follows_its_strategy() {
    let by_count =
        generate_collection_read(&CollectionLimit::Count(Expr::Field(0)), u8_ref(), Args::Nil);
    let expected = ReadOp::Count { count: Expr::Field(0), item: Box::new(plain()) };
    assert_eq!(shown(&by_count), shown(&expected));
    let pred = Expr::Binary(BinOp::Gt, Box::new(Expr::Remaining), Box::new(Expr::Lit(0)));
    let by_predicate =
        generate_collection_read(&CollectionLimit::While(pred.duplicate()), u8_ref(), Args::Nil);
    let expected = ReadOp::While { pred, item: Box::new(plain()) };
    assert_eq!(shown(&by_predicate), shown(&expected));
}

#[test]
fn wrappers_put_the_read_inside() {
    let guarded = wrap_in_optional(&Expr::Flag(true), plain());
    let expected = ReadOp::When { guard: Expr::Flag(true), inner: Box::new(plain()) };
    assert_eq!(shown(&guarded), shown(&expected));
    let padded = wrap_read_with_padding_handling(4, plain());
    let expected = ReadOp::Align { alignment: 4, inner: Box::new(plain()) };
    assert_eq!(shown(&padded), shown(&expected));
    let padded = wrap_write_with_padding_handling(4, encode());
    let expected = WriteOp::Align { alignment: 4, inner: Box::new(encode()) };
    assert_eq!(shown(&padded), shown(&expected));
}

#[test]
fn mappings_and_assertions_name_their_field() {
    let map = MapExpr { raw: Some(Primitive::UInt(8)), transform: Expr::Input };
    let expected =
        ReadOp::Mapped { raw: Some(Primitive::UInt(8)), transform: Expr::Input, field: named("v") };
    assert_eq!(shown(&map.to_read_map_op(&named("v"))), shown(&expected));
    let expected =
        WriteOp::Mapped { transform: Expr::Input, raw: Some(Primitive::UInt(8)), field: named("v") };
    assert_eq!(shown(&map.to_write_map_op(&named("v"))), shown(&expected));
    let expected =
        ReadOp::Assert { inner: Box::new(plain()), assertion: positive(), field: named("v") };
    assert_eq!(shown(&positive().to_read_assertion_op(&named("v"), plain())), shown(&expected));
    let expected =
        WriteOp::Assert { assertion: positive(), field: named("v"), inner: Box::new(encode()) };
    assert_eq!(shown(&positive().to_write_assertion_op(&named("v"), encode())), shown(&expected));
}

#[test]
fn context_expressions_are_numbered_in_order() {
    let args = Context(vec![Expr::Lit(7), Expr::Field(1)]).expressions(&Label::Tag("T".into()));
    let expected = Args::Cons {
        expr: Expr::Lit(7),
        label: Label::Expression(Box::new(Label::Tag("T".into())), 0),
        rest: Box::new(Args::Cons {
            expr: Expr::Field(1),
            label: Label::Expression(Box::new(Label::Tag("T".into())), 1),
            rest: Box::new(Args::Nil),
        }),
    };
    assert_eq!(shown(&args), shown(&expected));
    assert_eq!(shown(&Context(vec![]).expressions(&Label::Padding)), shown(&Args::Nil));

    let mut nested = read_field("body", TypeClass::Other(0));
    nested.common.context = Some(Context(vec![Expr::Field(0)]));
    assert_eq!(shown(&nested.context_values()), shown(&nested.common.context_values()));
    assert!(matches!(nested.context_values(), Args::Cons { expr: Expr::Field(0), .. }));

    let mut field = write_field("body", TypeClass::Other(0));
    assert_eq!(shown(&field.common.context_values()), shown(&Args::Nil));
    field.common.context = Some(Context(vec![Expr::Field(0)]));
    field.sync_with = Context(vec![Expr::Ctx(0)]);
    let expected = Args::Cons {
        expr: Expr::Field(0),
        label: Label::Expression(Box::new(Label::ReadContext(named("body"))), 0),
        rest: Box::new(Args::Nil),
    };
    assert_eq!(shown(&field.common.context_values()), shown(&expected));
    let expected = Args::Cons {
        expr: Expr::Ctx(0),
        label: Label::Expression(Box::new(Label::SyncContext(named("body"))), 0),
        rest: Box::new(Args::Nil),
    };
    assert_eq!(shown(&field.sync_with_expressions()), shown(&expected));
}

#[test]
fn field_read_nests_its_modifiers_from_the_inside_out() {
    let mut field = read_field("v", TypeClass::Optional(u8_ref()));
    field.when = Some(Expr::Field(0));
    field.common.assertion = Some(positive());
    field.common.fixed = Some(Datum::UInt(9));
    field.common.alignment = Some(4);
    field.common.after = Some(Expr::Input);
    let asserted =
        ReadOp::Assert { inner: Box::new(plain()), assertion: positive(), field: named("v") };
    let fixed = ReadOp::Fixed { inner: Box::new(asserted), expected: Datum::UInt(9) };
    let guarded = ReadOp::When { guard: Expr::Field(0), inner: Box::new(labelled_read("v", fixed)) };
    let padded = ReadOp::Align { alignment: 4, inner: Box::new(guarded) };
    let expected = ReadOp::After { inner: Box::new(padded), hook: Expr::Input };
    assert_eq!(shown(&field.to_read_op()), shown(&expected));
}

#[test]
fn field_read_takes_the_first_declared_source() {
    let map = || MapExpr { raw: Some(Primitive::UInt(8)), transform: Expr::Input };
    let mut field = read_field("v", TypeClass::Collection(u8_ref()));
    field.collection_limit = Some(CollectionLimit::Count(Expr::Lit(2)));
    let counted = ReadOp::Count { count: Expr::Lit(2), item: Box::new(plain()) };
    assert_eq!(shown(&field.to_read_op()), shown(&labelled_read("v", counted)));
    field.reader = Some(3);
    let custom = ReadOp::Decode { ty: TypeRef::Named(3), args: Args::Nil };
    assert_eq!(shown(&field.to_read_op()), shown(&labelled_read("v", custom)));
    field.common.map = Some(map());
    let mapped =
        ReadOp::Mapped { raw: Some(Primitive::UInt(8)), transform: Expr::Input, field: named("v") };
    assert_eq!(shown(&field.to_read_op()), shown(&labelled_read("v", mapped)));
    field.assign_from = Some(Expr::Lit(5));
    assert_eq!(shown(&field.to_read_op()), shown(&labelled_read("v", ReadOp::Assign(Expr::Lit(5)))));

    let mut optional = read_field("o", TypeClass::Optional(u8_ref()));
    optional.common.map = Some(map());
    let mapped =
        ReadOp::Mapped { raw: Some(Primitive::UInt(8)), transform: Expr::Input, field: named("o") };
    assert_eq!(shown(&optional.to_read_op()), shown(&labelled_read("o", mapped)));
}

#[test]
fn field_write_checks_before_it_writes() {
    let mut field = write_field("v", TypeClass::Scalar(Primitive::UInt(8)));
    field.common.assertion = Some(positive());
    field.common.fixed = Some(Datum::UInt(9));
    field.common.alignment = Some(2);
    field.common.after = Some(Expr::Input);
    let fixed =
        WriteOp::Fixed { expected: Datum::UInt(9), inner: Box::new(labelled_write("v", encode())) };
    let asserted =
        WriteOp::Assert { assertion: positive(), field: named("v"), inner: Box::new(fixed) };
    let padded = WriteOp::Align { alignment: 2, inner: Box::new(asserted) };
    let expected = WriteOp::After { inner: Box::new(padded), hook: Expr::Input };
    assert_eq!(shown(&field.to_write_op()), shown(&expected));
}

#[test]
fn field_write_follows_the_class_of_its_type() {
    let optional = write_field("o", TypeClass::Optional(u8_ref()));
    let expected = WriteOp::IfPresent { inner: Box::new(labelled_write("o", encode())) };
    assert_eq!(shown(&optional.to_write_op()), shown(&expected));
    let collection = write_field("c", TypeClass::Collection(u8_ref()));
    let expected = labelled_write("c", WriteOp::Each { item: Box::new(encode()) });
    assert_eq!(shown(&collection.to_write_op()), shown(&expected));
    let mut nested = write_field("n", TypeClass::Other(1));
    let expected = labelled_write("n", WriteOp::Encode { ty: TypeRef::Named(1), args: Args::Nil });
    assert_eq!(shown(&nested.to_write_op()), shown(&expected));
    nested.common.map = Some(MapExpr { raw: Some(Primitive::UInt(16)), transform: Expr::Input });
    let expected =
        WriteOp::Mapped { transform: Expr::Input, raw: Some(Primitive::UInt(16)), field: named("n") };
    assert_eq!(shown(&nested.to_write_op()), shown(&expected));
    nested.writer = Some(4);
    let expected = labelled_write("n", WriteOp::Encode { ty: TypeRef::Named(4), args: Args::Nil });
    assert_eq!(shown(&nested.to_write_op()), shown(&expected));
}

#[test]
fn field_sync_assigns_skips_or_delegates() {
    let mut field = write_field("len", TypeClass::Scalar(Primitive::UInt(8)));
    let expected = SyncOp::Delegate { ty: u8_ref(), args: Args::Nil, field: named("len") };
    assert_eq!(shown(&field.to_sync_call_op()), shown(&expected));
    field.sync_expr = Some(Expr::Count(1));
    let expected = SyncOp::Assign { expr: Expr::Count(1), field: named("len") };
    assert_eq!(shown(&field.to_sync_call_op()), shown(&expected));
    let wrapped = write_field("items", TypeClass::Collection(u8_ref()));
    assert_eq!(shown(&wrapped.to_sync_call_op()), shown(&SyncOp::Skip));
}

#[test]
fn steps_keep_the_declaration_order() {
    let reads = vec![
        read_field("a", TypeClass::Scalar(Primitive::UInt(8))),
        read_field("b", TypeClass::Scalar(Primitive::UInt(8))),
    ];
    let expected = ReadSteps::Bind {
        target: named("a"),
        op: labelled_read("a", plain()),
        rest: Box::new(ReadSteps::Bind {
            target: named("b"),
            op: labelled_read("b", plain()),
            rest: Box::new(ReadSteps::Done),
        }),
    };
    assert_eq!(shown(&read_steps(&reads)), shown(&expected));
    assert_eq!(shown(&read_steps(&vec![])), shown(&ReadSteps::Done));

    let writes = vec![
        write_field("a", TypeClass::Scalar(Primitive::UInt(8))),
        write_field("b", TypeClass::Collection(u8_ref())),
    ];
    let expected = WriteSteps::Put {
        source: named("a"),
        op: labelled_write("a", encode()),
        rest: Box::new(WriteSteps::Put {
            source: named("b"),
            op: labelled_write("b", WriteOp::Each { item: Box::new(encode()) }),
            rest: Box::new(WriteSteps::Done),
        }),
    };
    assert_eq!(shown(&write_steps(&writes)), shown(&expected));
    let expected = SyncSteps::Step {
        op: SyncOp::Delegate { ty: u8_ref(), args: Args::Nil, field: named("a") },
        rest: Box::new(SyncSteps::Step { op: SyncOp::Skip, rest: Box::new(SyncSteps::Done) }),
    };
    assert_eq!(shown(&sync_steps(&writes)), shown(&expected));
}

#[test]
fn record_procedures_carry_name_parameters_and_alignment() {
    let params = || {
        TypedFnArgList(vec![parsely::plan::TypedFnArg {
            name: "n".to_string(),
            ty: "u8".to_string(),
        }])
    };
    let read = ParselyReadStructData {
        ident: "Header".to_string(),
        style: Style::Tuple,
        required_context: params(),
        alignment: Some(4),
        fields: vec![read_field("a", TypeClass::Scalar(Primitive::UInt(8)))],
    }
    .to_procedure();
    assert_eq!(read.name, "Header");
    assert_eq!(read.alignment, Some(4));
    assert_eq!(shown(&read.params), shown(&params().0));
    let expected = ReadBody::Record(
        ReadSteps::Bind {
            target: named("a"),
            op: labelled_read("a", plain()),
            rest: Box::new(ReadSteps::Done),
        },
        Shape::Tuple,
    );
    assert_eq!(shown(&read.body), shown(&expected));

    let data = ParselyWriteStructData {
        ident: "Header".to_string(),
        required_context: params(),
        alignment: Some(4),
        sync_args: TypedFnArgList(vec![]),
        fields: vec![write_field("a", TypeClass::Scalar(Primitive::UInt(8)))],
    };
    let write = data.to_procedure();
    assert_eq!(write.name, "Header");
    assert_eq!(write.alignment, Some(4));
    assert_eq!(shown(&write.params), shown(&params().0));
    let expected = WriteBody::Record(WriteSteps::Put {
        source: named("a"),
        op: labelled_write("a", encode()),
        rest: Box::new(WriteSteps::Done),
    });
    assert_eq!(shown(&write.body), shown(&expected));
    let sync = data.to_sync_procedure();
    assert_eq!(sync.name, "Header");
    assert!(sync.params.is_empty());
    let expected = SyncSteps::Step {
        op: SyncOp::Delegate { ty: u8_ref(), args: Args::Nil, field: named("a") },
        rest: Box::new(SyncSteps::Done),
    };
    assert_eq!(shown(&sync.steps), shown(&expected));
}

#[test]
fn variant_arms_are_computed_or_field_by_field() {
    let computed = ParselyReadVariantData {
        enum_name: "Kind".to_string(),
        ident: "Fixed".to_string(),
        id: Expr::Lit(1),
        discriminant: Some(Expr::Lit(7)),
        fields: vec![],
    };
    assert_eq!(shown(&computed.to_arm_body()), shown(&ReadArmBody::Computed(Expr::Lit(7))));
    let fields = ParselyReadVariantData {
        enum_name: "Kind".to_string(),
        ident: "Pair".to_string(),
        id: Expr::Lit(2),
        discriminant: None,
        fields: vec![read_field("a", TypeClass::Scalar(Primitive::UInt(8)))],
    };
    let expected = ReadArmBody::Fields(
        ReadSteps::Bind {
            target: named("a"),
            op: labelled_read("a", plain()),
            rest: Box::new(ReadSteps::Done),
        },
        Shape::Named,
    );
    assert_eq!(shown(&fields.to_arm_body()), shown(&expected));

    let computed = ParselyWriteVariantData {
        enum_name: "Kind".to_string(),
        ident: "Fixed".to_string(),
        id: Expr::Lit(1),
        discriminant: Some(ComputedPayload { expr: Expr::Lit(7), ty: Primitive::UInt(8) }),
        fields: vec![],
    };
    assert_eq!(
        shown(&computed.to_arm_body()),
        shown(&WriteArmBody::Computed(Expr::Lit(7), Primitive::UInt(8)))
    );
}
