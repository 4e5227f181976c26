use parsely::bits::{fits, power_of_two, write_value_at, ByteOrder};
use parsely::expr::{apply, duplicate_exprs, duplicate_opt, BinOp, Expr};
use parsely::source::{compile_expr, ExprShape, Scope};
use parsely::value::{Datum, Value};
use parsely::wire::{primitive_raw, Primitive};

fn bin(op: BinOp, a: Expr, b: Expr) -> Expr {
    Expr::Binary(op, Box::new(a), Box::new(b))
}

fn eval(e: &Expr) -> Option<Datum> {
    let ctx = vec![Datum::UInt(7), Datum::Bool(true)];
    let fields = vec![
        Value::Scalar(Datum::UInt(3)),
        Value::List(vec![Value::Scalar(Datum::UInt(1)), Value::Scalar(Datum::UInt(2))]),
        Value::Optional(None),
        Value::Optional(Some(Box::new(Value::Scalar(Datum::UInt(9))))),
    ];
    e.eval(&ctx, &fields, Some(Datum::UInt(5)), 11)
}

#[test]
fn literals_and_references_evaluate() {
    assert_eq!(eval(&Expr::Lit(4)), Some(Datum::UInt(4)));
    assert_eq!(eval(&Expr::Flag(false)), Some(Datum::Bool(false)));
    assert_eq!(eval(&Expr::Ctx(0)), Some(Datum::UInt(7)));
    assert_eq!(eval(&Expr::Ctx(1)), Some(Datum::Bool(true)));
    assert_eq!(eval(&Expr::Ctx(2)), None);
    assert_eq!(eval(&Expr::Field(0)), Some(Datum::UInt(3)));
    assert_eq!(eval(&Expr::Field(1)), None);
    assert_eq!(eval(&Expr::Field(9)), None);
    assert_eq!(eval(&Expr::Count(1)), Some(Datum::UInt(2)));
    assert_eq!(eval(&Expr::Count(0)), None);
    assert_eq!(eval(&Expr::Present(2)), Some(Datum::Bool(false)));
    assert_eq!(eval(&Expr::Present(3)), Some(Datum::Bool(true)));
    assert_eq!(eval(&Expr::Present(0)), None);
    assert_eq!(eval(&Expr::Input), Some(Datum::UInt(5)));
    assert_eq!(eval(&Expr::Remaining), Some(Datum::UInt(11)));
}

#[test]
fn arithmetic_is_checked() {
    assert_eq!(apply(BinOp::Add, Datum::UInt(2), Datum::UInt(3)), Some(Datum::UInt(5)));
    assert_eq!(apply(BinOp::Add, Datum::UInt(u64::MAX), Datum::UInt(1)), None);
    assert_eq!(apply(BinOp::Sub, Datum::UInt(3), Datum::UInt(2)), Some(Datum::UInt(1)));
    assert_eq!(apply(BinOp::Sub, Datum::UInt(2), Datum::UInt(3)), None);
    assert_eq!(apply(BinOp::Mul, Datum::UInt(6), Datum::UInt(7)), Some(Datum::UInt(42)));
    assert_eq!(apply(BinOp::Mul, Datum::UInt(u64::MAX), Datum::UInt(2)), None);
    assert_eq!(apply(BinOp::Div, Datum::UInt(7), Datum::UInt(2)), Some(Datum::UInt(3)));
    assert_eq!(apply(BinOp::Div, Datum::UInt(7), Datum::UInt(0)), None);
    assert_eq!(apply(BinOp::Rem, Datum::UInt(7), Datum::UInt(2)), Some(Datum::UInt(1)));
    assert_eq!(apply(BinOp::Rem, Datum::UInt(7), Datum::UInt(0)), None);
}

#[test]
fn comparisons_and_logic_yield_flags() {
    assert_eq!(apply(BinOp::Eq, Datum::UInt(2), Datum::UInt(2)), Some(Datum::Bool(true)));
    assert_eq!(apply(BinOp::Ne, Datum::UInt(2), Datum::UInt(2)), Some(Datum::Bool(false)));
    assert_eq!(apply(BinOp::Lt, Datum::UInt(2), Datum::UInt(3)), Some(Datum::Bool(true)));
    assert_eq!(apply(BinOp::Le, Datum::UInt(3), Datum::UInt(3)), Some(Datum::Bool(true)));
    assert_eq!(apply(BinOp::Gt, Datum::UInt(2), Datum::UInt(3)), Some(Datum::Bool(false)));
    assert_eq!(apply(BinOp::Ge, Datum::UInt(2), Datum::UInt(3)), Some(Datum::Bool(false)));
    assert_eq!(apply(BinOp::And, Datum::Bool(true), Datum::Bool(false)), Some(Datum::Bool(false)));
    assert_eq!(apply(BinOp::Or, Datum::Bool(true), Datum::Bool(false)), Some(Datum::Bool(true)));
    assert_eq!(apply(BinOp::Eq, Datum::Bool(true), Datum::Bool(true)), Some(Datum::Bool(true)));
    assert_eq!(apply(BinOp::Ne, Datum::Bool(true), Datum::Bool(true)), Some(Datum::Bool(false)));
    assert_eq!(apply(BinOp::And, Datum::UInt(1), Datum::UInt(1)), None);
    assert_eq!(apply(BinOp::Or, Datum::UInt(1), Datum::UInt(1)), None);
    assert_eq!(apply(BinOp::Add, Datum::Bool(true), Datum::Bool(true)), None);
    assert_eq!(apply(BinOp::Eq, Datum::Bool(true), Datum::UInt(1)), None);
}

#[test]
fn compound_expressions_evaluate_both_operands() {
    let half = bin(BinOp::Div, Expr::Ctx(0), Expr::Lit(2));
    assert_eq!(eval(&half), Some(Datum::UInt(3)));
    let even = bin(BinOp::Eq, bin(BinOp::Rem, Expr::Input, Expr::Lit(2)), Expr::Lit(0));
    assert_eq!(eval(&even), Some(Datum::Bool(false)));
    assert_eq!(eval(&Expr::Not(Box::new(even))), Some(Datum::Bool(true)));
    assert_eq!(eval(&Expr::Not(Box::new(Expr::Lit(1)))), None);
    let broken = bin(BinOp::Or, Expr::Flag(true), Expr::Field(9));
    assert_eq!(eval(&broken), None);
}

#[test]
fn duplicates_evaluate_alike() {
    let e = bin(BinOp::Add, Expr::Ctx(0), Expr::Not(Box::new(Expr::Flag(true))));
    let copy = e.duplicate();
    assert_eq!(format!("{:?}", copy), format!("{:?}", e));
    let list = vec![Expr::Lit(1), Expr::Remaining];
    assert_eq!(format!("{:?}", duplicate_exprs(&list)), format!("{:?}", list));
    assert!(duplicate_opt(&None).is_none());
    assert_eq!(format!("{:?}", duplicate_opt(&Some(Expr::Lit(2)))), "Some(Lit(2))");
}

fn bits(s: &str) -> Vec<bool> {
    s.chars().filter(|c| *c != '_').map(|c| c == '1').collect()
}

#[test]
fn values_are_laid_out_by_their_place_in_the_byte() {
    let be = ByteOrder::BigEndian;
    let le = ByteOrder::LittleEndian;
    assert_eq!(write_value_at(be, 0b101010101, 9, 0), bits("101010101"));
    assert_eq!(write_value_at(be, 0b101010101, 9, 5), bits("101010101"));
    assert_eq!(write_value_at(be, 0xABCD, 16, 0), bits("10101011_11001101"));
    assert_eq!(write_value_at(be, 0xFF, 4, 0), bits("1111"));
    assert_eq!(write_value_at(be, 5, 0, 0), bits(""));
    assert_eq!(write_value_at(le, 0b0110, 4, 6), bits("0110"));
    assert_eq!(write_value_at(le, 0xA5, 8, 3), bits("10100101"));
    assert_eq!(write_value_at(le, 0b1_10101011, 9, 0), bits("10101011_1"));
    assert_eq!(write_value_at(le, 0xABCD, 16, 0), bits("11001101_10101011"));
    assert_eq!(write_value_at(le, 0x3C5, 12, 3), bits("00101_0011110"));
    assert_eq!(write_value_at(le, 0xABCD, 16, 4), bits("1101_10111100_1010"));
}

#[test]
fn widths_bound_the_values_that_fit() {
    assert_eq!(power_of_two(0), 1);
    assert_eq!(power_of_two(10), 1024);
    assert_eq!(power_of_two(63), 1u64 << 63);
    assert!(fits(255, 8));
    assert!(!fits(256, 8));
    assert!(fits(0, 0));
    assert!(!fits(1, 0));
    assert!(fits(u64::MAX, 64));
    assert!(fits(u64::MAX, 200));
}

#[test]
fn primitives_turn_into_numbers() {
    assert_eq!(primitive_raw(Primitive::UInt(4), Datum::UInt(0b1010)), Some(0b1010));
    assert_eq!(primitive_raw(Primitive::UInt(4), Datum::UInt(16)), None);
    assert_eq!(primitive_raw(Primitive::Bool(8), Datum::Bool(true)), Some(1));
    assert_eq!(primitive_raw(Primitive::Bool(1), Datum::Bool(false)), Some(0));
    assert_eq!(primitive_raw(Primitive::Bool(1), Datum::UInt(1)), None);
    assert_eq!(primitive_raw(Primitive::UInt(8), Datum::Bool(true)), None);
    assert_eq!(Primitive::UInt(12).width(), 12);
    assert!(Primitive::UInt(32).is_supported());
    assert!(!Primitive::UInt(33).is_supported());
    assert!(!Primitive::Bool(0).is_supported());
}

#[test]
fn expression_that_cannot_be_resolved_is_kept_as_written() {
    let scope = Scope { params: vec!["size".to_string()], fields: vec!["len".to_string()] };
    let written = "v . to_string ()".to_string();
    let kept = compile_expr(&ExprShape::Other, &written, &scope, None);
    assert!(matches!(&kept, Expr::Opaque(text) if *text == written));
    assert_eq!(kept.eval(&vec![Datum::UInt(1)], &vec![], None, 0), None);
    assert!(matches!(kept.duplicate(), Expr::Opaque(text) if text == written));

    let partly = ExprShape::Binary(
        BinOp::Add,
        Box::new(ExprShape::Name("len".to_string())),
        Box::new(ExprShape::Other),
    );
    let written = "len + f (1)".to_string();
    assert!(matches!(
        compile_expr(&partly, &written, &scope, None),
        Expr::Opaque(text) if text == written
    ));
    let known = ExprShape::Binary(
        BinOp::Div,
        Box::new(ExprShape::Name("size".to_string())),
        Box::new(ExprShape::Int(2)),
    );
    assert!(matches!(
        compile_expr(&known, &"size / 2".to_string(), &scope, None),
        Expr::Binary(BinOp::Div, _, _)
    ));
}
