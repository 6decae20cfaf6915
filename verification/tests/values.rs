use std::rc::Rc;

use rlox::ast::{BinaryOperator, FunDeclStatement, UnaryOperator};
use rlox::callable::{Callable, Function};
use rlox::error::LoxErrorKind;
use rlox::native::clock_value;
use rlox::number::{FloatUnit, NumberOp};
use rlox::tokens::{LiteralValue, Token, TokenType};
use rlox::value::{apply_binary, apply_unary, Value};

fn value_unit() -> FloatUnit<
    impl Fn(String) -> Option<u64>,
    impl Fn(NumberOp, u64, u64) -> u64,
    impl Fn(u64) -> String,
> {
    FloatUnit {
        parse: |text: String| text.parse::<f64>().ok().map(f64::to_bits),
        combine: |op: NumberOp, left: u64, right: u64| {
            let l = f64::from_bits(left);
            let r = f64::from_bits(right);
            let result = match op {
                NumberOp::Add => l + r,
                NumberOp::Subtract => l - r,
                NumberOp::Multiply => l * r,
                NumberOp::Divide => l / r,
            };
            result.to_bits()
        },
        render: |number: u64| format!("{}", f64::from_bits(number)),
    }
}

fn number(n: f64) -> Value {
    Value::NumberValue(n.to_bits())
}

fn text(s: &str) -> Value {
    Value::StringValue(s.to_string())
}

fn name(lexeme: &str) -> Token {
    Token { token_type: TokenType::Identifier, lexeme: lexeme.to_string(), literal: None, line: 1, id: 0 }
}

fn function(lexeme: &str) -> Value {
    let declaration = FunDeclStatement { name: name(lexeme), parameters: Vec::new(), body: Vec::new() };
    Value::Callable(Callable::Function(Function::new(Rc::new(declaration), 0, false)))
}

fn every_kind() -> Vec<Value> {
    vec![
        number(0.0),
        number(1.5),
        text(""),
        text("a"),
        Value::BooleanValue(true),
        Value::BooleanValue(false),
        Value::NilValue,
        function("f"),
        Value::Callable(Callable::Clock),
        Value::ClassValue(0),
        Value::InstanceValue(0),
    ]
}

fn as_number(v: &Value) -> f64 {
    match v {
        Value::NumberValue(bits) => f64::from_bits(*bits),
        other => panic!("no number: {:?}", other),
    }
}

fn as_bool(v: &Value) -> bool {
    match v {
        Value::BooleanValue(b) => *b,
        other => panic!("no boolean: {:?}", other),
    }
}

#[test]
fn only_false_and_nil_count_as_false() {
    let truths: Vec<bool> = every_kind().iter().map(|v| v.is_truthy()).collect();
    assert_eq!(truths, vec![true, true, true, true, true, false, false, true, true, true, true]);
}

#[test]
fn not_is_true_of_false_and_nil_alone() {
    for v in every_kind() {
        let expected = matches!(v, Value::BooleanValue(false) | Value::NilValue);
        let result = apply_unary(UnaryOperator::Bang, v).unwrap();
        assert_eq!(as_bool(&result), expected);
    }
}

#[test]
fn minus_takes_a_number() {
    assert_eq!(as_number(&apply_unary(UnaryOperator::Minus, number(2.5)).unwrap()), -2.5);
    assert_eq!(as_number(&apply_unary(UnaryOperator::Minus, number(-1.0)).unwrap()), 1.0);
    assert!(as_number(&apply_unary(UnaryOperator::Minus, number(0.0)).unwrap()).is_sign_negative());
    for v in every_kind().into_iter().skip(2) {
        let error = apply_unary(UnaryOperator::Minus, v).unwrap_err();
        assert_eq!(error.kind, LoxErrorKind::TypeError);
        assert_eq!(error.message, "unsupported operand types");
    }
}

#[test]
fn equality_is_reflexive_on_numbers_strings_booleans_and_nil() {
    for v in every_kind().into_iter().take(7) {
        assert!(v.is_equal(&v.clone()), "{:?}", v);
    }
    assert!(!number(f64::NAN).is_equal(&number(f64::NAN)));
    for v in every_kind().into_iter().skip(7) {
        assert!(!v.is_equal(&v.clone()), "{:?}", v);
    }
}

#[test]
fn equality_is_false_between_different_kinds() {
    let kinds = vec![number(1.0), text("1"), Value::BooleanValue(true), Value::NilValue, function("f"), Value::ClassValue(1), Value::InstanceValue(1)];
    for (i, a) in kinds.iter().enumerate() {
        for (j, b) in kinds.iter().enumerate() {
            if i != j {
                assert!(!a.is_equal(b), "{:?} == {:?}", a, b);
                let result = apply_binary(&value_unit(), BinaryOperator::EqualEqual, a.clone(), b.clone()).unwrap();
                assert!(!as_bool(&result));
                let result = apply_binary(&value_unit(), BinaryOperator::BangEqual, a.clone(), b.clone()).unwrap();
                assert!(as_bool(&result));
            }
        }
    }
}

#[test]
fn arithmetic_on_numbers() {
    let unit = value_unit();
    let cases = [
        (BinaryOperator::Plus, 1.5, 2.25, 3.75),
        (BinaryOperator::Minus, 1.5, 2.25, -0.75),
        (BinaryOperator::Star, 1.5, 2.0, 3.0),
        (BinaryOperator::Slash, 1.0, 4.0, 0.25),
    ];
    for (operator, left, right, expected) in cases {
        let result = apply_binary(&unit, operator, number(left), number(right)).unwrap();
        assert_eq!(as_number(&result), expected);
    }
    let result = apply_binary(&unit, BinaryOperator::Slash, number(1.0), number(0.0)).unwrap();
    assert_eq!(as_number(&result), f64::INFINITY);
}

#[test]
fn comparisons_on_numbers() {
    let unit = value_unit();
    let cases = [
        (BinaryOperator::Less, 1.0, 2.0, true),
        (BinaryOperator::Less, 2.0, 2.0, false),
        (BinaryOperator::LessEqual, 2.0, 2.0, true),
        (BinaryOperator::LessEqual, 3.0, 2.0, false),
        (BinaryOperator::Greater, 3.0, 2.0, true),
        (BinaryOperator::Greater, 2.0, 2.0, false),
        (BinaryOperator::GreaterEqual, 2.0, 2.0, true),
        (BinaryOperator::GreaterEqual, 1.0, 2.0, false),
        (BinaryOperator::Greater, -1.0, -2.0, true),
        (BinaryOperator::Less, f64::NAN, 1.0, false),
        (BinaryOperator::GreaterEqual, f64::NAN, f64::NAN, false),
    ];
    for (operator, left, right, expected) in cases {
        let result = apply_binary(&unit, operator, number(left), number(right)).unwrap();
        assert_eq!(as_bool(&result), expected, "{:?} {} {}", operator, left, right);
    }
}

#[test]
fn plus_joins_strings_and_nothing_else_takes_them() {
    let unit = value_unit();
    match apply_binary(&unit, BinaryOperator::Plus, text("ab"), text("cd")).unwrap() {
        Value::StringValue(s) => assert_eq!(s, "abcd"),
        other => panic!("no string: {:?}", other),
    }
    for operator in [
        BinaryOperator::Minus,
        BinaryOperator::Star,
        BinaryOperator::Slash,
        BinaryOperator::Less,
        BinaryOperator::LessEqual,
        BinaryOperator::Greater,
        BinaryOperator::GreaterEqual,
    ] {
        let error = apply_binary(&unit, operator, text("a"), text("b")).unwrap_err();
        assert_eq!(error.kind, LoxErrorKind::TypeError);
    }
}

#[test]
fn operands_of_other_kinds_are_a_type_error() {
    let unit = value_unit();
    for operator in [
        BinaryOperator::Plus,
        BinaryOperator::Minus,
        BinaryOperator::Star,
        BinaryOperator::Slash,
        BinaryOperator::Less,
        BinaryOperator::LessEqual,
        BinaryOperator::Greater,
        BinaryOperator::GreaterEqual,
    ] {
        for left in every_kind() {
            for right in every_kind() {
                let both_numbers = matches!((&left, &right), (Value::NumberValue(_), Value::NumberValue(_)));
                let both_strings = matches!((&left, &right), (Value::StringValue(_), Value::StringValue(_)));
                let result = apply_binary(&unit, operator, left.clone(), right);
                if both_numbers || (both_strings && operator == BinaryOperator::Plus) {
                    assert!(result.is_ok());
                } else {
                    let error = result.unwrap_err();
                    assert_eq!(error.kind, LoxErrorKind::TypeError);
                    assert_eq!(error.message, "unsupported operand types");
                }
            }
        }
    }
}

#[test]
fn the_value_of_a_literal() {
    assert_eq!(as_number(&Value::of_literal(&LiteralValue::NumberValue(2.5f64.to_bits()))), 2.5);
    assert!(matches!(Value::of_literal(&LiteralValue::StringValue("s".to_string())), Value::StringValue(s) if s == "s"));
    assert!(matches!(Value::of_literal(&LiteralValue::BooleanValue(true)), Value::BooleanValue(true)));
    assert!(matches!(Value::of_literal(&LiteralValue::NilValue), Value::NilValue));
}

#[test]
fn a_copy_of_a_function_shares_its_declaration() {
    let first = match function("shared") {
        Value::Callable(Callable::Function(f)) => f,
        other => panic!("no function: {:?}", other),
    };
    let copy = first.clone();
    assert!(Rc::ptr_eq(&first.declaration, &copy.declaration));
    assert_eq!(copy.closure, first.closure);
    assert_eq!(copy.is_initializer, first.is_initializer);
    assert_eq!(copy.declaration.name.lexeme, "shared");
    assert_eq!(Rc::strong_count(&first.declaration), 2);
    assert_eq!(first.arity(), 0);
}

#[test]
fn the_clock_value_of_a_reading() {
    let unit = value_unit();
    assert_eq!(as_number(&clock_value(Some(0), &unit).unwrap()), 0.0);
    assert_eq!(as_number(&clock_value(Some(1700000000), &unit).unwrap()), 1700000000.0);
    assert_eq!(as_number(&clock_value(Some(u64::MAX), &unit).unwrap()), u64::MAX as f64);
    let error = clock_value(None, &unit).unwrap_err();
    assert_eq!(error.kind, LoxErrorKind::RuntimeError);
    assert_eq!(error.message, "System time before unix epoch");
    let deaf = FloatUnit {
        parse: |_text: String| None,
        combine: |_op: NumberOp, left: u64, _right: u64| left,
        render: |_number: u64| String::new(),
    };
    let error = clock_value(Some(1), &deaf).unwrap_err();
    assert_eq!(error.kind, LoxErrorKind::RuntimeError);
}
