use vstd::prelude::*;
use vstd::string::StringExecFns;
use crate::ast::{BinaryOperator, UnaryOperator};
use crate::callable::{Callable, Function, FunctionModel};
use crate::error::{LoxError, LoxErrorKind};
use crate::number::{
    at_most, equal, less, negate, negated, number_at_most, number_less, numbers_equal, is_nan,
    FloatUnit, NumberOp,
};
use crate::tokens::{LiteralModel, LiteralValue};

verus! {

/// A runtime value.  Classes and instances are handles into the interpreter's
/// heap; a number is the bit pattern of a double.
#[derive(Debug)]
pub enum Value {
    NumberValue(u64),
    StringValue(String),
    BooleanValue(bool),
    NilValue,
    Callable(Callable),
    ClassValue(usize),
    InstanceValue(usize),
}

/// What a `Value` stands for.
pub enum ValueModel {
    Number(u64),
    Text(Seq<char>),
    Boolean(bool),
    Nil,
    Function(FunctionModel),
    Clock,
    Class(usize),
    Instance(usize),
}

impl View for Value {
    type V = ValueModel;

    open spec fn view(&self) -> ValueModel {
        match self {
            Value::NumberValue(n) => ValueModel::Number(*n),
            Value::StringValue(s) => ValueModel::Text(s@),
            Value::BooleanValue(b) => ValueModel::Boolean(*b),
            Value::NilValue => ValueModel::Nil,
            Value::Callable(Callable::Function(f)) => ValueModel::Function(f@),
            Value::Callable(Callable::Clock) => ValueModel::Clock,
            Value::ClassValue(c) => ValueModel::Class(*c),
            Value::InstanceValue(i) => ValueModel::Instance(*i),
        }
    }
}

impl Clone for Value {
    fn clone(&self) -> (copy: Self)
        ensures
            copy == *self,
    {
        match self {
            Value::NumberValue(n) => Value::NumberValue(*n),
            Value::StringValue(s) => Value::StringValue(s.clone()),
            Value::BooleanValue(b) => Value::BooleanValue(*b),
            Value::NilValue => Value::NilValue,
            Value::Callable(Callable::Function(f)) => Value::Callable(Callable::Function(f.clone())),
            Value::Callable(Callable::Clock) => Value::Callable(Callable::Clock),
            Value::ClassValue(c) => Value::ClassValue(*c),
            Value::InstanceValue(i) => Value::InstanceValue(*i),
        }
    }
}

/// The result of a computation on values, as a result on their models.
pub open spec fn value_outcome(r: Result<Value, LoxError>) -> Result<ValueModel, LoxError> {
    match r {
        Ok(v) => Ok(v@),
        Err(e) => Err(e),
    }
}

/// The models of a list of values, in order.
pub open spec fn value_views(values: Seq<Value>) -> Seq<ValueModel> {
    Seq::new(values.len(), |i: int| values[i]@)
}

/// The value of a literal.
pub open spec fn literal_value(literal: LiteralModel) -> ValueModel {
    match literal {
        LiteralModel::Number(n) => ValueModel::Number(n),
        LiteralModel::Text(s) => ValueModel::Text(s),
        LiteralModel::Boolean(b) => ValueModel::Boolean(b),
        LiteralModel::Nil => ValueModel::Nil,
    }
}

/// `false` and `nil` count as false, everything else as true.
pub open spec fn truthy(v: ValueModel) -> bool {
    match v {
        ValueModel::Boolean(b) => b,
        ValueModel::Nil => false,
        _ => true,
    }
}

/// `==` on values: numbers by value, strings by their text, booleans by
/// value, `nil` equals `nil`; anything else is unequal.
pub open spec fn values_equal(left: ValueModel, right: ValueModel) -> bool {
    match (left, right) {
        (ValueModel::Number(l), ValueModel::Number(r)) => numbers_equal(l, r),
        (ValueModel::Text(l), ValueModel::Text(r)) => l == r,
        (ValueModel::Boolean(l), ValueModel::Boolean(r)) => l == r,
        (ValueModel::Nil, ValueModel::Nil) => true,
        _ => false,
    }
}

pub open spec fn type_error(message: &'static str) -> LoxError {
    LoxError { message, kind: LoxErrorKind::TypeError }
}

pub open spec fn name_error(message: &'static str) -> LoxError {
    LoxError { message, kind: LoxErrorKind::NameError }
}

pub open spec fn runtime_error(message: &'static str) -> LoxError {
    LoxError { message, kind: LoxErrorKind::RuntimeError }
}

pub open spec fn attribute_error(message: &'static str) -> LoxError {
    LoxError { message, kind: LoxErrorKind::AttributeError }
}

/// The result of a unary operator: `!` negates the truthiness of any value,
/// `-` changes the sign of a number and fits nothing else.
pub open spec fn unary_result(operator: UnaryOperator, right: ValueModel) -> Result<ValueModel, LoxError> {
    match operator {
        UnaryOperator::Bang => Ok(ValueModel::Boolean(!truthy(right))),
        UnaryOperator::Minus => match right {
            ValueModel::Number(n) => Ok(ValueModel::Number(negated(n))),
            _ => Err(type_error("unsupported operand types")),
        },
    }
}

/// The operation that the float unit is asked for, for the operators that
/// compute a number.
pub open spec fn arithmetic(operator: BinaryOperator) -> Option<NumberOp> {
    match operator {
        BinaryOperator::Minus => Some(NumberOp::Subtract),
        BinaryOperator::Plus => Some(NumberOp::Add),
        BinaryOperator::Slash => Some(NumberOp::Divide),
        BinaryOperator::Star => Some(NumberOp::Multiply),
        _ => None,
    }
}

/// The result of a comparison of two numbers.
pub open spec fn comparison(operator: BinaryOperator, left: u64, right: u64) -> bool {
    match operator {
        BinaryOperator::Greater => number_less(right, left),
        BinaryOperator::GreaterEqual => number_at_most(right, left),
        BinaryOperator::Less => number_less(left, right),
        _ => number_at_most(left, right),
    }
}

/// The result of a binary operator.  `==` and `!=` take any two values.  The
/// comparisons and `- * /` take two numbers, `+` two numbers or two strings;
/// with other operands they are a `TypeError`.
pub open spec fn binary_result<P: Fn(String) -> Option<u64>, A: Fn(NumberOp, u64, u64) -> u64, R: Fn(u64) -> String>(
    unit: &FloatUnit<P, A, R>,
    operator: BinaryOperator,
    left: ValueModel,
    right: ValueModel,
) -> Result<ValueModel, LoxError> {
    match operator {
        BinaryOperator::BangEqual => Ok(ValueModel::Boolean(!values_equal(left, right))),
        BinaryOperator::EqualEqual => Ok(ValueModel::Boolean(values_equal(left, right))),
        _ => match (left, right) {
            (ValueModel::Number(l), ValueModel::Number(r)) => match arithmetic(operator) {
                Some(op) => Ok(ValueModel::Number(unit.combined(op, l, r))),
                None => Ok(ValueModel::Boolean(comparison(operator, l, r))),
            },
            (ValueModel::Text(l), ValueModel::Text(r)) => if operator == BinaryOperator::Plus {
                Ok(ValueModel::Text(l + r))
            } else {
                Err(type_error("unsupported operand types"))
            },
            _ => Err(type_error("unsupported operand types")),
        },
    }
}

/// `!x` is `true` for `false` and for `nil`, and `false` for every other
/// value.
pub proof fn bang_is_true_of_false_and_nil_alone(x: ValueModel)
    ensures
        unary_result(UnaryOperator::Bang, x) == Ok::<ValueModel, LoxError>(
            ValueModel::Boolean(x == ValueModel::Boolean(false) || x == ValueModel::Nil),
        ),
{
}

/// A value that is a number, a string, a boolean or `nil`; a number must not
/// be a NaN, which equals nothing.
pub open spec fn comparable_leaf(v: ValueModel) -> bool {
    match v {
        ValueModel::Number(n) => !is_nan(n),
        ValueModel::Text(_) => true,
        ValueModel::Boolean(_) => true,
        ValueModel::Nil => true,
        _ => false,
    }
}

/// The variant of a value.
pub open spec fn variant(v: ValueModel) -> nat {
    match v {
        ValueModel::Number(_) => 0,
        ValueModel::Text(_) => 1,
        ValueModel::Boolean(_) => 2,
        ValueModel::Nil => 3,
        ValueModel::Function(_) => 4,
        ValueModel::Clock => 5,
        ValueModel::Class(_) => 6,
        ValueModel::Instance(_) => 7,
    }
}

/// `==` holds between a number, string, boolean or `nil` and itself, a NaN
/// excepted.
pub proof fn equality_is_reflexive_on_leaves<P: Fn(String) -> Option<u64>, A: Fn(NumberOp, u64, u64) -> u64, R: Fn(u64) -> String>(
    unit: &FloatUnit<P, A, R>,
    v: ValueModel,
)
    requires
        comparable_leaf(v),
    ensures
        values_equal(v, v),
        binary_result(unit, BinaryOperator::EqualEqual, v, v) == Ok::<ValueModel, LoxError>(
            ValueModel::Boolean(true),
        ),
{
}

/// `==` is false between values of different variants.
pub proof fn equality_is_false_across_variants<P: Fn(String) -> Option<u64>, A: Fn(NumberOp, u64, u64) -> u64, R: Fn(u64) -> String>(
    unit: &FloatUnit<P, A, R>,
    left: ValueModel,
    right: ValueModel,
)
    requires
        variant(left) != variant(right),
    ensures
        !values_equal(left, right),
        binary_result(unit, BinaryOperator::EqualEqual, left, right) == Ok::<ValueModel, LoxError>(
            ValueModel::Boolean(false),
        ),
{
}

impl Value {
    /// The value of a literal.
    pub fn of_literal(literal: &LiteralValue) -> (v: Value)
        ensures
            v@ == literal_value(literal@),
    {
        match literal {
            LiteralValue::NumberValue(n) => Value::NumberValue(*n),
            LiteralValue::StringValue(s) => Value::StringValue(s.clone()),
            LiteralValue::BooleanValue(b) => Value::BooleanValue(*b),
            LiteralValue::NilValue => Value::NilValue,
        }
    }

    /// Whether the value counts as true.
    pub fn is_truthy(&self) -> (answer: bool)
        ensures
            answer == truthy(self@),
    {
        match self {
            Value::BooleanValue(b) => *b,
            Value::NilValue => false,
            _ => true,
        }
    }

    /// Whether two values are equal in the sense of `==`.
    pub fn is_equal(&self, other: &Value) -> (answer: bool)
        ensures
            answer == values_equal(self@, other@),
    {
        match (self, other) {
            (Value::NumberValue(l), Value::NumberValue(r)) => equal(*l, *r),
            (Value::StringValue(l), Value::StringValue(r)) => *l == *r,
            (Value::BooleanValue(l), Value::BooleanValue(r)) => *l == *r,
            (Value::NilValue, Value::NilValue) => true,
            _ => false,
        }
    }
}

/// Applies a unary operator to a value.
pub fn apply_unary(operator: UnaryOperator, right: Value) -> (res: Result<Value, LoxError>)
    ensures
        value_outcome(res) == unary_result(operator, right@),
{
    match operator {
        UnaryOperator::Bang => Ok(Value::BooleanValue(!right.is_truthy())),
        UnaryOperator::Minus => match right {
            Value::NumberValue(n) => Ok(Value::NumberValue(negate(n))),
            _ => Err(LoxError { kind: LoxErrorKind::TypeError, message: "unsupported operand types" }),
        },
    }
}

/// Applies a binary operator to two values.
pub fn apply_binary<P: Fn(String) -> Option<u64>, A: Fn(NumberOp, u64, u64) -> u64, R: Fn(u64) -> String>(
    unit: &FloatUnit<P, A, R>,
    operator: BinaryOperator,
    left: Value,
    right: Value,
) -> (res: Result<Value, LoxError>)
    requires
        unit.dependable(),
    ensures
        value_outcome(res) == binary_result(unit, operator, left@, right@),
{
    let mismatch = LoxError { kind: LoxErrorKind::TypeError, message: "unsupported operand types" };
    match operator {
        BinaryOperator::BangEqual => Ok(Value::BooleanValue(!left.is_equal(&right))),
        BinaryOperator::EqualEqual => Ok(Value::BooleanValue(left.is_equal(&right))),
        _ => match (left, right) {
            (Value::NumberValue(l), Value::NumberValue(r)) => match operator {
                BinaryOperator::Greater => Ok(Value::BooleanValue(less(r, l))),
                BinaryOperator::GreaterEqual => Ok(Value::BooleanValue(at_most(r, l))),
                BinaryOperator::Less => Ok(Value::BooleanValue(less(l, r))),
                BinaryOperator::LessEqual => Ok(Value::BooleanValue(at_most(l, r))),
                BinaryOperator::Minus => Ok(Value::NumberValue(unit.compute(NumberOp::Subtract, l, r))),
                BinaryOperator::Plus => Ok(Value::NumberValue(unit.compute(NumberOp::Add, l, r))),
                BinaryOperator::Slash => Ok(Value::NumberValue(unit.compute(NumberOp::Divide, l, r))),
                _ => Ok(Value::NumberValue(unit.compute(NumberOp::Multiply, l, r))),
            },
            (Value::StringValue(l), Value::StringValue(r)) => match operator {
                BinaryOperator::Plus => {
                    let mut text = l;
                    text.append(r.as_str());
                    Ok(Value::StringValue(text))
                },
                _ => Err(mismatch),
            },
            _ => Err(mismatch),
        },
    }
}

} // verus!
