//! The unary and binary operators on runtime values.

use vstd::prelude::*;
use vstd::string::*;
use crate::error::RuntimeErrorKind;
use crate::object::{
    negate, negated, number_less, number_less_equal, numbers_less, numbers_less_equal, Object,
};
use crate::token::TokenType;

verus! {

/// The arithmetic that the host computes.
#[derive(Debug, Clone, Copy, PartialEq, Eq, Structural)]
pub enum ArithOp {
    Add,
    Subtract,
    Multiply,
    Divide,
}

/// A number that the interpreter needs from its host.
#[derive(Debug, Clone, Copy)]
pub enum Request<'a> {
    /// The binary64 value nearest to a decimal numeral.
    Numeral(&'a String),
    /// The IEEE-754 result of an operation on two binary64 values.
    Arithmetic { operator: ArithOp, left: u64, right: u64 },
    /// The wall clock.
    Clock,
}

/// What a binary operator makes of two operands.
pub ghost enum Rule<'a> {
    /// The value.
    Value(Object<'a>),
    /// A string with this text.
    Text(Seq<char>),
    /// The number that the host computes.
    Ask(Request<'a>),
    /// A runtime error.
    Error(RuntimeErrorKind),
}

/// What a binary operator has made of two operands.
#[derive(Debug)]
pub enum Applied<'a> {
    Value(Object<'a>),
    Ask(Request<'a>),
    Error(RuntimeErrorKind),
}

/// The value of a unary operator: `!` negates the truth of any value, `-`
/// flips the sign of a number and refuses everything else.
pub open spec fn unary_rule<'a>(operator: TokenType, right: Object<'a>) -> Result<
    Object<'a>,
    RuntimeErrorKind,
> {
    match operator {
        TokenType::Bang => Ok(Object::Boolean(!right.truthy())),
        TokenType::Minus => match right {
            Object::Number(bits) => Ok(Object::Number(negated(bits))),
            _ => Err(RuntimeErrorKind::OperandMustBeNumber),
        },
        _ => Ok(Object::Nil),
    }
}

/// The arithmetic that an operator stands for.
pub open spec fn arithmetic(operator: TokenType) -> Option<ArithOp> {
    match operator {
        TokenType::Plus => Some(ArithOp::Add),
        TokenType::Minus => Some(ArithOp::Subtract),
        TokenType::Star => Some(ArithOp::Multiply),
        TokenType::Slash => Some(ArithOp::Divide),
        _ => None,
    }
}

/// The truth of `<`, `<=`, `>` or `>=` on two numbers.
pub open spec fn comparison(operator: TokenType, left: u64, right: u64) -> Option<bool> {
    match operator {
        TokenType::Greater => Some(number_less(right, left)),
        TokenType::GreaterEqual => Some(number_less_equal(right, left)),
        TokenType::Less => Some(number_less(left, right)),
        TokenType::LessEqual => Some(number_less_equal(left, right)),
        _ => None,
    }
}

/// The value of a binary operator. Arithmetic and ordering take two
/// numbers, `+` also two strings; `==` and `!=` take anything.
pub open spec fn binary_rule<'a>(operator: TokenType, left: Object<'a>, right: Object<'a>) -> Rule<
    'a,
> {
    if operator == TokenType::EqualEqual {
        Rule::Value(Object::Boolean(left.equal(right)))
    } else if operator == TokenType::BangEqual {
        Rule::Value(Object::Boolean(!left.equal(right)))
    } else if arithmetic(operator) is Some {
        match (left, right) {
            (Object::Number(a), Object::Number(b)) => Rule::Ask(
                Request::Arithmetic { operator: arithmetic(operator)->0, left: a, right: b },
            ),
            (Object::String(a), Object::String(b)) => if operator == TokenType::Plus {
                Rule::Text(a@ + b@)
            } else {
                Rule::Error(RuntimeErrorKind::OperandsMustBeNumbers)
            },
            _ => if operator == TokenType::Plus {
                Rule::Error(RuntimeErrorKind::OperandsMustBeNumbersOrStrings)
            } else {
                Rule::Error(RuntimeErrorKind::OperandsMustBeNumbers)
            },
        }
    } else if operator == TokenType::Greater || operator == TokenType::GreaterEqual || operator
        == TokenType::Less || operator == TokenType::LessEqual {
        match (left, right) {
            (Object::Number(a), Object::Number(b)) => Rule::Value(
                Object::Boolean(comparison(operator, a, b)->0),
            ),
            _ => Rule::Error(RuntimeErrorKind::OperandsMustBeNumbers),
        }
    } else {
        match (left, right) {
            (Object::Number(_), Object::Number(_)) => Rule::Value(Object::Number(0)),
            _ => Rule::Value(Object::Nil),
        }
    }
}

/// Whether `applied` is what `rule` asks for.
pub open spec fn follows<'a>(applied: Applied<'a>, rule: Rule<'a>) -> bool {
    match rule {
        Rule::Value(value) => applied == Applied::Value(value),
        Rule::Text(text) => applied matches Applied::Value(Object::String(s)) && s@ == text,
        Rule::Ask(request) => applied == Applied::Ask(request),
        Rule::Error(kind) => applied == Applied::<'a>::Error(kind),
    }
}

/// Applies a unary operator.
pub fn unary<'a>(operator: TokenType, right: &Object<'a>) -> (r: Result<Object<'a>, RuntimeErrorKind>)
    ensures
        r == unary_rule(operator, *right),
{
    match operator {
        TokenType::Bang => Ok(Object::Boolean(!right.is_thuthy())),
        TokenType::Minus => match right {
            Object::Number(bits) => Ok(Object::Number(negate(*bits))),
            _ => Err(RuntimeErrorKind::OperandMustBeNumber),
        },
        _ => Ok(Object::Nil),
    }
}

/// Applies a binary operator, as far as that needs no arithmetic.
pub fn binary<'a>(operator: TokenType, left: &Object<'a>, right: &Object<'a>) -> (r: Applied<'a>)
    ensures
        follows(r, binary_rule(operator, *left, *right)),
{
    match operator {
        TokenType::EqualEqual => Applied::Value(Object::Boolean(left.is_equal(right))),
        TokenType::BangEqual => Applied::Value(Object::Boolean(!left.is_equal(right))),
        TokenType::Plus | TokenType::Minus | TokenType::Star | TokenType::Slash => {
            let operation = match operator {
                TokenType::Plus => ArithOp::Add,
                TokenType::Minus => ArithOp::Subtract,
                TokenType::Star => ArithOp::Multiply,
                _ => ArithOp::Divide,
            };
            match (left, right) {
                (Object::Number(a), Object::Number(b)) => Applied::Ask(
                    Request::Arithmetic { operator: operation, left: *a, right: *b },
                ),
                (Object::String(a), Object::String(b)) => {
                    if operator == TokenType::Plus {
                        let mut text = a.clone();
                        text.append(b.as_str());
                        Applied::Value(Object::String(text))
                    } else {
                        Applied::Error(RuntimeErrorKind::OperandsMustBeNumbers)
                    }
                },
                _ => {
                    if operator == TokenType::Plus {
                        Applied::Error(RuntimeErrorKind::OperandsMustBeNumbersOrStrings)
                    } else {
                        Applied::Error(RuntimeErrorKind::OperandsMustBeNumbers)
                    }
                },
            }
        },
        TokenType::Greater | TokenType::GreaterEqual | TokenType::Less | TokenType::LessEqual => {
            match (left, right) {
                (Object::Number(a), Object::Number(b)) => {
                    let truth = match operator {
                        TokenType::Greater => numbers_less(*b, *a),
                        TokenType::GreaterEqual => numbers_less_equal(*b, *a),
                        TokenType::Less => numbers_less(*a, *b),
                        _ => numbers_less_equal(*a, *b),
                    };
                    Applied::Value(Object::Boolean(truth))
                },
                _ => Applied::Error(RuntimeErrorKind::OperandsMustBeNumbers),
            }
        },
        _ => match (left, right) {
            (Object::Number(_), Object::Number(_)) => Applied::Value(Object::Number(0)),
            _ => Applied::Value(Object::Nil),
        },
    }
}

/// Truthiness: `!!v` is `true` exactly when `v` is neither `Nil` nor
/// `Unitialized` nor `false`.
pub proof fn lemma_double_negation(v: Object)
    ensures
        unary_rule(TokenType::Bang, v) is Ok,
        unary_rule(TokenType::Bang, unary_rule(TokenType::Bang, v)->Ok_0) == Ok::<
            Object,
            RuntimeErrorKind,
        >(Object::Boolean(true)) <==> !(v is Nil) && !(v is Unitialized) && v != Object::Boolean(
            false,
        ),
{
}

} // verus!
