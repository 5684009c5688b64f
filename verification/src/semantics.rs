use vstd::prelude::*;
use vstd::string::StringExecFns;
use crate::callable::LoxCallable;
use crate::error_reporter::LoxError;
use crate::literal::Literal;
use crate::number::{
    equal, is_equal, is_less, is_less_or_equal, less, less_or_equal, negate, negated,
};
use crate::text::{decimal, to_decimal};
use crate::token::Token;
use crate::token_type::TokenType;

verus! {

/// Truthiness: `nil` and `false` are false, every other value is true.
pub open spec fn truthy(value: Literal) -> bool {
    match value {
        Literal::Nil => false,
        Literal::Bool(held) => held,
        _ => true,
    }
}

/// Whether two callables count as the same: the clock is itself, and two
/// declared functions are the same where they captured the same scope and
/// were declared under the same name on the same line with as many
/// parameters.
pub open spec fn same_callable(left: LoxCallable, right: LoxCallable) -> bool {
    match (left, right) {
        (LoxCallable::Clock(_), LoxCallable::Clock(_)) => true,
        (LoxCallable::Function(one), LoxCallable::Function(other)) => {
            &&& one.closure == other.closure
            &&& one.name.lexeme@ == other.name.lexeme@
            &&& one.name.line == other.name.line
            &&& one.params@.len() == other.params@.len()
        },
        _ => false,
    }
}

/// Equality of values: values of different kinds are unequal; numbers compare
/// as doubles, strings by their characters.
pub open spec fn same(left: Literal, right: Literal) -> bool {
    match (left, right) {
        (Literal::Number(one), Literal::Number(other)) => equal(one, other),
        (Literal::String(one), Literal::String(other)) => one@ == other@,
        (Literal::Bool(one), Literal::Bool(other)) => one == other,
        (Literal::Function(one), Literal::Function(other)) => same_callable(*one, *other),
        (Literal::Nil, Literal::Nil) => true,
        (Literal::NilImplicit, Literal::NilImplicit) => true,
        _ => false,
    }
}

/// What applying an operator comes to.
pub enum Outcome {
    /// This value.
    Value(Literal),
    /// A string with these characters.
    Text(Seq<char>),
    /// What the host computes on the two doubles.
    Arithmetic { operator: TokenType, left: u64, right: u64 },
    /// The number in decimal with the text behind it.
    NumberThenText { number: u64, text: Seq<char> },
    /// The text with the number in decimal behind it.
    TextThenNumber { text: Seq<char>, number: u64 },
    /// A runtime error at the operator, with this message.
    Fails(Seq<char>),
}

/// What applying a binary operator comes to, as the evaluator hands it on.
#[derive(Debug)]
pub enum Operation {
    Done(Literal),
    Arithmetic { operator: TokenType, left: u64, right: u64 },
    NumberThenText { number: u64, text: String },
    TextThenNumber { text: String, number: u64 },
    Failed(LoxError),
}

/// Whether `error` is the runtime error with this message at `token`.
pub open spec fn fails(error: LoxError, token: Token, text: Seq<char>) -> bool {
    error matches LoxError::RuntimeError { token: place, message } && place == token && message@
        == text
}

impl Operation {
    /// Whether the operation is the given outcome of an operator.
    pub open spec fn is(self, outcome: Outcome, operator: Token) -> bool {
        match outcome {
            Outcome::Value(value) => self == Operation::Done(value),
            Outcome::Text(text) => self matches Operation::Done(Literal::String(joined)) && joined@
                == text,
            Outcome::Arithmetic { operator, left, right } => self == (Operation::Arithmetic {
                operator,
                left,
                right,
            }),
            Outcome::NumberThenText { number, text } => self matches Operation::NumberThenText {
                number: first,
                text: second,
            } && first == number && second@ == text,
            Outcome::TextThenNumber { text, number } => self matches Operation::TextThenNumber {
                text: first,
                number: second,
            } && first@ == text && second == number,
            Outcome::Fails(message) => self matches Operation::Failed(error) && fails(
                error,
                operator,
                message,
            ),
        }
    }
}

pub open spec fn is_arithmetic(kind: TokenType) -> bool {
    kind == TokenType::Minus || kind == TokenType::Slash || kind == TokenType::Star || kind
        == TokenType::Plus
}

/// What a relational operator says of two doubles, if `kind` is one.
pub open spec fn relation(kind: TokenType, left: u64, right: u64) -> Option<bool> {
    match kind {
        TokenType::Greater => Some(less(right, left)),
        TokenType::GreaterEqual => Some(less_or_equal(right, left)),
        TokenType::Less => Some(less(left, right)),
        TokenType::LessEqual => Some(less_or_equal(left, right)),
        _ => None,
    }
}

/// The message for an operator that is neither `==` nor `!=` and does not
/// take the operands.
pub open spec fn complaint(left: Literal, right: Literal) -> Seq<char> {
    match (left, right) {
        (Literal::Number(_), Literal::Number(_)) => "Invalid operation"@,
        (Literal::Number(_), Literal::String(_))
        | (Literal::String(_), Literal::Number(_))
        | (Literal::String(_), Literal::String(_))
        | (Literal::Bool(_), Literal::Bool(_))
        | (Literal::String(_), Literal::Bool(_))
        | (Literal::Bool(_), Literal::String(_)) => "Operands must be numbers"@,
        _ => "Operands must be two numbers or two strings."@,
    }
}

/// The rule for `left operator right`: `==` and `!=` take any two values;
/// between two numbers the arithmetic operators are the host's and the
/// relational ones are decided here; `+` joins two strings, and a string and
/// a number in decimal; everything else fails at the operator.
pub open spec fn binary(left: Literal, kind: TokenType, right: Literal) -> Outcome {
    if kind == TokenType::EqualEqual {
        Outcome::Value(Literal::Bool(same(left, right)))
    } else if kind == TokenType::BangEqual {
        Outcome::Value(Literal::Bool(!same(left, right)))
    } else {
        match (left, right) {
            (Literal::Number(one), Literal::Number(other)) => {
                if is_arithmetic(kind) {
                    Outcome::Arithmetic { operator: kind, left: one, right: other }
                } else {
                    match relation(kind, one, other) {
                        Some(holds) => Outcome::Value(Literal::Bool(holds)),
                        None => Outcome::Fails(complaint(left, right)),
                    }
                }
            },
            (Literal::Number(one), Literal::String(other)) if kind == TokenType::Plus => {
                Outcome::NumberThenText { number: one, text: other@ }
            },
            (Literal::String(one), Literal::Number(other)) if kind == TokenType::Plus => {
                Outcome::TextThenNumber { text: one@, number: other }
            },
            (Literal::String(one), Literal::String(other)) if kind == TokenType::Plus => {
                Outcome::Text(one@ + other@)
            },
            _ => Outcome::Fails(complaint(left, right)),
        }
    }
}

/// The rule for `operator right`: `-` negates a number, `!` negates the
/// truthiness of any value.
pub open spec fn unary(kind: TokenType, right: Literal) -> Outcome {
    match kind {
        TokenType::Minus => match right {
            Literal::Number(bits) => Outcome::Value(Literal::Number(negated(bits))),
            _ => Outcome::Fails("Operand must be a number."@),
        },
        TokenType::Bang => Outcome::Value(Literal::Bool(!truthy(right))),
        _ => Outcome::Fails("Invalid operation"@),
    }
}

/// Whether a logical operator is done with its left operand alone: `or` with
/// a true one, `and` with a false one.
pub open spec fn short_circuits(operator: Token, left: Literal) -> bool {
    if operator.token_type == TokenType::Or {
        truthy(left)
    } else {
        !truthy(left)
    }
}

/// `Expected N arguments but got M.`
pub open spec fn arity_complaint(expected: nat, got: nat) -> Seq<char> {
    "Expected "@ + decimal(expected) + " arguments but got "@ + decimal(got) + "."@
}

pub fn is_truthy(value: &Literal) -> (holds: bool)
    ensures
        holds == truthy(*value),
{
    match value {
        Literal::Nil => false,
        Literal::Bool(held) => *held,
        _ => true,
    }
}

pub fn is_same_callable(left: &LoxCallable, right: &LoxCallable) -> (equal: bool)
    ensures
        equal == same_callable(*left, *right),
{
    match (left, right) {
        (LoxCallable::Clock(_), LoxCallable::Clock(_)) => true,
        (LoxCallable::Function(one), LoxCallable::Function(other)) => {
            one.closure == other.closure && one.name.lexeme == other.name.lexeme && one.name.line
                == other.name.line && one.params.len() == other.params.len()
        },
        _ => false,
    }
}

pub fn is_same(left: &Literal, right: &Literal) -> (equal: bool)
    ensures
        equal == same(*left, *right),
{
    match (left, right) {
        (Literal::Number(one), Literal::Number(other)) => is_equal(*one, *other),
        (Literal::String(one), Literal::String(other)) => *one == *other,
        (Literal::Bool(one), Literal::Bool(other)) => *one == *other,
        (Literal::Function(one), Literal::Function(other)) => is_same_callable(one, other),
        (Literal::Nil, Literal::Nil) => true,
        (Literal::NilImplicit, Literal::NilImplicit) => true,
        _ => false,
    }
}

/// The runtime error with this message at `token`.
pub fn failure(token: &Token, message: &str) -> (error: LoxError)
    ensures
        fails(error, *token, message@),
{
    LoxError::runtime_error(token.clone(), String::from_str(message))
}

fn complain(left: &Literal, right: &Literal) -> (message: &'static str)
    ensures
        message@ == complaint(*left, *right),
{
    match (left, right) {
        (Literal::Number(_), Literal::Number(_)) => "Invalid operation",
        (Literal::Number(_), Literal::String(_))
        | (Literal::String(_), Literal::Number(_))
        | (Literal::String(_), Literal::String(_))
        | (Literal::Bool(_), Literal::Bool(_))
        | (Literal::String(_), Literal::Bool(_))
        | (Literal::Bool(_), Literal::String(_)) => "Operands must be numbers",
        _ => "Operands must be two numbers or two strings.",
    }
}

/// Applies a binary operator to the values of its operands.
pub fn binary_operation(left: Literal, operator: &Token, right: Literal) -> (operation: Operation)
    ensures
        operation.is(binary(left, operator.token_type, right), *operator),
{
    let kind = operator.token_type;
    if kind == TokenType::EqualEqual {
        return Operation::Done(Literal::Bool(is_same(&left, &right)));
    }
    if kind == TokenType::BangEqual {
        return Operation::Done(Literal::Bool(!is_same(&left, &right)));
    }
    let message = complain(&left, &right);
    match (left, right) {
        (Literal::Number(one), Literal::Number(other)) => match kind {
            TokenType::Minus | TokenType::Slash | TokenType::Star | TokenType::Plus => {
                Operation::Arithmetic { operator: kind, left: one, right: other }
            },
            TokenType::Greater => Operation::Done(Literal::Bool(is_less(other, one))),
            TokenType::GreaterEqual => Operation::Done(
                Literal::Bool(is_less_or_equal(other, one)),
            ),
            TokenType::Less => Operation::Done(Literal::Bool(is_less(one, other))),
            TokenType::LessEqual => Operation::Done(Literal::Bool(is_less_or_equal(one, other))),
            _ => Operation::Failed(failure(operator, message)),
        },
        (Literal::Number(one), Literal::String(other)) => match kind {
            TokenType::Plus => Operation::NumberThenText { number: one, text: other },
            _ => Operation::Failed(failure(operator, message)),
        },
        (Literal::String(one), Literal::Number(other)) => match kind {
            TokenType::Plus => Operation::TextThenNumber { text: one, number: other },
            _ => Operation::Failed(failure(operator, message)),
        },
        (Literal::String(one), Literal::String(other)) => match kind {
            TokenType::Plus => Operation::Done(Literal::String(one.concat(other.as_str()))),
            _ => Operation::Failed(failure(operator, message)),
        },
        _ => Operation::Failed(failure(operator, message)),
    }
}

/// Applies a unary operator to the value of its operand.
pub fn unary_operation(operator: &Token, right: Literal) -> (operation: Operation)
    ensures
        operation.is(unary(operator.token_type, right), *operator),
{
    match operator.token_type {
        TokenType::Minus => match right {
            Literal::Number(bits) => Operation::Done(Literal::Number(negate(bits))),
            _ => Operation::Failed(failure(operator, "Operand must be a number.")),
        },
        TokenType::Bang => Operation::Done(Literal::Bool(!is_truthy(&right))),
        _ => Operation::Failed(failure(operator, "Invalid operation")),
    }
}

/// Whether a logical operator is done with its left operand alone.
pub fn is_short_circuit(operator: &Token, left: &Literal) -> (done: bool)
    ensures
        done == short_circuits(*operator, *left),
{
    if operator.token_type == TokenType::Or {
        is_truthy(left)
    } else {
        !is_truthy(left)
    }
}

/// The error for a call with the wrong number of arguments.
pub fn arity_mismatch(paren: &Token, expected: usize, got: usize) -> (error: LoxError)
    ensures
        fails(error, *paren, arity_complaint(expected as nat, got as nat)),
{
    let mut message = String::from_str("Expected ");
    message.append(to_decimal(expected as u64).as_str());
    message.append(" arguments but got ");
    message.append(to_decimal(got as u64).as_str());
    message.append(".");
    LoxError::runtime_error(paren.clone(), message)
}

} // verus!
