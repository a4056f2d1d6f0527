use crate::ast::{nodes, Expression, ExpressionView};
use crate::decimal::{decimal, push_decimal};
use crate::token::{Token, TokenType, TokenView};
use vstd::prelude::*;
use vstd::string::StringExecFns;

verus! {

/// A runtime value.
#[derive(Debug, PartialEq)]
pub enum Object {
    Integer(i32),
    Boolean(bool),
    String(String),
}

/// The mathematical value of an [`Object`].
pub ghost enum ObjectView {
    Integer(int),
    Boolean(bool),
    String(Seq<char>),
}

impl View for Object {
    type V = ObjectView;

    open spec fn view(&self) -> ObjectView {
        match self {
            Object::Integer(value) => ObjectView::Integer(*value as int),
            Object::Boolean(value) => ObjectView::Boolean(*value),
            Object::String(value) => ObjectView::String(value@),
        }
    }
}

/// What evaluation hands out: a value, or the text of an error.
pub type EvalResult = Result<Object, String>;

/// How a value is shown: an integer in base ten, a boolean as `true` or `false`,
/// a string between double quotes.
pub open spec fn object_text(object: ObjectView) -> Seq<char> {
    match object {
        ObjectView::Integer(value) => decimal(value),
        ObjectView::Boolean(value) => if value {
            "true"@
        } else {
            "false"@
        },
        ObjectView::String(value) => "\""@ + value + "\""@,
    }
}

impl Object {
    /// The value as it is shown to a reader.
    pub fn to_string(&self) -> (text: String)
        ensures
            text@ == object_text(self@),
    {
        match self {
            Object::Integer(value) => {
                let mut text = String::new();
                push_decimal(*value, &mut text);
                text
            },
            Object::String(value) => {
                let mut text = String::from_str("\"");
                text.append(value.as_str());
                text.append("\"");
                text
            },
            Object::Boolean(value) => if *value {
                String::from_str("true")
            } else {
                String::from_str("false")
            },
        }
    }
}

/// What evaluating an expression comes to.
pub ghost enum Evaluated {
    /// A value.
    Value { value: ObjectView },
    /// An operator met an operand of the wrong kind; the text of the error.
    Error { message: Seq<char> },
    /// A division by zero, or an integer that does not fit in 32 bits: the
    /// expression has no value and no error is defined for it.
    Undefined,
}

/// The text of an error, with the place of the operator that reports it.
pub open spec fn error_text(message: Seq<char>, token: TokenView) -> Seq<char> {
    if token.kind == TokenType::EOF {
        "Error at end of file: "@ + message
    } else {
        "Error at line "@ + decimal(token.line) + ": "@ + message
    }
}

/// The integer `n` as the outcome of an operation: a value where it fits in 32 bits.
pub open spec fn integer_outcome(n: int) -> Evaluated {
    if i32::MIN <= n <= i32::MAX {
        Evaluated::Value { value: ObjectView::Integer(n) }
    } else {
        Evaluated::Undefined
    }
}

/// The quotient of a division that rounds towards zero.
pub open spec fn truncated_quotient(dividend: int, divisor: int) -> int
    recommends
        divisor != 0,
{
    if dividend >= 0 && divisor > 0 {
        dividend / divisor
    } else if dividend >= 0 {
        -(dividend / (-divisor))
    } else if divisor > 0 {
        -((-dividend) / divisor)
    } else {
        (-dividend) / (-divisor)
    }
}

/// The prefix operators: `!` negates a boolean and `-` an integer. Any other operand
/// is an error, and so is any other token in the operator's place.
pub open spec fn applied_unary(token: TokenView, operand: ObjectView) -> Evaluated {
    if token.kind == TokenType::Bang {
        match operand {
            ObjectView::Boolean(value) => Evaluated::Value { value: ObjectView::Boolean(!value) },
            _ => Evaluated::Error {
                message: error_text("Invalid operand for '!', expected boolean expression"@, token),
            },
        }
    } else if token.kind == TokenType::Minus {
        match operand {
            ObjectView::Integer(value) => integer_outcome(-value),
            _ => Evaluated::Error {
                message: error_text("Invalid operand for '-', expected integer expression"@, token),
            },
        }
    } else {
        Evaluated::Error { message: "Unreachable"@ }
    }
}

/// The binary operators. `+ - * /` take two integers and give an integer, `/`
/// rounding towards zero; `> >= < <=` take two integers and give a boolean; `==`
/// and `!=` take two integers or two booleans and give a boolean. Any other pair
/// of operands is an error, and so is any other token in the operator's place.
pub open spec fn applied_binary(token: TokenView, left: ObjectView, right: ObjectView) -> Evaluated {
    match (left, right) {
        (ObjectView::Integer(l), ObjectView::Integer(r)) => {
            if token.kind == TokenType::Minus {
                integer_outcome(l - r)
            } else if token.kind == TokenType::Plus {
                integer_outcome(l + r)
            } else if token.kind == TokenType::Star {
                integer_outcome(l * r)
            } else if token.kind == TokenType::Slash {
                if r == 0 {
                    Evaluated::Undefined
                } else {
                    integer_outcome(truncated_quotient(l, r))
                }
            } else if token.kind == TokenType::Greater {
                Evaluated::Value { value: ObjectView::Boolean(l > r) }
            } else if token.kind == TokenType::GreaterEquals {
                Evaluated::Value { value: ObjectView::Boolean(l >= r) }
            } else if token.kind == TokenType::SmallerEquals {
                Evaluated::Value { value: ObjectView::Boolean(l <= r) }
            } else if token.kind == TokenType::Smaller {
                Evaluated::Value { value: ObjectView::Boolean(l < r) }
            } else if token.kind == TokenType::Equals {
                Evaluated::Value { value: ObjectView::Boolean(l == r) }
            } else if token.kind == TokenType::BangEquals {
                Evaluated::Value { value: ObjectView::Boolean(l != r) }
            } else {
                Evaluated::Error { message: "Unreachable"@ }
            }
        },
        (ObjectView::Boolean(l), ObjectView::Boolean(r)) => {
            if token.kind == TokenType::Equals {
                Evaluated::Value { value: ObjectView::Boolean(l == r) }
            } else if token.kind == TokenType::BangEquals {
                Evaluated::Value { value: ObjectView::Boolean(l != r) }
            } else {
                invalid_operands(token)
            }
        },
        _ => invalid_operands(token),
    }
}

/// The error of a binary operator whose operands are not of a kind it takes.
pub open spec fn invalid_operands(token: TokenView) -> Evaluated {
    if token.kind == TokenType::Minus {
        Evaluated::Error { message: error_text("Invalid operands for '-'"@, token) }
    } else if token.kind == TokenType::Plus {
        Evaluated::Error { message: error_text("Invalid operands for '+'"@, token) }
    } else if token.kind == TokenType::Star {
        Evaluated::Error { message: error_text("Invalid operands for '*'"@, token) }
    } else if token.kind == TokenType::Slash {
        Evaluated::Error { message: error_text("Invalid operands for '/'"@, token) }
    } else if token.kind == TokenType::Greater {
        Evaluated::Error { message: error_text("Invalid operands for '>'"@, token) }
    } else if token.kind == TokenType::GreaterEquals {
        Evaluated::Error { message: error_text("Invalid operands for '>='"@, token) }
    } else if token.kind == TokenType::SmallerEquals {
        Evaluated::Error { message: error_text("Invalid operands for '<='"@, token) }
    } else if token.kind == TokenType::Smaller {
        Evaluated::Error { message: error_text("Invalid operands for '<'"@, token) }
    } else if token.kind == TokenType::Equals {
        Evaluated::Error { message: error_text("Invalid operands for '=='"@, token) }
    } else if token.kind == TokenType::BangEquals {
        Evaluated::Error { message: error_text("Invalid operands for '!='"@, token) }
    } else {
        Evaluated::Error { message: "Unreachable"@ }
    }
}

/// The value of an expression.
///
/// A literal has its own value and a grouping that of the expression inside. An
/// operator has its operands evaluated first, the left one before the right one,
/// and is applied to their values; where an operand has no value, neither has the
/// operator, and what the first such operand came to is what the whole comes to.
pub open spec fn evaluated(tree: ExpressionView) -> Evaluated
    decreases tree,
{
    match tree {
        ExpressionView::IntegerLiteral { token, value } => Evaluated::Value {
            value: ObjectView::Integer(value),
        },
        ExpressionView::BooleanLiteral { token, value } => Evaluated::Value {
            value: ObjectView::Boolean(value),
        },
        ExpressionView::StringLiteral { token, value } => Evaluated::Value {
            value: ObjectView::String(value),
        },
        ExpressionView::Grouping { token, expr } => evaluated(*expr),
        ExpressionView::UnaryExpression { token, right } => match evaluated(*right) {
            Evaluated::Value { value } => applied_unary(token, value),
            other => other,
        },
        ExpressionView::BinaryExpression { token, left, right } => match evaluated(*left) {
            Evaluated::Value { value: left_value } => match evaluated(*right) {
                Evaluated::Value { value: right_value } => applied_binary(
                    token,
                    left_value,
                    right_value,
                ),
                other => other,
            },
            other => other,
        },
    }
}

/// Why an evaluation step handed out no value.
enum Failure {
    Error(String),
    Undefined,
}

/// An evaluation step did what [`evaluated`] says.
spec fn agrees(result: Result<Object, Failure>, outcome: Evaluated) -> bool {
    match outcome {
        Evaluated::Value { value } => result matches Ok(object) && object@ == value,
        Evaluated::Error { message } => result matches Err(Failure::Error(text)) && text@
            == message,
        Evaluated::Undefined => result matches Err(Failure::Undefined),
    }
}

/// Evaluates an expression to a value, or tells which operator met operands that
/// it does not take.
///
/// `None` is returned where the expression divides by zero or computes an integer
/// that does not fit in 32 bits: such an expression has no value, and no error is
/// defined for it.
pub fn checked_evaluate(ast: &Expression) -> (result: Option<EvalResult>)
    ensures
        match evaluated(ast@) {
            Evaluated::Value { value } => result matches Some(Ok(object)) && object@ == value,
            Evaluated::Error { message } => result matches Some(Err(text)) && text@ == message,
            Evaluated::Undefined => result is None,
        },
{
    match evaluate_expression(ast) {
        Ok(object) => Some(Ok(object)),
        Err(Failure::Error(message)) => Some(Err(message)),
        Err(Failure::Undefined) => None,
    }
}

/// Evaluates an expression to a value, or tells which operator met operands that
/// it does not take.
///
/// The expression must not divide by zero nor compute an integer that does not fit
/// in 32 bits; [`checked_evaluate`] is there for an expression of which this is
/// not known.
pub fn evaluate(ast: &Expression) -> (result: EvalResult)
    requires
        !(evaluated(ast@) is Undefined),
    ensures
        match evaluated(ast@) {
            Evaluated::Value { value } => result matches Ok(object) && object@ == value,
            Evaluated::Error { message } => result matches Err(text) && text@ == message,
            Evaluated::Undefined => false,
        },
{
    match checked_evaluate(ast) {
        Some(result) => result,
        None => vstd::pervasive::unreached(),
    }
}

fn evaluate_expression(ast: &Expression) -> (result: Result<Object, Failure>)
    ensures
        agrees(result, evaluated(ast@)),
    decreases nodes(*ast), 0int,
{
    match ast {
        Expression::IntegerLiteral { token: _, value } => Ok(Object::Integer(*value)),
        Expression::BooleanLiteral { token: _, value } => Ok(Object::Boolean(*value)),
        Expression::StringLiteral { token: _, value } => Ok(Object::String(value.clone())),
        Expression::Grouping { token: _, expr } => evaluate_expression(expr),
        Expression::UnaryExpression { token, right } => evaluate_unary_expression(token, right),
        Expression::BinaryExpression { token, left, right } => evaluate_binary_expression(
            token,
            left,
            right,
        ),
    }
}

fn evaluate_unary_expression(token: &Token, right: &Expression) -> (result: Result<
    Object,
    Failure,
>)
    ensures
        agrees(
            result,
            match evaluated(right@) {
                Evaluated::Value { value } => applied_unary(token@, value),
                other => other,
            },
        ),
    decreases nodes(*right), 1int,
{
    let right = evaluate_expression(right)?;
    match token.token_type {
        TokenType::Bang => {
            if let Object::Boolean(value) = right {
                Ok(Object::Boolean(!value))
            } else {
                Err(error("Invalid operand for '!', expected boolean expression", token))
            }
        },
        TokenType::Minus => {
            if let Object::Integer(value) = right {
                integer(0i32.checked_sub(value))
            } else {
                Err(error("Invalid operand for '-', expected integer expression", token))
            }
        },
        _ => Err(Failure::Error("Unreachable".to_owned())),
    }
}

fn evaluate_binary_expression(token: &Token, left: &Expression, right: &Expression) -> (result:
    Result<Object, Failure>)
    ensures
        agrees(
            result,
            match evaluated(left@) {
                Evaluated::Value { value: left_value } => match evaluated(right@) {
                    Evaluated::Value { value: right_value } => applied_binary(
                        token@,
                        left_value,
                        right_value,
                    ),
                    other => other,
                },
                other => other,
            },
        ),
    decreases nodes(*left) + nodes(*right), 1int,
{
    let left = evaluate_expression(left)?;
    let right = evaluate_expression(right)?;

    match token.token_type {
        TokenType::Minus => match (left, right) {
            (Object::Integer(l), Object::Integer(r)) => integer(l.checked_sub(r)),
            _ => Err(error("Invalid operands for '-'", token)),
        },
        TokenType::Plus => match (left, right) {
            (Object::Integer(l), Object::Integer(r)) => integer(l.checked_add(r)),
            _ => Err(error("Invalid operands for '+'", token)),
        },
        TokenType::Star => match (left, right) {
            (Object::Integer(l), Object::Integer(r)) => integer(l.checked_mul(r)),
            _ => Err(error("Invalid operands for '*'", token)),
        },
        TokenType::Slash => match (left, right) {
            (Object::Integer(l), Object::Integer(r)) => integer(l.checked_div(r)),
            _ => Err(error("Invalid operands for '/'", token)),
        },
        TokenType::Greater => match (left, right) {
            (Object::Integer(l), Object::Integer(r)) => Ok(Object::Boolean(l > r)),
            _ => Err(error("Invalid operands for '>'", token)),
        },
        TokenType::GreaterEquals => match (left, right) {
            (Object::Integer(l), Object::Integer(r)) => Ok(Object::Boolean(l >= r)),
            _ => Err(error("Invalid operands for '>='", token)),
        },
        TokenType::SmallerEquals => match (left, right) {
            (Object::Integer(l), Object::Integer(r)) => Ok(Object::Boolean(l <= r)),
            _ => Err(error("Invalid operands for '<='", token)),
        },
        TokenType::Smaller => match (left, right) {
            (Object::Integer(l), Object::Integer(r)) => Ok(Object::Boolean(l < r)),
            _ => Err(error("Invalid operands for '<'", token)),
        },
        TokenType::Equals => match (left, right) {
            (Object::Integer(l), Object::Integer(r)) => Ok(Object::Boolean(l == r)),
            (Object::Boolean(l), Object::Boolean(r)) => Ok(Object::Boolean(l == r)),
            _ => Err(error("Invalid operands for '=='", token)),
        },
        TokenType::BangEquals => match (left, right) {
            (Object::Integer(l), Object::Integer(r)) => Ok(Object::Boolean(l != r)),
            (Object::Boolean(l), Object::Boolean(r)) => Ok(Object::Boolean(l != r)),
            _ => Err(error("Invalid operands for '!='", token)),
        },
        _ => Err(Failure::Error("Unreachable".to_owned())),
    }
}

/// The outcome of an integer operation: its result, where it has one.
fn integer(computed: Option<i32>) -> (result: Result<Object, Failure>)
    ensures
        match computed {
            Some(value) => result matches Ok(Object::Integer(v)) && v == value,
            None => result matches Err(Failure::Undefined),
        },
{
    match computed {
        Some(value) => Ok(Object::Integer(value)),
        None => Err(Failure::Undefined),
    }
}

fn error(msg: &str, token: &Token) -> (failure: Failure)
    ensures
        failure matches Failure::Error(text) && text@ == error_text(msg@, token@),
{
    if let TokenType::EOF = token.token_type {
        let mut text = String::from_str("Error at end of file: ");
        text.append(msg);
        return Failure::Error(text);
    }
    let mut text = String::from_str("Error at line ");
    push_decimal(token.line, &mut text);
    text.append(": ");
    text.append(msg);
    Failure::Error(text)
}

} // verus!
