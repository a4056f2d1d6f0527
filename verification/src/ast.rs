use crate::token::{Token, TokenView};
use vstd::prelude::*;

verus! {

/// A node of the syntax tree. Every node owns its children and keeps the token
/// it was built from: the literal itself, the opening parenthesis, or the operator.
#[derive(Debug)]
pub enum Expression {
    BinaryExpression { token: Token, left: Box<Expression>, right: Box<Expression> },
    UnaryExpression { token: Token, right: Box<Expression> },
    IntegerLiteral { token: Token, value: i32 },
    BooleanLiteral { token: Token, value: bool },
    StringLiteral { token: Token, value: String },
    Grouping { token: Token, expr: Box<Expression> },
}

/// The mathematical value of an [`Expression`].
pub ghost enum ExpressionView {
    BinaryExpression { token: TokenView, left: Box<ExpressionView>, right: Box<ExpressionView> },
    UnaryExpression { token: TokenView, right: Box<ExpressionView> },
    IntegerLiteral { token: TokenView, value: int },
    BooleanLiteral { token: TokenView, value: bool },
    StringLiteral { token: TokenView, value: Seq<char> },
    Grouping { token: TokenView, expr: Box<ExpressionView> },
}

/// The value of an expression tree, node by node.
pub open spec fn tree_of(expression: Expression) -> ExpressionView
    decreases expression,
{
    match expression {
        Expression::BinaryExpression { token, left, right } => ExpressionView::BinaryExpression {
            token: token@,
            left: Box::new(tree_of(*left)),
            right: Box::new(tree_of(*right)),
        },
        Expression::UnaryExpression { token, right } => ExpressionView::UnaryExpression {
            token: token@,
            right: Box::new(tree_of(*right)),
        },
        Expression::IntegerLiteral { token, value } => ExpressionView::IntegerLiteral {
            token: token@,
            value: value as int,
        },
        Expression::BooleanLiteral { token, value } => ExpressionView::BooleanLiteral {
            token: token@,
            value: value,
        },
        Expression::StringLiteral { token, value } => ExpressionView::StringLiteral {
            token: token@,
            value: value@,
        },
        Expression::Grouping { token, expr } => ExpressionView::Grouping {
            token: token@,
            expr: Box::new(tree_of(*expr)),
        },
    }
}

/// How many nodes a tree is made of.
pub open spec fn nodes(expression: Expression) -> nat
    decreases expression,
{
    match expression {
        Expression::BinaryExpression { token, left, right } => 1 + nodes(*left) + nodes(*right),
        Expression::UnaryExpression { token, right } => 1 + nodes(*right),
        Expression::Grouping { token, expr } => 1 + nodes(*expr),
        _ => 1,
    }
}

impl View for Expression {
    type V = ExpressionView;

    open spec fn view(&self) -> ExpressionView {
        tree_of(*self)
    }
}

} // verus!
