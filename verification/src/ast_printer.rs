use crate::ast::{Expression, ExpressionView};
use crate::decimal::{decimal, push_decimal};
use vstd::prelude::*;
use vstd::string::StringExecFns;

verus! {

/// A tree in fully parenthesized form: a literal as `(Kind value)`, a grouping as
/// `(Group inner)`, an operator as its lexeme followed by its operands.
pub open spec fn printed(tree: ExpressionView) -> Seq<char>
    decreases tree,
{
    match tree {
        ExpressionView::IntegerLiteral { token, value } => "(IntLit "@ + decimal(value) + ")"@,
        ExpressionView::BooleanLiteral { token, value } => "(BoolLit "@ + (if value {
            "true"@
        } else {
            "false"@
        }) + ")"@,
        ExpressionView::StringLiteral { token, value } => "(StrLit "@ + value + ")"@,
        ExpressionView::Grouping { token, expr } => "(Group "@ + printed(*expr) + ")"@,
        ExpressionView::UnaryExpression { token, right } => "("@ + token.lexeme + " "@ + printed(
            *right,
        ) + ")"@,
        ExpressionView::BinaryExpression { token, left, right } => "("@ + token.lexeme + " "@
            + printed(*left) + " "@ + printed(*right) + ")"@,
    }
}

pub fn print_ast(ast: Box<Expression>) -> (text: String)
    ensures
        text@ == printed(ast@),
{
    let mut buf = String::new();
    print_expression(&*ast, &mut buf);
    buf
}

fn print_expression(ast: &Expression, buf: &mut String)
    ensures
        final(buf)@ == old(buf)@ + printed(ast@),
    decreases ast,
{
    match ast {
        Expression::IntegerLiteral { token: _, value } => {
            buf.append("(IntLit ");
            push_decimal(*value, buf);
            buf.append(")");
        },
        Expression::BooleanLiteral { token: _, value } => {
            buf.append("(BoolLit ");
            buf.append(
                if *value {
                    "true"
                } else {
                    "false"
                },
            );
            buf.append(")");
        },
        Expression::StringLiteral { token: _, value } => {
            buf.append("(StrLit ");
            buf.append(value.as_str());
            buf.append(")");
        },
        Expression::Grouping { token: _, expr } => {
            buf.append("(Group ");
            print_expression(&*expr, buf);
            buf.append(")");
        },
        Expression::UnaryExpression { token, right } => {
            buf.append("(");
            buf.append(token.lexeme.as_str());
            buf.append(" ");
            print_expression(&*right, buf);
            buf.append(")");
        },
        Expression::BinaryExpression { token, right, left } => {
            buf.append("(");
            buf.append(token.lexeme.as_str());
            buf.append(" ");
            print_expression(&*left, buf);
            buf.append(" ");
            print_expression(&*right, buf);
            buf.append(")");
        },
    }
    proof {
        assert(buf@ =~= old(buf)@ + printed(ast@));
    }
}

} // verus!
