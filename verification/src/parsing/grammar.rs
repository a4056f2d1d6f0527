use super::lexer::{integer_lexeme_is_digits, tokens_are_scanned, tokens_from};
use super::parser::{
    accepts, found_at, is_unary_operator, level_rank, parsed_expression, parsed_level, parsed_operand,
    parsed_operators, parsed_primary, parsed_source, parsed_unary, tokens_left, Level, Parsed,
};
use crate::ast::ExpressionView;
use crate::decimal::{all_digits, decimal_value, integer_value};
use crate::token::{TokenType, TokenView};
use vstd::prelude::*;

verus! {

/// `primary := INTEGER | BOOLEAN | STRING | "(" expression ")"`, said of a
/// tree: a literal of the kind of its token, with the value that its lexeme denotes,
/// or a grouping that `(` opens and that holds an expression.
pub open spec fn is_primary(tree: ExpressionView) -> bool
    decreases tree, 0int,
{
    match tree {
        ExpressionView::IntegerLiteral { token, value } => token.kind == TokenType::IntegerLiteral
            && integer_value(token.lexeme) == Some(value),
        ExpressionView::BooleanLiteral { token, value } => token.kind == TokenType::BooleanLiteral
            && value == (token.lexeme == "true"@),
        ExpressionView::StringLiteral { token, value } => token.kind == TokenType::StringLiteral
            && value == token.lexeme,
        ExpressionView::Grouping { token, expr } => token.kind == TokenType::LeftParen && is_level(
            *expr,
            Level::Equality,
        ),
        _ => false,
    }
}

/// `unary := ( "!" | "-" ) unary | primary`, said of a tree.
pub open spec fn is_unary(tree: ExpressionView) -> bool
    decreases tree, 1int,
{
    ||| tree matches ExpressionView::UnaryExpression { token, right } && is_unary_operator(
        token.kind,
    ) && is_unary(*right)
    ||| is_primary(tree)
}

/// A tree that can stand as an operand of `level`: one of the next tighter level.
pub open spec fn is_operand(tree: ExpressionView, level: Level) -> bool
    decreases tree, 2int + level_rank(level),
{
    match level {
        Level::Equality => is_level(tree, Level::Comparison),
        Level::Comparison => is_level(tree, Level::Term),
        Level::Term => is_level(tree, Level::Factor),
        Level::Factor => is_unary(tree),
    }
}

/// `level := operand ( operator operand )*`, said of a tree: an operator of
/// the level has a tree of the same level to its left and an operand to its right,
/// so that operators of one level group to the left, and a looser operator never
/// stands below a tighter one but in parentheses.
pub open spec fn is_level(tree: ExpressionView, level: Level) -> bool
    decreases tree, 3int + level_rank(level),
{
    ||| tree matches ExpressionView::BinaryExpression { token, left, right } && accepts(
        level,
        token.kind,
    ) && is_level(*left, level) && is_operand(*right, level)
    ||| is_operand(tree, level)
}

/// How many tokens a tree is written with.
pub open spec fn width(tree: ExpressionView) -> nat
    decreases tree,
{
    match tree {
        ExpressionView::Grouping { token, expr } => width(*expr) + 2,
        ExpressionView::UnaryExpression { token, right } => width(*right) + 1,
        ExpressionView::BinaryExpression { token, left, right } => width(*left) + 1 + width(
            *right,
        ),
        _ => 1,
    }
}

/// The tree is written with the tokens that start at position `at`: each node holds
/// the token that stands in its place, and a grouping is closed by a `)`.
pub open spec fn spans(tree: ExpressionView, tokens: Seq<TokenView>, at: int) -> bool
    decreases tree,
{
    match tree {
        ExpressionView::Grouping { token, expr } => {
            &&& 0 <= at < tokens.len()
            &&& tokens[at] == token
            &&& spans(*expr, tokens, at + 1)
            &&& found_at(tokens, at + 1 + width(*expr)).kind == TokenType::RightParen
        },
        ExpressionView::UnaryExpression { token, right } => {
            &&& 0 <= at < tokens.len()
            &&& tokens[at] == token
            &&& spans(*right, tokens, at + 1)
        },
        ExpressionView::BinaryExpression { token, left, right } => {
            &&& spans(*left, tokens, at)
            &&& 0 <= at + width(*left) < tokens.len()
            &&& tokens[at + width(*left)] == token
            &&& spans(*right, tokens, at + width(*left) + 1)
        },
        ExpressionView::IntegerLiteral { token, value } => 0 <= at < tokens.len() && tokens[at]
            == token,
        ExpressionView::BooleanLiteral { token, value } => 0 <= at < tokens.len() && tokens[at]
            == token,
        ExpressionView::StringLiteral { token, value } => 0 <= at < tokens.len() && tokens[at]
            == token,
    }
}

/// A tree is the reading of the tokens from `at` on: it is written with exactly the
/// `used` tokens that stand there, all of them within the sequence.
pub open spec fn reads(tree: ExpressionView, tokens: Seq<TokenView>, at: int, used: nat) -> bool {
    &&& spans(tree, tokens, at)
    &&& width(tree) == used
    &&& 0 <= at
    &&& at + used <= tokens.len()
}

/// What `primary` parses is a primary expression, written with the tokens it took.
pub proof fn primary_follows_grammar(tokens: Seq<TokenView>, at: int)
    ensures
        parsed_primary(tokens, at) matches Parsed::Tree { tree, used } ==> is_primary(tree)
            && reads(tree, tokens, at, used),
    decreases tokens_left(tokens, at), 0int,
{
    if 0 <= at < tokens.len() && tokens[at].kind == TokenType::LeftParen {
        expression_follows_grammar(tokens, at + 1);
    }
}

/// What `unary` parses is a unary expression, written with the tokens it took.
pub proof fn unary_follows_grammar(tokens: Seq<TokenView>, at: int)
    ensures
        parsed_unary(tokens, at) matches Parsed::Tree { tree, used } ==> is_unary(tree) && reads(
            tree,
            tokens,
            at,
            used,
        ),
    decreases tokens_left(tokens, at), 1int,
{
    if 0 <= at < tokens.len() && is_unary_operator(tokens[at].kind) {
        unary_follows_grammar(tokens, at + 1);
    } else {
        primary_follows_grammar(tokens, at);
    }
}

/// What is parsed as an operand of a level is an operand of that level.
pub proof fn operand_follows_grammar(tokens: Seq<TokenView>, at: int, level: Level)
    ensures
        parsed_operand(tokens, at, level) matches Parsed::Tree { tree, used } ==> is_operand(
            tree,
            level,
        ) && reads(tree, tokens, at, used),
    decreases tokens_left(tokens, at), 2int + level_rank(level),
{
    match level {
        Level::Equality => level_follows_grammar(tokens, at, Level::Comparison),
        Level::Comparison => level_follows_grammar(tokens, at, Level::Term),
        Level::Term => level_follows_grammar(tokens, at, Level::Factor),
        Level::Factor => unary_follows_grammar(tokens, at),
    }
}

/// What a level parses is an expression of that level, written with the tokens it
/// took, and no operator of the level stands behind it.
pub proof fn level_follows_grammar(tokens: Seq<TokenView>, at: int, level: Level)
    ensures
        parsed_level(tokens, at, level) matches Parsed::Tree { tree, used } ==> is_level(
            tree,
            level,
        ) && reads(tree, tokens, at, used) && !accepts(level, found_at(tokens, at + used).kind),
    decreases tokens_left(tokens, at), 3int + level_rank(level),
{
    operand_follows_grammar(tokens, at, level);
    if let Parsed::Tree { tree, used } = parsed_operand(tokens, at, level) {
        operators_follow_grammar(tokens, at, at + used, tree, level);
    }
}

/// The operators of a level, read behind a tree of that level that starts at
/// `start`, make a tree of that level of it, which starts at `start` too.
pub proof fn operators_follow_grammar(
    tokens: Seq<TokenView>,
    start: int,
    at: int,
    left: ExpressionView,
    level: Level,
)
    requires
        is_level(left, level),
        start <= at,
        reads(left, tokens, start, (at - start) as nat),
    ensures
        parsed_operators(tokens, at, left, level) matches Parsed::Tree { tree, used } ==> is_level(
            tree,
            level,
        ) && reads(tree, tokens, start, (at - start + used) as nat) && !accepts(
            level,
            found_at(tokens, at + used).kind,
        ),
    decreases tokens_left(tokens, at), 0int,
{
    if 0 <= at < tokens.len() && accepts(level, tokens[at].kind) {
        operand_follows_grammar(tokens, at + 1, level);
        if let Parsed::Tree { tree: right, used } = parsed_operand(tokens, at + 1, level) {
            let joined = ExpressionView::BinaryExpression {
                token: tokens[at],
                left: Box::new(left),
                right: Box::new(right),
            };
            operators_follow_grammar(tokens, start, at + 1 + used, joined, level);
        }
    }
}

/// What `expression` parses is an expression of the grammar, written with the
/// tokens it took.
pub proof fn expression_follows_grammar(tokens: Seq<TokenView>, at: int)
    ensures
        parsed_expression(tokens, at) matches Parsed::Tree { tree, used } ==> is_level(
            tree,
            Level::Equality,
        ) && reads(tree, tokens, at, used),
    decreases tokens_left(tokens, at), 10int,
{
    level_follows_grammar(tokens, at, Level::Equality);
}

/// Every integer literal in the tree has a non-empty run of digits as its lexeme
/// and, as its value, the number that the digits denote in base ten, which fits in
/// 32 bits with a sign.
pub open spec fn literals_denote_their_digits(tree: ExpressionView) -> bool
    decreases tree,
{
    match tree {
        ExpressionView::IntegerLiteral { token, value } => {
            &&& token.lexeme.len() > 0
            &&& all_digits(token.lexeme)
            &&& value == decimal_value(token.lexeme)
            &&& 0 <= value <= i32::MAX
        },
        ExpressionView::Grouping { token, expr } => literals_denote_their_digits(*expr),
        ExpressionView::UnaryExpression { token, right } => literals_denote_their_digits(*right),
        ExpressionView::BinaryExpression { token, left, right } => literals_denote_their_digits(
            *left,
        ) && literals_denote_their_digits(*right),
        _ => true,
    }
}

/// An integer literal in range is parsed to the number that its digits denote.
pub proof fn integer_literal_has_value_of_digits(tokens: Seq<TokenView>, at: int)
    requires
        0 <= at < tokens.len(),
        tokens[at].kind == TokenType::IntegerLiteral,
        tokens[at].lexeme.len() > 0,
        all_digits(tokens[at].lexeme),
        decimal_value(tokens[at].lexeme) <= i32::MAX,
    ensures
        parsed_primary(tokens, at) == (Parsed::Tree {
            tree: ExpressionView::IntegerLiteral {
                token: tokens[at],
                value: decimal_value(tokens[at].lexeme),
            },
            used: 1,
        }),
        parsed_unary(tokens, at) == parsed_primary(tokens, at),
{
}

/// Every integer literal of a parsed tree has the value that its digits denote.
pub proof fn parsed_literals_denote_their_digits(tokens: Seq<TokenView>, at: int)
    ensures
        parsed_expression(tokens, at) matches Parsed::Tree { tree, used }
            ==> literals_denote_their_digits(tree),
{
    expression_follows_grammar(tokens, at);
    if let Parsed::Tree { tree, used } = parsed_expression(tokens, at) {
        grammar_reads_digits(tree, Level::Equality);
    }
}

/// In a tree of the grammar every integer literal has the value of its digits.
pub proof fn grammar_reads_digits(tree: ExpressionView, level: Level)
    ensures
        is_level(tree, level) ==> literals_denote_their_digits(tree),
        is_operand(tree, level) ==> literals_denote_their_digits(tree),
        is_unary(tree) ==> literals_denote_their_digits(tree),
        is_primary(tree) ==> literals_denote_their_digits(tree),
    decreases tree, level_rank(level),
{
    match tree {
        ExpressionView::BinaryExpression { token, left, right } => {
            grammar_reads_digits(*left, level);
            grammar_reads_digits(*right, level);
        },
        ExpressionView::UnaryExpression { token, right } => {
            grammar_reads_digits(*right, level);
        },
        ExpressionView::Grouping { token, expr } => {
            grammar_reads_digits(*expr, Level::Equality);
        },
        ExpressionView::IntegerLiteral { token, value } => {
            if is_primary(tree) {
                crate::decimal::decimal_value_is_natural(token.lexeme);
            }
        },
        _ => {},
    }
    assert(is_primary(tree) ==> literals_denote_their_digits(tree));
    assert(is_unary(tree) ==> literals_denote_their_digits(tree)) by {
        if is_unary(tree) && !is_primary(tree) {
            assert(tree is UnaryExpression);
        }
    }
    match level {
        Level::Equality => {
            grammar_reads_digits(tree, Level::Comparison);
            assert(is_operand(tree, level) == is_level(tree, Level::Comparison));
        },
        Level::Comparison => {
            grammar_reads_digits(tree, Level::Term);
            assert(is_operand(tree, level) == is_level(tree, Level::Term));
        },
        Level::Term => {
            grammar_reads_digits(tree, Level::Factor);
            assert(is_operand(tree, level) == is_level(tree, Level::Factor));
        },
        Level::Factor => {
            assert(is_operand(tree, level) == is_unary(tree));
        },
    }
    assert(is_operand(tree, level) ==> literals_denote_their_digits(tree));
    if is_level(tree, level) && !is_operand(tree, level) {
        match tree {
            ExpressionView::BinaryExpression { token, left, right } => {
                assert(is_level(*left, level));
                assert(is_operand(*right, level));
            },
            _ => {},
        }
    }
}

/// The token at `index`, at or behind position `at`, is an integer literal without
/// a value.
pub open spec fn is_literal_without_value(tokens: Seq<TokenView>, at: int, index: int) -> bool {
    &&& 0 <= at <= index < tokens.len()
    &&& tokens[index].kind == TokenType::IntegerLiteral
    &&& integer_value(tokens[index].lexeme) is None
}

/// Where `primary` finds no tree and no error, it has met an integer literal
/// without a value; the result is the position of that literal.
pub proof fn primary_stops_at_literal(tokens: Seq<TokenView>, at: int) -> (index: int)
    requires
        parsed_primary(tokens, at) is Unrepresentable,
    ensures
        is_literal_without_value(tokens, at, index),
    decreases tokens_left(tokens, at), 0int,
{
    if tokens[at].kind == TokenType::IntegerLiteral {
        at
    } else {
        expression_stops_at_literal(tokens, at + 1)
    }
}

/// Where `unary` finds no tree and no error, it has met an integer literal without
/// a value; the result is the position of that literal.
pub proof fn unary_stops_at_literal(tokens: Seq<TokenView>, at: int) -> (index: int)
    requires
        parsed_unary(tokens, at) is Unrepresentable,
    ensures
        is_literal_without_value(tokens, at, index),
    decreases tokens_left(tokens, at), 1int,
{
    if 0 <= at < tokens.len() && is_unary_operator(tokens[at].kind) {
        unary_stops_at_literal(tokens, at + 1)
    } else {
        primary_stops_at_literal(tokens, at)
    }
}

/// Where the operand of a level is neither a tree nor an error, an integer literal
/// without a value was met; the result is the position of that literal.
pub proof fn operand_stops_at_literal(tokens: Seq<TokenView>, at: int, level: Level) -> (index:
    int)
    requires
        parsed_operand(tokens, at, level) is Unrepresentable,
    ensures
        is_literal_without_value(tokens, at, index),
    decreases tokens_left(tokens, at), 2int + level_rank(level),
{
    match level {
        Level::Equality => level_stops_at_literal(tokens, at, Level::Comparison),
        Level::Comparison => level_stops_at_literal(tokens, at, Level::Term),
        Level::Term => level_stops_at_literal(tokens, at, Level::Factor),
        Level::Factor => unary_stops_at_literal(tokens, at),
    }
}

/// Where a level finds no tree and no error, it has met an integer literal without
/// a value; the result is the position of that literal.
pub proof fn level_stops_at_literal(tokens: Seq<TokenView>, at: int, level: Level) -> (index: int)
    requires
        parsed_level(tokens, at, level) is Unrepresentable,
    ensures
        is_literal_without_value(tokens, at, index),
    decreases tokens_left(tokens, at), 3int + level_rank(level),
{
    match parsed_operand(tokens, at, level) {
        Parsed::Tree { tree, used } => {
            operand_follows_grammar(tokens, at, level);
            operators_stop_at_literal(tokens, at + used, tree, level)
        },
        _ => operand_stops_at_literal(tokens, at, level),
    }
}

/// Where the operators of a level find no tree and no error, an integer literal
/// without a value was met; the result is the position of that literal.
pub proof fn operators_stop_at_literal(
    tokens: Seq<TokenView>,
    at: int,
    left: ExpressionView,
    level: Level,
) -> (index: int)
    requires
        parsed_operators(tokens, at, left, level) is Unrepresentable,
    ensures
        is_literal_without_value(tokens, at, index),
    decreases tokens_left(tokens, at), 0int,
{
    match parsed_operand(tokens, at + 1, level) {
        Parsed::Tree { tree, used } => {
            let joined = ExpressionView::BinaryExpression {
                token: tokens[at],
                left: Box::new(left),
                right: Box::new(tree),
            };
            operators_stop_at_literal(tokens, at + 1 + used, joined, level)
        },
        _ => operand_stops_at_literal(tokens, at + 1, level),
    }
}

/// Where `expression` finds no tree and no error, it has met an integer literal
/// without a value; the result is the position of that literal.
pub proof fn expression_stops_at_literal(tokens: Seq<TokenView>, at: int) -> (index: int)
    requires
        parsed_expression(tokens, at) is Unrepresentable,
    ensures
        is_literal_without_value(tokens, at, index),
    decreases tokens_left(tokens, at), 10int,
{
    level_stops_at_literal(tokens, at, Level::Equality)
}

/// A source text has neither a tree nor a syntax error only where one of its
/// integer literals denotes a number above the largest of 32 bits; the result is
/// the position of such a literal among the tokens.
pub proof fn source_without_outcome_overflows(source: Seq<char>) -> (index: int)
    requires
        parsed_source(source) is Unrepresentable,
    ensures
        0 <= index < tokens_from(source, 0).len(),
        tokens_from(source, 0)[index].kind == TokenType::IntegerLiteral,
        all_digits(tokens_from(source, 0)[index].lexeme),
        decimal_value(tokens_from(source, 0)[index].lexeme) > i32::MAX,
{
    let index = expression_stops_at_literal(tokens_from(source, 0), 0);
    let at = tokens_are_scanned(source, 0, index);
    integer_lexeme_is_digits(source, at);
    index
}

/// Every integer literal in the tree of a source text has the value that its
/// digits denote.
pub proof fn source_literals_denote_their_digits(source: Seq<char>)
    ensures
        parsed_source(source) matches Parsed::Tree { tree, used }
            ==> literals_denote_their_digits(tree),
{
    parsed_literals_denote_their_digits(tokens_from(source, 0), 0);
}

} // verus!
