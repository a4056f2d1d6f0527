use super::lexer::{scan, scan_advances, tokens_from, Lexer};
use crate::ast::{Expression, ExpressionView};
use crate::decimal::{decimal, integer_value, parse_integer, push_decimal};
use crate::token::{Token, TokenType, TokenView};
use vstd::prelude::*;
use vstd::string::StringExecFns;

verus! {

/// Why parsing failed. Both carry the token that was found where something else
/// was expected.
#[derive(Debug)]
pub enum ParseError {
    /// A parenthesis was opened and no `)` follows the expression inside it.
    MissingBrace(Token),
    /// An expression was expected: a literal or a `(`.
    MissingExpression(Token),
}

/// The mathematical value of a [`ParseError`].
pub ghost enum ParseErrorView {
    MissingBrace(TokenView),
    MissingExpression(TokenView),
}

impl View for ParseError {
    type V = ParseErrorView;

    open spec fn view(&self) -> ParseErrorView {
        match self {
            ParseError::MissingBrace(token) => ParseErrorView::MissingBrace(token@),
            ParseError::MissingExpression(token) => ParseErrorView::MissingExpression(token@),
        }
    }
}

/// Where a token stands, in words: its line, or the end of the file.
pub open spec fn location_text(token: TokenView) -> Seq<char> {
    if token.kind == TokenType::EOF {
        "end of file"@
    } else {
        "line "@ + decimal(token.line)
    }
}

/// The text of a parse error.
pub open spec fn parse_error_text(error: ParseErrorView) -> Seq<char> {
    match error {
        ParseErrorView::MissingBrace(token) => "ParseError at "@ + location_text(token)
            + ": Expected ')', but '"@ + token.lexeme + "' was found."@,
        ParseErrorView::MissingExpression(token) => "ParseError at "@ + location_text(token)
            + ": Expected expression, but '"@ + token.lexeme + "' was found."@,
    }
}

impl ParseError {
    /// The error in words, for a reader.
    pub fn to_string(&self) -> (text: String)
        ensures
            text@ == parse_error_text(self@),
    {
        let mut text = String::from_str("ParseError at ");
        match self {
            ParseError::MissingBrace(t) => {
                text.append(get_location_of_error(t).as_str());
                text.append(": Expected ')', but '");
                text.append(t.lexeme.as_str());
            },
            ParseError::MissingExpression(t) => {
                text.append(get_location_of_error(t).as_str());
                text.append(": Expected expression, but '");
                text.append(t.lexeme.as_str());
            },
        }
        text.append("' was found.");
        text
    }
}

pub fn get_location_of_error(token: &Token) -> (text: String)
    ensures
        text@ == location_text(token@),
{
    if token.token_type == TokenType::EOF {
        String::from_str("end of file")
    } else {
        let mut text = String::from_str("line ");
        push_decimal(token.line, &mut text);
        text
    }
}

/// The levels of binary operators, from the loosest to the tightest.
pub ghost enum Level {
    Equality,
    Comparison,
    Term,
    Factor,
}

/// The operators of a level.
pub open spec fn accepts(level: Level, kind: TokenType) -> bool {
    match level {
        Level::Equality => kind == TokenType::Equals || kind == TokenType::BangEquals,
        Level::Comparison => kind == TokenType::Greater || kind == TokenType::GreaterEquals || kind
            == TokenType::Smaller || kind == TokenType::SmallerEquals,
        Level::Term => kind == TokenType::Minus || kind == TokenType::Plus,
        Level::Factor => kind == TokenType::Star || kind == TokenType::Slash,
    }
}

/// The prefix operators.
pub open spec fn is_unary_operator(kind: TokenType) -> bool {
    kind == TokenType::Bang || kind == TokenType::Minus
}

/// What parsing makes of the tokens from some position on.
pub ghost enum Parsed {
    /// An expression, built from the next `used` tokens.
    Tree { tree: ExpressionView, used: nat },
    /// A syntax error.
    Error { error: ParseErrorView },
    /// An integer literal whose value does not fit in 32 bits.
    Unrepresentable,
}

impl Parsed {
    /// The same outcome, seen from `by` tokens earlier.
    pub open spec fn shift(self, by: nat) -> Parsed {
        match self {
            Parsed::Tree { tree, used } => Parsed::Tree { tree, used: used + by },
            other => other,
        }
    }
}

/// The token that an error reports at the end of input: it stands on no line.
pub open spec fn end_token() -> TokenView {
    TokenView { kind: TokenType::EOF, lexeme: "EOF"@, line: -1 }
}

/// The token at position `at`, and the end-of-input token behind the last one.
pub open spec fn found_at(tokens: Seq<TokenView>, at: int) -> TokenView {
    if 0 <= at < tokens.len() {
        tokens[at]
    } else {
        end_token()
    }
}

/// How many tokens stand at position `at` and behind it.
pub open spec fn tokens_left(tokens: Seq<TokenView>, at: int) -> nat {
    if at <= tokens.len() {
        (tokens.len() - at) as nat
    } else {
        0
    }
}

/// `primary := INTEGER | BOOLEAN | STRING | "(" expression ")"`
///
/// An integer literal has the value of its digits, a boolean literal is `true` where
/// its lexeme is `true`, and a string literal has its lexeme as its value. A
/// parenthesis holds an expression and must be closed. Any other token is no
/// expression.
pub open spec fn parsed_primary(tokens: Seq<TokenView>, at: int) -> Parsed
    decreases tokens_left(tokens, at), 0int,
{
    if !(0 <= at < tokens.len()) {
        Parsed::Error { error: ParseErrorView::MissingExpression(end_token()) }
    } else if tokens[at].kind == TokenType::IntegerLiteral {
        match integer_value(tokens[at].lexeme) {
            Some(value) => Parsed::Tree {
                tree: ExpressionView::IntegerLiteral { token: tokens[at], value },
                used: 1,
            },
            None => Parsed::Unrepresentable,
        }
    } else if tokens[at].kind == TokenType::BooleanLiteral {
        Parsed::Tree {
            tree: ExpressionView::BooleanLiteral {
                token: tokens[at],
                value: tokens[at].lexeme == "true"@,
            },
            used: 1,
        }
    } else if tokens[at].kind == TokenType::StringLiteral {
        Parsed::Tree {
            tree: ExpressionView::StringLiteral { token: tokens[at], value: tokens[at].lexeme },
            used: 1,
        }
    } else if tokens[at].kind == TokenType::LeftParen {
        match parsed_expression(tokens, at + 1) {
            Parsed::Tree { tree, used } => if found_at(tokens, at + 1 + used).kind
                == TokenType::RightParen {
                Parsed::Tree {
                    tree: ExpressionView::Grouping { token: tokens[at], expr: Box::new(tree) },
                    used: used + 2,
                }
            } else {
                Parsed::Error {
                    error: ParseErrorView::MissingBrace(found_at(tokens, at + 1 + used)),
                }
            },
            other => other,
        }
    } else {
        Parsed::Error { error: ParseErrorView::MissingExpression(tokens[at]) }
    }
}

/// `unary := ( "!" | "-" ) unary | primary`
pub open spec fn parsed_unary(tokens: Seq<TokenView>, at: int) -> Parsed
    decreases tokens_left(tokens, at), 1int,
{
    if 0 <= at < tokens.len() && is_unary_operator(tokens[at].kind) {
        match parsed_unary(tokens, at + 1) {
            Parsed::Tree { tree, used } => Parsed::Tree {
                tree: ExpressionView::UnaryExpression { token: tokens[at], right: Box::new(tree) },
                used: used + 1,
            },
            other => other,
        }
    } else {
        parsed_primary(tokens, at)
    }
}

/// An operand of a level: an expression of the next tighter level.
pub open spec fn parsed_operand(tokens: Seq<TokenView>, at: int, level: Level) -> Parsed
    decreases tokens_left(tokens, at), 2int + level_rank(level),
{
    match level {
        Level::Equality => parsed_level(tokens, at, Level::Comparison),
        Level::Comparison => parsed_level(tokens, at, Level::Term),
        Level::Term => parsed_level(tokens, at, Level::Factor),
        Level::Factor => parsed_unary(tokens, at),
    }
}

/// How loose a level binds: the rank of its place in the grammar.
pub open spec fn level_rank(level: Level) -> int {
    match level {
        Level::Equality => 6,
        Level::Comparison => 4,
        Level::Term => 2,
        Level::Factor => 0,
    }
}

/// `level := operand ( operator operand )*`, for each of the four levels
/// `equality`, `comparison`, `term` and `factor`.
pub open spec fn parsed_level(tokens: Seq<TokenView>, at: int, level: Level) -> Parsed
    decreases tokens_left(tokens, at), 3int + level_rank(level),
{
    match parsed_operand(tokens, at, level) {
        Parsed::Tree { tree, used } => parsed_operators(tokens, at + used, tree, level).shift(used),
        other => other,
    }
}

/// The `( operator operand )*` of a level, with `left` the expression read so far:
/// each operator takes what stands to its left as its left operand.
pub open spec fn parsed_operators(
    tokens: Seq<TokenView>,
    at: int,
    left: ExpressionView,
    level: Level,
) -> Parsed
    decreases tokens_left(tokens, at), 0int,
{
    if 0 <= at < tokens.len() && accepts(level, tokens[at].kind) {
        match parsed_operand(tokens, at + 1, level) {
            Parsed::Tree { tree, used } => parsed_operators(
                tokens,
                at + 1 + used,
                ExpressionView::BinaryExpression {
                    token: tokens[at],
                    left: Box::new(left),
                    right: Box::new(tree),
                },
                level,
            ).shift(1 + used),
            other => other,
        }
    } else {
        Parsed::Tree { tree: left, used: 0 }
    }
}

/// `expression := equality`
pub open spec fn parsed_expression(tokens: Seq<TokenView>, at: int) -> Parsed
    decreases tokens_left(tokens, at), 10int,
{
    parsed_level(tokens, at, Level::Equality)
}

/// What parsing makes of a source text: of its tokens, from the first one on.
pub open spec fn parsed_source(source: Seq<char>) -> Parsed {
    parsed_expression(tokens_from(source, 0), 0)
}

/// The tokens of a lexer, with one token of lookahead.
pub struct TokenStream {
    lexer: Lexer,
    peeked: Option<Option<Token>>,
    origin: Ghost<int>,
    taken: Ghost<nat>,
}

impl TokenStream {
    /// All the tokens of the stream, those already handed out too.
    pub closed spec fn tokens(&self) -> Seq<TokenView> {
        tokens_from(self.lexer.source(), self.origin@)
    }

    /// How many tokens have been handed out.
    pub closed spec fn position(&self) -> nat {
        self.taken@
    }

    /// The stream is valid: what its lexer has yet to read, and the token that it
    /// holds in advance, are the tokens behind those handed out.
    pub closed spec fn wf(&self) -> bool {
        let rest = tokens_from(self.lexer.source(), self.lexer.offset());
        &&& self.lexer.wf()
        &&& self.taken@ <= self.tokens().len()
        &&& match self.peeked {
            None => rest == self.tokens().skip(self.taken@ as int),
            Some(Some(token)) => {
                &&& self.taken@ < self.tokens().len()
                &&& token@ == self.tokens()[self.taken@ as int]
                &&& rest == self.tokens().skip(self.taken@ as int + 1)
            },
            Some(None) => self.taken@ == self.tokens().len() && rest.len() == 0,
        }
    }

    /// The stream of the tokens that `lexer` has yet to hand out.
    pub fn new(lexer: Lexer) -> (stream: TokenStream)
        requires
            lexer.wf(),
        ensures
            stream.wf(),
            stream.tokens() == tokens_from(lexer.source(), lexer.offset()),
            stream.position() == 0,
    {
        let ghost origin = lexer.offset();
        let stream = TokenStream { lexer, peeked: None, origin: Ghost(origin), taken: Ghost(0) };
        proof {
            assert(stream.tokens().skip(0) =~= stream.tokens());
        }
        stream
    }

    /// The next token, which stays in the stream; `None` at the end of input.
    pub fn peek(&mut self) -> (token: Option<&Token>)
        requires
            old(self).wf(),
        ensures
            final(self).wf(),
            final(self).tokens() == old(self).tokens(),
            final(self).position() == old(self).position(),
            match token {
                Some(t) => old(self).position() < old(self).tokens().len() && t@ == old(
                    self,
                ).tokens()[old(self).position() as int],
                None => old(self).position() == old(self).tokens().len(),
            },
    {
        if self.peeked.is_none() {
            let ghost rest = tokens_from(self.lexer.source(), self.lexer.offset());
            proof {
                lexing_ends(self.lexer.source(), self.lexer.offset());
            }
            let next = self.lexer.next();
            proof {
                let all = self.tokens();
                let k = self.taken@ as int;
                assert(rest == all.skip(k));
                if next is Some {
                    assert(rest.len() > 0);
                    assert(rest[0] == all[k]);
                    assert(rest.skip(1) =~= all.skip(k + 1));
                    assert(rest.skip(1) =~= tokens_from(self.lexer.source(), self.lexer.offset()));
                }
            }
            self.peeked = Some(next);
        }
        match &self.peeked {
            Some(inner) => inner.as_ref(),
            None => None,
        }
    }

    /// Hands out the next token; `None` at the end of input.
    pub fn next(&mut self) -> (token: Option<Token>)
        requires
            old(self).wf(),
        ensures
            final(self).wf(),
            final(self).tokens() == old(self).tokens(),
            match token {
                Some(t) => {
                    &&& old(self).position() < old(self).tokens().len()
                    &&& t@ == old(self).tokens()[old(self).position() as int]
                    &&& final(self).position() == old(self).position() + 1
                },
                None => {
                    &&& old(self).position() == old(self).tokens().len()
                    &&& final(self).position() == old(self).position()
                },
            },
    {
        let ghost rest = tokens_from(self.lexer.source(), self.lexer.offset());
        proof {
            lexing_ends(self.lexer.source(), self.lexer.offset());
        }
        let next = match self.peeked.take() {
            Some(token) => token,
            None => {
                let next = self.lexer.next();
                proof {
                    let all = self.tokens();
                    let k = self.taken@ as int;
                    assert(rest == all.skip(k));
                    if next is Some {
                        assert(rest.len() > 0);
                        assert(rest[0] == all[k]);
                        assert(rest.skip(1) =~= all.skip(k + 1));
                        assert(rest.skip(1) =~= tokens_from(
                            self.lexer.source(),
                            self.lexer.offset(),
                        ));
                    }
                }
                next
            },
        };
        proof {
            if next is Some {
                self.taken@ = self.taken@ + 1;
            } else {
                assert(tokens_from(self.lexer.source(), self.lexer.offset()) =~= self.tokens().skip(
                    self.taken@ as int,
                ));
            }
        }
        next
    }
}

/// Once lexing has reached the end of input it stays there: nothing is left to hand out.
pub proof fn lexing_ends(source: Seq<char>, from: int)
    ensures
        scan(source, from).kind == TokenType::EOF ==> tokens_from(
            source,
            scan(source, from).end,
        ).len() == 0 && tokens_from(source, from).len() == 0,
        scan(source, from).kind != TokenType::EOF ==> tokens_from(source, from).len() > 0,
{
    scan_advances(source, from);
    if scan(source, from).kind == TokenType::EOF && 0 <= from <= source.len() {
        scan_advances(source, source.len() as int);
    }
}

/// Why a parsing step handed out no tree.
enum Stop {
    Error(ParseError),
    Unrepresentable,
}

/// A parsing step did what the grammar says: it handed out the tree and took the
/// tokens that the tree is built from, or it reported the error.
spec fn agrees(
    result: Result<Box<Expression>, Stop>,
    parsed: Parsed,
    before: nat,
    after: nat,
) -> bool {
    match parsed {
        Parsed::Tree { tree, used } => result matches Ok(expression) && expression@ == tree && after
            == before + used,
        Parsed::Error { error } => result matches Err(Stop::Error(e)) && e@ == error,
        Parsed::Unrepresentable => result matches Err(Stop::Unrepresentable),
    }
}

const EQUALITY_TOKENS: [TokenType; 2] = [TokenType::Equals, TokenType::BangEquals];

const COMPARISON_TOKENS: [TokenType; 4] = [
    TokenType::Greater,
    TokenType::GreaterEquals,
    TokenType::Smaller,
    TokenType::SmallerEquals,
];

const TERM_TOKENS: [TokenType; 2] = [TokenType::Minus, TokenType::Plus];

const FACTOR_TOKENS: [TokenType; 2] = [TokenType::Star, TokenType::Slash];

const UNARY_OPERATORS: [TokenType; 2] = [TokenType::Bang, TokenType::Minus];

/// Parses a source text into an expression tree, or tells why it is none.
///
/// `None` is returned where the text holds an integer literal, in a place where
/// the grammar reads it, whose value does not fit in 32 bits.
pub fn checked_parse(input: String) -> (result: Option<Result<Box<Expression>, ParseError>>)
    requires
        input@.len() < i32::MAX,
    ensures
        match parsed_source(input@) {
            Parsed::Tree { tree, used } => result matches Some(Ok(expression)) && expression@
                == tree,
            Parsed::Error { error } => result matches Some(Err(e)) && e@ == error,
            Parsed::Unrepresentable => result is None,
        },
{
    let mut tokens = TokenStream::new(Lexer::new(input));
    match parse_expression(&mut tokens) {
        Ok(expression) => Some(Ok(expression)),
        Err(Stop::Error(error)) => Some(Err(error)),
        Err(Stop::Unrepresentable) => None,
    }
}

/// Parses a source text into an expression tree, or tells why it is none.
///
/// Every integer literal that the grammar reads must fit in 32 bits;
/// [`checked_parse`] is there for a text of which this is not known.
pub fn parse(input: String) -> (result: Result<Box<Expression>, ParseError>)
    requires
        input@.len() < i32::MAX,
        !(parsed_source(input@) is Unrepresentable),
    ensures
        match parsed_source(input@) {
            Parsed::Tree { tree, used } => result matches Ok(expression) && expression@ == tree,
            Parsed::Error { error } => result matches Err(e) && e@ == error,
            Parsed::Unrepresentable => false,
        },
{
    match checked_parse(input) {
        Some(result) => result,
        None => vstd::pervasive::unreached(),
    }
}

fn parse_expression(tokens: &mut TokenStream) -> (result: Result<Box<Expression>, Stop>)
    requires
        old(tokens).wf(),
    ensures
        final(tokens).wf(),
        final(tokens).tokens() == old(tokens).tokens(),
        agrees(
            result,
            parsed_expression(old(tokens).tokens(), old(tokens).position() as int),
            old(tokens).position(),
            final(tokens).position(),
        ),
    decreases tokens_left(old(tokens).tokens(), old(tokens).position() as int), 10int,
{
    parse_equality(tokens)
}

fn parse_equality(tokens: &mut TokenStream) -> (result: Result<Box<Expression>, Stop>)
    requires
        old(tokens).wf(),
    ensures
        final(tokens).wf(),
        final(tokens).tokens() == old(tokens).tokens(),
        agrees(
            result,
            parsed_level(old(tokens).tokens(), old(tokens).position() as int, Level::Equality),
            old(tokens).position(),
            final(tokens).position(),
        ),
    decreases tokens_left(old(tokens).tokens(), old(tokens).position() as int), 9int,
{
    let ghost all = tokens.tokens();
    let ghost start = tokens.position();
    proof {
        assert(parsed_operand(all, start as int, Level::Equality) == parsed_level(all, start as int, Level::Comparison));
    }
    let mut left = parse_comparison(tokens)?;
    loop
        invariant
            tokens.wf(),
            tokens.tokens() == all,
            start <= tokens.position() <= all.len(),
            all == old(tokens).tokens(),
            start == old(tokens).position(),
            parsed_level(all, start as int, Level::Equality) == parsed_operators(
                all,
                tokens.position() as int,
                left@,
                Level::Equality,
            ).shift((tokens.position() - start) as nat),
        ensures
            tokens.wf(),
            tokens.tokens() == all,
            parsed_level(all, start as int, Level::Equality) == (Parsed::Tree {
                tree: left@,
                used: (tokens.position() - start) as nat,
            }),
        decreases tokens_left(all, tokens.position() as int),
    {
        match match_token(tokens, &EQUALITY_TOKENS) {
            Some(token) => {
                proof {
                    assert(parsed_operand(all, tokens.position() as int, Level::Equality) == parsed_level(all, tokens.position() as int, Level::Comparison));
                }
                let right = parse_comparison(tokens)?;
                left = Box::new(Expression::BinaryExpression { token, left, right });
            },
            None => {
                break ;
            },
        }
    }
    Ok(left)
}

fn parse_comparison(tokens: &mut TokenStream) -> (result: Result<Box<Expression>, Stop>)
    requires
        old(tokens).wf(),
    ensures
        final(tokens).wf(),
        final(tokens).tokens() == old(tokens).tokens(),
        agrees(
            result,
            parsed_level(old(tokens).tokens(), old(tokens).position() as int, Level::Comparison),
            old(tokens).position(),
            final(tokens).position(),
        ),
    decreases tokens_left(old(tokens).tokens(), old(tokens).position() as int), 7int,
{
    let ghost all = tokens.tokens();
    let ghost start = tokens.position();
    proof {
        assert(parsed_operand(all, start as int, Level::Comparison) == parsed_level(all, start as int, Level::Term));
    }
    let mut left = parse_term(tokens)?;
    loop
        invariant
            tokens.wf(),
            tokens.tokens() == all,
            start <= tokens.position() <= all.len(),
            all == old(tokens).tokens(),
            start == old(tokens).position(),
            parsed_level(all, start as int, Level::Comparison) == parsed_operators(
                all,
                tokens.position() as int,
                left@,
                Level::Comparison,
            ).shift((tokens.position() - start) as nat),
        ensures
            tokens.wf(),
            tokens.tokens() == all,
            parsed_level(all, start as int, Level::Comparison) == (Parsed::Tree {
                tree: left@,
                used: (tokens.position() - start) as nat,
            }),
        decreases tokens_left(all, tokens.position() as int),
    {
        match match_token(tokens, &COMPARISON_TOKENS) {
            Some(token) => {
                proof {
                    assert(parsed_operand(all, tokens.position() as int, Level::Comparison) == parsed_level(all, tokens.position() as int, Level::Term));
                }
                let right = parse_term(tokens)?;
                left = Box::new(Expression::BinaryExpression { token, left, right });
            },
            None => {
                break ;
            },
        }
    }
    Ok(left)
}

fn parse_term(tokens: &mut TokenStream) -> (result: Result<Box<Expression>, Stop>)
    requires
        old(tokens).wf(),
    ensures
        final(tokens).wf(),
        final(tokens).tokens() == old(tokens).tokens(),
        agrees(
            result,
            parsed_level(old(tokens).tokens(), old(tokens).position() as int, Level::Term),
            old(tokens).position(),
            final(tokens).position(),
        ),
    decreases tokens_left(old(tokens).tokens(), old(tokens).position() as int), 5int,
{
    let ghost all = tokens.tokens();
    let ghost start = tokens.position();
    proof {
        assert(parsed_operand(all, start as int, Level::Term) == parsed_level(all, start as int, Level::Factor));
    }
    let mut left = parse_factor(tokens)?;
    loop
        invariant
            tokens.wf(),
            tokens.tokens() == all,
            start <= tokens.position() <= all.len(),
            all == old(tokens).tokens(),
            start == old(tokens).position(),
            parsed_level(all, start as int, Level::Term) == parsed_operators(
                all,
                tokens.position() as int,
                left@,
                Level::Term,
            ).shift((tokens.position() - start) as nat),
        ensures
            tokens.wf(),
            tokens.tokens() == all,
            parsed_level(all, start as int, Level::Term) == (Parsed::Tree {
                tree: left@,
                used: (tokens.position() - start) as nat,
            }),
        decreases tokens_left(all, tokens.position() as int),
    {
        match match_token(tokens, &TERM_TOKENS) {
            Some(token) => {
                proof {
                    assert(parsed_operand(all, tokens.position() as int, Level::Term) == parsed_level(all, tokens.position() as int, Level::Factor));
                }
                let right = parse_factor(tokens)?;
                left = Box::new(Expression::BinaryExpression { token, left, right });
            },
            None => {
                break ;
            },
        }
    }
    Ok(left)
}

fn parse_factor(tokens: &mut TokenStream) -> (result: Result<Box<Expression>, Stop>)
    requires
        old(tokens).wf(),
    ensures
        final(tokens).wf(),
        final(tokens).tokens() == old(tokens).tokens(),
        agrees(
            result,
            parsed_level(old(tokens).tokens(), old(tokens).position() as int, Level::Factor),
            old(tokens).position(),
            final(tokens).position(),
        ),
    decreases tokens_left(old(tokens).tokens(), old(tokens).position() as int), 3int,
{
    let ghost all = tokens.tokens();
    let ghost start = tokens.position();
    proof {
        assert(parsed_operand(all, start as int, Level::Factor) == parsed_unary(all, start as int));
    }
    let mut left = parse_unary_operation(tokens)?;
    loop
        invariant
            tokens.wf(),
            tokens.tokens() == all,
            start <= tokens.position() <= all.len(),
            all == old(tokens).tokens(),
            start == old(tokens).position(),
            parsed_level(all, start as int, Level::Factor) == parsed_operators(
                all,
                tokens.position() as int,
                left@,
                Level::Factor,
            ).shift((tokens.position() - start) as nat),
        ensures
            tokens.wf(),
            tokens.tokens() == all,
            parsed_level(all, start as int, Level::Factor) == (Parsed::Tree {
                tree: left@,
                used: (tokens.position() - start) as nat,
            }),
        decreases tokens_left(all, tokens.position() as int),
    {
        match match_token(tokens, &FACTOR_TOKENS) {
            Some(token) => {
                proof {
                    assert(parsed_operand(all, tokens.position() as int, Level::Factor) == parsed_unary(all, tokens.position() as int));
                }
                let right = parse_unary_operation(tokens)?;
                left = Box::new(Expression::BinaryExpression { token, left, right });
            },
            None => {
                break ;
            },
        }
    }
    Ok(left)
}

fn parse_unary_operation(tokens: &mut TokenStream) -> (result: Result<Box<Expression>, Stop>)
    requires
        old(tokens).wf(),
    ensures
        final(tokens).wf(),
        final(tokens).tokens() == old(tokens).tokens(),
        agrees(
            result,
            parsed_unary(old(tokens).tokens(), old(tokens).position() as int),
            old(tokens).position(),
            final(tokens).position(),
        ),
    decreases tokens_left(old(tokens).tokens(), old(tokens).position() as int), 1int,
{
    if let Some(token) = match_token(tokens, &UNARY_OPERATORS) {
        // stuff like !! and even -- is allowed by the grammar...
        let right = parse_unary_operation(tokens)?;
        return Ok(Box::new(Expression::UnaryExpression { token, right }));
    }
    parse_primary_expr(tokens)
}

fn parse_primary_expr(tokens: &mut TokenStream) -> (result: Result<Box<Expression>, Stop>)
    requires
        old(tokens).wf(),
    ensures
        final(tokens).wf(),
        final(tokens).tokens() == old(tokens).tokens(),
        agrees(
            result,
            parsed_primary(old(tokens).tokens(), old(tokens).position() as int),
            old(tokens).position(),
            final(tokens).position(),
        ),
    decreases tokens_left(old(tokens).tokens(), old(tokens).position() as int), 0int,
{
    let ghost found = found_at(tokens.tokens(), tokens.position() as int);
    let ghost more = tokens.position() < tokens.tokens().len();
    if let Some(token) = match_token(tokens, &[TokenType::IntegerLiteral]) {
        return match parse_integer(&token.lexeme) {
            Some(value) => Ok(Box::new(Expression::IntegerLiteral { token, value })),
            None => Err(Stop::Unrepresentable),
        };
    }
    assert(more ==> found.kind != TokenType::IntegerLiteral) by {
        assert([TokenType::IntegerLiteral]@[0] == TokenType::IntegerLiteral);
    }
    if let Some(token) = match_token(tokens, &[TokenType::BooleanLiteral]) {
        let value = is_true(&token.lexeme);
        return Ok(Box::new(Expression::BooleanLiteral { token, value }));
    }
    assert(more ==> found.kind != TokenType::BooleanLiteral) by {
        assert([TokenType::BooleanLiteral]@[0] == TokenType::BooleanLiteral);
    }
    if let Some(token) = match_token(tokens, &[TokenType::StringLiteral]) {
        let value = token.lexeme.clone();
        return Ok(Box::new(Expression::StringLiteral { token, value }));
    }
    assert(more ==> found.kind != TokenType::StringLiteral) by {
        assert([TokenType::StringLiteral]@[0] == TokenType::StringLiteral);
    }
    if let Some(token) = match_token(tokens, &[TokenType::LeftParen]) {
        let expr = parse_expression(tokens)?;
        if let None = match_token(tokens, &[TokenType::RightParen]) {
            assert(found_at(tokens.tokens(), tokens.position() as int).kind
                != TokenType::RightParen) by {
                assert([TokenType::RightParen]@[0] == TokenType::RightParen);
            }
            return Err(Stop::Error(ParseError::MissingBrace(next_token(tokens))));
        };
        return Ok(Box::new(Expression::Grouping { token, expr }));
    }
    assert(more ==> found.kind != TokenType::LeftParen) by {
        assert([TokenType::LeftParen]@[0] == TokenType::LeftParen);
    }
    Err(Stop::Error(ParseError::MissingExpression(next_token(tokens))))
}

/// Whether the lexeme of a boolean literal is `true`.
fn is_true(lexeme: &String) -> (value: bool)
    ensures
        value == (lexeme@ == "true"@),
{
    *lexeme == String::from_str("true")
}

/// A copy of the token that comes next, which stays in the stream; at the end of
/// input, the end-of-input token.
fn next_token(tokens: &mut TokenStream) -> (token: Token)
    requires
        old(tokens).wf(),
    ensures
        final(tokens).wf(),
        final(tokens).tokens() == old(tokens).tokens(),
        final(tokens).position() == old(tokens).position(),
        token@ == found_at(old(tokens).tokens(), old(tokens).position() as int),
{
    match tokens.peek() {
        Some(token) => token.duplicate(),
        None => Token::new(TokenType::EOF, "EOF".to_owned(), -1),
    }
}

/// Hands out the next token if its type is one of `types_to_match`, and leaves it
/// in the stream if not.
fn match_token(tokens: &mut TokenStream, types_to_match: &[TokenType]) -> (token: Option<Token>)
    requires
        old(tokens).wf(),
    ensures
        final(tokens).wf(),
        final(tokens).tokens() == old(tokens).tokens(),
        final(tokens).position() <= final(tokens).tokens().len(),
        match token {
            Some(t) => {
                &&& old(tokens).position() < old(tokens).tokens().len()
                &&& t@ == old(tokens).tokens()[old(tokens).position() as int]
                &&& types_to_match@.contains(t.token_type)
                &&& final(tokens).position() == old(tokens).position() + 1
            },
            None => {
                &&& final(tokens).position() == old(tokens).position()
                &&& !types_to_match@.contains(
                    found_at(old(tokens).tokens(), old(tokens).position() as int).kind,
                ) || old(tokens).position() == old(tokens).tokens().len()
            },
        },
{
    if let Some(next_token) = tokens.peek() {
        if contains(types_to_match, next_token.token_type) {
            return tokens.next();
        }
    }
    None
}

/// Whether `kind` is among `kinds`.
fn contains(kinds: &[TokenType], kind: TokenType) -> (found: bool)
    ensures
        found == kinds@.contains(kind),
{
    let mut index: usize = 0;
    while index < kinds.len()
        invariant
            index <= kinds@.len(),
            forall|i: int| 0 <= i < index ==> kinds@[i] != kind,
        decreases kinds@.len() - index,
    {
        if kinds[index] == kind {
            return true;
        }
        index += 1;
    }
    false
}

} // verus!
