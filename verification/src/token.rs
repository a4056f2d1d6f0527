use vstd::prelude::*;

verus! {

/// The fixed set of token kinds the lexer can produce.
#[derive(Debug, PartialEq, Eq, Clone, Copy, Structural)]
pub enum TokenType {
    // Single character tokens
    Semicolon,
    LeftParen,
    RightParen,
    LeftBrace,
    RightBrace,
    Bang,
    // Arithmetic operators
    Minus,
    Plus,
    Star,
    Slash,
    // Prefixed tokens (!=, ==, <=, etc)
    Assignment,
    Equals,
    BangEquals,
    Greater,
    GreaterEquals,
    Smaller,
    SmallerEquals,
    // Keywords
    If,
    Identifier,
    // Literals
    IntegerLiteral,
    StringLiteral,
    BooleanLiteral,
    // Special tokens
    InvalidToken,
    EOF,
}

/// A lexical unit: its kind, the text it was scanned from and the line it ends on.
#[derive(Clone, PartialEq, Debug)]
pub struct Token {
    pub token_type: TokenType,
    pub lexeme: String,
    pub line: i32,
}

/// The mathematical value of a [`Token`]: the lexeme as a sequence of characters.
pub ghost struct TokenView {
    pub kind: TokenType,
    pub lexeme: Seq<char>,
    pub line: int,
}

impl View for Token {
    type V = TokenView;

    open spec fn view(&self) -> TokenView {
        TokenView { kind: self.token_type, lexeme: self.lexeme@, line: self.line as int }
    }
}

impl Token {
    pub fn new(token_type: TokenType, lexeme: String, line: i32) -> (token: Token)
        ensures
            token.token_type == token_type,
            token.lexeme == lexeme,
            token.line == line,
    {
        Token { token_type, lexeme, line }
    }

    /// An independent copy of this token.
    pub fn duplicate(&self) -> (token: Token)
        ensures
            token == *self,
    {
        Token { token_type: self.token_type, lexeme: self.lexeme.clone(), line: self.line }
    }
}

} // verus!
