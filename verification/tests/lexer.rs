use sapo::parsing::lexer::Lexer;
use sapo::parsing::parser::TokenStream;
use sapo::token::{Token, TokenType};

#[test]
fn peek_token() {
    let l = Lexer::new(String::from("true false"));
    let mut p = TokenStream::new(l);
    assert_eq!(
        *p.peek().unwrap(),
        Token::new(TokenType::BooleanLiteral, "true".to_string(), 1)
    );
    assert_eq!(
        p.next().unwrap(),
        Token::new(TokenType::BooleanLiteral, "true".to_string(), 1)
    );
    assert_eq!(
        *p.peek().unwrap(),
        Token::new(TokenType::BooleanLiteral, "false".to_string(), 1)
    );
    assert_eq!(
        p.next().unwrap(),
        Token::new(TokenType::BooleanLiteral, "false".to_string(), 1)
    );
    assert_eq!(p.next(), None)
}

#[test]
fn lex_boolean_expressions() {
    let mut l = Lexer::new(String::from("true false !true"));
    assert_eq!(
        l.next().unwrap(),
        Token::new(TokenType::BooleanLiteral, "true".to_string(), 1)
    );
    assert_eq!(
        l.next().unwrap(),
        Token::new(TokenType::BooleanLiteral, "false".to_string(), 1)
    );
    assert_eq!(
        l.next().unwrap(),
        Token::new(TokenType::Bang, "!".to_string(), 1)
    );
    assert_eq!(
        l.next().unwrap(),
        Token::new(TokenType::BooleanLiteral, "true".to_string(), 1)
    );
    assert_eq!(l.next(), None)
}

#[test]
fn lex_comparison_operators() {
    let mut l = Lexer::new(String::from("= == != <= >= <>".to_string()));
    assert_eq!(
        l.next().unwrap(),
        Token::new(TokenType::Assignment, "=".to_string(), 1)
    );
    assert_eq!(
        l.next().unwrap(),
        Token::new(TokenType::Equals, "==".to_string(), 1)
    );
    assert_eq!(
        l.next().unwrap(),
        Token::new(TokenType::BangEquals, "!=".to_string(), 1)
    );
    assert_eq!(
        l.next().unwrap(),
        Token::new(TokenType::SmallerEquals, "<=".to_string(), 1)
    );
    assert_eq!(
        l.next().unwrap(),
        Token::new(TokenType::GreaterEquals, ">=".to_string(), 1)
    );
    assert_eq!(
        l.next().unwrap(),
        Token::new(TokenType::Smaller, "<".to_string(), 1)
    );
    assert_eq!(
        l.next().unwrap(),
        Token::new(TokenType::Greater, ">".to_string(), 1)
    );
    assert_eq!(l.next(), None)
}

#[test]
fn lex_parenthesis() {
    let mut l = Lexer::new(String::from("({}( ))"));
    assert_eq!(
        l.next().unwrap(),
        Token::new(TokenType::LeftParen, "(".to_string(), 1)
    );
    assert_eq!(
        l.next().unwrap(),
        Token::new(TokenType::LeftBrace, "{".to_string(), 1)
    );
    assert_eq!(
        l.next().unwrap(),
        Token::new(TokenType::RightBrace, "}".to_string(), 1)
    );
    assert_eq!(
        l.next().unwrap(),
        Token::new(TokenType::LeftParen, "(".to_string(), 1)
    );
    assert_eq!(
        l.next().unwrap(),
        Token::new(TokenType::RightParen, ")".to_string(), 1)
    );
    assert_eq!(
        l.next().unwrap(),
        Token::new(TokenType::RightParen, ")".to_string(), 1)
    );
    assert_eq!(l.next(), None)
}

#[test]
fn lex_arithmetic_operators() {
    let mut l = Lexer::new(String::from(" + - */"));
    assert_eq!(
        l.next().unwrap(),
        Token::new(TokenType::Plus, "+".to_string(), 1)
    );
    assert_eq!(
        l.next().unwrap(),
        Token::new(TokenType::Minus, "-".to_string(), 1)
    );
    assert_eq!(
        l.next().unwrap(),
        Token::new(TokenType::Star, "*".to_string(), 1)
    );
    assert_eq!(
        l.next().unwrap(),
        Token::new(TokenType::Slash, "/".to_string(), 1)
    );
    assert_eq!(l.next(), None)
}

#[test]
fn lex_empty_string() {
    let mut l = Lexer::new(String::from(""));
    assert_eq!(l.next(), None)
}

#[test]
fn lex_whitespace() {
    let mut l = Lexer::new(String::from("\r \t \n   "));
    assert_eq!(l.next(), None)
}

#[test]
fn lex_integral_literals() {
    let input = "5 88989 -2928";
    let mut l = Lexer::new(String::from(input));
    assert_eq!(
        l.next().unwrap(),
        Token::new(TokenType::IntegerLiteral, "5".to_string(), 1)
    );
    assert_eq!(
        l.next().unwrap(),
        Token::new(TokenType::IntegerLiteral, "88989".to_string(), 1)
    );
    assert_eq!(
        l.next().unwrap(),
        Token::new(TokenType::Minus, "-".to_string(), 1)
    );
    assert_eq!(
        l.next().unwrap(),
        Token::new(TokenType::IntegerLiteral, "2928".to_string(), 1)
    );
    assert_eq!(l.next(), None)
}

#[test]
fn lex_identifiers() {
    let input = "_x x_x_x78 Yh0A99";
    let mut l = Lexer::new(String::from(input.to_string()));
    assert_eq!(
        l.next_token(),
        Token::new(TokenType::Identifier, "_x".to_string(), 1)
    );
    assert_eq!(
        l.next_token(),
        Token::new(TokenType::Identifier, "x_x_x78".to_string(), 1)
    );
    assert_eq!(
        l.next_token(),
        Token::new(TokenType::Identifier, "Yh0A99".to_string(), 1)
    );
    assert_eq!(l.next(), None)
}

#[test]
fn lex_invalid_tokens() {
    let mut l = Lexer::new(String::from("#"));
    assert_eq!(
        l.next_token(),
        Token::new(TokenType::InvalidToken, "#".to_string(), 1)
    );
    assert_eq!(l.next(), None)
}

#[test]
fn lex_strings() {
    let mut l = Lexer::new(String::from("\"bla bla bla\"  "));
    assert_eq!(
        l.next_token(),
        Token::new(TokenType::StringLiteral, "bla bla bla".to_string(), 1)
    );
    assert_eq!(l.next(), None)
}

#[test]
fn lex_if() {
    let mut l = Lexer::new(String::from("if"));
    assert_eq!(
        l.next_token(),
        Token::new(TokenType::If, "if".to_string(), 1)
    );
    assert_eq!(l.next(), None)
}

#[test]
fn lex_semicolon() {
    let mut l = Lexer::new(String::from("47;"));
    assert_eq!(
        l.next_token(),
        Token::new(TokenType::IntegerLiteral, "47".to_string(), 1)
    );
    assert_eq!(
        l.next_token(),
        Token::new(TokenType::Semicolon, ";".to_string(), 1)
    );
    assert_eq!(l.next(), None)
}

#[test]
fn lex_combined() {
    let input = r#"
           x = -4;

        yolo = 56789"iii"
        z42     = "sapo is cool"
        #if==

        "#;

    let mut l = Lexer::new(input.to_string());

    let expected_tokens = [
        Token::new(TokenType::Identifier, "x".to_string(), 2),
        Token::new(TokenType::Assignment, "=".to_string(), 2),
        Token::new(TokenType::Minus, "-".to_string(), 2),
        Token::new(TokenType::IntegerLiteral, "4".to_string(), 2),
        Token::new(TokenType::Semicolon, ";".to_string(), 2),
        Token::new(TokenType::Identifier, "yolo".to_string(), 4),
        Token::new(TokenType::Assignment, "=".to_string(), 4),
        Token::new(TokenType::IntegerLiteral, "56789".to_string(), 4),
        Token::new(TokenType::StringLiteral, "iii".to_string(), 4),
        Token::new(TokenType::Identifier, "z42".to_string(), 5),
        Token::new(TokenType::Assignment, "=".to_string(), 5),
        Token::new(TokenType::StringLiteral, "sapo is cool".to_string(), 5),
        Token::new(TokenType::InvalidToken, "#".to_string(), 6),
        Token::new(TokenType::If, "if".to_string(), 6),
        Token::new(TokenType::Equals, "==".to_string(), 6),
    ];

    for expected in expected_tokens.iter() {
        let actual = l.next_token();
        assert_eq!(expected, &actual);
    }
    assert_eq!(l.next(), None)
}
