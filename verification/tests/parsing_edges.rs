use sapo::ast::Expression;
use sapo::ast_printer::print_ast;
use sapo::parsing::parser::{checked_parse, get_location_of_error, parse, ParseError};
use sapo::token::{Token, TokenType};

fn printed(input: &str) -> String {
    print_ast(parse(String::from(input)).unwrap())
}

fn token(token_type: TokenType, lexeme: &str, line: i32) -> Token {
    Token::new(token_type, lexeme.to_string(), line)
}

fn missing_expression(input: &str) -> Token {
    match parse(String::from(input)) {
        Err(ParseError::MissingExpression(token)) => token,
        other => panic!("{:?}", other),
    }
}

fn missing_brace(input: &str) -> Token {
    match parse(String::from(input)) {
        Err(ParseError::MissingBrace(token)) => token,
        other => panic!("{:?}", other),
    }
}

#[test]
fn unary_operators_nest() {
    assert_eq!(printed("!!true"), "(! (! (BoolLit true)))");
    assert_eq!(printed("--5"), "(- (- (IntLit 5)))");
    assert_eq!(printed("-!-1"), "(- (! (- (IntLit 1))))");
}

#[test]
fn the_four_levels_bind_in_order() {
    assert_eq!(
        printed("1 == 2 < 3 + 4 * 5"),
        "(== (IntLit 1) (< (IntLit 2) (+ (IntLit 3) (* (IntLit 4) (IntLit 5)))))"
    );
    assert_eq!(
        printed("1 * 2 + 3 < 4 == true"),
        "(== (< (+ (* (IntLit 1) (IntLit 2)) (IntLit 3)) (IntLit 4)) (BoolLit true))"
    );
    assert_eq!(printed("-1 * 2"), "(* (- (IntLit 1)) (IntLit 2))");
    assert_eq!(printed("1 - -2"), "(- (IntLit 1) (- (IntLit 2)))");
}

#[test]
fn every_level_groups_to_the_left() {
    assert_eq!(
        printed("1 - 2 + 3"),
        "(+ (- (IntLit 1) (IntLit 2)) (IntLit 3))"
    );
    assert_eq!(
        printed("8 / 4 / 2"),
        "(/ (/ (IntLit 8) (IntLit 4)) (IntLit 2))"
    );
    assert_eq!(
        printed("1 < 2 >= 3"),
        "(>= (< (IntLit 1) (IntLit 2)) (IntLit 3))"
    );
    assert_eq!(
        printed("1 == 2 != 3"),
        "(!= (== (IntLit 1) (IntLit 2)) (IntLit 3))"
    );
}

#[test]
fn groupings_nest() {
    assert_eq!(printed("((1))"), "(Group (Group (IntLit 1)))");
    assert_eq!(
        printed("(1 + 2) * (3 - 4)"),
        "(* (Group (+ (IntLit 1) (IntLit 2))) (Group (- (IntLit 3) (IntLit 4))))"
    );
}

#[test]
fn tokens_behind_the_expression_are_left_alone() {
    assert_eq!(printed("1 2"), "(IntLit 1)");
    assert_eq!(printed("8 )"), "(IntLit 8)");
    assert_eq!(printed("1 + 2 ; 3"), "(+ (IntLit 1) (IntLit 2))");
    assert_eq!(printed("true x"), "(BoolLit true)");
}

#[test]
fn literals_keep_their_token_and_value() {
    match *parse(String::from("\n  42")).unwrap() {
        Expression::IntegerLiteral { token: t, value } => {
            assert_eq!(t, token(TokenType::IntegerLiteral, "42", 2));
            assert_eq!(value, 42);
        }
        other => panic!("{:?}", other),
    }
    match *parse(String::from("true")).unwrap() {
        Expression::BooleanLiteral { token: t, value } => {
            assert_eq!(t, token(TokenType::BooleanLiteral, "true", 1));
            assert!(value);
        }
        other => panic!("{:?}", other),
    }
    match *parse(String::from("\"a b\"")).unwrap() {
        Expression::StringLiteral { token: t, value } => {
            assert_eq!(t, token(TokenType::StringLiteral, "a b", 1));
            assert_eq!(value, "a b");
        }
        other => panic!("{:?}", other),
    }
}

#[test]
fn operators_keep_their_token() {
    match *parse(String::from("1\n>= 2")).unwrap() {
        Expression::BinaryExpression { token: t, left, right } => {
            assert_eq!(t, token(TokenType::GreaterEquals, ">=", 2));
            assert_eq!(print_ast(left), "(IntLit 1)");
            assert_eq!(print_ast(right), "(IntLit 2)");
        }
        other => panic!("{:?}", other),
    }
    match *parse(String::from("(1)")).unwrap() {
        Expression::Grouping { token: t, expr } => {
            assert_eq!(t, token(TokenType::LeftParen, "(", 1));
            assert_eq!(print_ast(expr), "(IntLit 1)");
        }
        other => panic!("{:?}", other),
    }
    match *parse(String::from("!false")).unwrap() {
        Expression::UnaryExpression { token: t, right } => {
            assert_eq!(t, token(TokenType::Bang, "!", 1));
            assert_eq!(print_ast(right), "(BoolLit false)");
        }
        other => panic!("{:?}", other),
    }
}

#[test]
fn integer_literal_has_the_value_of_its_digits() {
    assert_eq!(printed("0"), "(IntLit 0)");
    assert_eq!(printed("007"), "(IntLit 7)");
    assert_eq!(printed("1234567890"), "(IntLit 1234567890)");
    assert_eq!(printed("2147483647"), "(IntLit 2147483647)");
    assert_eq!(printed("0000000002147483647"), "(IntLit 2147483647)");
    match *parse(String::from("2147483647")).unwrap() {
        Expression::IntegerLiteral { token: _, value } => assert_eq!(value, i32::MAX),
        other => panic!("{:?}", other),
    }
}

#[test]
fn integer_literal_out_of_range_has_no_tree() {
    assert!(checked_parse(String::from("2147483648")).is_none());
    assert!(checked_parse(String::from("-2147483648")).is_none());
    assert!(checked_parse(String::from("1 + (2 * 99999999999999999999999)")).is_none());
    assert!(checked_parse(String::from("2147483647")).unwrap().is_ok());
}

#[test]
fn integer_literal_that_is_not_read_may_be_out_of_range() {
    let tree = checked_parse(String::from("1 2147483648")).unwrap().unwrap();
    assert_eq!(print_ast(tree), "(IntLit 1)");
    assert!(checked_parse(String::from("; 2147483648")).unwrap().is_err());
}

#[test]
fn checked_parse_agrees_with_parse() {
    let tree = checked_parse(String::from("7 * (9 + 3)")).unwrap().unwrap();
    assert_eq!(
        print_ast(tree),
        "(* (IntLit 7) (Group (+ (IntLit 9) (IntLit 3))))"
    );
    match checked_parse(String::from("(8 + 7")) {
        Some(Err(ParseError::MissingBrace(t))) => assert_eq!(t, token(TokenType::EOF, "EOF", -1)),
        other => panic!("{:?}", other),
    }
}

#[test]
fn missing_expression_reports_the_token_found() {
    assert_eq!(missing_expression("8 + ;"), token(TokenType::Semicolon, ";", 1));
    assert_eq!(missing_expression("x"), token(TokenType::Identifier, "x", 1));
    assert_eq!(missing_expression("1 *\n\n)"), token(TokenType::RightParen, ")", 3));
    assert_eq!(missing_expression("if"), token(TokenType::If, "if", 1));
    assert_eq!(missing_expression("#"), token(TokenType::InvalidToken, "#", 1));
    assert_eq!(missing_expression("* 2"), token(TokenType::Star, "*", 1));
    assert_eq!(missing_expression("(\n=="), token(TokenType::Equals, "==", 2));
}

#[test]
fn missing_expression_at_the_end_of_input() {
    assert_eq!(missing_expression(""), token(TokenType::EOF, "EOF", -1));
    assert_eq!(missing_expression("  \n "), token(TokenType::EOF, "EOF", -1));
    assert_eq!(missing_expression("1 +"), token(TokenType::EOF, "EOF", -1));
    assert_eq!(missing_expression("-"), token(TokenType::EOF, "EOF", -1));
    assert_eq!(missing_expression("("), token(TokenType::EOF, "EOF", -1));
}

#[test]
fn missing_brace_reports_the_token_found() {
    assert_eq!(missing_brace("(8 + 7"), token(TokenType::EOF, "EOF", -1));
    assert_eq!(missing_brace("(8 ;"), token(TokenType::Semicolon, ";", 1));
    assert_eq!(missing_brace("(1\n2)"), token(TokenType::IntegerLiteral, "2", 2));
    assert_eq!(missing_brace("((1) }"), token(TokenType::RightBrace, "}", 1));
}

#[test]
fn parse_error_texts() {
    let error = parse(String::from("8 + ;")).unwrap_err();
    assert_eq!(
        error.to_string(),
        "ParseError at line 1: Expected expression, but ';' was found."
    );
    let error = parse(String::from("(8 + 7")).unwrap_err();
    assert_eq!(
        error.to_string(),
        "ParseError at end of file: Expected ')', but 'EOF' was found."
    );
    let error = parse(String::from("\n\n(8 + 7 }")).unwrap_err();
    assert_eq!(
        error.to_string(),
        "ParseError at line 3: Expected ')', but '}' was found."
    );
    let error = parse(String::from("")).unwrap_err();
    assert_eq!(
        error.to_string(),
        "ParseError at end of file: Expected expression, but 'EOF' was found."
    );
}

#[test]
fn location_of_a_token() {
    assert_eq!(get_location_of_error(&token(TokenType::Plus, "+", 12)), "line 12");
    assert_eq!(get_location_of_error(&token(TokenType::Plus, "+", -1)), "line -1");
    assert_eq!(get_location_of_error(&token(TokenType::EOF, "EOF", 3)), "end of file");
}

#[test]
fn printed_form_is_no_source_text() {
    let first = printed("6");
    assert_eq!(first, "(IntLit 6)");
    assert_eq!(missing_expression(&first), token(TokenType::Identifier, "IntLit", 1));
    let second = printed("7 * 9 - 3");
    assert_eq!(missing_expression(&second), token(TokenType::Star, "*", 1));
}

#[test]
fn printing_twice_gives_the_same_text() {
    assert_eq!(printed("7 * (9 + 3)"), printed("7 * (9 + 3)"));
    assert_eq!(printed("7*(9+3)"), printed(" 7 *\n( 9 + 3 ) "));
}

#[test]
fn printed_literals() {
    let negative = Expression::IntegerLiteral {
        token: token(TokenType::IntegerLiteral, "", 1),
        value: -2147483648,
    };
    assert_eq!(print_ast(Box::new(negative)), "(IntLit -2147483648)");
    assert_eq!(printed("true"), "(BoolLit true)");
    assert_eq!(printed("\"\""), "(StrLit )");
    assert_eq!(printed("\"a (b) c\""), "(StrLit a (b) c)");
}
