use sapo::ast_printer;
use sapo::parsing::parser::parse;

fn assert_ast(input: &str, expected: &str) {
    let ast = parse(String::from(input)).unwrap();
    assert_eq!(ast_printer::print_ast(ast), expected);
}

#[test]
fn parse_integer_literal() {
    assert_ast("6", "(IntLit 6)");
}

#[test]
fn parse_string_literal() {
    assert_ast("\"test\"", "(StrLit test)");
}

#[test]
fn parse_boolean_literal() {
    assert_ast("false", "(BoolLit false)");
}

#[test]
fn parse_single_binary_expression() {
    assert_ast("7 >= 8", "(>= (IntLit 7) (IntLit 8))")
}

#[test]
fn parse_comparion_operators() {
    assert_ast("true == false", "(== (BoolLit true) (BoolLit false))");
    assert_ast("true != false", "(!= (BoolLit true) (BoolLit false))");
    assert_ast("6 != 45", "(!= (IntLit 6) (IntLit 45))");
    assert_ast("6 > 45", "(> (IntLit 6) (IntLit 45))");
    assert_ast("6 >= true", "(>= (IntLit 6) (BoolLit true))");
    assert_ast("\"hello\" < 45", "(< (StrLit hello) (IntLit 45))");
    assert_ast("6 >= 45", "(>= (IntLit 6) (IntLit 45))");
}

#[test]
fn parse_unary_expression() {
    assert_ast("-9", "(- (IntLit 9))")
}

#[test]
fn parse_grouping_expression() {
    assert_ast("(9)", "(Group (IntLit 9))")
}

#[test]
fn operator_associativity() {
    assert_ast("7 * 9 * 3", "(* (* (IntLit 7) (IntLit 9)) (IntLit 3))")
}

#[test]
fn operator_precedence() {
    assert_ast("7 * 9 - 3", "(- (* (IntLit 7) (IntLit 9)) (IntLit 3))")
}

#[test]
fn operator_precedence_with_grouping() {
    assert_ast(
        "7 * (9 + 3)",
        "(* (IntLit 7) (Group (+ (IntLit 9) (IntLit 3))))",
    )
}

#[test]
#[should_panic(expected = "Error at line 1: Expected expression, but ';' was found")]
fn missing_expression_error() {
    if let Err(error) = parse(String::from("8 + ;")) {
        panic!("{}", error.to_string());
    }
}

#[test]
#[should_panic(expected = "Error at end of file: Expected ')', but 'EOF' was found")]
fn missing_closing_brace_error() {
    if let Err(error) = parse(String::from("(8 + 7")) {
        panic!("{}", error.to_string());
    }
}
