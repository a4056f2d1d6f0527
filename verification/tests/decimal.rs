use sapo::decimal::{is_digit, parse_integer, push_decimal};
use sapo::token::{Token, TokenType};

fn written(value: i32) -> String {
    let mut text = String::from(">");
    push_decimal(value, &mut text);
    text
}

#[test]
fn digits_are_the_ten_ascii_digits() {
    for c in "0123456789".chars() {
        assert!(is_digit(c));
    }
    assert!(!is_digit('/'));
    assert!(!is_digit(':'));
    assert!(!is_digit('a'));
    assert!(!is_digit('\u{663}'));
}

#[test]
fn integers_are_read_in_base_ten() {
    assert_eq!(parse_integer(&"0".to_string()), Some(0));
    assert_eq!(parse_integer(&"9".to_string()), Some(9));
    assert_eq!(parse_integer(&"10".to_string()), Some(10));
    assert_eq!(parse_integer(&"0012".to_string()), Some(12));
    assert_eq!(parse_integer(&"88989".to_string()), Some(88989));
    assert_eq!(parse_integer(&"2147483647".to_string()), Some(2147483647));
}

#[test]
fn integers_that_do_not_fit_are_not_read() {
    assert_eq!(parse_integer(&"2147483648".to_string()), None);
    assert_eq!(parse_integer(&"2147483650".to_string()), None);
    assert_eq!(parse_integer(&"4294967296".to_string()), None);
    assert_eq!(parse_integer(&"99999999999999999999999999999999".to_string()), None);
    assert_eq!(parse_integer(&"21474836470".to_string()), None);
}

#[test]
fn what_is_no_run_of_digits_is_not_read() {
    assert_eq!(parse_integer(&"".to_string()), None);
    assert_eq!(parse_integer(&"-1".to_string()), None);
    assert_eq!(parse_integer(&"+1".to_string()), None);
    assert_eq!(parse_integer(&"12a".to_string()), None);
    assert_eq!(parse_integer(&"a12".to_string()), None);
    assert_eq!(parse_integer(&" 1".to_string()), None);
    assert_eq!(parse_integer(&"1_0".to_string()), None);
    assert_eq!(parse_integer(&"99999999999x".to_string()), None);
}

#[test]
fn integers_are_written_in_base_ten() {
    assert_eq!(written(0), ">0");
    assert_eq!(written(7), ">7");
    assert_eq!(written(10), ">10");
    assert_eq!(written(1000), ">1000");
    assert_eq!(written(-1), ">-1");
    assert_eq!(written(-902), ">-902");
    assert_eq!(written(i32::MAX), ">2147483647");
    assert_eq!(written(i32::MIN), ">-2147483648");
}

#[test]
fn written_integers_are_read_back() {
    for value in [0, 1, 9, 10, 99, 100, 12345, 1000000, i32::MAX] {
        let mut text = String::new();
        push_decimal(value, &mut text);
        assert_eq!(parse_integer(&text), Some(value));
    }
}

#[test]
fn a_copy_of_a_token_equals_the_token() {
    let token = Token::new(TokenType::Identifier, "yolo".to_string(), 4);
    let copy = token.duplicate();
    assert_eq!(copy, token);
    assert_eq!(copy.token_type, TokenType::Identifier);
    assert_eq!(copy.lexeme, "yolo");
    assert_eq!(copy.line, 4);
}
