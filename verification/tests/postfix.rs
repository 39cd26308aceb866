//! The converter on token sequences written out by hand.

use sci_calc::postfix::{rpn, SyntaxError};
use sci_calc::token::{Token, TokenKind};

fn token(text: &str) -> Token {
    let kind = match text {
        "(" => TokenKind::LeftParen,
        ")" => TokenKind::RightParen,
        "+" => TokenKind::Add,
        "-" => TokenKind::Sub,
        "*" => TokenKind::Mul,
        "/" => TokenKind::Div,
        "^" => TokenKind::Pow,
        "sin" => TokenKind::Sin,
        "cos" => TokenKind::Cos,
        "tg" => TokenKind::Tan,
        "ctg" => TokenKind::Cot,
        _ => TokenKind::Number,
    };
    Token::new(kind, text.to_string())
}

fn convert(infix: &str) -> Result<Vec<String>, SyntaxError> {
    rpn(infix.split_whitespace().map(token).collect())
}

fn postfix(infix: &str) -> String {
    convert(infix).unwrap().join(" ")
}

#[test]
fn no_tokens_no_entries() {
    assert_eq!(convert(""), Ok(vec![]));
}

#[test]
fn a_number_alone() {
    assert_eq!(postfix("7"), "7");
}

#[test]
fn higher_precedence_first() {
    assert_eq!(postfix("3 + 5 * 2"), "3 5 2 * +");
    assert_eq!(postfix("3 * 5 + 2"), "3 5 * 2 +");
    assert_eq!(postfix("1 + 2 * 3 ^ 4"), "1 2 3 4 ^ * +");
    assert_eq!(postfix("1 ^ 2 * 3 + 4"), "1 2 ^ 3 * 4 +");
    assert_eq!(postfix("1 - 2 / 3"), "1 2 3 / -");
}

#[test]
fn equal_precedence_from_the_left() {
    assert_eq!(postfix("1 - 2 + 3"), "1 2 - 3 +");
    assert_eq!(postfix("1 / 2 * 3"), "1 2 / 3 *");
    assert_eq!(postfix("2 ^ 3 ^ 2"), "2 3 ^ 2 ^");
    assert_eq!(postfix("1 + 2 - 3 + 4"), "1 2 + 3 - 4 +");
}

#[test]
fn parentheses_before_all() {
    assert_eq!(postfix("( 3 + 5 ) * 2"), "3 5 + 2 *");
    assert_eq!(postfix("2 * ( 3 + 5 )"), "2 3 5 + *");
    assert_eq!(postfix("( ( 1 + 2 ) * ( 3 - 4 ) ) ^ 5"), "1 2 + 3 4 - * 5 ^");
    assert_eq!(postfix("2 ^ ( 3 ^ 2 )"), "2 3 2 ^ ^");
    assert_eq!(postfix("( 7 )"), "7");
    assert_eq!(postfix("( )"), "");
}

#[test]
fn sign_and_its_number_become_one_numeral() {
    assert_eq!(postfix("- 5"), "-5");
    assert_eq!(postfix("- 5 + 3"), "-5 3 +");
    assert_eq!(postfix("3 - - 5"), "3 -5 -");
    assert_eq!(postfix("3 * - 5 ^ - 2"), "3 -5 -2 ^ *");
    assert_eq!(postfix("3 + - 1.5"), "3 -1.5 +");
}

#[test]
fn minus_elsewhere_is_an_operator() {
    assert_eq!(postfix("3 - 5"), "3 5 -");
    assert_eq!(postfix("( - 5 )"), "5 -");
    assert_eq!(postfix("( 3 ) - 5"), "3 5 -");
    assert_eq!(postfix("sin - 5"), "5 -");
}

#[test]
fn sign_needs_a_number() {
    for infix in ["-", "- -", "- ( 5 )", "3 + -", "3 * - sin ( 1 )", "3 - - - 5", "- )"] {
        assert_eq!(convert(infix), Err(SyntaxError::UnaryMinusExpectedNumber), "{}", infix);
    }
}

#[test]
fn unmatched_parentheses() {
    for infix in ["(", ")", "( 3 + 5", "3 + 5 )", "( ( 3 )", "( 3 ) )", ") (", "( ) ) ("] {
        assert_eq!(convert(infix), Err(SyntaxError::MismatchedParentheses), "{}", infix);
    }
}

#[test]
fn first_fault_decides() {
    assert_eq!(convert(") -"), Err(SyntaxError::MismatchedParentheses));
    assert_eq!(convert("- )"), Err(SyntaxError::UnaryMinusExpectedNumber));
    assert_eq!(convert("( 3 + -"), Err(SyntaxError::UnaryMinusExpectedNumber));
    assert_eq!(convert("( + - 3"), Err(SyntaxError::MismatchedParentheses));
}

#[test]
fn function_follows_the_outermost_group() {
    assert_eq!(postfix("sin ( 30 )"), "30 sin");
    assert_eq!(postfix("sin ( 30 + 15 )"), "30 15 + sin");
    assert_eq!(postfix("2 * sin ( 30 )"), "2 30 sin *");
    assert_eq!(postfix("sin ( 45 ) ^ 2"), "45 sin 2 ^");
    assert_eq!(postfix("ctg ( 1 ) + tg ( 2 )"), "1 ctg 2 tg +");
}

#[test]
fn function_inside_a_group_waits() {
    assert_eq!(postfix("( sin ( 30 ) )"), "30 sin");
    assert_eq!(postfix("( 1 + sin ( 30 ) ) * 2"), "1 30 + sin 2 *");
    assert_eq!(postfix("sin ( ( 1 + 2 ) * 3 )"), "1 2 + 3 * sin");
}

#[test]
fn latest_function_leaves_first() {
    assert_eq!(postfix("sin ( cos ( 0 ) )"), "0 cos");
    assert_eq!(postfix("sin cos ( 0 )"), "0 cos");
    assert_eq!(postfix("sin cos ( 0 ) + ( 1 )"), "0 cos 1 sin +");
}

#[test]
fn function_without_a_group_is_never_sent() {
    assert_eq!(postfix("sin 30"), "30");
    assert_eq!(postfix("sin"), "");
}

#[test]
fn operators_alone() {
    assert_eq!(postfix("+"), "+");
    assert_eq!(postfix("3 +"), "3 +");
    assert_eq!(postfix("* 3"), "3 *");
    assert_eq!(postfix("+ + +"), "+ + +");
    assert_eq!(postfix("1 2"), "1 2");
}

#[test]
fn text_of_a_token_is_what_is_sent() {
    let tokens = vec![
        Token::new(TokenKind::Number, "one".to_string()),
        Token::new(TokenKind::Add, "plus".to_string()),
        Token::new(TokenKind::Sub, "minus".to_string()),
        Token::new(TokenKind::Number, "two".to_string()),
    ];
    assert_eq!(rpn(tokens), Ok(vec!["one".to_string(), "-two".to_string(), "plus".to_string()]));
}

#[test]
fn kind_decides_not_text() {
    let tokens = vec![
        Token::new(TokenKind::LeftParen, "+".to_string()),
        Token::new(TokenKind::Number, "(".to_string()),
        Token::new(TokenKind::RightParen, "-".to_string()),
    ];
    assert_eq!(rpn(tokens), Ok(vec!["(".to_string()]));
}

#[test]
fn errors_in_words() {
    assert_eq!(
        SyntaxError::UnaryMinusExpectedNumber.message(),
        "Invalid syntax: Expected number after '-'."
    );
    assert_eq!(SyntaxError::MismatchedParentheses.message(), "Mismatched parentheses.");
}

#[test]
fn kinds_of_tokens() {
    let operators =
        [TokenKind::Add, TokenKind::Sub, TokenKind::Mul, TokenKind::Div, TokenKind::Pow];
    let functions = [TokenKind::Sin, TokenKind::Cos, TokenKind::Tan, TokenKind::Cot];
    let others = [TokenKind::Number, TokenKind::LeftParen, TokenKind::RightParen];
    for kind in operators {
        assert!(kind.operator() && !kind.function());
    }
    for kind in functions {
        assert!(!kind.operator() && kind.function());
    }
    for kind in others {
        assert!(!kind.operator() && !kind.function());
    }
}

#[test]
fn binding_of_each_kind() {
    assert_eq!(TokenKind::Pow.binding(), 3);
    assert_eq!(TokenKind::Mul.binding(), 2);
    assert_eq!(TokenKind::Div.binding(), 2);
    assert_eq!(TokenKind::Add.binding(), 1);
    assert_eq!(TokenKind::Sub.binding(), 1);
    assert_eq!(TokenKind::LeftParen.binding(), -1);
    assert_eq!(TokenKind::RightParen.binding(), -1);
    assert_eq!(TokenKind::Number.binding(), 0);
    assert_eq!(TokenKind::Sin.binding(), 0);
}
