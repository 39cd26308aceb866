//! The tokenizer: what a match becomes, what may be skipped, what is
//! reported.

use sci_calc::constants::Constants;
use sci_calc::lexer::{
    is_blank, is_numeral_like, pattern_from, symbol, take_token, token_of, token_pattern,
    tokenize, TokenizeError,
};
use sci_calc::pattern::{locate, PatternRejected};
use sci_calc::text::{decimal_text, same_text};
use sci_calc::token::{Token, TokenKind};

fn pairs(tokens: &[Token]) -> Vec<(TokenKind, String)> {
    tokens.iter().map(|t| (t.kind, t.text.clone())).collect()
}

fn pair(kind: TokenKind, text: &str) -> (TokenKind, String) {
    (kind, text.to_string())
}

fn invalid(result: Result<Vec<Token>, TokenizeError>) -> (usize, String) {
    match result {
        Err(TokenizeError::InvalidCharacter { position, excerpt }) => (position, excerpt),
        other => panic!("{:?}", other),
    }
}

#[test]
fn every_symbol_has_its_kind() {
    let tokens = tokenize("()+-*/^", &Constants::new()).unwrap();
    assert_eq!(
        pairs(&tokens),
        vec![
            pair(TokenKind::LeftParen, "("),
            pair(TokenKind::RightParen, ")"),
            pair(TokenKind::Add, "+"),
            pair(TokenKind::Sub, "-"),
            pair(TokenKind::Mul, "*"),
            pair(TokenKind::Div, "/"),
            pair(TokenKind::Pow, "^"),
        ]
    );
}

#[test]
fn every_function_has_its_kind() {
    let tokens = tokenize("sin cos tg ctg", &Constants::new()).unwrap();
    assert_eq!(
        pairs(&tokens),
        vec![
            pair(TokenKind::Sin, "sin"),
            pair(TokenKind::Cos, "cos"),
            pair(TokenKind::Tan, "tg"),
            pair(TokenKind::Cot, "ctg"),
        ]
    );
}

#[test]
fn numerals_with_and_without_a_point() {
    let tokens = tokenize("12 3.5 .25 7.", &Constants::new());
    assert_eq!(invalid(tokens), (12, ".".to_string()));
    let tokens = tokenize("12 3.5 .25", &Constants::new()).unwrap();
    assert_eq!(
        pairs(&tokens),
        vec![
            pair(TokenKind::Number, "12"),
            pair(TokenKind::Number, "3.5"),
            pair(TokenKind::Number, ".25"),
        ]
    );
}

#[test]
fn second_point_begins_a_second_numeral() {
    let tokens = tokenize("1.2.3", &Constants::new()).unwrap();
    assert_eq!(pairs(&tokens), vec![pair(TokenKind::Number, "1.2"), pair(TokenKind::Number, ".3")]);
}

#[test]
fn empty_expression_has_no_tokens() {
    assert_eq!(tokenize("", &Constants::new()).unwrap().len(), 0);
}

#[test]
fn blank_expression_is_reported() {
    assert_eq!(invalid(tokenize("   ", &Constants::new())), (0, "   ".to_string()));
}

#[test]
fn unknown_word_is_reported() {
    assert_eq!(invalid(tokenize("foo", &Constants::new())), (0, "foo".to_string()));
    assert_eq!(invalid(tokenize("2 + foo", &Constants::new())), (3, " foo".to_string()));
}

#[test]
fn text_before_a_match_is_not_skipped() {
    assert_eq!(invalid(tokenize("x(3)", &Constants::new())), (0, "x(3)".to_string()));
    assert_eq!(invalid(tokenize("3 # 4", &Constants::new())), (1, " # 4".to_string()));
    assert_eq!(invalid(tokenize("3 \u{a0} 4", &Constants::new())), (1, " \u{a0} 4".to_string()));
}

#[test]
fn function_name_must_be_a_whole_word() {
    assert_eq!(invalid(tokenize("sinx", &Constants::new())), (0, "sinx".to_string()));
    let tokens = tokenize("2sin(3)", &Constants::new()).unwrap();
    assert_eq!(
        pairs(&tokens),
        vec![
            pair(TokenKind::Number, "2"),
            pair(TokenKind::Sin, "sin"),
            pair(TokenKind::LeftParen, "("),
            pair(TokenKind::Number, "3"),
            pair(TokenKind::RightParen, ")"),
        ]
    );
}

#[test]
fn constant_becomes_a_number_with_its_numeral() {
    let mut constants = Constants::new();
    assert!(constants.define("PI", "3.1415".to_string()));
    assert!(constants.define("E", "2.718".to_string()));
    let tokens = tokenize("PI*E", &constants).unwrap();
    assert_eq!(
        pairs(&tokens),
        vec![
            pair(TokenKind::Number, "3.1415"),
            pair(TokenKind::Mul, "*"),
            pair(TokenKind::Number, "2.718"),
        ]
    );
    let tokens = tokenize("2 * PI", &constants).unwrap();
    let literal = tokenize("2 * 3.1415", &constants).unwrap();
    assert_eq!(pairs(&tokens), pairs(&literal));
}

#[test]
fn constant_name_is_case_sensitive_and_whole() {
    let mut constants = Constants::new();
    assert!(constants.define("PI", "3.1415".to_string()));
    assert_eq!(invalid(tokenize("pi", &constants)), (0, "pi".to_string()));
    assert_eq!(invalid(tokenize("PIE", &constants)), (0, "PIE".to_string()));
    assert!(constants.define("PIE", "1".to_string()));
    assert_eq!(pairs(&tokenize("PIE", &constants).unwrap()), vec![pair(TokenKind::Number, "1")]);
    assert_eq!(
        pairs(&tokenize("PI", &constants).unwrap()),
        vec![pair(TokenKind::Number, "3.1415")]
    );
}

#[test]
fn constant_with_letters_beyond_ascii() {
    let mut constants = Constants::new();
    assert!(constants.define("π", "3.1415".to_string()));
    let tokens = tokenize("2*π+1", &constants).unwrap();
    assert_eq!(
        pairs(&tokens),
        vec![
            pair(TokenKind::Number, "2"),
            pair(TokenKind::Mul, "*"),
            pair(TokenKind::Number, "3.1415"),
            pair(TokenKind::Add, "+"),
            pair(TokenKind::Number, "1"),
        ]
    );
    assert_eq!(invalid(tokenize("2*π ππ", &constants)), (4, " ππ".to_string()));
}

#[test]
fn position_counts_bytes() {
    let mut constants = Constants::new();
    assert!(constants.define("π", "3".to_string()));
    assert_eq!(invalid(tokenize("π+π $", &constants)), (5, " $".to_string()));
}

#[test]
fn pattern_without_constants() {
    assert_eq!(
        token_pattern(&Constants::new()),
        r"\b(sin|cos|tg|ctg)\b|\d*\.\d+|\d+|[()+\-*/^]"
    );
    assert_eq!(pattern_from(&vec![]), r"\b(sin|cos|tg|ctg)\b|\d*\.\d+|\d+|[()+\-*/^]");
}

#[test]
fn pattern_names_the_constants_in_order() {
    let mut constants = Constants::new();
    assert!(constants.define("PI", "3.1415".to_string()));
    assert!(constants.define("E", "2.718".to_string()));
    assert!(constants.define("PI", "3".to_string()));
    assert_eq!(
        token_pattern(&constants),
        r"\b(sin|cos|tg|ctg|PI|E)\b|\d*\.\d+|\d+|[()+\-*/^]"
    );
}

#[test]
fn pattern_escapes_what_means_something() {
    let names = vec!["a.b".to_string(), "c+d".to_string(), "x".to_string()];
    assert_eq!(
        pattern_from(&names),
        r"\b(sin|cos|tg|ctg|a\.b|c\+d|x)\b|\d*\.\d+|\d+|[()+\-*/^]"
    );
    let plain = vec!["a/b%c!d\"e f_g:h;i,j<k>l=m@n'o`p".to_string()];
    assert_eq!(
        pattern_from(&plain),
        "\\b(sin|cos|tg|ctg|a/b%c!d\"e f_g:h;i,j<k>l=m@n'o`p)\\b|\\d*\\.\\d+|\\d+|[()+\\-*/^]"
    );
    let every = vec![r"\.+*?()|[]{}^$#&-~".to_string()];
    assert_eq!(
        pattern_from(&every),
        r"\b(sin|cos|tg|ctg|\\\.\+\*\?\(\)\|\[\]\{\}\^\$\#\&\-\~)\b|\d*\.\d+|\d+|[()+\-*/^]"
    );
}

#[test]
fn symbol_of_a_word() {
    assert_eq!(symbol("("), Some(TokenKind::LeftParen));
    assert_eq!(symbol(")"), Some(TokenKind::RightParen));
    assert_eq!(symbol("+"), Some(TokenKind::Add));
    assert_eq!(symbol("-"), Some(TokenKind::Sub));
    assert_eq!(symbol("*"), Some(TokenKind::Mul));
    assert_eq!(symbol("/"), Some(TokenKind::Div));
    assert_eq!(symbol("^"), Some(TokenKind::Pow));
    assert_eq!(symbol("sin"), Some(TokenKind::Sin));
    assert_eq!(symbol("cos"), Some(TokenKind::Cos));
    assert_eq!(symbol("tg"), Some(TokenKind::Tan));
    assert_eq!(symbol("ctg"), Some(TokenKind::Cot));
    assert_eq!(symbol("tan"), None);
    assert_eq!(symbol("Sin"), None);
    assert_eq!(symbol(""), None);
    assert_eq!(symbol("12"), None);
}

#[test]
fn blank_text() {
    assert!(is_blank(""));
    assert!(is_blank(" \t\n\r\x0c"));
    assert!(!is_blank(" x "));
    assert!(!is_blank("\x0b"));
    assert!(!is_blank("\u{a0}"));
    assert!(!is_blank(" \u{2003}"));
}

#[test]
fn numeral_like_text() {
    assert!(is_numeral_like("0"));
    assert!(is_numeral_like("3.1415"));
    assert!(is_numeral_like(".5"));
    assert!(is_numeral_like("1.2.3"));
    assert!(is_numeral_like("."));
    assert!(!is_numeral_like(""));
    assert!(!is_numeral_like("-5"));
    assert!(!is_numeral_like("1e5"));
    assert!(!is_numeral_like("٣"));
    assert!(!is_numeral_like("1 "));
}

#[test]
fn token_of_a_word() {
    let mut constants = Constants::new();
    assert!(constants.define("K", "-7".to_string()));
    let token = token_of("K", &constants).unwrap();
    assert_eq!((token.kind, token.text.as_str()), (TokenKind::Number, "-7"));
    let token = token_of("42", &constants).unwrap();
    assert_eq!((token.kind, token.text.as_str()), (TokenKind::Number, "42"));
    let token = token_of("ctg", &constants).unwrap();
    assert_eq!((token.kind, token.text.as_str()), (TokenKind::Cot, "ctg"));
    assert!(token_of("k", &constants).is_none());
    assert!(token_of("", &constants).is_none());
    assert!(token_of("4 2", &constants).is_none());
}

#[test]
fn take_token_at_the_head() {
    let constants = Constants::new();
    let (token, used) = take_token("12+3", Some((0, 2)), &constants).unwrap();
    assert_eq!((token.kind, token.text.as_str(), used), (TokenKind::Number, "12", 2));
}

#[test]
fn take_token_after_blanks() {
    let constants = Constants::new();
    let (token, used) = take_token(" \t+ 3", Some((2, 3)), &constants).unwrap();
    assert_eq!((token.kind, token.text.as_str(), used), (TokenKind::Add, "+", 3));
}

#[test]
fn take_token_without_a_match() {
    match take_token("abc", None, &Constants::new()) {
        Err(TokenizeError::InvalidCharacter { position, excerpt }) => {
            assert_eq!((position, excerpt.as_str()), (0, "abc"));
        }
        other => panic!("{:?}", other),
    }
}

#[test]
fn take_token_after_something_else() {
    match take_token("a 1", Some((2, 3)), &Constants::new()) {
        Err(TokenizeError::InvalidCharacter { position, excerpt }) => {
            assert_eq!((position, excerpt.as_str()), (0, "a 1"));
        }
        other => panic!("{:?}", other),
    }
}

#[test]
fn take_token_that_is_none() {
    match take_token("  ab+", Some((2, 4)), &Constants::new()) {
        Err(TokenizeError::InvalidCharacter { position, excerpt }) => {
            assert_eq!((position, excerpt.as_str()), (2, "ab"));
        }
        other => panic!("{:?}", other),
    }
}

#[test]
fn take_token_with_an_unusable_match() {
    for found in [(1, 1), (0, 0), (2, 1), (0, 9), (1, 2), (0, 1)] {
        match take_token("é+1", Some(found), &Constants::new()) {
            Err(TokenizeError::InvalidCharacter { position, excerpt }) => {
                assert_eq!((position, excerpt.as_str()), (0, "é+1"));
            }
            other => panic!("{:?}: {:?}", found, other),
        }
    }
}

#[test]
fn error_in_words() {
    let error = TokenizeError::InvalidCharacter { position: 12, excerpt: " $ 5".to_string() };
    assert_eq!(error.message(), "Invalid character at position 12:  $ 5");
    let error = TokenizeError::InvalidCharacter { position: 0, excerpt: String::new() };
    assert_eq!(error.message(), "Invalid character at position 0: ");
    assert_eq!(
        TokenizeError::PatternRejected.message(),
        "The pattern of a token was not accepted."
    );
    let error = invalid_error(tokenize("3 + 5 ", &Constants::new()));
    assert_eq!(error.message(), "Invalid character at position 5:  ");
}

fn invalid_error(result: Result<Vec<Token>, TokenizeError>) -> TokenizeError {
    match result {
        Err(error) => error,
        Ok(tokens) => panic!("{:?}", tokens),
    }
}

#[test]
fn numbers_in_decimal() {
    assert_eq!(decimal_text(0), "0");
    assert_eq!(decimal_text(7), "7");
    assert_eq!(decimal_text(10), "10");
    assert_eq!(decimal_text(99), "99");
    assert_eq!(decimal_text(100), "100");
    assert_eq!(decimal_text(1234567890), "1234567890");
    assert_eq!(decimal_text(usize::MAX), usize::MAX.to_string());
    for n in 0..1200 {
        assert_eq!(decimal_text(n), n.to_string());
    }
}

#[test]
fn same_text_letter_for_letter() {
    assert!(same_text("", ""));
    assert!(same_text("sin", "sin"));
    assert!(!same_text("sin", "sin "));
    assert!(!same_text("sin", "Sin"));
    assert!(!same_text("sin", ""));
    assert!(same_text("π√", "π√"));
    assert!(!same_text("π√", "π∛"));
}

#[test]
fn pattern_that_the_engine_refuses() {
    assert_eq!(locate("(", "x"), Err(PatternRejected));
    assert_eq!(locate(r"\d+", "ab 123 45"), Ok(Some((3, 6))));
    assert_eq!(locate(r"\d+", "abc"), Ok(None));
    assert_eq!(locate(r"\bé\b", "a é"), Ok(Some((2, 4))));
}

#[test]
fn table_too_large_for_the_engine() {
    let mut constants = Constants::new();
    let letters: Vec<char> = ('a'..='z').collect();
    for i in 0..3000usize {
        let mut name = String::new();
        name.push(letters[i % 26]);
        name.push(letters[(i / 26) % 26]);
        name.push(letters[(i / 676) % 26]);
        name.push_str(&"x".repeat(400));
        assert!(constants.define(&name, "1".to_string()));
    }
    assert_eq!(tokenize("1 + 2", &constants), Err(TokenizeError::PatternRejected));
    assert_eq!(tokenize("", &constants), Ok(vec![]));
}

#[test]
fn digit_beyond_ascii_is_matched_but_is_no_token() {
    assert_eq!(invalid(tokenize("٣", &Constants::new())), (0, "٣".to_string()));
    assert_eq!(invalid(tokenize("1 + ٣٤ + 2", &Constants::new())), (4, "٣٤".to_string()));
    assert_eq!(invalid(tokenize("1.٣", &Constants::new())), (0, "1.٣".to_string()));
}
