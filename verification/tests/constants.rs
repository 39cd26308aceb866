//! The table of constants: which names it takes and what they stand for.

use sci_calc::constants::{is_reserved, is_valid_name, Constants};

#[test]
fn new_table_is_empty() {
    let constants = Constants::new();
    assert_eq!(constants.len(), 0);
    assert_eq!(constants.names(), Vec::<String>::new());
    assert_eq!(constants.get("PI"), None);
}

#[test]
fn defined_name_stands_for_its_value() {
    let mut constants = Constants::new();
    assert!(constants.define("PI", "3.1415".to_string()));
    assert_eq!(constants.len(), 1);
    assert_eq!(constants.get("PI"), Some(&"3.1415".to_string()));
    assert_eq!(constants.get("pi"), None);
    assert_eq!(constants.get("P"), None);
    assert_eq!(constants.name_at(0), "PI");
}

#[test]
fn redefined_name_keeps_its_place() {
    let mut constants = Constants::new();
    assert!(constants.define("A", "1".to_string()));
    assert!(constants.define("B", "2".to_string()));
    assert!(constants.define("C", "3".to_string()));
    assert!(constants.define("B", "20".to_string()));
    assert_eq!(constants.len(), 3);
    assert_eq!(constants.names(), vec!["A", "B", "C"]);
    assert_eq!(constants.get("A"), Some(&"1".to_string()));
    assert_eq!(constants.get("B"), Some(&"20".to_string()));
    assert_eq!(constants.get("C"), Some(&"3".to_string()));
    assert_eq!(constants.name_at(1), "B");
}

#[test]
fn table_never_shrinks() {
    let mut constants = Constants::new();
    let mut last = 0;
    for (name, value) in [("A", "1"), ("B", "2"), ("A", "3"), ("sin", "4"), ("", "5"), ("C", "6")] {
        constants.define(name, value.to_string());
        assert!(constants.len() >= last);
        last = constants.len();
    }
    assert_eq!(last, 3);
}

#[test]
fn reserved_words_name_nothing() {
    let mut constants = Constants::new();
    for name in ["export", "sin", "cos", "tg", "ctg", "help"] {
        assert!(is_reserved(name));
        assert!(!is_valid_name(name));
        assert!(!constants.define(name, "1".to_string()));
    }
    assert_eq!(constants.len(), 0);
    for name in ["Export", "SIN", "tan", "exit", "helps", "ex"] {
        assert!(!is_reserved(name));
        assert!(is_valid_name(name));
    }
}

#[test]
fn name_is_made_of_letters() {
    for name in ["x", "PI", "alpha", "Größe", "π", "число"] {
        assert!(is_valid_name(name), "{}", name);
    }
    for name in ["", "x1", "1x", "a_b", "a b", " a", "a-b", "a.b", "_", "2", "(", "+"] {
        assert!(!is_valid_name(name), "{}", name);
    }
}

#[test]
fn refused_name_leaves_the_table_alone() {
    let mut constants = Constants::new();
    assert!(constants.define("A", "1".to_string()));
    assert!(!constants.define("A1", "2".to_string()));
    assert!(!constants.define("cos", "3".to_string()));
    assert!(!constants.define("", "4".to_string()));
    assert_eq!(constants.names(), vec!["A"]);
    assert_eq!(constants.get("A"), Some(&"1".to_string()));
    assert_eq!(constants.get("A1"), None);
}

#[test]
fn value_may_be_any_text() {
    let mut constants = Constants::new();
    assert!(constants.define("N", "-5".to_string()));
    assert!(constants.define("I", "inf".to_string()));
    assert_eq!(constants.get("N"), Some(&"-5".to_string()));
    assert_eq!(constants.get("I"), Some(&"inf".to_string()));
}
