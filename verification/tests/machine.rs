//! The run of a postfix sequence, request by request, with answers given by
//! hand.

use sci_calc::eval::{entry, Entry, Evaluation, Function, Notice, Operation, Request, Trig};
use sci_calc::number::{zero, HALF_TURN, MINUS_ONE, NEGATIVE_ZERO, NINETY, ZERO};

fn begin(postfix: &[&str]) -> (Evaluation, Request) {
    Evaluation::begin(postfix.iter().map(|s| s.to_string()).collect())
}

fn shown(request: &Request) -> String {
    match request {
        Request::Read(text) => format!("read {}", text),
        Request::Binary(op, x, y) => format!("{:?} {} {}", op, x, y),
        Request::Angle(f, x) => format!("{:?} {}", f, x),
        Request::Finished(value) => format!("finished {:?}", value),
    }
}

#[test]
fn fixed_numbers_are_the_bits_of_their_values() {
    assert_eq!(ZERO, 0.0f64.to_bits());
    assert_eq!(NEGATIVE_ZERO, (-0.0f64).to_bits());
    assert_eq!(NINETY, 90.0f64.to_bits());
    assert_eq!(HALF_TURN, 180.0f64.to_bits());
    assert_eq!(MINUS_ONE, (-1.0f64).to_bits());
}

#[test]
fn zero_is_what_compares_equal_to_zero() {
    for value in [0.0, -0.0, 1.0, -1.0, f64::MIN_POSITIVE, 5e-324, f64::NAN, f64::INFINITY] {
        assert_eq!(zero(value.to_bits()), value == 0.0, "{}", value);
    }
}

#[test]
fn ninety_is_the_only_number_equal_to_ninety() {
    for value in [90.0, -90.0, 90.00000000000001, 89.99999999999999, 0.0, 270.0, f64::NAN] {
        assert_eq!(value.to_bits() == NINETY, value == 90.0, "{}", value);
    }
}

#[test]
fn entries_by_their_text() {
    assert_eq!(entry("+"), Entry::Operator(Operation::Add));
    assert_eq!(entry("-"), Entry::Operator(Operation::Sub));
    assert_eq!(entry("*"), Entry::Operator(Operation::Mul));
    assert_eq!(entry("/"), Entry::Operator(Operation::Div));
    assert_eq!(entry("^"), Entry::Operator(Operation::Pow));
    assert_eq!(entry("sin"), Entry::Function(Function::Sin));
    assert_eq!(entry("cos"), Entry::Function(Function::Cos));
    assert_eq!(entry("tg"), Entry::Function(Function::Tan));
    assert_eq!(entry("ctg"), Entry::Function(Function::Cot));
    for text in ["1", "-5", "", "SIN", "Sin", "tan", "%", "(", ")", "++", "sin ", "x"] {
        assert_eq!(entry(text), Entry::Numeral, "{}", text);
    }
}

#[test]
fn empty_sequence_finishes_at_once_without_a_value() {
    let (run, request) = begin(&[]);
    assert_eq!(shown(&request), "finished None");
    assert!(run.finished());
    assert!(run.notices().is_empty());
}

#[test]
fn one_numeral() {
    let (mut run, request) = begin(&["42"]);
    assert_eq!(shown(&request), "read 42");
    assert!(!run.finished());
    let request = run.resume(Some(7));
    assert_eq!(shown(&request), "finished Some(7)");
    assert!(run.finished());
}

#[test]
fn numeral_that_cannot_be_read() {
    let (mut run, request) = begin(&["4x", "1", "+"]);
    assert_eq!(shown(&request), "read 4x");
    let request = run.resume(None);
    assert_eq!(shown(&request), "finished None");
    assert!(run.finished());
}

#[test]
fn operator_takes_the_upper_number_second() {
    let (mut run, request) = begin(&["a", "b", "-"]);
    assert_eq!(shown(&request), "read a");
    let request = run.resume(Some(10));
    assert_eq!(shown(&request), "read b");
    let request = run.resume(Some(20));
    assert_eq!(shown(&request), "Sub 10 20");
    let request = run.resume(Some(30));
    assert_eq!(shown(&request), "finished Some(30)");
}

#[test]
fn each_operator_asks_for_its_operation() {
    for (text, name) in [("+", "Add"), ("-", "Sub"), ("*", "Mul"), ("/", "Div"), ("^", "Pow")] {
        let (mut run, _) = begin(&["a", "b", text]);
        run.resume(Some(1));
        let request = run.resume(Some(2));
        assert_eq!(shown(&request), format!("{} 1 2", name));
    }
}

#[test]
fn result_goes_back_on_the_stack() {
    let (mut run, _) = begin(&["a", "b", "c", "*", "+"]);
    run.resume(Some(1));
    run.resume(Some(2));
    let request = run.resume(Some(3));
    assert_eq!(shown(&request), "Mul 2 3");
    let request = run.resume(Some(6));
    assert_eq!(shown(&request), "Add 1 6");
    let request = run.resume(Some(7));
    assert_eq!(shown(&request), "finished Some(7)");
}

#[test]
fn operator_on_a_short_stack() {
    let (run, request) = begin(&["+"]);
    assert_eq!(shown(&request), "finished None");
    assert!(run.notices().is_empty());
    let (mut run, _) = begin(&["a", "/"]);
    let request = run.resume(Some(ZERO));
    assert_eq!(shown(&request), "finished None");
    assert!(run.notices().is_empty());
}

#[test]
fn function_on_an_empty_stack() {
    for text in ["sin", "cos", "tg", "ctg"] {
        let (run, request) = begin(&[text, "1"]);
        assert_eq!(shown(&request), "finished None");
        assert!(run.finished());
    }
}

#[test]
fn division_by_zero_is_told_and_ends_the_run() {
    for divisor in [ZERO, NEGATIVE_ZERO] {
        let (mut run, _) = begin(&["a", "b", "/", "c", "+"]);
        run.resume(Some(5));
        let request = run.resume(Some(divisor));
        assert_eq!(shown(&request), "finished None");
        assert_eq!(run.notices(), &vec![Notice::DivisionByZero]);
    }
}

#[test]
fn other_operations_take_zero() {
    for text in ["+", "-", "*", "^"] {
        let (mut run, _) = begin(&["a", "b", text]);
        run.resume(Some(5));
        let request = run.resume(Some(ZERO));
        assert!(matches!(request, Request::Binary(_, 5, 0)), "{}", text);
        assert!(run.notices().is_empty());
    }
}

#[test]
fn division_by_anything_else_is_asked_for() {
    let (mut run, _) = begin(&["a", "b", "/"]);
    run.resume(Some(5));
    let request = run.resume(Some(1));
    assert_eq!(shown(&request), "Div 5 1");
}

#[test]
fn sine_and_cosine_are_asked_for_directly() {
    let (mut run, _) = begin(&["a", "sin"]);
    let request = run.resume(Some(NINETY));
    assert_eq!(shown(&request), format!("Sin {}", NINETY));
    let request = run.resume(Some(11));
    assert_eq!(shown(&request), "finished Some(11)");
    let (mut run, _) = begin(&["a", "cos"]);
    let request = run.resume(Some(NINETY));
    assert_eq!(shown(&request), format!("Cos {}", NINETY));
}

#[test]
fn tangent_asks_for_the_remainder_first() {
    let (mut run, _) = begin(&["a", "tg"]);
    let request = run.resume(Some(1234));
    assert_eq!(shown(&request), format!("Rem 1234 {}", HALF_TURN));
    let request = run.resume(Some(55));
    assert_eq!(shown(&request), "Tan 1234");
    let request = run.resume(Some(66));
    assert_eq!(shown(&request), "finished Some(66)");
    assert!(run.notices().is_empty());
}

#[test]
fn undefined_tangent_is_told_and_replaced() {
    let (mut run, _) = begin(&["a", "tg", "b", "+"]);
    run.resume(Some(1234));
    let request = run.resume(Some(NINETY));
    assert_eq!(shown(&request), "read b");
    assert_eq!(run.notices(), &vec![Notice::UndefinedTangent]);
    let request = run.resume(Some(8));
    assert_eq!(shown(&request), format!("Add {} 8", ZERO));
}

#[test]
fn cotangent_raises_the_tangent_to_minus_one() {
    let (mut run, _) = begin(&["a", "ctg"]);
    let request = run.resume(Some(1234));
    assert_eq!(shown(&request), format!("Rem 1234 {}", HALF_TURN));
    let request = run.resume(Some(55));
    assert_eq!(shown(&request), "Tan 1234");
    let request = run.resume(Some(66));
    assert_eq!(shown(&request), format!("Pow 66 {}", MINUS_ONE));
    let request = run.resume(Some(77));
    assert_eq!(shown(&request), "finished Some(77)");
    assert!(run.notices().is_empty());
}

#[test]
fn cotangent_of_a_zero_tangent_is_zero() {
    for tangent in [ZERO, NEGATIVE_ZERO] {
        let (mut run, _) = begin(&["a", "ctg"]);
        run.resume(Some(1234));
        run.resume(Some(55));
        let request = run.resume(Some(tangent));
        assert_eq!(shown(&request), "finished Some(0)");
        assert!(run.notices().is_empty());
    }
}

#[test]
fn cotangent_of_an_undefined_tangent_is_zero() {
    let (mut run, _) = begin(&["a", "ctg"]);
    run.resume(Some(1234));
    let request = run.resume(Some(NINETY));
    assert_eq!(shown(&request), "finished Some(0)");
    assert_eq!(run.notices(), &vec![Notice::UndefinedTangent]);
}

#[test]
fn no_answer_ends_the_run() {
    for answers in 1..4 {
        let (mut run, mut request) = begin(&["a", "ctg", "b"]);
        for _ in 0..answers {
            request = run.resume(Some(1));
        }
        assert!(!matches!(request, Request::Finished(_)));
        let request = run.resume(None);
        assert_eq!(shown(&request), "finished None");
        assert!(run.finished());
    }
}

#[test]
fn finished_run_stays_finished() {
    let (mut run, _) = begin(&["a"]);
    run.resume(Some(3));
    for reply in [None, Some(4), Some(5)] {
        let request = run.resume(reply);
        assert_eq!(shown(&request), "finished Some(3)");
    }
    let (mut run, _) = begin(&["a", "b"]);
    run.resume(Some(3));
    run.resume(Some(4));
    let request = run.resume(Some(5));
    assert_eq!(shown(&request), "finished None");
}

#[test]
fn notices_come_in_order() {
    let (mut run, _) = begin(&["a", "tg", "b", "ctg", "/"]);
    run.resume(Some(1));
    run.resume(Some(NINETY));
    run.resume(Some(2));
    let request = run.resume(Some(NINETY));
    assert_eq!(shown(&request), "finished None");
    assert_eq!(
        run.notices(),
        &vec![Notice::UndefinedTangent, Notice::UndefinedTangent, Notice::DivisionByZero]
    );
}

#[test]
fn every_run_ends() {
    let sequence = ["a", "ctg", "b", "tg", "+", "c", "sin", "*", "d", "/"];
    let (mut run, mut request) = begin(&sequence);
    let mut answers = 0;
    while !matches!(request, Request::Finished(_)) {
        request = run.resume(Some(1000 + answers));
        answers += 1;
        assert!(answers <= 3 * sequence.len() as u64);
    }
    assert!(run.finished());
}

#[test]
fn notices_in_words() {
    assert_eq!(Notice::DivisionByZero.message(), "Division by zero");
    assert_eq!(Notice::UndefinedTangent.message(), "Undefined tangent value");
}
