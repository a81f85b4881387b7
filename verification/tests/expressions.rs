//! End-to-end tests of the expression grammar and the evaluator: numeral
//! values and offsets, associativity, precedence, truncating division,
//! empty input, determinism, and the fault cases.

use exprscan::ast::Syntree::{Both, Empty, List, B, C, N};
use exprscan::ast::{EvalError, EvalResult, Operator, Syntree};
use exprscan::eval::eval;
use exprscan::grammar::{scan_exp, scan_start, scan_val};
use exprscan::numeral::scan_num;

fn run(text: &str) -> Result<EvalResult, EvalError> {
    let (tree, _) = scan_start(0, text.as_bytes()).expect("the start production never fails");
    eval(tree)
}

#[test]
fn numeral_value_and_offset() {
    assert_eq!(scan_num(0, b"123"), Some((N(123), 3)));
    assert_eq!(scan_num(0, b"023"), None);
    assert_eq!(scan_num(1, b"023"), Some((N(23), 3)));
    assert_eq!(scan_num(0, b"907"), Some((N(907), 3)));
    assert_eq!(scan_num(0, b"5"), Some((N(5), 1)));
}

#[test]
fn numeral_rejects_single_zero() {
    assert_eq!(scan_num(0, b"0"), None);
}

#[test]
fn numeral_at_machine_limit() {
    assert_eq!(scan_num(0, b"2147483647"), Some((N(2147483647), 10)));
    assert_eq!(scan_num(0, b"2147483648"), None);
    assert_eq!(scan_num(0, b"9999999999"), None);
}

#[test]
fn addition_is_left_associative() {
    let expected = C(
        Operator::Add,
        Box::new(C(Operator::Add, Box::new(N(1)), Box::new(N(1)))),
        Box::new(N(1)),
    );
    assert_eq!(scan_exp(0, b"1+1+1"), Some((expected, 5)));
    assert_eq!(run("1+1+1"), Ok(EvalResult::Value(3)));
}

#[test]
fn precedence_of_product_over_sum() {
    assert_eq!(run("2+3*4"), Ok(EvalResult::Value(14)));
    assert_eq!(run("(2+3)*4"), Ok(EvalResult::Value(20)));
}

#[test]
fn same_tier_runs_left_to_right() {
    assert_eq!(run("10-3-2"), Ok(EvalResult::Value(5)));
    assert_eq!(run("10-3+2"), Ok(EvalResult::Value(9)));
    assert_eq!(run("8/2*4"), Ok(EvalResult::Value(16)));
}

#[test]
fn empty_input_has_no_value() {
    assert_eq!(scan_start(0, b""), Some((Empty, 0)));
    assert_eq!(run(""), Ok(EvalResult::NoValue));
}

#[test]
fn nonempty_expression_has_a_value() {
    assert_eq!(run("7"), Ok(EvalResult::Value(7)));
    assert_eq!(run("((1))"), Ok(EvalResult::Value(1)));
    assert_eq!(run("1+2*(3+4)-5"), Ok(EvalResult::Value(10)));
}

#[test]
fn reparsing_yields_equal_trees() {
    let text = b"12*(3+45)-6/2";
    let first = scan_start(0, text);
    let second = scan_start(0, text);
    assert_eq!(first, second);
}

#[test]
fn division_and_modulo_truncate() {
    assert_eq!(run("7/2"), Ok(EvalResult::Value(3)));
    assert_eq!(run("7%2"), Ok(EvalResult::Value(1)));
    assert_eq!(run("2-5"), Ok(EvalResult::Value(-3)));
    assert_eq!(run("(1-8)/2"), Ok(EvalResult::Value(-3)));
    assert_eq!(run("(1-8)%2"), Ok(EvalResult::Value(-1)));
}

#[test]
fn division_by_zero_faults() {
    // a zero divisor can only be written as a computed value: a literal
    // `0` is not a numeral, so `1/0` parses as just `1` with `/0` left over
    assert_eq!(run("1/(1-1)"), Err(EvalError::DivByZero));
    assert_eq!(run("5%(1-1)"), Err(EvalError::DivByZero));
    assert_eq!(run("1/0"), Ok(EvalResult::Value(1)));
}

#[test]
fn overflow_faults() {
    assert_eq!(run("2147483647+1"), Err(EvalError::Overflow));
    assert_eq!(run("(1-2)-2147483647-1"), Err(EvalError::Overflow));
    assert_eq!(run("65536*65536"), Err(EvalError::Overflow));
}

#[test]
fn transient_shapes_fault_the_evaluator() {
    assert_eq!(eval(B(b'+')), Err(EvalError::BadNode));
    assert_eq!(eval(Both(Box::new(N(1)), Box::new(N(2)))), Err(EvalError::BadNode));
    assert_eq!(eval(List(vec![N(1)])), Err(EvalError::BadNode));
}

#[test]
fn missing_value_propagates() {
    let half = C(Operator::Add, Box::new(Empty), Box::new(N(1)));
    assert_eq!(eval(half), Ok(EvalResult::NoValue));
}

#[test]
fn parenthesized_value() {
    assert_eq!(scan_val(0, b"(42)"), Some((N(42), 4)));
    assert_eq!(scan_val(0, b"(42"), None);
    assert_eq!(scan_val(0, b")42("), None);
}

#[test]
fn leftover_input_is_reported_by_offset() {
    let (tree, used) = scan_exp(0, b"1+2)").expect("the prefix is a well-formed expression");
    assert_eq!(used, 3);
    assert_eq!(eval(tree), Ok(EvalResult::Value(3)));
}

#[test]
fn zero_alone_is_not_an_expression() {
    assert_eq!(scan_exp(0, b"0"), None);
    assert_eq!(scan_start(0, b"0"), Some((Syntree::Empty, 0)));
}

#[test]
fn stray_bytes_fail_to_parse() {
    assert_eq!(scan_exp(0, b"a+1"), None);
    assert_eq!(scan_exp(0, b"+1"), None);
}
