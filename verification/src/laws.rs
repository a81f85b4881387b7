//! The library's laws: the numeral value formula, rejection of leading
//! zeros, the shape invariant between grammar and evaluator, and the
//! purity of parsing.

use vstd::prelude::*;
use vstd::arithmetic::power::pow;
use crate::ast::{is_eval_tree, EvalError, EvalResult, Parsed, Syntree};
use crate::atoms::{is_digit, is_lead_digit, DIGIT_0, LPAREN};
use crate::eval::spec_eval;
use crate::grammar::{
    is_add_byte, is_mul_byte, scan_start, spec_exp, spec_exp_rest, spec_prod, spec_prod_rest,
    spec_start, spec_val,
};
use crate::numeral::{digit_run_end, digit_val, numeral_value, spec_num};

verus! {

/// The value of the digit string `input[i..j)` written as a sum of place
/// values: the digit at `t` is worth `digit * 10^(j - 1 - t)`, so the
/// trailing digit has place value one and each digit toward the front is
/// worth ten times more.
pub open spec fn place_value_sum(input: Seq<u8>, i: int, j: int) -> int
    decreases j - i,
{
    if i < j {
        digit_val(input[i]) * pow(10, (j - i - 1) as nat) + place_value_sum(input, i + 1, j)
    } else {
        0
    }
}

proof fn lemma_place_value_sum_step(input: Seq<u8>, i: int, j: int)
    requires
        i < j,
    ensures
        place_value_sum(input, i, j) == place_value_sum(input, i, j - 1) * 10 + digit_val(
            input[j - 1],
        ),
    decreases j - i,
{
    if i == j - 1 {
        vstd::arithmetic::power::lemma_pow0(10);
        assert(place_value_sum(input, i + 1, j) == 0);
        assert(place_value_sum(input, i, j - 1) == 0);
    } else {
        lemma_place_value_sum_step(input, i + 1, j);
        assert(pow(10, (j - i - 1) as nat) == 10 * pow(10, (j - i - 2) as nat)) by {
            reveal_with_fuel(pow, 2);
        }
        assert(digit_val(input[i]) * (10 * pow(10, (j - i - 2) as nat)) == (digit_val(input[i])
            * pow(10, (j - i - 2) as nat)) * 10) by (nonlinear_arith);
        assert(place_value_sum(input, i, j) == digit_val(input[i]) * pow(
            10,
            (j - i - 1) as nat,
        ) + place_value_sum(input, i + 1, j));
        assert(place_value_sum(input, i, j - 1) == digit_val(input[i]) * pow(
            10,
            (j - i - 2) as nat,
        ) + place_value_sum(input, i + 1, j - 1));
    }
}

/// The most-significant-first fold computes exactly the place-value sum.
pub proof fn lemma_numeral_value_is_place_value_sum(input: Seq<u8>, i: int, j: int)
    requires
        0 <= i <= j <= input.len(),
    ensures
        numeral_value(input.subrange(i, j)) == place_value_sum(input, i, j),
    decreases j - i,
{
    if i < j {
        assert(input.subrange(i, j).drop_last() =~= input.subrange(i, j - 1));
        lemma_numeral_value_is_place_value_sum(input, i, j - 1);
        lemma_place_value_sum_step(input, i, j);
    }
}

proof fn lemma_run_end_determined(input: Seq<u8>, i: int, j: int)
    requires
        0 <= i <= j <= input.len(),
        forall|t: int| i <= t < j ==> is_digit(#[trigger] input[t]),
        j == input.len() || !is_digit(input[j]),
    ensures
        digit_run_end(input, i) == j,
    decreases j - i,
{
    if i < j {
        lemma_run_end_determined(input, i + 1, j);
    }
}

/// The numeral law: for a maximal digit run of length `k` starting at `i`
/// with a non-zero leading digit, parsing yields the literal whose value
/// is the sum of each digit times ten to its place, and consumes exactly
/// the `k` digits. (Machine limit: the value must fit in an `i32`.)
pub proof fn lemma_numeral_parses(input: Seq<u8>, i: int, k: int)
    requires
        0 <= i,
        1 <= k,
        i + k <= input.len(),
        is_lead_digit(input[i]),
        forall|t: int| i <= t < i + k ==> is_digit(#[trigger] input[t]),
        i + k == input.len() || !is_digit(input[i + k]),
        place_value_sum(input, i, i + k) <= i32::MAX,
    ensures
        spec_num(input, i) == Some(
            (Syntree::N(place_value_sum(input, i, i + k) as i32), i + k),
        ),
{
    lemma_run_end_determined(input, i, i + k);
    lemma_numeral_value_is_place_value_sum(input, i, i + k);
}

/// The leading-zero law: a `'0'` byte never starts a numeral, wherever it
/// stands.
pub proof fn lemma_zero_not_numeral(input: Seq<u8>, i: int)
    requires
        0 <= i < input.len(),
        input[i] == DIGIT_0,
    ensures
        spec_num(input, i) == None::<(Syntree, int)>,
{
}

proof fn lemma_val_shape(input: Seq<u8>, i: int)
    ensures
        spec_val(input, i) matches Some((t, j)) ==> is_eval_tree(t),
    decreases input.len() - i, 0int,
{
    if spec_num(input, i) is None && 0 <= i < input.len() && input[i] == LPAREN {
        lemma_exp_shape(input, i + 1);
    }
}

proof fn lemma_prod_rest_shape(input: Seq<u8>, i: int, acc: Syntree)
    requires
        is_eval_tree(acc),
    ensures
        is_eval_tree(spec_prod_rest(input, i, acc).0),
    decreases input.len() - i, 1int,
{
    if 0 <= i < input.len() && is_mul_byte(input[i]) {
        lemma_val_shape(input, i + 1);
        match spec_val(input, i + 1) {
            Some((t, j)) => {
                if i + 1 < j <= input.len() {
                    lemma_prod_rest_shape(
                        input,
                        j,
                        Syntree::C(
                            crate::assemble::byte_op(input[i]),
                            Box::new(acc),
                            Box::new(t),
                        ),
                    );
                }
            },
            None => {},
        }
    }
}

proof fn lemma_prod_shape(input: Seq<u8>, i: int)
    ensures
        spec_prod(input, i) matches Some((t, j)) ==> is_eval_tree(t),
    decreases input.len() - i, 2int,
{
    lemma_val_shape(input, i);
    crate::grammar::lemma_val_bounds(input, i);
    match spec_val(input, i) {
        Some((t0, j0)) => {
            lemma_prod_rest_shape(input, j0, t0);
        },
        None => {},
    }
}

proof fn lemma_exp_rest_shape(input: Seq<u8>, i: int, acc: Syntree)
    requires
        is_eval_tree(acc),
    ensures
        is_eval_tree(spec_exp_rest(input, i, acc).0),
    decreases input.len() - i, 3int,
{
    if 0 <= i < input.len() && is_add_byte(input[i]) {
        lemma_prod_shape(input, i + 1);
        match spec_prod(input, i + 1) {
            Some((t, j)) => {
                if i + 1 < j <= input.len() {
                    lemma_exp_rest_shape(
                        input,
                        j,
                        Syntree::C(
                            crate::assemble::byte_op(input[i]),
                            Box::new(acc),
                            Box::new(t),
                        ),
                    );
                }
            },
            None => {},
        }
    }
}

/// The shape law: every tree the expression grammar yields is built only
/// from literal leaves and operator nodes — the transient `B`, `Both` and
/// `List` shapes never reach the evaluator.
pub proof fn lemma_exp_shape(input: Seq<u8>, i: int)
    ensures
        spec_exp(input, i) matches Some((t, j)) ==> is_eval_tree(t),
    decreases input.len() - i, 4int,
{
    lemma_prod_shape(input, i);
    crate::grammar::lemma_prod_bounds(input, i);
    match spec_prod(input, i) {
        Some((t0, j0)) => {
            lemma_exp_rest_shape(input, j0, t0);
        },
        None => {},
    }
}

/// Evaluating a tree in evaluator shape yields a value, or an arithmetic
/// fault — never `NoValue` and never a shape fault.
pub proof fn lemma_eval_tree_has_value(t: Syntree)
    requires
        is_eval_tree(t),
    ensures
        match spec_eval(t) {
            Ok(v) => v is Value,
            Err(e) => e == EvalError::DivByZero || e == EvalError::Overflow,
        },
    decreases t,
{
    match t {
        Syntree::C(op, l, r) => {
            lemma_eval_tree_has_value(*l);
            lemma_eval_tree_has_value(*r);
        },
        _ => {},
    }
}

/// The value law: the empty input parses to the empty match, which
/// evaluates to no value; and any non-empty input the expression grammar
/// accepts evaluates to `Value(n)` for some integer `n`, unless the
/// arithmetic itself faults.
pub proof fn lemma_parsed_expression_has_value(input: Seq<u8>, i: int, t: Syntree, j: int)
    requires
        spec_exp(input, i) == Some((t, j)),
    ensures
        match spec_eval(t) {
            Ok(v) => v is Value,
            Err(e) => e == EvalError::DivByZero || e == EvalError::Overflow,
        },
{
    lemma_exp_shape(input, i);
    lemma_eval_tree_has_value(t);
}

/// The empty-input law: the start production accepts empty input with a
/// zero-width match, and that match evaluates to no value.
pub proof fn lemma_empty_input_no_value(input: Seq<u8>)
    requires
        input.len() == 0,
    ensures
        spec_start(input, 0) == Some((Syntree::Empty, 0int)),
        spec_eval(Syntree::Empty) == Ok::<EvalResult, EvalError>(EvalResult::NoValue),
{
    assert(spec_num(input, 0) is None);
    assert(spec_val(input, 0) is None);
    assert(spec_prod(input, 0) is None);
    assert(spec_exp(input, 0) is None);
}

/// The purity law: parsing is a function of the input bytes and offset
/// alone, so any two runs of the start production on the same input agree.
pub proof fn lemma_parse_deterministic(i: usize, input: &[u8], r1: Parsed, r2: Parsed)
    requires
        call_ensures(scan_start, (i, input), r1),
        call_ensures(scan_start, (i, input), r2),
    ensures
        r1 == r2,
{
}

} // verus!
