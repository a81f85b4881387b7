//! Tree-walking, post-order evaluation of a finished syntax tree.

use vstd::prelude::*;
use crate::ast::{EvalError, EvalResult, Operator, Syntree};

verus! {

/// What applying `op` to two machine integers yields: the value when it is
/// representable, `DivByZero` for a zero right operand of `/` or `%`, and
/// `Overflow` when the exact result falls outside the `i32` range.
/// Division and remainder truncate toward zero.
pub open spec fn spec_apply(op: Operator, a: i32, b: i32) -> Result<EvalResult, EvalError> {
    match op {
        Operator::Add => match a.checked_add(b) {
            Some(v) => Ok(EvalResult::Value(v)),
            None => Err(EvalError::Overflow),
        },
        Operator::Sub => match a.checked_sub(b) {
            Some(v) => Ok(EvalResult::Value(v)),
            None => Err(EvalError::Overflow),
        },
        Operator::Prod => match a.checked_mul(b) {
            Some(v) => Ok(EvalResult::Value(v)),
            None => Err(EvalError::Overflow),
        },
        Operator::Div => if b == 0 {
            Err(EvalError::DivByZero)
        } else {
            match a.checked_div(b) {
                Some(v) => Ok(EvalResult::Value(v)),
                None => Err(EvalError::Overflow),
            }
        },
        Operator::Mod => if b == 0 {
            Err(EvalError::DivByZero)
        } else {
            match a.checked_rem(b) {
                Some(v) => Ok(EvalResult::Value(v)),
                None => Err(EvalError::Overflow),
            }
        },
    }
}

/// The value of a tree, bottom-up: `Empty` has no value, a literal is its
/// own value, and an operator node applies its operator to the values of
/// its children, left child first. A missing value in either child
/// propagates; a transient node shape (`B`, `Both`, `List`) is a fault, as
/// is arithmetic outside the machine's range.
pub open spec fn spec_eval(t: Syntree) -> Result<EvalResult, EvalError>
    decreases t,
{
    match t {
        Syntree::Empty => Ok(EvalResult::NoValue),
        Syntree::N(n) => Ok(EvalResult::Value(n)),
        Syntree::C(op, l, r) => match spec_eval(*l) {
            Err(e) => Err(e),
            Ok(EvalResult::NoValue) => Ok(EvalResult::NoValue),
            Ok(EvalResult::Value(a)) => match spec_eval(*r) {
                Err(e) => Err(e),
                Ok(EvalResult::NoValue) => Ok(EvalResult::NoValue),
                Ok(EvalResult::Value(b)) => spec_apply(op, a, b),
            },
        },
        _ => Err(EvalError::BadNode),
    }
}

fn apply(op: Operator, a: i32, b: i32) -> (r: Result<EvalResult, EvalError>)
    ensures
        r == spec_apply(op, a, b),
{
    match op {
        Operator::Add => match a.checked_add(b) {
            Some(v) => Ok(EvalResult::Value(v)),
            None => Err(EvalError::Overflow),
        },
        Operator::Sub => match a.checked_sub(b) {
            Some(v) => Ok(EvalResult::Value(v)),
            None => Err(EvalError::Overflow),
        },
        Operator::Prod => match a.checked_mul(b) {
            Some(v) => Ok(EvalResult::Value(v)),
            None => Err(EvalError::Overflow),
        },
        Operator::Div => if b == 0 {
            Err(EvalError::DivByZero)
        } else {
            match a.checked_div(b) {
                Some(v) => Ok(EvalResult::Value(v)),
                None => Err(EvalError::Overflow),
            }
        },
        Operator::Mod => if b == 0 {
            Err(EvalError::DivByZero)
        } else {
            match a.checked_rem(b) {
                Some(v) => Ok(EvalResult::Value(v)),
                None => Err(EvalError::Overflow),
            }
        },
    }
}

/// Evaluates a finished tree: `Empty` yields `NoValue`, a literal yields
/// its value, and an operator node applies its operator to the values of
/// both children, evaluating the left child first.
pub fn eval(tree: Syntree) -> (r: Result<EvalResult, EvalError>)
    ensures
        r == spec_eval(tree),
    decreases tree,
{
    match tree {
        Syntree::Empty => Ok(EvalResult::NoValue),
        Syntree::N(n) => Ok(EvalResult::Value(n)),
        Syntree::C(op, ltree, rtree) => {
            match eval(*ltree) {
                Err(e) => Err(e),
                Ok(EvalResult::NoValue) => Ok(EvalResult::NoValue),
                Ok(EvalResult::Value(lvalue)) => match eval(*rtree) {
                    Err(e) => Err(e),
                    Ok(EvalResult::NoValue) => Ok(EvalResult::NoValue),
                    Ok(EvalResult::Value(rvalue)) => apply(op, lvalue, rvalue),
                },
            }
        },
        _ => Err(EvalError::BadNode),
    }
}

} // verus!
