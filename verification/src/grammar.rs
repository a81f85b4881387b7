//! The expression grammar: three mutually recursive productions encode
//! operator precedence by layering — an expression is a sum of products,
//! a product is a product of values, a value is a numeral or a
//! parenthesized expression — and a start production that also accepts the
//! empty input.
//!
//! The productions call each other directly, and each tier's repetition of
//! `(operator, operand)` pairs is a loop that collects the pairs and hands
//! them to tree assembly, so that the mutual recursion terminates by a
//! measure over the unconsumed input. The mathematical productions
//! (`spec_val`, `spec_prod`, `spec_exp`, `spec_start`) state what each
//! scanner returns on every input.

use vstd::prelude::*;
use crate::assemble::{byte_op, is_op_pair, spec_fold, to_tree};
use crate::ast::{parse_eq, Parsed, Syntree};
use crate::atoms::{
    scan_aster, scan_hyphen, scan_lparen, scan_perc, scan_plus, scan_rparen, scan_slash, ASTER,
    HYPHEN, LPAREN, PERC, PLUS, RPAREN, SLASH,
};
use crate::combinator::scan_empty;
use crate::numeral::{scan_num, spec_num};

verus! {

/// A byte of the multiplicative tier: `*`, `/` or `%`.
pub open spec fn is_mul_byte(b: u8) -> bool {
    b == ASTER || b == SLASH || b == PERC
}

/// A byte of the additive tier: `+` or `-`.
pub open spec fn is_add_byte(b: u8) -> bool {
    b == PLUS || b == HYPHEN
}

/// What the value production yields at offset `i`: a numeral, or else a
/// parenthesized expression with the parenthesis tokens discarded.
pub open spec fn spec_val(input: Seq<u8>, i: int) -> Option<(Syntree, int)>
    decreases input.len() - i, 0int,
{
    match spec_num(input, i) {
        Some(p) => Some(p),
        None => if 0 <= i < input.len() && input[i] == LPAREN {
            match spec_exp(input, i + 1) {
                Some((t, j)) => if 0 <= j < input.len() && input[j] == RPAREN {
                    Some((t, j + 1))
                } else {
                    None
                },
                None => None,
            }
        } else {
            None
        },
    }
}

/// Greedily extends a product: while a multiplicative operator stands at
/// `i` and a value follows it, wrap the tree built so far as the left
/// child. Yields the finished tree and the offset where extension stopped.
/// (The offset tests on the recursive step always hold — a value consumes
/// at least one byte and stays within the input — and only bound the
/// recursion.)
pub open spec fn spec_prod_rest(input: Seq<u8>, i: int, acc: Syntree) -> (Syntree, int)
    decreases input.len() - i, 1int,
{
    if 0 <= i < input.len() && is_mul_byte(input[i]) {
        match spec_val(input, i + 1) {
            Some((t, j)) => if i + 1 < j <= input.len() {
                spec_prod_rest(
                    input,
                    j,
                    Syntree::C(byte_op(input[i]), Box::new(acc), Box::new(t)),
                )
            } else {
                (acc, i)
            },
            None => (acc, i),
        }
    } else {
        (acc, i)
    }
}

/// What the product production yields at offset `i`: one value, extended
/// left-associatively by every `(* | / | %) value` pair that follows.
pub open spec fn spec_prod(input: Seq<u8>, i: int) -> Option<(Syntree, int)>
    decreases input.len() - i, 2int,
{
    match spec_val(input, i) {
        Some((t0, j0)) => if i < j0 <= input.len() {
            Some(spec_prod_rest(input, j0, t0))
        } else {
            Some((t0, j0))
        },
        None => None,
    }
}

/// Greedily extends a sum: as `spec_prod_rest`, one precedence tier up,
/// with additive operators and product operands.
pub open spec fn spec_exp_rest(input: Seq<u8>, i: int, acc: Syntree) -> (Syntree, int)
    decreases input.len() - i, 3int,
{
    if 0 <= i < input.len() && is_add_byte(input[i]) {
        match spec_prod(input, i + 1) {
            Some((t, j)) => if i + 1 < j <= input.len() {
                spec_exp_rest(
                    input,
                    j,
                    Syntree::C(byte_op(input[i]), Box::new(acc), Box::new(t)),
                )
            } else {
                (acc, i)
            },
            None => (acc, i),
        }
    } else {
        (acc, i)
    }
}

/// What the expression production yields at offset `i`: one product,
/// extended left-associatively by every `(+ | -) product` pair that
/// follows.
pub open spec fn spec_exp(input: Seq<u8>, i: int) -> Option<(Syntree, int)>
    decreases input.len() - i, 4int,
{
    match spec_prod(input, i) {
        Some((t0, j0)) => if i < j0 <= input.len() {
            Some(spec_exp_rest(input, j0, t0))
        } else {
            Some((t0, j0))
        },
        None => None,
    }
}

/// What the start production yields: an expression, or — only when no
/// expression matches, hence only for input that holds no expression at
/// `i` — a zero-width `Empty` match. It never fails.
pub open spec fn spec_start(input: Seq<u8>, i: int) -> Option<(Syntree, int)> {
    match spec_exp(input, i) {
        Some(p) => Some(p),
        None => Some((Syntree::Empty, i)),
    }
}

/// A matched value consumes at least one byte and stays within the input.
pub proof fn lemma_val_bounds(input: Seq<u8>, i: int)
    ensures
        spec_val(input, i) matches Some((t, j)) ==> i < j <= input.len(),
    decreases input.len() - i, 0int,
{
    if spec_num(input, i) is Some {
        crate::numeral::lemma_digit_run_end(input, i);
    } else if 0 <= i < input.len() && input[i] == LPAREN {
        lemma_exp_bounds(input, i + 1);
    }
}

/// Extending a product never moves backwards and never leaves the input.
pub proof fn lemma_prod_rest_bounds(input: Seq<u8>, i: int, acc: Syntree)
    ensures
        i <= spec_prod_rest(input, i, acc).1,
        i <= input.len() ==> spec_prod_rest(input, i, acc).1 <= input.len(),
    decreases input.len() - i, 1int,
{
    if 0 <= i < input.len() && is_mul_byte(input[i]) {
        lemma_val_bounds(input, i + 1);
        match spec_val(input, i + 1) {
            Some((t, j)) => {
                if i + 1 < j <= input.len() {
                    lemma_prod_rest_bounds(
                        input,
                        j,
                        Syntree::C(byte_op(input[i]), Box::new(acc), Box::new(t)),
                    );
                }
            },
            None => {},
        }
    }
}

/// A matched product consumes at least one byte and stays within the
/// input.
pub proof fn lemma_prod_bounds(input: Seq<u8>, i: int)
    ensures
        spec_prod(input, i) matches Some((t, j)) ==> i < j <= input.len(),
    decreases input.len() - i, 2int,
{
    lemma_val_bounds(input, i);
    match spec_val(input, i) {
        Some((t0, j0)) => {
            lemma_prod_rest_bounds(input, j0, t0);
        },
        None => {},
    }
}

/// Extending a sum never moves backwards and never leaves the input.
pub proof fn lemma_exp_rest_bounds(input: Seq<u8>, i: int, acc: Syntree)
    ensures
        i <= spec_exp_rest(input, i, acc).1,
        i <= input.len() ==> spec_exp_rest(input, i, acc).1 <= input.len(),
    decreases input.len() - i, 3int,
{
    if 0 <= i < input.len() && is_add_byte(input[i]) {
        lemma_prod_bounds(input, i + 1);
        match spec_prod(input, i + 1) {
            Some((t, j)) => {
                if i + 1 < j <= input.len() {
                    lemma_exp_rest_bounds(
                        input,
                        j,
                        Syntree::C(byte_op(input[i]), Box::new(acc), Box::new(t)),
                    );
                }
            },
            None => {},
        }
    }
}

/// A matched expression consumes at least one byte and stays within the
/// input.
pub proof fn lemma_exp_bounds(input: Seq<u8>, i: int)
    ensures
        spec_exp(input, i) matches Some((t, j)) ==> i < j <= input.len(),
    decreases input.len() - i, 4int,
{
    lemma_prod_bounds(input, i);
    match spec_prod(input, i) {
        Some((t0, j0)) => {
            lemma_exp_rest_bounds(input, j0, t0);
        },
        None => {},
    }
}

/// Matches a value: a numeral, or else `(` expression `)` with the
/// parenthesis tokens discarded.
pub fn scan_val(i: usize, input: &[u8]) -> (r: Parsed)
    ensures
        parse_eq(r, spec_val(input@, i as int)),
    decreases input@.len() - i, 0int,
{
    match scan_num(i, input) {
        Some((t, j)) => Some((t, j)),
        None => match scan_lparen(i, input) {
            None => None,
            Some((_, i1)) => match scan_exp(i1, input) {
                None => None,
                Some((t, i2)) => match scan_rparen(i2, input) {
                    None => None,
                    Some((_, i3)) => Some((t, i3)),
                },
            },
        },
    }
}

/// Matches a product: one value, then greedily `(* | / | %) value` pairs,
/// assembled into a strictly left-associative tree.
pub fn scan_prod(i: usize, input: &[u8]) -> (r: Parsed)
    ensures
        parse_eq(r, spec_prod(input@, i as int)),
    decreases input@.len() - i, 1int,
{
    let (t0, j0) = match scan_val(i, input) {
        None => {
            return None;
        },
        Some(p) => p,
    };
    proof {
        lemma_val_bounds(input@, i as int);
    }
    let ghost head = t0;
    let mut pairs: Vec<Syntree> = Vec::new();
    let mut j = j0;
    let mut done = false;
    while !done
        invariant
            i < j0 <= j <= input@.len(),
            head == t0,
            spec_prod(input@, i as int) == Some(spec_prod_rest(input@, j0 as int, head)),
            forall|k: int| 0 <= k < pairs@.len() ==> is_op_pair(#[trigger] pairs@[k]),
            spec_prod_rest(input@, j as int, spec_fold(head, pairs@)) == spec_prod_rest(
                input@,
                j0 as int,
                head,
            ),
            done ==> spec_prod_rest(input@, j as int, spec_fold(head, pairs@)) == (
                spec_fold(head, pairs@),
                j as int,
            ),
        decreases input@.len() - j + (if done { 0int } else { 1int }),
    {
        let opr = match scan_aster(j, input) {
            Some(p) => Some(p),
            None => match scan_slash(j, input) {
                Some(p) => Some(p),
                None => scan_perc(j, input),
            },
        };
        match opr {
            None => {
                done = true;
            },
            Some((opnode, jop)) => match scan_val(jop, input) {
                None => {
                    done = true;
                },
                Some((t1, j1)) => {
                    proof {
                        lemma_val_bounds(input@, jop as int);
                        let p = Syntree::Both(Box::new(opnode), Box::new(t1));
                        crate::assemble::lemma_fold_snoc(head, pairs@, p);
                        assert(pairs@.push(p).drop_last() =~= pairs@);
                    }
                    pairs.push(Syntree::Both(Box::new(opnode), Box::new(t1)));
                    j = j1;
                },
            },
        }
    }
    let tree = if pairs.len() == 0 {
        t0
    } else {
        to_tree(t0, &mut pairs)
    };
    Some((tree, j))
}

/// Matches an expression: one product, then greedily `(+ | -) product`
/// pairs, assembled into a strictly left-associative tree.
pub fn scan_exp(i: usize, input: &[u8]) -> (r: Parsed)
    ensures
        parse_eq(r, spec_exp(input@, i as int)),
    decreases input@.len() - i, 2int,
{
    let (t0, j0) = match scan_prod(i, input) {
        None => {
            return None;
        },
        Some(p) => p,
    };
    proof {
        lemma_prod_bounds(input@, i as int);
    }
    let ghost head = t0;
    let mut pairs: Vec<Syntree> = Vec::new();
    let mut j = j0;
    let mut done = false;
    while !done
        invariant
            i < j0 <= j <= input@.len(),
            head == t0,
            spec_exp(input@, i as int) == Some(spec_exp_rest(input@, j0 as int, head)),
            forall|k: int| 0 <= k < pairs@.len() ==> is_op_pair(#[trigger] pairs@[k]),
            spec_exp_rest(input@, j as int, spec_fold(head, pairs@)) == spec_exp_rest(
                input@,
                j0 as int,
                head,
            ),
            done ==> spec_exp_rest(input@, j as int, spec_fold(head, pairs@)) == (
                spec_fold(head, pairs@),
                j as int,
            ),
        decreases input@.len() - j + (if done { 0int } else { 1int }),
    {
        let opr = match scan_plus(j, input) {
            Some(p) => Some(p),
            None => scan_hyphen(j, input),
        };
        match opr {
            None => {
                done = true;
            },
            Some((opnode, jop)) => match scan_prod(jop, input) {
                None => {
                    done = true;
                },
                Some((t1, j1)) => {
                    proof {
                        lemma_prod_bounds(input@, jop as int);
                        let p = Syntree::Both(Box::new(opnode), Box::new(t1));
                        crate::assemble::lemma_fold_snoc(head, pairs@, p);
                        assert(pairs@.push(p).drop_last() =~= pairs@);
                    }
                    pairs.push(Syntree::Both(Box::new(opnode), Box::new(t1)));
                    j = j1;
                },
            },
        }
    }
    let tree = if pairs.len() == 0 {
        t0
    } else {
        to_tree(t0, &mut pairs)
    };
    Some((tree, j))
}

/// The start production: an expression, or the empty match for input that
/// holds none. Never fails.
pub fn scan_start(i: usize, input: &[u8]) -> (r: Parsed)
    ensures
        parse_eq(r, spec_start(input@, i as int)),
{
    crate::combinator::scan_either(scan_exp, scan_empty, i, input)
}

} // verus!
