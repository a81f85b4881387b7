//! The numeral grammar: a non-zero leading digit followed by zero or more
//! digits, folded most-significant-first into a single base-10 integer.

use vstd::prelude::*;
use vstd::pervasive::unreached;
use crate::ast::{node_bytes, parse_eq, Parsed, Syntree};
use crate::atoms::{is_digit, is_lead_digit, scan_0123456789, scan_123456789, spec_scan_digit, DIGIT_0};
use crate::combinator::{rep_node, repeat_rel, scan_repeat};

verus! {

/// The numeric value of one digit byte.
pub open spec fn digit_val(b: u8) -> int {
    b - DIGIT_0
}

/// The base-10 value of a digit string, most significant digit first.
pub open spec fn numeral_value(ds: Seq<u8>) -> int
    decreases ds.len(),
{
    if ds.len() == 0 {
        0
    } else {
        numeral_value(ds.drop_last()) * 10 + digit_val(ds.last())
    }
}

/// The offset just past the run of consecutive digits starting at `i`.
pub open spec fn digit_run_end(input: Seq<u8>, i: int) -> int
    decreases input.len() - i,
{
    if 0 <= i < input.len() && is_digit(input[i]) {
        digit_run_end(input, i + 1)
    } else {
        i
    }
}

/// What the numeral production yields at offset `i`: the value of the
/// maximal digit run starting with a non-zero digit, as a machine integer,
/// consuming the whole run — or no match when the offset does not hold a
/// non-zero digit, or the value does not fit in an `i32`.
pub open spec fn spec_num(input: Seq<u8>, i: int) -> Option<(Syntree, int)> {
    if 0 <= i < input.len() && is_lead_digit(input[i]) {
        let j = digit_run_end(input, i);
        let v = numeral_value(input.subrange(i, j));
        if v <= i32::MAX {
            Some((Syntree::N(v as i32), j))
        } else {
            None
        }
    } else {
        None
    }
}

/// A node holding one matched digit byte.
pub open spec fn is_digit_node(t: Syntree) -> bool {
    t matches Syntree::B(b) && is_digit(b)
}

/// The digit run's end lies between `i` and the end of the input, every
/// byte before it is a digit, and the byte at it (if any) is not.
pub proof fn lemma_digit_run_end(input: Seq<u8>, i: int)
    requires
        0 <= i <= input.len(),
    ensures
        i <= digit_run_end(input, i) <= input.len(),
        forall|k: int| i <= k < digit_run_end(input, i) ==> is_digit(#[trigger] input[k]),
        digit_run_end(input, i) == input.len() || !is_digit(input[digit_run_end(input, i)]),
    decreases input.len() - i,
{
    if i < input.len() && is_digit(input[i]) {
        lemma_digit_run_end(input, i + 1);
    }
}

/// A digit string's value is non-negative.
pub proof fn lemma_numeral_value_nonneg(ds: Seq<u8>)
    requires
        forall|k: int| 0 <= k < ds.len() ==> is_digit(#[trigger] ds[k]),
    ensures
        numeral_value(ds) >= 0,
    decreases ds.len(),
{
    if ds.len() > 0 {
        lemma_numeral_value_nonneg(ds.drop_last());
    }
}

/// Extending a digit string never lowers its value: the whole string is
/// worth at least any of its prefixes.
pub proof fn lemma_numeral_value_prefix(ds: Seq<u8>, m: int)
    requires
        forall|k: int| 0 <= k < ds.len() ==> is_digit(#[trigger] ds[k]),
        0 <= m <= ds.len(),
    ensures
        numeral_value(ds) >= numeral_value(ds.take(m)),
    decreases ds.len(),
{
    if m < ds.len() {
        assert(ds.drop_last().take(m) =~= ds.take(m));
        lemma_numeral_value_prefix(ds.drop_last(), m);
        lemma_numeral_value_nonneg(ds.drop_last());
    } else {
        assert(ds.take(m) =~= ds);
    }
}

/// A greedy repetition of a scanner that matches exactly one digit
/// matches exactly the digit run: one `B` node per digit, ending where the
/// run ends.
proof fn lemma_digit_repeat<F: Fn(usize, &[u8]) -> Parsed>(
    f: F,
    input: &[u8],
    i: usize,
    elems: Seq<Syntree>,
    j: usize,
)
    requires
        repeat_rel(f, input, i, elems, j),
        forall|k: usize, inp: &[u8], r: Parsed|
            call_ensures(f, (k, inp), r) ==> parse_eq(r, spec_scan_digit(inp@, k as int)),
    ensures
        j == digit_run_end(input@, i as int),
        elems =~= Seq::new((j - i) as nat, |k: int| Syntree::B(input@[i + k])),
    decreases elems.len(),
{
    if elems.len() == 0 {
        assert(call_ensures(f, (i, input), None::<(Syntree, usize)>));
        assert(parse_eq(None, spec_scan_digit(input@, i as int)));
        assert(digit_run_end(input@, i as int) == i as int);
    } else {
        let i2 = choose|i2: usize|
            #[trigger] call_ensures(f, (i, input), Some((elems[0], i2))) && repeat_rel(
                f,
                input,
                i2,
                elems.drop_first(),
                j,
            );
        assert(parse_eq(Some((elems[0], i2)), spec_scan_digit(input@, i as int)));
        assert(i2 == i + 1);
        assert(is_digit(input@[i as int]) && elems[0] == Syntree::B(input@[i as int]));
        lemma_digit_repeat(f, input, i2, elems.drop_first(), j);
        assert(digit_run_end(input@, i as int) == digit_run_end(input@, i2 as int));
        lemma_digit_run_end(input@, i2 as int);
        assert(i2 <= j <= input@.len());
        let target = Seq::new((j - i) as nat, |k: int| Syntree::B(input@[i + k]));
        assert(elems.drop_first() == Seq::new(
            (j - i2) as nat,
            |k: int| Syntree::B(input@[i2 + k]),
        ));
        assert forall|k: int| 1 <= k < elems.len() implies elems[k] == target[k] by {
            assert(elems[k] == elems.drop_first()[k - 1]);
        }
        assert(elems =~= target);
    }
}

/// Folds a leading digit byte and the trailing digit nodes into a single
/// integer literal node, most significant digit first. Yields nothing when
/// the numeral's value does not fit in an `i32`.
pub fn build_num(head: u8, tail: &Vec<Syntree>) -> (r: Option<Syntree>)
    requires
        is_digit(head),
        forall|k: int| 0 <= k < tail@.len() ==> is_digit_node(#[trigger] tail@[k]),
    ensures
        ({
            let v = numeral_value(seq![head] + node_bytes(tail@));
            if v <= i32::MAX {
                r == Some(Syntree::N(v as i32))
            } else {
                r == None::<Syntree>
            }
        }),
{
    let ghost ds = seq![head] + node_bytes(tail@);
    proof {
        reveal_with_fuel(numeral_value, 2);
        assert(forall|k: int| 0 <= k < ds.len() ==> is_digit(#[trigger] ds[k]));
        assert(ds.take(1) =~= seq![head]);
        assert(numeral_value(seq![head]) == digit_val(head));
    }
    let mut n: i32 = (head - DIGIT_0) as i32;
    let mut k: usize = 0;
    while k < tail.len()
        invariant
            0 <= k <= tail@.len(),
            ds == seq![head] + node_bytes(tail@),
            forall|t: int| 0 <= t < ds.len() ==> is_digit(#[trigger] ds[t]),
            forall|t: int| 0 <= t < tail@.len() ==> is_digit_node(#[trigger] tail@[t]),
            n == numeral_value(ds.take(k + 1)),
            0 <= n,
        decreases tail@.len() - k,
    {
        let d: u8 = match &tail[k] {
            Syntree::B(b) => *b,
            _ => unreached(),
        };
        proof {
            assert(ds.take(k + 2).drop_last() =~= ds.take(k + 1));
            assert(ds.take(k + 2).last() == ds[k + 1]);
            assert(ds[k + 1] == d);
        }
        let n10 = match n.checked_mul(10) {
            Some(v) => v,
            None => {
                proof {
                    lemma_numeral_value_prefix(ds, k + 2);
                }
                return None;
            },
        };
        let n2 = match n10.checked_add((d - DIGIT_0) as i32) {
            Some(v) => v,
            None => {
                proof {
                    lemma_numeral_value_prefix(ds, k + 2);
                }
                return None;
            },
        };
        n = n2;
        k += 1;
    }
    proof {
        assert(ds.take(k + 1) =~= ds);
    }
    Some(Syntree::N(n))
}

/// Matches a numeral: one non-zero digit, then greedily any further
/// digits, folded into a single `N` literal node.
pub fn scan_num(i: usize, input: &[u8]) -> (r: Parsed)
    ensures
        parse_eq(r, spec_num(input@, i as int)),
{
    let f = scan_0123456789;
    proof {
        assert(forall|k: usize, inp: &[u8], r: Parsed|
            call_ensures(f, (k, inp), r) ==> parse_eq(r, spec_scan_digit(inp@, k as int)));
    }
    match scan_123456789(i, input) {
        Some((Syntree::B(e), i1)) => {
            match scan_repeat(f, i1, input) {
                Some((Syntree::List(li), i2)) => {
                    proof {
                        let elems = choose|elems: Seq<Syntree>|
                            repeat_rel(f, input, i1, elems, i2) && rep_node(
                                Syntree::List(li),
                                elems,
                            );
                        lemma_digit_repeat(f, input, i1, elems, i2);
                        lemma_digit_run_end(input@, i1 as int);
                        assert(i1 <= i2 <= input@.len());
                        assert(li@ == elems);
                        assert(node_bytes(li@) =~= input@.subrange(i1 as int, i2 as int));
                        assert(seq![e] + node_bytes(li@) =~= input@.subrange(
                            i as int,
                            i2 as int,
                        ));
                        assert(digit_run_end(input@, i as int) == digit_run_end(
                            input@,
                            i1 as int,
                        ));
                    }
                    match build_num(e, &li) {
                        Some(node) => Some((node, i2)),
                        None => None,
                    }
                },
                Some((Syntree::Empty, i2)) => {
                    proof {
                        let elems = choose|elems: Seq<Syntree>|
                            repeat_rel(f, input, i1, elems, i2) && rep_node(
                                Syntree::Empty,
                                elems,
                            );
                        lemma_digit_repeat(f, input, i1, elems, i2);
                        assert(digit_run_end(input@, i as int) == i1 as int);
                        reveal_with_fuel(numeral_value, 2);
                        assert(input@.subrange(i as int, i1 as int) =~= seq![e]);
                        assert(numeral_value(seq![e]) == digit_val(e));
                    }
                    Some((Syntree::N((e - DIGIT_0) as i32), i2))
                },
                _ => unreached(),
            }
        },
        Some(_) => unreached(),
        None => None,
    }
}

} // verus!
