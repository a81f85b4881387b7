//! The grammar-agnostic combinator primitives: empty match, single-byte
//! predicate match, sequential composition, ordered choice, and greedy
//! zero-or-more repetition.
//!
//! Each combinator's contract is stated over the contracts of the scanners
//! it is handed, through `call_requires` and `call_ensures`.

use vstd::prelude::*;
use vstd::pervasive::unreached;
use crate::ast::{Parsed, Syntree};

verus! {

/// Matches nothing: always succeeds with a zero-width `Empty` node at the
/// given offset.
#[allow(unused_variables)]
pub fn scan_empty(index: usize, input: &[u8]) -> (r: Parsed)
    ensures
        r == Some((Syntree::Empty, index)),
{
    Some((Syntree::Empty, index))
}

/// Matches one byte accepted by the predicate `f`: succeeds with
/// `B(input[index])` and advances by one when `index` is in bounds and the
/// predicate holds of the byte there; fails otherwise. Failing is the
/// normal "this alternative does not apply here" signal, not an error.
pub fn scan_byte<F: Fn(u8) -> bool>(f: F, index: usize, input: &[u8]) -> (r: Parsed)
    requires
        forall|b: u8| call_requires(f, (b,)),
    ensures
        match r {
            Some((t, j)) => index < input@.len() && j == index + 1 && t == Syntree::B(
                input@[index as int],
            ) && call_ensures(f, (input@[index as int],), true),
            None => index >= input@.len() || call_ensures(f, (input@[index as int],), false),
        },
{
    if index < input.len() {
        let c = input[index];
        if f(c) {
            Some((Syntree::B(c), index + 1))
        } else {
            None
        }
    } else {
        None
    }
}

/// Matches `scan1` and then `scan2` from where `scan1` left off, pairing
/// the two nodes. Fails when `scan1` fails, or when `scan1` matches and
/// `scan2` then fails; no partial match is returned.
pub fn scan_seq<F: Fn(usize, &[u8]) -> Parsed, G: Fn(usize, &[u8]) -> Parsed>(
    scan1: F,
    scan2: G,
    index: usize,
    input: &[u8],
) -> (r: Parsed)
    requires
        forall|k: usize| call_requires(scan1, (k, input)),
        forall|k: usize| call_requires(scan2, (k, input)),
    ensures
        match r {
            Some((t, j)) => exists|t1: Syntree, i1: usize, t2: Syntree|
                call_ensures(scan1, (index, input), Some((t1, i1))) && call_ensures(
                    scan2,
                    (i1, input),
                    Some((t2, j)),
                ) && t == Syntree::Both(Box::new(t1), Box::new(t2)),
            None => call_ensures(scan1, (index, input), None) || exists|t1: Syntree, i1: usize|
                call_ensures(scan1, (index, input), Some((t1, i1))) && call_ensures(
                    scan2,
                    (i1, input),
                    None,
                ),
        },
{
    match scan1(index, input) {
        Some((c1, i1)) => match scan2(i1, input) {
            Some((c2, i2)) => Some((Syntree::Both(Box::new(c1), Box::new(c2)), i2)),
            None => None,
        },
        None => None,
    }
}

/// Ordered choice: tries `scan1`; only when it fails, tries `scan2` at the
/// same offset. The first alternative that matches wins. Fails only when
/// both fail.
pub fn scan_either<F: Fn(usize, &[u8]) -> Parsed, G: Fn(usize, &[u8]) -> Parsed>(
    scan1: F,
    scan2: G,
    index: usize,
    input: &[u8],
) -> (r: Parsed)
    requires
        forall|k: usize| call_requires(scan1, (k, input)),
        forall|k: usize| call_requires(scan2, (k, input)),
    ensures
        match r {
            Some(p) => call_ensures(scan1, (index, input), Some(p)) || (call_ensures(
                scan1,
                (index, input),
                None,
            ) && call_ensures(scan2, (index, input), Some(p))),
            None => call_ensures(scan1, (index, input), None) && call_ensures(
                scan2,
                (index, input),
                None,
            ),
        },
{
    if let Some((c1, i1)) = scan1(index, input) {
        return Some((c1, i1));
    }
    if let Some((c2, i1)) = scan2(index, input) {
        return Some((c2, i1));
    }
    None
}

/// The repetition relation: `elems` are the nodes of the successive
/// matches of `f` starting at offset `i`, run greedily until `f` first
/// fails, and `j` is the offset where that failure occurred.
pub open spec fn repeat_rel<F: Fn(usize, &[u8]) -> Parsed>(
    f: F,
    input: &[u8],
    i: usize,
    elems: Seq<Syntree>,
    j: usize,
) -> bool
    decreases elems.len(),
{
    if elems.len() == 0 {
        call_ensures(f, (i, input), None) && j == i
    } else {
        exists|i2: usize|
            #[trigger] call_ensures(f, (i, input), Some((elems[0], i2))) && repeat_rel(
                f,
                input,
                i2,
                elems.drop_first(),
                j,
            )
    }
}

/// The node shape repetition yields for a given run of matches: `Empty`
/// for zero repetitions, otherwise a `List` of the matched nodes in input
/// order.
pub open spec fn rep_node(t: Syntree, elems: Seq<Syntree>) -> bool {
    if elems.len() == 0 {
        t == Syntree::Empty
    } else {
        t matches Syntree::List(v) && v@ == elems
    }
}

/// Greedily matches `f` zero or more times from `i`. Zero repetitions
/// yield `Empty` at `i`; one or more yield a `List` of the matched nodes,
/// front to back in input order, at the offset where `f` first failed.
/// Never fails. `f` must consume at least one byte whenever it matches.
pub fn scan_repeat<F: Fn(usize, &[u8]) -> Parsed>(f: F, i: usize, input: &[u8]) -> (r: Parsed)
    requires
        forall|k: usize| call_requires(f, (k, input)),
        forall|k: usize, p: (Syntree, usize)|
            call_ensures(f, (k, input), Some(p)) ==> k < p.1 && p.1 <= input@.len(),
    ensures
        match r {
            Some((t, j)) => i <= j && exists|elems: Seq<Syntree>|
                repeat_rel(f, input, i, elems, j) && rep_node(t, elems),
            None => false,
        },
    decreases input@.len() - i,
{
    match f(i, input) {
        None => {
            proof {
                let elems = Seq::<Syntree>::empty();
                assert(repeat_rel(f, input, i, elems, i) && rep_node(Syntree::Empty, elems));
                assert(exists|es: Seq<Syntree>|
                    repeat_rel(f, input, i, es, i) && rep_node(Syntree::Empty, es));
            }
            Some((Syntree::Empty, i))
        },
        Some((e, i2)) => {
            let rest = scan_repeat(f, i2, input);
            match rest {
                Some((Syntree::Empty, j)) => {
                    let mut li: Vec<Syntree> = Vec::new();
                    li.push(e);
                    proof {
                        let elems2 = choose|elems2: Seq<Syntree>|
                            repeat_rel(f, input, i2, elems2, j) && rep_node(
                                Syntree::Empty,
                                elems2,
                            );
                        let elems = seq![e] + elems2;
                        assert(elems.drop_first() =~= elems2);
                        assert(call_ensures(f, (i, input), Some((elems[0], i2))) && repeat_rel(
                            f,
                            input,
                            i2,
                            elems.drop_first(),
                            j,
                        ));
                        assert(li@ =~= elems);
                        assert(repeat_rel(f, input, i, elems, j));
                        assert(rep_node(Syntree::List(li), elems));
                        assert(exists|es: Seq<Syntree>|
                            repeat_rel(f, input, i, es, j) && rep_node(Syntree::List(li), es));
                    }
                    Some((Syntree::List(li), j))
                },
                Some((Syntree::List(mut e1), j)) => {
                    proof {
                        let elems2 = choose|elems2: Seq<Syntree>|
                            repeat_rel(f, input, i2, elems2, j) && rep_node(
                                Syntree::List(e1),
                                elems2,
                            );
                        assert(elems2 == e1@);
                        let elems = seq![e] + e1@;
                        assert(elems.drop_first() =~= e1@);
                        assert(call_ensures(f, (i, input), Some((elems[0], i2))) && repeat_rel(
                            f,
                            input,
                            i2,
                            elems.drop_first(),
                            j,
                        ));
                    }
                    let ghost old_e1 = e1@;
                    e1.insert(0, e);
                    proof {
                        assert(e1@ =~= seq![e] + old_e1);
                        assert(repeat_rel(f, input, i, e1@, j));
                        assert(rep_node(Syntree::List(e1), e1@));
                        assert(exists|es: Seq<Syntree>|
                            repeat_rel(f, input, i, es, j) && rep_node(Syntree::List(e1), es));
                    }
                    Some((Syntree::List(e1), j))
                },
                _ => unreached(),
            }
        },
    }
}

} // verus!
