//! Tree assembly: classifying captured operator bytes and folding a first
//! operand plus a run of (operator, operand) pairs into a strictly
//! left-associative binary tree.

use vstd::prelude::*;
use vstd::pervasive::unreached;
use crate::ast::{node_byte, Operator, Syntree};
use crate::atoms::{ASTER, HYPHEN, PERC, PLUS, SLASH};

verus! {

/// A byte that classifies into an operator.
pub open spec fn is_op_byte(b: u8) -> bool {
    b == PLUS || b == HYPHEN || b == ASTER || b == SLASH || b == PERC
}

/// The operator a byte classifies into. Only the five arithmetic operator
/// bytes ever stand in an operator position of a well-formed parse.
pub open spec fn byte_op(b: u8) -> Operator {
    if b == PLUS {
        Operator::Add
    } else if b == HYPHEN {
        Operator::Sub
    } else if b == ASTER {
        Operator::Prod
    } else if b == SLASH {
        Operator::Div
    } else {
        Operator::Mod
    }
}

/// A transient pair node as repetition produces it in an operator
/// position: an unclassified operator byte beside its right operand.
pub open spec fn is_op_pair(t: Syntree) -> bool {
    &&& t matches Syntree::Both(op, _)
    &&& *op matches Syntree::B(b)
    &&& is_op_byte(b)
}

/// The operator of a pair node.
pub open spec fn pair_op(t: Syntree) -> Operator {
    match t {
        Syntree::Both(op, _) => byte_op(node_byte(*op)),
        _ => Operator::Add,
    }
}

/// The right operand of a pair node.
pub open spec fn pair_rhs(t: Syntree) -> Syntree {
    match t {
        Syntree::Both(_, rhs) => *rhs,
        _ => Syntree::Empty,
    }
}

/// The strictly left-associative fold: each pair, taken front to back in
/// input order, becomes a new root whose left child is everything built so
/// far and whose right child is the pair's operand.
pub open spec fn spec_fold(head: Syntree, pairs: Seq<Syntree>) -> Syntree
    decreases pairs.len(),
{
    if pairs.len() == 0 {
        head
    } else {
        spec_fold(
            Syntree::C(pair_op(pairs[0]), Box::new(head), Box::new(pair_rhs(pairs[0]))),
            pairs.drop_first(),
        )
    }
}

/// Left-associativity of assembly: the last (operator, operand) pair of a
/// run becomes the root, with everything before it as the left subtree and
/// the pair's operand as the right subtree — never the other way round.
pub proof fn lemma_fold_snoc(head: Syntree, pairs: Seq<Syntree>, p: Syntree)
    ensures
        spec_fold(head, pairs.push(p)) == Syntree::C(
            pair_op(p),
            Box::new(spec_fold(head, pairs)),
            Box::new(pair_rhs(p)),
        ),
    decreases pairs.len(),
{
    if pairs.len() == 0 {
        let once = Syntree::C(pair_op(p), Box::new(head), Box::new(pair_rhs(p)));
        assert(pairs.push(p)[0] == p);
        assert(pairs.push(p).drop_first() =~= Seq::<Syntree>::empty());
        assert(spec_fold(once, Seq::<Syntree>::empty()) == once);
    } else {
        assert(pairs.push(p)[0] == pairs[0]);
        assert(pairs.push(p).drop_first() =~= pairs.drop_first().push(p));
        lemma_fold_snoc(
            Syntree::C(pair_op(pairs[0]), Box::new(head), Box::new(pair_rhs(pairs[0]))),
            pairs.drop_first(),
            p,
        );
    }
}

/// Classifies a captured operator byte into its `Operator` case. A leaf
/// that is not one of the five operator bytes would be an internal
/// consistency fault; the grammar never captures one.
pub fn to_op(leaf: Syntree) -> (r: Operator)
    requires
        leaf matches Syntree::B(b) && is_op_byte(b),
    ensures
        r == byte_op(node_byte(leaf)),
{
    match leaf {
        Syntree::B(b) => {
            if b == PLUS {
                Operator::Add
            } else if b == HYPHEN {
                Operator::Sub
            } else if b == ASTER {
                Operator::Prod
            } else if b == SLASH {
                Operator::Div
            } else if b == PERC {
                Operator::Mod
            } else {
                unreached()
            }
        },
        _ => unreached(),
    }
}

/// Drains the pairs front to back, wrapping the tree built so far as the
/// left child of each new operator node: strict left association in
/// written order.
pub fn to_tree(head: Syntree, tail: &mut Vec<Syntree>) -> (r: Syntree)
    requires
        forall|k: int| 0 <= k < old(tail)@.len() ==> is_op_pair(#[trigger] old(tail)@[k]),
    ensures
        r == spec_fold(head, old(tail)@),
        final(tail)@.len() == 0,
    decreases old(tail)@.len(),
{
    if tail.len() == 0 {
        head
    } else {
        let pair = tail.remove(0);
        proof {
            assert(tail@ =~= old(tail)@.drop_first());
        }
        match pair {
            Syntree::Both(opleaf, rhs) => {
                let op = to_op(*opleaf);
                to_tree(Syntree::C(op, Box::new(head), rhs), tail)
            },
            _ => unreached(),
        }
    }
}

} // verus!
