//! The syntax-tree data model: parse outcomes, tree nodes, operators,
//! and the evaluation result and fault kinds.

use vstd::prelude::*;

verus! {

/// A parse outcome: `Some((node, next_index))` when a production matched a
/// prefix of the input starting at the attempted offset, where `next_index`
/// is the offset immediately following the consumed bytes; `None` when the
/// production did not match there. A non-match is ordinary control flow,
/// not an error.
pub type Parsed = Option<(Syntree, usize)>;

/// A binary operator, as classified from its source byte.
#[derive(PartialEq, Eq, Structural, Debug, Clone, Copy)]
pub enum Operator {
    Add,
    Sub,
    Prod,
    Div,
    Mod,
}

/// A syntax-tree node.
///
/// `Empty`, `B`, `Both` and `List` are transient shapes produced by the
/// combinators; every well-formed parse reduces them away before the tree
/// reaches the evaluator. `N` and `C` are the shapes of finished trees.
#[derive(PartialEq, Debug)]
pub enum Syntree {
    /// A successful zero-width match.
    Empty,
    /// A single matched input byte, not yet classified.
    B(u8),
    /// Two sub-matches produced by sequential composition.
    Both(Box<Syntree>, Box<Syntree>),
    /// Ordered sibling matches produced by repetition, in input order.
    List(Vec<Syntree>),
    /// An integer literal leaf.
    N(i32),
    /// An interior node: an operator applied to two sub-trees.
    C(Operator, Box<Syntree>, Box<Syntree>),
}

/// The outcome of evaluating a finished tree: no value (for the empty
/// input) or a single integer.
#[derive(PartialEq, Eq, Structural, Debug, Clone, Copy)]
pub enum EvalResult {
    NoValue,
    Value(i32),
}

/// A fatal evaluation fault. `BadNode` reports a tree shape that a
/// well-formed parse never hands to the evaluator; `DivByZero` and
/// `Overflow` report arithmetic outside the machine's range.
#[derive(PartialEq, Eq, Structural, Debug, Clone, Copy)]
pub enum EvalError {
    BadNode,
    DivByZero,
    Overflow,
}

/// The byte a `B` node carries (zero for any other shape).
pub open spec fn node_byte(t: Syntree) -> u8 {
    match t {
        Syntree::B(b) => b,
        _ => 0,
    }
}

/// The bytes carried by a run of `B` nodes, in order.
pub open spec fn node_bytes(s: Seq<Syntree>) -> Seq<u8> {
    Seq::new(s.len(), |k: int| node_byte(s[k]))
}

/// Whether the executable parse outcome `r` agrees with the mathematical
/// parse outcome `s`: both fail, or both match with the same node and the
/// same next offset.
pub open spec fn parse_eq(r: Parsed, s: Option<(Syntree, int)>) -> bool {
    match (r, s) {
        (Some((t, j)), Some((t2, j2))) => t == t2 && j as int == j2,
        (None, None) => true,
        _ => false,
    }
}

/// A tree in the shape the evaluator accepts without fault: built only
/// from integer leaves and operator nodes.
pub open spec fn is_eval_tree(t: Syntree) -> bool
    decreases t,
{
    match t {
        Syntree::N(_) => true,
        Syntree::C(_, l, r) => is_eval_tree(*l) && is_eval_tree(*r),
        _ => false,
    }
}

} // verus!
