//! A verified recursive-descent parser and evaluator for integer
//! arithmetic expressions over the operators `+ - * / %` with
//! parenthesized grouping.
//!
//! The grammar, over the byte alphabet `( ) + - * / % 0-9`:
//!
//! ```text
//! start = exp | empty
//! exp   = prod ((`+` | `-`) prod)*
//! prod  = val  ((`*` | `/` | `%`) val)*
//! val   = num | `(` exp `)`
//! num   = [1-9] [0-9]*
//! ```
//!
//! Parsing is built from small combinators (empty match, single-byte
//! predicate match, sequencing, ordered choice, repetition), produces a
//! syntax tree, and a tree-walking evaluator computes the result.
//!
//! Every scanner states its result against a mathematical parse function
//! of the input bytes and offset; `laws` proves the properties that relate
//! them: the numeral value formula, the rejection of leading zeros, strict
//! left association, the shape invariant between grammar and evaluator,
//! and the purity of parsing.

pub mod assemble;
pub mod ast;
pub mod atoms;
pub mod combinator;
pub mod eval;
pub mod grammar;
pub mod laws;
pub mod numeral;
