//! Byte-level recognizers: one scanner per digit and per operator or
//! punctuation byte, each a specialization of the single-byte combinator,
//! plus the two digit-class scanners the numeral grammar is built from.

use vstd::prelude::*;
use crate::ast::{parse_eq, Parsed, Syntree};
use crate::combinator::{scan_byte, scan_either};

verus! {

/// ASCII byte values of the grammar's alphabet.
pub const DIGIT_0: u8 = 48;

pub const DIGIT_1: u8 = 49;

pub const DIGIT_2: u8 = 50;

pub const DIGIT_3: u8 = 51;

pub const DIGIT_4: u8 = 52;

pub const DIGIT_5: u8 = 53;

pub const DIGIT_6: u8 = 54;

pub const DIGIT_7: u8 = 55;

pub const DIGIT_8: u8 = 56;

pub const DIGIT_9: u8 = 57;

pub const LPAREN: u8 = 40;

pub const RPAREN: u8 = 41;

pub const PLUS: u8 = 43;

pub const HYPHEN: u8 = 45;

pub const ASTER: u8 = 42;

pub const SLASH: u8 = 47;

pub const PERC: u8 = 37;

pub const LINE_FEED: u8 = 10;


/// A decimal digit byte, `'0'` through `'9'`.
pub open spec fn is_digit(b: u8) -> bool {
    DIGIT_0 <= b && b <= DIGIT_9
}

/// A digit byte that may lead a numeral: `'1'` through `'9'`.
pub open spec fn is_lead_digit(b: u8) -> bool {
    DIGIT_1 <= b && b <= DIGIT_9
}

/// What matching one fixed byte `c` at offset `i` yields: `B(c)` and one
/// byte of progress when `input[i] == c`, no match otherwise.
pub open spec fn spec_scan_exact(c: u8, input: Seq<u8>, i: int) -> Option<(Syntree, int)> {
    if 0 <= i < input.len() && input[i] == c {
        Some((Syntree::B(c), i + 1))
    } else {
        None
    }
}

/// Matches the byte `'0'`.
pub fn scan_0(i: usize, input: &[u8]) -> (r: Parsed)
    ensures
        parse_eq(r, spec_scan_exact(DIGIT_0, input@, i as int)),
{
    let pred = |b: u8| -> (r: bool)
        ensures
            r == (b == DIGIT_0),
        { b == DIGIT_0 };
    scan_byte(pred, i, input)
}

/// Matches the byte `'1'`.
pub fn scan_1(i: usize, input: &[u8]) -> (r: Parsed)
    ensures
        parse_eq(r, spec_scan_exact(DIGIT_1, input@, i as int)),
{
    let pred = |b: u8| -> (r: bool)
        ensures
            r == (b == DIGIT_1),
        { b == DIGIT_1 };
    scan_byte(pred, i, input)
}

/// Matches the byte `'2'`.
pub fn scan_2(i: usize, input: &[u8]) -> (r: Parsed)
    ensures
        parse_eq(r, spec_scan_exact(DIGIT_2, input@, i as int)),
{
    let pred = |b: u8| -> (r: bool)
        ensures
            r == (b == DIGIT_2),
        { b == DIGIT_2 };
    scan_byte(pred, i, input)
}

/// Matches the byte `'3'`.
pub fn scan_3(i: usize, input: &[u8]) -> (r: Parsed)
    ensures
        parse_eq(r, spec_scan_exact(DIGIT_3, input@, i as int)),
{
    let pred = |b: u8| -> (r: bool)
        ensures
            r == (b == DIGIT_3),
        { b == DIGIT_3 };
    scan_byte(pred, i, input)
}

/// Matches the byte `'4'`.
pub fn scan_4(i: usize, input: &[u8]) -> (r: Parsed)
    ensures
        parse_eq(r, spec_scan_exact(DIGIT_4, input@, i as int)),
{
    let pred = |b: u8| -> (r: bool)
        ensures
            r == (b == DIGIT_4),
        { b == DIGIT_4 };
    scan_byte(pred, i, input)
}

/// Matches the byte `'5'`.
pub fn scan_5(i: usize, input: &[u8]) -> (r: Parsed)
    ensures
        parse_eq(r, spec_scan_exact(DIGIT_5, input@, i as int)),
{
    let pred = |b: u8| -> (r: bool)
        ensures
            r == (b == DIGIT_5),
        { b == DIGIT_5 };
    scan_byte(pred, i, input)
}

/// Matches the byte `'6'`.
pub fn scan_6(i: usize, input: &[u8]) -> (r: Parsed)
    ensures
        parse_eq(r, spec_scan_exact(DIGIT_6, input@, i as int)),
{
    let pred = |b: u8| -> (r: bool)
        ensures
            r == (b == DIGIT_6),
        { b == DIGIT_6 };
    scan_byte(pred, i, input)
}

/// Matches the byte `'7'`.
pub fn scan_7(i: usize, input: &[u8]) -> (r: Parsed)
    ensures
        parse_eq(r, spec_scan_exact(DIGIT_7, input@, i as int)),
{
    let pred = |b: u8| -> (r: bool)
        ensures
            r == (b == DIGIT_7),
        { b == DIGIT_7 };
    scan_byte(pred, i, input)
}

/// Matches the byte `'8'`.
pub fn scan_8(i: usize, input: &[u8]) -> (r: Parsed)
    ensures
        parse_eq(r, spec_scan_exact(DIGIT_8, input@, i as int)),
{
    let pred = |b: u8| -> (r: bool)
        ensures
            r == (b == DIGIT_8),
        { b == DIGIT_8 };
    scan_byte(pred, i, input)
}

/// Matches the byte `'9'`.
pub fn scan_9(i: usize, input: &[u8]) -> (r: Parsed)
    ensures
        parse_eq(r, spec_scan_exact(DIGIT_9, input@, i as int)),
{
    let pred = |b: u8| -> (r: bool)
        ensures
            r == (b == DIGIT_9),
        { b == DIGIT_9 };
    scan_byte(pred, i, input)
}

/// Matches the byte `'('`.
pub fn scan_lparen(i: usize, input: &[u8]) -> (r: Parsed)
    ensures
        parse_eq(r, spec_scan_exact(LPAREN, input@, i as int)),
{
    let pred = |b: u8| -> (r: bool)
        ensures
            r == (b == LPAREN),
        { b == LPAREN };
    scan_byte(pred, i, input)
}

/// Matches the byte `')'`.
pub fn scan_rparen(i: usize, input: &[u8]) -> (r: Parsed)
    ensures
        parse_eq(r, spec_scan_exact(RPAREN, input@, i as int)),
{
    let pred = |b: u8| -> (r: bool)
        ensures
            r == (b == RPAREN),
        { b == RPAREN };
    scan_byte(pred, i, input)
}

/// Matches the byte `'+'`.
pub fn scan_plus(i: usize, input: &[u8]) -> (r: Parsed)
    ensures
        parse_eq(r, spec_scan_exact(PLUS, input@, i as int)),
{
    let pred = |b: u8| -> (r: bool)
        ensures
            r == (b == PLUS),
        { b == PLUS };
    scan_byte(pred, i, input)
}

/// Matches the byte `'-'`.
pub fn scan_hyphen(i: usize, input: &[u8]) -> (r: Parsed)
    ensures
        parse_eq(r, spec_scan_exact(HYPHEN, input@, i as int)),
{
    let pred = |b: u8| -> (r: bool)
        ensures
            r == (b == HYPHEN),
        { b == HYPHEN };
    scan_byte(pred, i, input)
}

/// Matches the byte `'*'`.
pub fn scan_aster(i: usize, input: &[u8]) -> (r: Parsed)
    ensures
        parse_eq(r, spec_scan_exact(ASTER, input@, i as int)),
{
    let pred = |b: u8| -> (r: bool)
        ensures
            r == (b == ASTER),
        { b == ASTER };
    scan_byte(pred, i, input)
}

/// Matches the byte `'/'`.
pub fn scan_slash(i: usize, input: &[u8]) -> (r: Parsed)
    ensures
        parse_eq(r, spec_scan_exact(SLASH, input@, i as int)),
{
    let pred = |b: u8| -> (r: bool)
        ensures
            r == (b == SLASH),
        { b == SLASH };
    scan_byte(pred, i, input)
}

/// Matches the byte `'%'`.
pub fn scan_perc(i: usize, input: &[u8]) -> (r: Parsed)
    ensures
        parse_eq(r, spec_scan_exact(PERC, input@, i as int)),
{
    let pred = |b: u8| -> (r: bool)
        ensures
            r == (b == PERC),
        { b == PERC };
    scan_byte(pred, i, input)
}

/// Matches a line-feed byte.
pub fn _scan_lf(i: usize, input: &[u8]) -> (r: Parsed)
    ensures
        parse_eq(r, spec_scan_exact(LINE_FEED, input@, i as int)),
{
    let pred = |b: u8| -> (r: bool)
        ensures
            r == (b == LINE_FEED),
        { b == LINE_FEED };
    scan_byte(pred, i, input)
}

/// What matching one leading digit (`'1'` through `'9'`) at offset `i`
/// yields.
pub open spec fn spec_scan_lead_digit(input: Seq<u8>, i: int) -> Option<(Syntree, int)> {
    if 0 <= i < input.len() && is_lead_digit(input[i]) {
        Some((Syntree::B(input[i]), i + 1))
    } else {
        None
    }
}

/// What matching one digit (`'0'` through `'9'`) at offset `i` yields.
pub open spec fn spec_scan_digit(input: Seq<u8>, i: int) -> Option<(Syntree, int)> {
    if 0 <= i < input.len() && is_digit(input[i]) {
        Some((Syntree::B(input[i]), i + 1))
    } else {
        None
    }
}

/// Matches one non-zero digit, the only bytes that may lead a numeral.
pub fn scan_123456789(i: usize, input: &[u8]) -> (r: Parsed)
    ensures
        parse_eq(r, spec_scan_lead_digit(input@, i as int)),
{
    if let Some((r, i)) = scan_either(scan_1, scan_2, i, input) {
        return Some((r, i));
    }
    if let Some((r, i)) = scan_either(scan_3, scan_4, i, input) {
        return Some((r, i));
    }
    if let Some((r, i)) = scan_either(scan_5, scan_6, i, input) {
        return Some((r, i));
    }
    if let Some((r, i)) = scan_either(scan_7, scan_8, i, input) {
        return Some((r, i));
    }
    if let Some((r, i)) = scan_9(i, input) {
        return Some((r, i));
    }
    None
}

/// Matches one digit, zero included: the bytes that may trail a numeral.
pub fn scan_0123456789(i: usize, input: &[u8]) -> (r: Parsed)
    ensures
        parse_eq(r, spec_scan_digit(input@, i as int)),
{
    if let Some((r, i)) = scan_either(scan_0, scan_123456789, i, input) {
        return Some((r, i));
    }
    None
}

} // verus!
