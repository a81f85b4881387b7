//! Tests of the combinator primitives, the lexical atoms, and the numeral
//! grammar.

use exprscan::ast::Syntree::{Both, Empty, List, B, N};
use exprscan::atoms::{
    _scan_lf, scan_0, scan_0123456789, scan_1, scan_123456789, scan_2, scan_3, scan_4, scan_5,
    scan_6, scan_7, scan_8, scan_9, scan_aster, scan_hyphen, scan_lparen, scan_perc, scan_plus,
    scan_rparen, scan_slash,
};
use exprscan::combinator::{scan_byte, scan_either, scan_empty, scan_repeat, scan_seq};
use exprscan::numeral::scan_num;

#[test]
fn test_scan_empty() {
    let v1 = vec![1];

    assert_eq!(scan_empty(0, &v1), Some((Empty, 0)));
}

#[test]
fn test_scan_byte() {
    let v1 = vec![1];

    let f = |_b: u8| -> bool { false };
    assert_eq!(scan_byte(&f, 0, &v1), None);

    let v2 = vec![1, 2];
    let g = |b: u8| -> bool { b == 1 };
    assert_eq!(scan_byte(&g, 0, &v2), Some((B(1), 1)));
}

#[test]
fn test_scan_either() {
    let v1 = vec![b'1'];
    let v2 = vec![b'2'];
    let v3 = vec![b'3'];

    let f = scan_1;
    let g = scan_2;

    assert_eq!(scan_either(f, g, 0, &v1), Some((B(b'1'), 1)));
    assert_eq!(scan_either(f, g, 0, &v2), Some((B(b'2'), 1)));
    assert_eq!(scan_either(f, g, 0, &v3), None);
}

#[test]
fn test_scan_repeat() {
    let v1 = vec![b'1', b'2', b'3'];
    let v2 = vec![b'a'];
    let v3 = vec![b'3', b'a'];
    let v4 = vec![];

    let f = scan_123456789;

    let a1 = vec![B(b'1'), B(b'2'), B(b'3')];
    let a2 = vec![B(b'3')];

    assert_eq!(scan_repeat(f, 0, &v1), Some((List(a1), 3)));
    assert_eq!(scan_repeat(f, 0, &v2), Some((Empty, 0)));
    assert_eq!(scan_repeat(f, 0, &v3), Some((List(a2), 1)));
    assert_eq!(scan_repeat(f, 0, &v4), Some((Empty, 0)));
}

#[test]
fn test_scan_1() {
    let v = vec![b'1', b'2', b'3'];
    assert_eq!(scan_1(0, &v), Some((B(b'1'), 1)));
}

#[test]
fn test_scan_0123456789() {
    let v = vec![b'0', b'1', b'2', b'3', b'4', b'5', b'6', b'7', b'8', b'9', b'a'];

    assert_eq!(scan_0123456789(0, &v), Some((B(b'0'), 1)));
    assert_eq!(scan_0123456789(1, &v), Some((B(b'1'), 2)));
    assert_eq!(scan_0123456789(2, &v), Some((B(b'2'), 3)));
    assert_eq!(scan_0123456789(3, &v), Some((B(b'3'), 4)));
    assert_eq!(scan_0123456789(4, &v), Some((B(b'4'), 5)));
    assert_eq!(scan_0123456789(5, &v), Some((B(b'5'), 6)));
    assert_eq!(scan_0123456789(6, &v), Some((B(b'6'), 7)));
    assert_eq!(scan_0123456789(7, &v), Some((B(b'7'), 8)));
    assert_eq!(scan_0123456789(8, &v), Some((B(b'8'), 9)));
    assert_eq!(scan_0123456789(9, &v), Some((B(b'9'), 10)));
    assert_eq!(scan_0123456789(10, &v), None);
}

#[test]
fn atoms_match_exactly_their_own_byte() {
    let v = vec![b'(', b')', b'+', b'-', b'*', b'/', b'%', b'\n'];

    assert_eq!(scan_lparen(0, &v), Some((B(b'('), 1)));
    assert_eq!(scan_rparen(1, &v), Some((B(b')'), 2)));
    assert_eq!(scan_plus(2, &v), Some((B(b'+'), 3)));
    assert_eq!(scan_hyphen(3, &v), Some((B(b'-'), 4)));
    assert_eq!(scan_aster(4, &v), Some((B(b'*'), 5)));
    assert_eq!(scan_slash(5, &v), Some((B(b'/'), 6)));
    assert_eq!(scan_perc(6, &v), Some((B(b'%'), 7)));
    assert_eq!(_scan_lf(7, &v), Some((B(b'\n'), 8)));

    assert_eq!(scan_plus(0, &v), None);
    assert_eq!(scan_lparen(8, &v), None);

    let digits = vec![b'0', b'1', b'2', b'3', b'4', b'5', b'6', b'7', b'8', b'9'];
    assert_eq!(scan_0(0, &digits), Some((B(b'0'), 1)));
    assert_eq!(scan_2(2, &digits), Some((B(b'2'), 3)));
    assert_eq!(scan_3(3, &digits), Some((B(b'3'), 4)));
    assert_eq!(scan_4(4, &digits), Some((B(b'4'), 5)));
    assert_eq!(scan_5(5, &digits), Some((B(b'5'), 6)));
    assert_eq!(scan_6(6, &digits), Some((B(b'6'), 7)));
    assert_eq!(scan_7(7, &digits), Some((B(b'7'), 8)));
    assert_eq!(scan_8(8, &digits), Some((B(b'8'), 9)));
    assert_eq!(scan_9(9, &digits), Some((B(b'9'), 10)));
    assert_eq!(scan_9(0, &digits), None);
    assert_eq!(scan_123456789(0, &digits), None);
    assert_eq!(scan_123456789(1, &digits), Some((B(b'1'), 2)));
}

#[test]
fn sequencing_pairs_both_matches() {
    let v = vec![b'1', b'2'];

    assert_eq!(
        scan_seq(scan_1, scan_2, 0, &v),
        Some((Both(Box::new(B(b'1')), Box::new(B(b'2'))), 2))
    );
    // the first scanner fails: no match at all
    assert_eq!(scan_seq(scan_2, scan_1, 0, &v), None);
    // the first matches but the second fails: no partial match is returned
    assert_eq!(scan_seq(scan_1, scan_1, 0, &v), None);
}

#[test]
fn test_scan_num() {
    let v1 = vec![b'0'];
    let v2 = vec![];
    let v3 = vec![b'1', b'2', b'3'];
    let v4 = vec![b'0', b'2', b'3'];
    let v5 = vec![b'0', b'2', b'3'];
    let v6 = vec![b'1', b'a', b'3'];

    assert_eq!(scan_num(0, &v1), None);
    assert_eq!(scan_num(0, &v2), None);
    assert_eq!(scan_num(0, &v3), Some((N(123), 3)));
    assert_eq!(scan_num(0, &v4), None);
    assert_eq!(scan_num(1, &v5), Some((N(23), 3)));
    assert_eq!(scan_num(0, &v6), Some((N(1), 1)));
}
