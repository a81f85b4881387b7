//! Tests of operator classification and left-associative tree assembly.

use exprscan::assemble::{to_op, to_tree};
use exprscan::ast::Operator;
use exprscan::ast::Syntree::{Both, B, C, N};

#[test]
fn test_to_op() {
    let a1 = B(b'+');
    let a2 = B(b'-');
    let a3 = B(b'*');
    let a4 = B(b'/');
    let a5 = B(b'%');

    assert_eq!(to_op(a1), Operator::Add);
    assert_eq!(to_op(a2), Operator::Sub);
    assert_eq!(to_op(a3), Operator::Prod);
    assert_eq!(to_op(a4), Operator::Div);
    assert_eq!(to_op(a5), Operator::Mod);
}

#[test]
fn test_to_tree() {
    let h2 = N(1);
    let t2 = Both(Box::new(B(b'+')), Box::new(N(1)));
    let mut l2 = Vec::new();
    l2.push(t2);

    let h3 = N(1);
    let t31 = Both(Box::new(B(b'+')), Box::new(N(1)));
    let t32 = Both(Box::new(B(b'+')), Box::new(N(1)));
    let mut l3 = Vec::new();
    l3.push(t31);
    l3.push(t32);

    assert_eq!(to_tree(h2, &mut l2), C(Operator::Add, Box::new(N(1)), Box::new(N(1))));
    assert_eq!(
        to_tree(h3, &mut l3),
        C(
            Operator::Add,
            Box::new(C(Operator::Add, Box::new(N(1)), Box::new(N(1)))),
            Box::new(N(1))
        )
    );
}
