//! Laws of the algebra and of evaluation.
use vstd::prelude::*;
use crate::blade::{Product, spec_mask_of, spec_rule_sign};
use crate::env::Environment;
use crate::eval::{EvalError, result_view, spec_eval};
use crate::expr::ASTNode;
use crate::multivector::{
    R300, contribution, partial_product, partner, spec_conjugate, spec_dual, spec_involute, spec_neg, spec_norm_squared,
    spec_product, spec_reverse, spec_zero, lemma_grade_of_index,
};

verus! {

/// The geometric product written out coefficient by coefficient.
pub open spec fn geometric_table(a: Seq<int>, b: Seq<int>) -> Seq<int> {
    seq![
        a[0] * b[0] + a[1] * b[1] + a[2] * b[2] + a[3] * b[3] - a[4] * b[4] - a[5] * b[5] - a[6] * b[6] - a[7] * b[7],
        a[0] * b[1] + a[1] * b[0] - a[2] * b[4] - a[3] * b[5] + a[4] * b[2] + a[5] * b[3] - a[6] * b[7] - a[7] * b[6],
        a[0] * b[2] + a[1] * b[4] + a[2] * b[0] - a[3] * b[6] - a[4] * b[1] + a[5] * b[7] + a[6] * b[3] + a[7] * b[5],
        a[0] * b[3] + a[1] * b[5] + a[2] * b[6] + a[3] * b[0] - a[4] * b[7] - a[5] * b[1] - a[6] * b[2] - a[7] * b[4],
        a[0] * b[4] + a[1] * b[2] - a[2] * b[1] + a[3] * b[7] + a[4] * b[0] - a[5] * b[6] + a[6] * b[5] + a[7] * b[3],
        a[0] * b[5] + a[1] * b[3] - a[2] * b[7] - a[3] * b[1] + a[4] * b[6] + a[5] * b[0] - a[6] * b[4] - a[7] * b[2],
        a[0] * b[6] + a[1] * b[7] + a[2] * b[3] - a[3] * b[2] - a[4] * b[5] + a[5] * b[4] + a[6] * b[0] + a[7] * b[1],
        a[0] * b[7] + a[1] * b[6] - a[2] * b[5] + a[3] * b[4] + a[4] * b[3] - a[5] * b[2] + a[6] * b[1] + a[7] * b[0],
    ]
}

/// The outer product written out coefficient by coefficient.
pub open spec fn outer_table(a: Seq<int>, b: Seq<int>) -> Seq<int> {
    seq![
        a[0] * b[0],
        a[0] * b[1] + a[1] * b[0],
        a[0] * b[2] + a[2] * b[0],
        a[0] * b[3] + a[3] * b[0],
        a[0] * b[4] + a[1] * b[2] - a[2] * b[1] + a[4] * b[0],
        a[0] * b[5] + a[1] * b[3] - a[3] * b[1] + a[5] * b[0],
        a[0] * b[6] + a[2] * b[3] - a[3] * b[2] + a[6] * b[0],
        a[0] * b[7] + a[1] * b[6] - a[2] * b[5] + a[3] * b[4] + a[4] * b[3] - a[5] * b[2] + a[6] * b[1] + a[7] * b[0],
    ]
}

/// The geometric product agrees with its table.
#[verifier::spinoff_prover]
pub proof fn lemma_geometric_table(a: Seq<int>, b: Seq<int>)
    requires
        a.len() == 8,
        b.len() == 8,
    ensures
        spec_product(Product::Geometric, a, b) == geometric_table(a, b),
{
    reveal_with_fuel(partial_product, 9);
    assert(spec_product(Product::Geometric, a, b)[0] == geometric_table(a, b)[0]);
    assert(spec_product(Product::Geometric, a, b)[1] == geometric_table(a, b)[1]);
    assert(spec_product(Product::Geometric, a, b)[2] == geometric_table(a, b)[2]);
    assert(spec_product(Product::Geometric, a, b)[3] == geometric_table(a, b)[3]);
    assert(spec_product(Product::Geometric, a, b)[4] == geometric_table(a, b)[4]);
    assert(spec_product(Product::Geometric, a, b)[5] == geometric_table(a, b)[5]);
    assert(spec_product(Product::Geometric, a, b)[6] == geometric_table(a, b)[6]);
    assert(spec_product(Product::Geometric, a, b)[7] == geometric_table(a, b)[7]);
    assert(spec_product(Product::Geometric, a, b) =~= geometric_table(a, b));
}

/// The outer product agrees with its table.
#[verifier::spinoff_prover]
pub proof fn lemma_outer_table(a: Seq<int>, b: Seq<int>)
    requires
        a.len() == 8,
        b.len() == 8,
    ensures
        spec_product(Product::Outer, a, b) == outer_table(a, b),
{
    reveal_with_fuel(partial_product, 9);
    assert(spec_product(Product::Outer, a, b)[0] == outer_table(a, b)[0]) by {
        assert(partner(0, 0) == 0 && spec_mask_of(0) == 0 && spec_mask_of(0) == 0);
        assert(spec_rule_sign(Product::Outer, 0, 0) == 1);
        assert(contribution(Product::Outer, a, b, 0, 0) == a[0] * b[0]);
        assert(partner(1, 0) == 1 && spec_mask_of(1) == 1 && spec_mask_of(1) == 1);
        assert(spec_rule_sign(Product::Outer, 1, 1) == 0);
        assert(contribution(Product::Outer, a, b, 1, 0) == 0);
        assert(partner(2, 0) == 2 && spec_mask_of(2) == 2 && spec_mask_of(2) == 2);
        assert(spec_rule_sign(Product::Outer, 2, 2) == 0);
        assert(contribution(Product::Outer, a, b, 2, 0) == 0);
        assert(partner(3, 0) == 3 && spec_mask_of(3) == 4 && spec_mask_of(3) == 4);
        assert(spec_rule_sign(Product::Outer, 4, 4) == 0);
        assert(contribution(Product::Outer, a, b, 3, 0) == 0);
        assert(partner(4, 0) == 4 && spec_mask_of(4) == 3 && spec_mask_of(4) == 3);
        assert(spec_rule_sign(Product::Outer, 3, 3) == 0);
        assert(contribution(Product::Outer, a, b, 4, 0) == 0);
        assert(partner(5, 0) == 5 && spec_mask_of(5) == 5 && spec_mask_of(5) == 5);
        assert(spec_rule_sign(Product::Outer, 5, 5) == 0);
        assert(contribution(Product::Outer, a, b, 5, 0) == 0);
        assert(partner(6, 0) == 6 && spec_mask_of(6) == 6 && spec_mask_of(6) == 6);
        assert(spec_rule_sign(Product::Outer, 6, 6) == 0);
        assert(contribution(Product::Outer, a, b, 6, 0) == 0);
        assert(partner(7, 0) == 7 && spec_mask_of(7) == 7 && spec_mask_of(7) == 7);
        assert(spec_rule_sign(Product::Outer, 7, 7) == 0);
        assert(contribution(Product::Outer, a, b, 7, 0) == 0);
    }
    assert(spec_product(Product::Outer, a, b)[1] == outer_table(a, b)[1]) by {
        assert(partner(0, 1) == 1 && spec_mask_of(0) == 0 && spec_mask_of(1) == 1);
        assert(spec_rule_sign(Product::Outer, 0, 1) == 1);
        assert(contribution(Product::Outer, a, b, 0, 1) == a[0] * b[1]);
        assert(partner(1, 1) == 0 && spec_mask_of(1) == 1 && spec_mask_of(0) == 0);
        assert(spec_rule_sign(Product::Outer, 1, 0) == 1);
        assert(contribution(Product::Outer, a, b, 1, 1) == a[1] * b[0]);
        assert(partner(2, 1) == 4 && spec_mask_of(2) == 2 && spec_mask_of(4) == 3);
        assert(spec_rule_sign(Product::Outer, 2, 3) == 0);
        assert(contribution(Product::Outer, a, b, 2, 1) == 0);
        assert(partner(3, 1) == 5 && spec_mask_of(3) == 4 && spec_mask_of(5) == 5);
        assert(spec_rule_sign(Product::Outer, 4, 5) == 0);
        assert(contribution(Product::Outer, a, b, 3, 1) == 0);
        assert(partner(4, 1) == 2 && spec_mask_of(4) == 3 && spec_mask_of(2) == 2);
        assert(spec_rule_sign(Product::Outer, 3, 2) == 0);
        assert(contribution(Product::Outer, a, b, 4, 1) == 0);
        assert(partner(5, 1) == 3 && spec_mask_of(5) == 5 && spec_mask_of(3) == 4);
        assert(spec_rule_sign(Product::Outer, 5, 4) == 0);
        assert(contribution(Product::Outer, a, b, 5, 1) == 0);
        assert(partner(6, 1) == 7 && spec_mask_of(6) == 6 && spec_mask_of(7) == 7);
        assert(spec_rule_sign(Product::Outer, 6, 7) == 0);
        assert(contribution(Product::Outer, a, b, 6, 1) == 0);
        assert(partner(7, 1) == 6 && spec_mask_of(7) == 7 && spec_mask_of(6) == 6);
        assert(spec_rule_sign(Product::Outer, 7, 6) == 0);
        assert(contribution(Product::Outer, a, b, 7, 1) == 0);
    }
    assert(spec_product(Product::Outer, a, b)[2] == outer_table(a, b)[2]) by {
        assert(partner(0, 2) == 2 && spec_mask_of(0) == 0 && spec_mask_of(2) == 2);
        assert(spec_rule_sign(Product::Outer, 0, 2) == 1);
        assert(contribution(Product::Outer, a, b, 0, 2) == a[0] * b[2]);
        assert(partner(1, 2) == 4 && spec_mask_of(1) == 1 && spec_mask_of(4) == 3);
        assert(spec_rule_sign(Product::Outer, 1, 3) == 0);
        assert(contribution(Product::Outer, a, b, 1, 2) == 0);
        assert(partner(2, 2) == 0 && spec_mask_of(2) == 2 && spec_mask_of(0) == 0);
        assert(spec_rule_sign(Product::Outer, 2, 0) == 1);
        assert(contribution(Product::Outer, a, b, 2, 2) == a[2] * b[0]);
        assert(partner(3, 2) == 6 && spec_mask_of(3) == 4 && spec_mask_of(6) == 6);
        assert(spec_rule_sign(Product::Outer, 4, 6) == 0);
        assert(contribution(Product::Outer, a, b, 3, 2) == 0);
        assert(partner(4, 2) == 1 && spec_mask_of(4) == 3 && spec_mask_of(1) == 1);
        assert(spec_rule_sign(Product::Outer, 3, 1) == 0);
        assert(contribution(Product::Outer, a, b, 4, 2) == 0);
        assert(partner(5, 2) == 7 && spec_mask_of(5) == 5 && spec_mask_of(7) == 7);
        assert(spec_rule_sign(Product::Outer, 5, 7) == 0);
        assert(contribution(Product::Outer, a, b, 5, 2) == 0);
        assert(partner(6, 2) == 3 && spec_mask_of(6) == 6 && spec_mask_of(3) == 4);
        assert(spec_rule_sign(Product::Outer, 6, 4) == 0);
        assert(contribution(Product::Outer, a, b, 6, 2) == 0);
        assert(partner(7, 2) == 5 && spec_mask_of(7) == 7 && spec_mask_of(5) == 5);
        assert(spec_rule_sign(Product::Outer, 7, 5) == 0);
        assert(contribution(Product::Outer, a, b, 7, 2) == 0);
    }
    assert(spec_product(Product::Outer, a, b)[3] == outer_table(a, b)[3]) by {
        assert(partner(0, 3) == 3 && spec_mask_of(0) == 0 && spec_mask_of(3) == 4);
        assert(spec_rule_sign(Product::Outer, 0, 4) == 1);
        assert(contribution(Product::Outer, a, b, 0, 3) == a[0] * b[3]);
        assert(partner(1, 3) == 5 && spec_mask_of(1) == 1 && spec_mask_of(5) == 5);
        assert(spec_rule_sign(Product::Outer, 1, 5) == 0);
        assert(contribution(Product::Outer, a, b, 1, 3) == 0);
        assert(partner(2, 3) == 6 && spec_mask_of(2) == 2 && spec_mask_of(6) == 6);
        assert(spec_rule_sign(Product::Outer, 2, 6) == 0);
        assert(contribution(Product::Outer, a, b, 2, 3) == 0);
        assert(partner(3, 3) == 0 && spec_mask_of(3) == 4 && spec_mask_of(0) == 0);
        assert(spec_rule_sign(Product::Outer, 4, 0) == 1);
        assert(contribution(Product::Outer, a, b, 3, 3) == a[3] * b[0]);
        assert(partner(4, 3) == 7 && spec_mask_of(4) == 3 && spec_mask_of(7) == 7);
        assert(spec_rule_sign(Product::Outer, 3, 7) == 0);
        assert(contribution(Product::Outer, a, b, 4, 3) == 0);
        assert(partner(5, 3) == 1 && spec_mask_of(5) == 5 && spec_mask_of(1) == 1);
        assert(spec_rule_sign(Product::Outer, 5, 1) == 0);
        assert(contribution(Product::Outer, a, b, 5, 3) == 0);
        assert(partner(6, 3) == 2 && spec_mask_of(6) == 6 && spec_mask_of(2) == 2);
        assert(spec_rule_sign(Product::Outer, 6, 2) == 0);
        assert(contribution(Product::Outer, a, b, 6, 3) == 0);
        assert(partner(7, 3) == 4 && spec_mask_of(7) == 7 && spec_mask_of(4) == 3);
        assert(spec_rule_sign(Product::Outer, 7, 3) == 0);
        assert(contribution(Product::Outer, a, b, 7, 3) == 0);
    }
    assert(spec_product(Product::Outer, a, b)[4] == outer_table(a, b)[4]) by {
        assert(partner(0, 4) == 4 && spec_mask_of(0) == 0 && spec_mask_of(4) == 3);
        assert(spec_rule_sign(Product::Outer, 0, 3) == 1);
        assert(contribution(Product::Outer, a, b, 0, 4) == a[0] * b[4]);
        assert(partner(1, 4) == 2 && spec_mask_of(1) == 1 && spec_mask_of(2) == 2);
        assert(spec_rule_sign(Product::Outer, 1, 2) == 1);
        assert(contribution(Product::Outer, a, b, 1, 4) == a[1] * b[2]);
        assert(partner(2, 4) == 1 && spec_mask_of(2) == 2 && spec_mask_of(1) == 1);
        assert(spec_rule_sign(Product::Outer, 2, 1) == -1);
        assert(contribution(Product::Outer, a, b, 2, 4) == -(a[2] * b[1]));
        assert(partner(3, 4) == 7 && spec_mask_of(3) == 4 && spec_mask_of(7) == 7);
        assert(spec_rule_sign(Product::Outer, 4, 7) == 0);
        assert(contribution(Product::Outer, a, b, 3, 4) == 0);
        assert(partner(4, 4) == 0 && spec_mask_of(4) == 3 && spec_mask_of(0) == 0);
        assert(spec_rule_sign(Product::Outer, 3, 0) == 1);
        assert(contribution(Product::Outer, a, b, 4, 4) == a[4] * b[0]);
        assert(partner(5, 4) == 6 && spec_mask_of(5) == 5 && spec_mask_of(6) == 6);
        assert(spec_rule_sign(Product::Outer, 5, 6) == 0);
        assert(contribution(Product::Outer, a, b, 5, 4) == 0);
        assert(partner(6, 4) == 5 && spec_mask_of(6) == 6 && spec_mask_of(5) == 5);
        assert(spec_rule_sign(Product::Outer, 6, 5) == 0);
        assert(contribution(Product::Outer, a, b, 6, 4) == 0);
        assert(partner(7, 4) == 3 && spec_mask_of(7) == 7 && spec_mask_of(3) == 4);
        assert(spec_rule_sign(Product::Outer, 7, 4) == 0);
        assert(contribution(Product::Outer, a, b, 7, 4) == 0);
    }
    assert(spec_product(Product::Outer, a, b)[5] == outer_table(a, b)[5]) by {
        assert(partner(0, 5) == 5 && spec_mask_of(0) == 0 && spec_mask_of(5) == 5);
        assert(spec_rule_sign(Product::Outer, 0, 5) == 1);
        assert(contribution(Product::Outer, a, b, 0, 5) == a[0] * b[5]);
        assert(partner(1, 5) == 3 && spec_mask_of(1) == 1 && spec_mask_of(3) == 4);
        assert(spec_rule_sign(Product::Outer, 1, 4) == 1);
        assert(contribution(Product::Outer, a, b, 1, 5) == a[1] * b[3]);
        assert(partner(2, 5) == 7 && spec_mask_of(2) == 2 && spec_mask_of(7) == 7);
        assert(spec_rule_sign(Product::Outer, 2, 7) == 0);
        assert(contribution(Product::Outer, a, b, 2, 5) == 0);
        assert(partner(3, 5) == 1 && spec_mask_of(3) == 4 && spec_mask_of(1) == 1);
        assert(spec_rule_sign(Product::Outer, 4, 1) == -1);
        assert(contribution(Product::Outer, a, b, 3, 5) == -(a[3] * b[1]));
        assert(partner(4, 5) == 6 && spec_mask_of(4) == 3 && spec_mask_of(6) == 6);
        assert(spec_rule_sign(Product::Outer, 3, 6) == 0);
        assert(contribution(Product::Outer, a, b, 4, 5) == 0);
        assert(partner(5, 5) == 0 && spec_mask_of(5) == 5 && spec_mask_of(0) == 0);
        assert(spec_rule_sign(Product::Outer, 5, 0) == 1);
        assert(contribution(Product::Outer, a, b, 5, 5) == a[5] * b[0]);
        assert(partner(6, 5) == 4 && spec_mask_of(6) == 6 && spec_mask_of(4) == 3);
        assert(spec_rule_sign(Product::Outer, 6, 3) == 0);
        assert(contribution(Product::Outer, a, b, 6, 5) == 0);
        assert(partner(7, 5) == 2 && spec_mask_of(7) == 7 && spec_mask_of(2) == 2);
        assert(spec_rule_sign(Product::Outer, 7, 2) == 0);
        assert(contribution(Product::Outer, a, b, 7, 5) == 0);
    }
    assert(spec_product(Product::Outer, a, b)[6] == outer_table(a, b)[6]) by {
        assert(partner(0, 6) == 6 && spec_mask_of(0) == 0 && spec_mask_of(6) == 6);
        assert(spec_rule_sign(Product::Outer, 0, 6) == 1);
        assert(contribution(Product::Outer, a, b, 0, 6) == a[0] * b[6]);
        assert(partner(1, 6) == 7 && spec_mask_of(1) == 1 && spec_mask_of(7) == 7);
        assert(spec_rule_sign(Product::Outer, 1, 7) == 0);
        assert(contribution(Product::Outer, a, b, 1, 6) == 0);
        assert(partner(2, 6) == 3 && spec_mask_of(2) == 2 && spec_mask_of(3) == 4);
        assert(spec_rule_sign(Product::Outer, 2, 4) == 1);
        assert(contribution(Product::Outer, a, b, 2, 6) == a[2] * b[3]);
        assert(partner(3, 6) == 2 && spec_mask_of(3) == 4 && spec_mask_of(2) == 2);
        assert(spec_rule_sign(Product::Outer, 4, 2) == -1);
        assert(contribution(Product::Outer, a, b, 3, 6) == -(a[3] * b[2]));
        assert(partner(4, 6) == 5 && spec_mask_of(4) == 3 && spec_mask_of(5) == 5);
        assert(spec_rule_sign(Product::Outer, 3, 5) == 0);
        assert(contribution(Product::Outer, a, b, 4, 6) == 0);
        assert(partner(5, 6) == 4 && spec_mask_of(5) == 5 && spec_mask_of(4) == 3);
        assert(spec_rule_sign(Product::Outer, 5, 3) == 0);
        assert(contribution(Product::Outer, a, b, 5, 6) == 0);
        assert(partner(6, 6) == 0 && spec_mask_of(6) == 6 && spec_mask_of(0) == 0);
        assert(spec_rule_sign(Product::Outer, 6, 0) == 1);
        assert(contribution(Product::Outer, a, b, 6, 6) == a[6] * b[0]);
        assert(partner(7, 6) == 1 && spec_mask_of(7) == 7 && spec_mask_of(1) == 1);
        assert(spec_rule_sign(Product::Outer, 7, 1) == 0);
        assert(contribution(Product::Outer, a, b, 7, 6) == 0);
    }
    assert(spec_product(Product::Outer, a, b)[7] == outer_table(a, b)[7]) by {
        assert(partner(0, 7) == 7 && spec_mask_of(0) == 0 && spec_mask_of(7) == 7);
        assert(spec_rule_sign(Product::Outer, 0, 7) == 1);
        assert(contribution(Product::Outer, a, b, 0, 7) == a[0] * b[7]);
        assert(partner(1, 7) == 6 && spec_mask_of(1) == 1 && spec_mask_of(6) == 6);
        assert(spec_rule_sign(Product::Outer, 1, 6) == 1);
        assert(contribution(Product::Outer, a, b, 1, 7) == a[1] * b[6]);
        assert(partner(2, 7) == 5 && spec_mask_of(2) == 2 && spec_mask_of(5) == 5);
        assert(spec_rule_sign(Product::Outer, 2, 5) == -1);
        assert(contribution(Product::Outer, a, b, 2, 7) == -(a[2] * b[5]));
        assert(partner(3, 7) == 4 && spec_mask_of(3) == 4 && spec_mask_of(4) == 3);
        assert(spec_rule_sign(Product::Outer, 4, 3) == 1);
        assert(contribution(Product::Outer, a, b, 3, 7) == a[3] * b[4]);
        assert(partner(4, 7) == 3 && spec_mask_of(4) == 3 && spec_mask_of(3) == 4);
        assert(spec_rule_sign(Product::Outer, 3, 4) == 1);
        assert(contribution(Product::Outer, a, b, 4, 7) == a[4] * b[3]);
        assert(partner(5, 7) == 2 && spec_mask_of(5) == 5 && spec_mask_of(2) == 2);
        assert(spec_rule_sign(Product::Outer, 5, 2) == -1);
        assert(contribution(Product::Outer, a, b, 5, 7) == -(a[5] * b[2]));
        assert(partner(6, 7) == 1 && spec_mask_of(6) == 6 && spec_mask_of(1) == 1);
        assert(spec_rule_sign(Product::Outer, 6, 1) == 1);
        assert(contribution(Product::Outer, a, b, 6, 7) == a[6] * b[1]);
        assert(partner(7, 7) == 0 && spec_mask_of(7) == 7 && spec_mask_of(0) == 0);
        assert(spec_rule_sign(Product::Outer, 7, 0) == 1);
        assert(contribution(Product::Outer, a, b, 7, 7) == a[7] * b[0]);
    }
    assert(spec_product(Product::Outer, a, b) =~= outer_table(a, b));
}

/// The basis vector `e(i)` for `i` in `1..=3`, stored at coefficient index `i`.
pub open spec fn basis_vector(i: int) -> Seq<int> {
    spec_zero().update(i, 1)
}

/// Whether only the coefficients of e1, e2 and e3 can be nonzero.
pub open spec fn is_vector(a: Seq<int>) -> bool {
    &&& a.len() == 8
    &&& a[0] == 0
    &&& a[4] == 0
    &&& a[5] == 0
    &&& a[6] == 0
    &&& a[7] == 0
}

/// Distinct basis vectors anticommute: `e(i) * e(j) == -(e(j) * e(i))`.
#[verifier::spinoff_prover]
pub proof fn lemma_basis_vectors_anticommute(i: int, j: int)
    requires
        1 <= i <= 3,
        1 <= j <= 3,
        i != j,
    ensures
        spec_product(Product::Geometric, basis_vector(i), basis_vector(j)) == spec_neg(
            spec_product(Product::Geometric, basis_vector(j), basis_vector(i)),
        ),
{
    let a = basis_vector(i);
    let b = basis_vector(j);
    lemma_geometric_table(a, b);
    lemma_geometric_table(b, a);
    assert(a[0] == 0 && b[0] == 0 && a[4] == 0 && b[4] == 0 && a[5] == 0 && b[5] == 0);
    assert(a[6] == 0 && b[6] == 0 && a[7] == 0 && b[7] == 0);
    assert(geometric_table(a, b) =~= spec_neg(geometric_table(b, a)));
}

/// The outer product of two vectors changes sign when they swap, and the outer
/// product of a vector with itself is zero.
pub proof fn lemma_wedge_antisymmetric(a: Seq<int>, b: Seq<int>)
    requires
        is_vector(a),
        is_vector(b),
    ensures
        spec_product(Product::Outer, a, b) == spec_neg(spec_product(Product::Outer, b, a)),
        spec_product(Product::Outer, a, a) == spec_zero(),
{
    lemma_outer_table(a, b);
    lemma_outer_table(b, a);
    lemma_outer_table(a, a);
    assert(outer_table(a, b) =~= spec_neg(outer_table(b, a))) by (nonlinear_arith)
        requires
            is_vector(a),
            is_vector(b),
    ;
    assert(outer_table(a, a) =~= spec_zero()) by (nonlinear_arith)
        requires
            is_vector(a),
    ;
}

/// Reverse, conjugation and the main involution each undo themselves.
pub proof fn lemma_involutions_undo_themselves(a: Seq<int>)
    requires
        a.len() == 8,
    ensures
        spec_reverse(spec_reverse(a)) == a,
        spec_conjugate(spec_conjugate(a)) == a,
        spec_involute(spec_involute(a)) == a,
{
    assert forall|k: int| 0 <= k < 8 implies #[trigger] a[k] == spec_reverse(spec_reverse(a))[k]
        && a[k] == spec_conjugate(spec_conjugate(a))[k] && a[k] == spec_involute(
        spec_involute(a),
    )[k] by {
        lemma_grade_of_index(k);
    }
    assert(spec_reverse(spec_reverse(a)) =~= a);
    assert(spec_conjugate(spec_conjugate(a)) =~= a);
    assert(spec_involute(spec_involute(a)) =~= a);
}

/// The dual taken twice negates: with the signs `-, -, +, -, +, -, +, +` each
/// blade meets one sign of each kind. So it gives back its argument exactly
/// when that is zero.
pub proof fn lemma_dual_twice(a: Seq<int>)
    requires
        a.len() == 8,
    ensures
        spec_dual(spec_dual(a)) == spec_neg(a),
        spec_dual(spec_dual(a)) == a <==> a == spec_zero(),
{
    assert(spec_dual(spec_dual(a)) =~= spec_neg(a));
    if spec_dual(spec_dual(a)) == a {
        assert forall|k: int| 0 <= k < 8 implies #[trigger] a[k] == spec_zero()[k] by {
            assert(spec_neg(a)[k] == a[k]);
        }
        assert(a =~= spec_zero());
    }
    if a == spec_zero() {
        assert(spec_neg(a) =~= a);
    }
}

/// The square of the norm is never negative.
pub proof fn lemma_norm_squared_nonnegative(a: Seq<int>)
    ensures
        spec_norm_squared(a) >= 0,
{
}

/// Evaluating the same tree under the same bindings twice gives the same result.
pub proof fn lemma_evaluation_deterministic(
    ast: ASTNode,
    vars: Environment,
    first: Result<R300, EvalError>,
    second: Result<R300, EvalError>,
)
    requires
        result_view(first) == spec_eval(ast, vars@),
        result_view(second) == spec_eval(ast, vars@),
    ensures
        result_view(first) == result_view(second),
{
}

} // verus!
