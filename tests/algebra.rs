use geo_calc::blade::{blade_product, grade, index_of, mask_of, sign, Product};
use geo_calc::multivector::R300;

fn sample(seed: i64) -> R300 {
    R300 { mvec: [seed, 2 - seed, 3, -4 * seed, 5, seed * seed, -7, 8 + seed] }
}

fn basis(i: usize) -> R300 {
    R300::new(1, i)
}

#[test]
fn geometric_product_is_associative() {
    for s in -2..3 {
        let (a, b, c) = (sample(s), sample(s + 3), sample(1 - s));
        let left = a.geometric_product(b).geometric_product(c);
        let right = a.geometric_product(b.geometric_product(c));
        assert_eq!(left, right);
    }
}

#[test]
fn basis_vectors_anticommute() {
    for i in 1..4 {
        for j in 1..4 {
            if i != j {
                let ij = basis(i).geometric_product(basis(j));
                let ji = basis(j).geometric_product(basis(i));
                assert_eq!(ij, ji.neg());
            }
        }
    }
    assert_eq!(basis(1).geometric_product(basis(2)), R300::bivector(1, 0, 0));
    assert_eq!(basis(3).geometric_product(basis(1)), R300::bivector(0, -1, 0));
}

#[test]
fn basis_vectors_square_to_one() {
    for i in 1..4 {
        assert_eq!(basis(i).geometric_product(basis(i)), R300::scalar(1));
    }
    assert_eq!(basis(4).geometric_product(basis(4)), R300::scalar(-1));
    assert_eq!(basis(7).geometric_product(basis(7)), R300::scalar(-1));
}

#[test]
fn involutions_undo_themselves() {
    let a = sample(3);
    assert_eq!(a.Reverse().Reverse(), a);
    assert_eq!(a.Conjugate().Conjugate(), a);
    assert_eq!(a.Involute().Involute(), a);
}

#[test]
fn involution_sign_patterns() {
    let a = R300 { mvec: [1, 2, 3, 4, 5, 6, 7, 8] };
    assert_eq!(a.Reverse().mvec, [1, 2, 3, 4, -5, -6, -7, -8]);
    assert_eq!(a.Conjugate().mvec, [1, -2, -3, -4, -5, -6, -7, 8]);
    assert_eq!(a.Involute().mvec, [1, -2, -3, -4, 5, 6, 7, -8]);
    assert_eq!(a.Dual().mvec, [-8, -7, 6, -5, 4, -3, 2, 1]);
}

#[test]
fn dual_twice_negates() {
    let a = sample(2);
    assert_eq!(a.Dual().Dual(), a.neg());
    assert_ne!(a.Dual().Dual(), a);
    assert_eq!(R300::zero().Dual().Dual(), R300::zero());
}

#[test]
fn wedge_is_antisymmetric_on_vectors() {
    let a = R300::vector(1, -2, 3);
    let b = R300::vector(4, 5, -6);
    assert_eq!(a.wedge(b), b.wedge(a).neg());
    assert_eq!(a.wedge(a), R300::zero());
    assert_eq!(a.wedge(b), R300::bivector(13, -18, -3));
}

#[test]
fn products_of_vectors() {
    let a = R300::vector(1, 2, 3);
    let b = R300::vector(4, 5, 6);
    assert_eq!(a.dot(b), R300::scalar(32));
    let g = a.geometric_product(b);
    assert_eq!(g.mvec, [32, 0, 0, 0, -3, -6, -3, 0]);
    assert_eq!(g, a.dot(b).add(a.wedge(b)));
}

#[test]
fn dot_keeps_grade_difference() {
    let v = R300::vector(1, 0, 0);
    let e12 = R300::bivector(1, 0, 0);
    assert_eq!(v.dot(e12), R300::vector(0, 1, 0));
    assert_eq!(e12.dot(v), R300::vector(0, -1, 0));
    assert_eq!(R300::vector(0, 0, 1).dot(e12), R300::zero());
    assert_eq!(R300::scalar(2).dot(e12), R300::bivector(2, 0, 0));
}

#[test]
fn norms() {
    let a = R300::vector(1, 2, 3);
    assert_eq!(a.norm_squared(), 14);
    assert_eq!(a.magnitude_squared(), 14);
    let e12 = R300::bivector(1, 0, 0);
    assert_eq!(e12.magnitude_squared(), 1);
    assert_eq!(e12.norm_squared(), 1);
    let mixed = R300 { mvec: [1, 1, 0, 0, 0, 0, 0, 0] };
    assert_eq!(mixed.norm_squared(), 0);
    assert_eq!(R300::scalar(3).inorm_squared(), 9);
    assert_eq!(R300::new(5, 7).inorm_squared(), 25);
    for s in -3..4 {
        assert!(sample(s).norm_squared() >= 0);
    }
}

#[test]
fn constructors_and_access() {
    assert_eq!(R300::zero().mvec, [0; 8]);
    assert_eq!(R300::scalar(7).mvec, [7, 0, 0, 0, 0, 0, 0, 0]);
    assert_eq!(R300::vector(1, 2, 3).mvec, [0, 1, 2, 3, 0, 0, 0, 0]);
    assert_eq!(R300::bivector(4, 5, 6).mvec, [0, 0, 0, 0, 4, 5, 6, 0]);
    assert_eq!(R300::new(9, 7).mvec, [0, 0, 0, 0, 0, 0, 0, 9]);
    let a = sample(1);
    assert_eq!(a.component(5), Some(1));
    assert_eq!(a.component(8), None);
    assert_eq!(a.bracket(6).mvec, [0, 0, 0, 0, 0, 0, -7, 0]);
}

#[test]
fn scalar_arithmetic() {
    let a = R300::vector(1, 2, 3);
    assert_eq!(a.scale(-2), R300::vector(-2, -4, -6));
    assert_eq!(a.add_scalar(5).mvec, [5, 1, 2, 3, 0, 0, 0, 0]);
    assert_eq!(a.sub_scalar(5).mvec, [-5, 1, 2, 3, 0, 0, 0, 0]);
    assert_eq!(a.scalar_sub(5).mvec, [5, -1, -2, -3, 0, 0, 0, 0]);
    assert_eq!(a.sub(a), R300::zero());
    assert_eq!(a.add(a), a.scale(2));
}

#[test]
fn range_checks() {
    assert!(R300::scalar(268435456).is_bounded());
    assert!(!R300::scalar(268435457).is_bounded());
    assert!(!R300::scalar(i64::MIN).is_negatable());
    assert!(R300::scalar(i64::MIN + 1).is_negatable());
    assert!(!R300::scalar(i64::MAX).sum_fits(R300::scalar(1)));
    assert!(R300::scalar(i64::MAX).difference_fits(R300::scalar(1)));
}

#[test]
fn blade_rules() {
    assert_eq!(grade(0), 0);
    assert_eq!(grade(5), 2);
    assert_eq!(grade(7), 3);
    assert_eq!(sign(1, 2), 1);
    assert_eq!(sign(2, 1), -1);
    assert_eq!(sign(4, 3), 1);
    assert_eq!(sign(3, 3), -1);
    assert_eq!(blade_product(Product::Geometric, 2, 1), (-1, 3));
    assert_eq!(blade_product(Product::Outer, 1, 1), (0, 0));
    assert_eq!(blade_product(Product::Outer, 4, 3), (1, 7));
    assert_eq!(blade_product(Product::Inner, 1, 2), (0, 3));
    assert_eq!(blade_product(Product::Inner, 1, 3), (1, 2));
    assert_eq!(mask_of(3), 4);
    assert_eq!(mask_of(4), 3);
    assert_eq!(index_of(4), 3);
    assert_eq!(index_of(6), 6);
}

#[test]
fn display_text() {
    assert_eq!(R300::zero().display(), "0");
    assert_eq!(R300::vector(1, -2, 0).display(), "1e1 + -2e2");
    assert_eq!(R300::scalar(5).add(R300::new(7, 7)).display(), "5 + 7e123");
    assert_eq!(R300::bivector(0, 30, 0).display(), "30e13");
    assert_eq!(R300::new(-1, 6).display(), "-1e23");
    assert_eq!(R300::scalar(i64::MIN).display(), "-9223372036854775808");
    assert_eq!(R300::new(120, 3).display(), "120e3");
}
