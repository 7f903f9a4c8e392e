//! Basis blades of the three-dimensional Euclidean algebra.
//!
//! A blade is named by a mask of three bits: bit `i` is set when the basis
//! vector `e(i+1)` is one of its factors. Coefficients of a multivector are
//! stored in the fixed order 1, e1, e2, e3, e12, e13, e23, e123, so the index
//! of a blade and its mask differ only for e3 (index 3, mask 4) and e12
//! (index 4, mask 3).
use vstd::prelude::*;

verus! {

/// Whether the basis vector `e(i+1)` is a factor of the blade with mask `m` (as 0 or 1).
pub open spec fn bit(m: int, i: int) -> int {
    if i == 0 {
        m % 2
    } else if i == 1 {
        (m / 2) % 2
    } else {
        (m / 4) % 2
    }
}

/// Number of basis vectors that make up the blade with mask `m`.
pub open spec fn spec_grade(m: int) -> int {
    bit(m, 0) + bit(m, 1) + bit(m, 2)
}

/// The mask `p XOR q`: the factors that occur in exactly one of the two blades.
pub open spec fn xor_mask(p: int, q: int) -> int {
    (bit(p, 0) + bit(q, 0)) % 2 + 2 * ((bit(p, 1) + bit(q, 1)) % 2) + 4 * ((bit(p, 2) + bit(q, 2))
        % 2)
}

/// Whether the blades share no factor (`p AND q == 0`).
pub open spec fn disjoint(p: int, q: int) -> bool {
    !(bit(p, 0) == 1 && bit(q, 0) == 1) && !(bit(p, 1) == 1 && bit(q, 1) == 1) && !(bit(p, 2)
        == 1 && bit(q, 2) == 1)
}

/// Transpositions needed to merge the sorted factors of `p`, followed by those
/// of `q`, into one sorted sequence: each factor of `q` moves past every factor
/// of `p` with a higher index.
pub open spec fn transpositions(p: int, q: int) -> int {
    (if bit(q, 0) == 1 {
        bit(p, 1) + bit(p, 2)
    } else {
        0
    }) + (if bit(q, 1) == 1 {
        bit(p, 2)
    } else {
        0
    })
}

/// The shuffle sign of the product of the blades `p` and `q`.
pub open spec fn spec_sign(p: int, q: int) -> int {
    if transpositions(p, q) % 2 == 0 {
        1
    } else {
        -1
    }
}

/// The three products of the algebra, as rules on pairs of blades.
#[derive(Clone, Copy, PartialEq, Eq, Debug, Structural)]
pub enum Product {
    /// The geometric product.
    Geometric,
    /// The outer (wedge) product: disjoint blades only.
    Outer,
    /// The inner (dot) product: keeps the part of grade |grade(p) - grade(q)|.
    Inner,
}

/// Sign of the contribution of the pair of blades `(p, q)` to the blade
/// `xor_mask(p, q)` under the product `rule`; 0 when the pair contributes nothing.
pub open spec fn spec_rule_sign(rule: Product, p: int, q: int) -> int {
    match rule {
        Product::Geometric => spec_sign(p, q),
        Product::Outer => if disjoint(p, q) {
            spec_sign(p, q)
        } else {
            0
        },
        Product::Inner => {
            let d = spec_grade(p) - spec_grade(q);
            if spec_grade(xor_mask(p, q)) == (if d >= 0 {
                d
            } else {
                -d
            }) {
                spec_sign(p, q)
            } else {
                0
            }
        },
    }
}

/// Mask of the blade stored at coefficient index `k`.
pub open spec fn spec_mask_of(k: int) -> int {
    if k == 3 {
        4
    } else if k == 4 {
        3
    } else {
        k
    }
}

/// Coefficient index of the blade with mask `m`.
pub open spec fn spec_index_of(m: int) -> int {
    if m == 3 {
        4
    } else if m == 4 {
        3
    } else {
        m
    }
}

proof fn lemma_xor_and(p: u8, q: u8)
    requires
        p < 8,
        q < 8,
    ensures
        (p ^ q) < 8,
        (p ^ q) % 2 == (p % 2 + q % 2) % 2,
        ((p ^ q) / 2) % 2 == ((p / 2) % 2 + (q / 2) % 2) % 2,
        ((p ^ q) / 4) % 2 == ((p / 4) % 2 + (q / 4) % 2) % 2,
        (p & q == 0) == ((p % 2 == 0 || q % 2 == 0) && ((p / 2) % 2 == 0 || (q / 2) % 2 == 0)
            && ((p / 4) % 2 == 0 || (q / 4) % 2 == 0)),
{
    assert((p ^ q) < 8 && (p ^ q) % 2 == (p % 2 + q % 2) % 2 && ((p ^ q) / 2) % 2 == ((p / 2)
        % 2 + (q / 2) % 2) % 2 && ((p ^ q) / 4) % 2 == ((p / 4) % 2 + (q / 4) % 2) % 2 && (p & q
        == 0) == ((p % 2 == 0 || q % 2 == 0) && ((p / 2) % 2 == 0 || (q / 2) % 2 == 0) && ((p
        / 4) % 2 == 0 || (q / 4) % 2 == 0))) by (bit_vector)
        requires
            p < 8u8,
            q < 8u8,
    ;
}

/// Number of basis vectors that make up the blade with mask `m`.
pub fn grade(m: u8) -> (r: u8)
    requires
        m < 8,
    ensures
        r as int == spec_grade(m as int),
{
    m % 2 + (m / 2) % 2 + (m / 4) % 2
}

/// The shuffle sign of the product of the blades `p` and `q`.
pub fn sign(p: u8, q: u8) -> (r: i8)
    requires
        p < 8,
        q < 8,
    ensures
        r as int == spec_sign(p as int, q as int),
{
    let p1 = (p / 2) % 2 == 1;
    let p2 = (p / 4) % 2 == 1;
    let mut t: u8 = 0;
    if q % 2 == 1 {
        if p1 {
            t = t + 1;
        }
        if p2 {
            t = t + 1;
        }
    }
    if (q / 2) % 2 == 1 && p2 {
        t = t + 1;
    }
    if t % 2 == 0 {
        1
    } else {
        -1
    }
}

/// The blade that the product of the blades `p` and `q` lands on, with the sign
/// of the contribution under `rule` (0 when the pair contributes nothing).
pub fn blade_product(rule: Product, p: u8, q: u8) -> (r: (i8, u8))
    requires
        p < 8,
        q < 8,
    ensures
        r.0 as int == spec_rule_sign(rule, p as int, q as int),
        r.1 as int == xor_mask(p as int, q as int),
        r.1 < 8,
{
    proof {
        lemma_xor_and(p, q);
    }
    let m = p ^ q;
    let s = sign(p, q);
    let s = match rule {
        Product::Geometric => s,
        Product::Outer => if p & q == 0 {
            s
        } else {
            0
        },
        Product::Inner => {
            let gp = grade(p);
            let gq = grade(q);
            let d = if gp >= gq {
                gp - gq
            } else {
                gq - gp
            };
            if grade(m) == d {
                s
            } else {
                0
            }
        },
    };
    (s, m)
}

/// Mask of the blade stored at coefficient index `k`.
pub fn mask_of(k: usize) -> (r: u8)
    requires
        k < 8,
    ensures
        r as int == spec_mask_of(k as int),
        r < 8,
{
    if k == 3 {
        4
    } else if k == 4 {
        3
    } else {
        k as u8
    }
}

/// Coefficient index of the blade with mask `m`.
pub fn index_of(m: u8) -> (r: usize)
    requires
        m < 8,
    ensures
        r as int == spec_index_of(m as int),
        r < 8,
{
    if m == 3 {
        4
    } else if m == 4 {
        3
    } else {
        m as usize
    }
}

/// The bits of a mask below 8.
proof fn lemma_bits(m: int)
    requires
        0 <= m < 8,
    ensures
        m == bit(m, 0) + 2 * bit(m, 1) + 4 * bit(m, 2),
        0 <= bit(m, 0) <= 1,
        0 <= bit(m, 1) <= 1,
        0 <= bit(m, 2) <= 1,
{
}

/// The bits of `p XOR q`.
proof fn lemma_xor_bits(p: int, q: int)
    requires
        0 <= p < 8,
        0 <= q < 8,
    ensures
        0 <= xor_mask(p, q) < 8,
        bit(xor_mask(p, q), 0) == (bit(p, 0) + bit(q, 0)) % 2,
        bit(xor_mask(p, q), 1) == (bit(p, 1) + bit(q, 1)) % 2,
        bit(xor_mask(p, q), 2) == (bit(p, 2) + bit(q, 2)) % 2,
{
    lemma_bits(p);
    lemma_bits(q);
}

#[verifier::spinoff_prover]
proof fn lemma_xor_associative(p: int, q: int, r: int)
    requires
        0 <= p < 8,
        0 <= q < 8,
        0 <= r < 8,
    ensures
        xor_mask(xor_mask(p, q), r) == xor_mask(p, xor_mask(q, r)),
{
    lemma_xor_bits(p, q);
    lemma_xor_bits(q, r);
    lemma_xor_bits(xor_mask(p, q), r);
    lemma_xor_bits(p, xor_mask(q, r));
    lemma_bits(p);
    lemma_bits(q);
    lemma_bits(r);
    lemma_mod2_associative(bit(p, 0), bit(q, 0), bit(r, 0));
    lemma_mod2_associative(bit(p, 1), bit(q, 1), bit(r, 1));
    lemma_mod2_associative(bit(p, 2), bit(q, 2), bit(r, 2));
}

proof fn lemma_mod2_associative(a: int, b: int, c: int)
    requires
        0 <= a <= 1,
        0 <= b <= 1,
        0 <= c <= 1,
    ensures
        ((a + b) % 2 + c) % 2 == (a + (b + c) % 2) % 2,
{
}

/// Modulo 2, the transpositions are additive in the left blade.
#[verifier::spinoff_prover]
proof fn lemma_transpositions_left(p: int, q: int, r: int)
    requires
        0 <= p < 8,
        0 <= q < 8,
        0 <= r < 8,
    ensures
        (transpositions(xor_mask(p, q), r) + transpositions(p, r) + transpositions(q, r)) % 2 == 0,
{
    lemma_bits(p);
    lemma_bits(q);
    lemma_bits(r);
    lemma_xor_bits(p, q);
}

/// Modulo 2, the transpositions are additive in the right blade.
#[verifier::spinoff_prover]
proof fn lemma_transpositions_right(p: int, q: int, r: int)
    requires
        0 <= p < 8,
        0 <= q < 8,
        0 <= r < 8,
    ensures
        (transpositions(p, xor_mask(q, r)) + transpositions(p, q) + transpositions(p, r)) % 2 == 0,
{
    lemma_bits(p);
    lemma_bits(q);
    lemma_bits(r);
    lemma_xor_bits(q, r);
}

/// Basis blades multiply associatively: `(e_p e_q) e_r` and `e_p (e_q e_r)`
/// land on the same blade, and take the same number of transpositions modulo 2,
/// so they carry the same sign.
#[verifier::spinoff_prover]
pub proof fn lemma_blade_product_associative(p: int, q: int, r: int)
    requires
        0 <= p < 8,
        0 <= q < 8,
        0 <= r < 8,
    ensures
        xor_mask(xor_mask(p, q), r) == xor_mask(p, xor_mask(q, r)),
        (transpositions(p, q) + transpositions(xor_mask(p, q), r)) % 2 == (transpositions(q, r)
            + transpositions(p, xor_mask(q, r))) % 2,
{
    lemma_xor_associative(p, q, r);
    lemma_transpositions_left(p, q, r);
    lemma_transpositions_right(p, q, r);
    lemma_parity(
        transpositions(p, q),
        transpositions(xor_mask(p, q), r),
        transpositions(q, r),
        transpositions(p, xor_mask(q, r)),
        transpositions(p, r),
    );
}

proof fn lemma_parity(a: int, b: int, c: int, d: int, e: int)
    requires
        (b + e + c) % 2 == 0,
        (d + a + e) % 2 == 0,
    ensures
        (a + b) % 2 == (c + d) % 2,
{
}

} // verus!
