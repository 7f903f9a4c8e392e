//! Multivectors of the three-dimensional Euclidean algebra with exact integer
//! coefficients.
use vstd::prelude::*;
use crate::blade::{
    Product, spec_grade, spec_mask_of, spec_index_of, spec_rule_sign, xor_mask, blade_product,
    mask_of, index_of,
};

verus! {

/// Largest magnitude of a coefficient that the products accept: eight sums of
/// products of two such coefficients stay well inside `i64`.
pub const COEFFICIENT_BOUND: i64 = 268435456;

pub open spec fn spec_zero() -> Seq<int> {
    seq![0int, 0, 0, 0, 0, 0, 0, 0]
}

/// Every coefficient lies in `-bound ..= bound`.
pub open spec fn within(a: Seq<int>, bound: int) -> bool {
    forall|k: int| 0 <= k < 8 ==> -bound <= #[trigger] a[k] <= bound
}

/// Every coefficient can be held by an `i64`.
pub open spec fn fits(a: Seq<int>) -> bool {
    forall|k: int| 0 <= k < 8 ==> i64::MIN <= #[trigger] a[k] <= i64::MAX
}

/// Every coefficient can be negated within `i64` (none is `i64::MIN`).
pub open spec fn negatable(a: Seq<int>) -> bool {
    within(a, i64::MAX as int)
}

pub open spec fn spec_add(a: Seq<int>, b: Seq<int>) -> Seq<int> {
    Seq::new(8, |k: int| a[k] + b[k])
}

pub open spec fn spec_sub(a: Seq<int>, b: Seq<int>) -> Seq<int> {
    Seq::new(8, |k: int| a[k] - b[k])
}

pub open spec fn spec_scale(s: int, a: Seq<int>) -> Seq<int> {
    Seq::new(8, |k: int| s * a[k])
}

pub open spec fn spec_neg(a: Seq<int>) -> Seq<int> {
    Seq::new(8, |k: int| -a[k])
}

/// `s + a`: the scalar joins the coefficient of the blade 1.
pub open spec fn spec_add_scalar(a: Seq<int>, s: int) -> Seq<int> {
    a.update(0, a[0] + s)
}

/// Sign-flip of a grade involution: `flip(g)` says whether grade `g` changes sign.
pub open spec fn spec_involution(a: Seq<int>, flip: spec_fn(int) -> bool) -> Seq<int> {
    Seq::new(
        8,
        |k: int|
            if flip(spec_grade(spec_mask_of(k))) {
                -a[k]
            } else {
                a[k]
            },
    )
}

/// Reverse: grades 2 and 3 change sign.
pub open spec fn spec_reverse(a: Seq<int>) -> Seq<int> {
    spec_involution(a, |g: int| g >= 2)
}

/// Clifford conjugation: grades 1 and 2 change sign.
pub open spec fn spec_conjugate(a: Seq<int>) -> Seq<int> {
    spec_involution(a, |g: int| g == 1 || g == 2)
}

/// Main involution: grades 1 and 3 change sign.
pub open spec fn spec_involute(a: Seq<int>) -> Seq<int> {
    spec_involution(a, |g: int| g == 1 || g == 3)
}

/// Sign with which the dual takes the coefficient of blade `7 - k` to blade `k`.
pub open spec fn dual_sign(k: int) -> int {
    if k == 2 || k == 4 || k == 6 || k == 7 {
        1
    } else {
        -1
    }
}

/// Poincare duality: blade `k` receives the coefficient of blade `7 - k`.
pub open spec fn spec_dual(a: Seq<int>) -> Seq<int> {
    Seq::new(8, |k: int| dual_sign(k) * a[7 - k])
}

/// The index of the blade that, multiplied on the right of blade `i`, lands on
/// blade `k`: its mask is `mask(i) XOR mask(k)`.
pub open spec fn partner(i: int, k: int) -> int {
    spec_index_of(xor_mask(spec_mask_of(i), spec_mask_of(k)))
}

/// Contribution to coefficient `k` of a product of the one pair of blades
/// `(i, partner(i, k))` that lands there with `i` on the left.
pub open spec fn contribution(rule: Product, a: Seq<int>, b: Seq<int>, i: int, k: int) -> int {
    spec_rule_sign(rule, spec_mask_of(i), spec_mask_of(partner(i, k))) * (a[i] * b[partner(i, k)])
}

/// Sum of the contributions to coefficient `k` of the pairs whose left blade
/// has an index below `n`.
pub open spec fn partial_product(rule: Product, a: Seq<int>, b: Seq<int>, k: int, n: nat) -> int
    decreases n,
{
    if n == 0 {
        0
    } else {
        partial_product(rule, a, b, k, (n - 1) as nat) + contribution(rule, a, b, n - 1, k)
    }
}

/// The product of `a` and `b` under `rule`: coefficient `k` sums
/// `sign * a[i] * b[j]` over every pair of blades `(i, j)` whose product lands
/// on blade `k`, that is over `j == partner(i, k)` for each `i`.
pub open spec fn spec_product(rule: Product, a: Seq<int>, b: Seq<int>) -> Seq<int> {
    Seq::new(8, |k: int| partial_product(rule, a, b, k, 8))
}

/// The part of a multivector on the blade 1.
pub open spec fn scalar_part(a: Seq<int>) -> int {
    a[0]
}

/// Grade of the blade stored at each coefficient index.
pub proof fn lemma_grade_of_index(k: int)
    requires
        0 <= k < 8,
    ensures
        spec_grade(spec_mask_of(k)) == (if k == 0 {
            0int
        } else if k <= 3 {
            1
        } else if k <= 6 {
            2
        } else {
            3
        }),
{
}

proof fn lemma_term_bound(s: int, x: int, y: int, bound: int)
    requires
        -1 <= s <= 1,
        -bound <= x <= bound,
        -bound <= y <= bound,
    ensures
        -(bound * bound) <= x * y <= bound * bound,
        -(bound * bound) <= s * (x * y) <= bound * bound,
{

    assert(-(bound * bound) <= x * y <= bound * bound) by (nonlinear_arith)
        requires
            -bound <= x <= bound,
            -bound <= y <= bound,
    ;
    assert(-(bound * bound) <= s * (x * y) <= bound * bound) by (nonlinear_arith)
        requires
            -1 <= s <= 1,
            -(bound * bound) <= x * y <= bound * bound,
    ;

}

/// `|x|`.
pub open spec fn abs(x: int) -> int {
    if x >= 0 {
        x
    } else {
        -x
    }
}

/// The scalar part of `a` times its reverse.
pub open spec fn spec_magnitude_squared(a: Seq<int>) -> int {
    scalar_part(spec_product(Product::Geometric, a, spec_reverse(a)))
}

/// The square of the norm: the size of the scalar part of `a` times its conjugate.
pub open spec fn spec_norm_squared(a: Seq<int>) -> int {
    abs(scalar_part(spec_product(Product::Geometric, a, spec_conjugate(a))))
}

/// The grade involutions and the dual keep every coefficient's size.
pub proof fn lemma_sign_flips_keep_bounds(a: Seq<int>, bound: int)
    requires
        a.len() == 8,
        within(a, bound),
    ensures
        within(spec_reverse(a), bound),
        within(spec_conjugate(a), bound),
        within(spec_involute(a), bound),
        within(spec_dual(a), bound),
        within(spec_neg(a), bound),
{
    assert forall|k: int| 0 <= k < 8 implies -bound <= #[trigger] spec_dual(a)[k] <= bound by {
        assert(-bound <= a[7 - k] <= bound);
    }
}

/// A multivector of the algebra, its coefficients in the order
/// 1, e1, e2, e3, e12, e13, e23, e123.
#[derive(Clone, Copy, PartialEq, Eq, Debug)]
pub struct R300 {
    pub mvec: [i64; 8],
}

impl View for R300 {
    type V = Seq<int>;

    open spec fn view(&self) -> Seq<int> {
        self.mvec@.map_values(|x: i64| x as int)
    }
}

proof fn lemma_partial_bound(rule: Product, a: Seq<int>, b: Seq<int>, k: int, n: nat, bound: int)
    requires
        within(a, bound),
        within(b, bound),
        0 <= k < 8,
        n <= 8,
    ensures
        -(n * (bound * bound)) <= partial_product(rule, a, b, k, n) <= n * (bound * bound),
    decreases n,
{
    if n > 0 {
        let m = (n - 1) as nat;
        lemma_partial_bound(rule, a, b, k, m, bound);
        let i = m as int;
        let j = partner(i, k);
        assert(0 <= j < 8);
        assert(-bound <= a[i] <= bound);
        assert(-bound <= b[j] <= bound);
        lemma_term_bound(spec_rule_sign(rule, spec_mask_of(i), spec_mask_of(j)), a[i], b[j], bound);
        assert(m * (bound * bound) + bound * bound == n * (bound * bound)) by (nonlinear_arith)
            requires m + 1 == n;
    }
}

/// Every coefficient of a product of bounded multivectors is at most 8 times
/// the square of the bound.
pub proof fn lemma_product_bound(rule: Product, a: Seq<int>, b: Seq<int>)
    requires
        within(a, COEFFICIENT_BOUND as int),
        within(b, COEFFICIENT_BOUND as int),
    ensures
        within(spec_product(rule, a, b), 576460752303423488),
{
    let bound = COEFFICIENT_BOUND as int;
    assert forall|k: int| 0 <= k < 8 implies -576460752303423488 <= #[trigger] spec_product(rule, a, b)[k] <= 576460752303423488 by {
        lemma_partial_bound(rule, a, b, k, 8, bound);
    }
}

/// The view holds the eight coefficients.
pub proof fn lemma_view(a: R300)
    ensures
        a@.len() == 8,
        forall|k: int| 0 <= k < 8 ==> #[trigger] a@[k] == a.mvec[k] as int,
{
}

proof fn lemma_negatable(a: R300)
    requires
        negatable(a@),
    ensures
        forall|k: int| 0 <= k < 8 ==> #[trigger] a.mvec[k] > i64::MIN,
{
    assert forall|k: int| 0 <= k < 8 implies #[trigger] a.mvec[k] > i64::MIN by {
        assert(a@[k] == a.mvec[k] as int);
    }
}

impl R300 {
    /// The multivector with every coefficient 0.
    pub fn zero() -> (r: R300)
        ensures
            r@ == spec_zero(),
    {
        let r = R300 { mvec: [0, 0, 0, 0, 0, 0, 0, 0] };
        assert(r@ =~= spec_zero());
        r
    }

    /// The multivector `f` times the blade at index `idx`.
    pub fn new(f: i64, idx: usize) -> (r: R300)
        requires
            idx < 8,
        ensures
            r@ == spec_zero().update(idx as int, f as int),
    {
        let mut r = R300::zero();
        r.mvec[idx] = f;
        assert(r@ =~= spec_zero().update(idx as int, f as int));
        r
    }

    /// The scalar `v`.
    pub fn scalar(v: i64) -> (r: R300)
        ensures
            r@ == spec_zero().update(0, v as int),
    {
        R300::new(v, 0)
    }

    /// The vector `x e1 + y e2 + z e3`.
    pub fn vector(e1_val: i64, e2_val: i64, e3_val: i64) -> (r: R300)
        ensures
            r@ == seq![0int, e1_val as int, e2_val as int, e3_val as int, 0, 0, 0, 0],
    {
        let r = R300 { mvec: [0, e1_val, e2_val, e3_val, 0, 0, 0, 0] };
        assert(r@ =~= seq![0int, e1_val as int, e2_val as int, e3_val as int, 0, 0, 0, 0]);
        r
    }

    /// The bivector `xy e12 + xz e13 + yz e23`.
    pub fn bivector(e12_val: i64, e13_val: i64, e23_val: i64) -> (r: R300)
        ensures
            r@ == seq![0int, 0, 0, 0, e12_val as int, e13_val as int, e23_val as int, 0],
    {
        let r = R300 { mvec: [0, 0, 0, 0, e12_val, e13_val, e23_val, 0] };
        assert(r@ =~= seq![0int, 0, 0, 0, e12_val as int, e13_val as int, e23_val as int, 0]);
        r
    }

    /// The coefficient of the blade at index `idx`; `None` outside `0..8`.
    pub fn component(&self, idx: usize) -> (r: Option<i64>)
        ensures
            idx < 8 ==> r == Some(self.mvec[idx as int]),
            idx < 8 ==> r.unwrap() as int == self@[idx as int],
            idx >= 8 ==> r is None,
    {
        if idx < 8 {
            Some(self.mvec[idx])
        } else {
            None
        }
    }

    /// The part of `self` on the blade at index `blade` alone.
    pub fn bracket(self, blade: u8) -> (r: R300)
        requires
            blade < 8,
        ensures
            r@ == spec_zero().update(blade as int, self@[blade as int]),
    {
        R300::new(self.mvec[blade as usize], blade as usize)
    }

    /// Reverse: the coefficients of grades 2 and 3 change sign.
    pub fn Reverse(self) -> (r: R300)
        requires
            negatable(self@),
        ensures
            r@ == spec_reverse(self@),
    {
        proof {
            lemma_view(self);
            lemma_negatable(self);
        }
        let a = self.mvec;
        let r = R300 { mvec: [a[0], a[1], a[2], a[3], -a[4], -a[5], -a[6], -a[7]] };
        proof {
            assert forall|k: int| 0 <= k < 8 implies #[trigger] r@[k] == spec_reverse(self@)[k] by {
                lemma_grade_of_index(k);
            }
            assert(r@ =~= spec_reverse(self@));
        }
        r
    }

    /// Poincare duality: blade `k` receives the coefficient of blade `7 - k`,
    /// with the signs `-, -, +, -, +, -, +, +`.
    pub fn Dual(self) -> (r: R300)
        requires
            negatable(self@),
        ensures
            r@ == spec_dual(self@),
    {
        proof {
            lemma_view(self);
            lemma_negatable(self);
        }
        let a = self.mvec;
        let r = R300 { mvec: [-a[7], -a[6], a[5], -a[4], a[3], -a[2], a[1], a[0]] };
        assert(r@ =~= spec_dual(self@));
        r
    }

    /// Clifford conjugation: the coefficients of grades 1 and 2 change sign.
    pub fn Conjugate(self) -> (r: R300)
        requires
            negatable(self@),
        ensures
            r@ == spec_conjugate(self@),
    {
        proof {
            lemma_view(self);
            lemma_negatable(self);
        }
        let a = self.mvec;
        let r = R300 { mvec: [a[0], -a[1], -a[2], -a[3], -a[4], -a[5], -a[6], a[7]] };
        proof {
            assert forall|k: int| 0 <= k < 8 implies #[trigger] r@[k] == spec_conjugate(self@)[k] by {
                lemma_grade_of_index(k);
            }
            assert(r@ =~= spec_conjugate(self@));
        }
        r
    }

    /// Main involution: the coefficients of grades 1 and 3 change sign.
    pub fn Involute(self) -> (r: R300)
        requires
            negatable(self@),
        ensures
            r@ == spec_involute(self@),
    {
        proof {
            lemma_view(self);
            lemma_negatable(self);
        }
        let a = self.mvec;
        let r = R300 { mvec: [a[0], -a[1], -a[2], -a[3], a[4], a[5], a[6], -a[7]] };
        proof {
            assert forall|k: int| 0 <= k < 8 implies #[trigger] r@[k] == spec_involute(self@)[k] by {
                lemma_grade_of_index(k);
            }
            assert(r@ =~= spec_involute(self@));
        }
        r
    }

    /// `-self`.
    pub fn neg(self) -> (r: R300)
        requires
            negatable(self@),
        ensures
            r@ == spec_neg(self@),
    {
        proof {
            lemma_view(self);
            lemma_negatable(self);
        }
        let a = self.mvec;
        let r = R300 { mvec: [-a[0], -a[1], -a[2], -a[3], -a[4], -a[5], -a[6], -a[7]] };
        assert(r@ =~= spec_neg(self@));
        r
    }

    /// The inner (dot) product.
    pub fn dot(self, b: R300) -> (r: R300)
        requires
            within(self@, COEFFICIENT_BOUND as int),
            within(b@, COEFFICIENT_BOUND as int),
        ensures
            r@ == spec_product(Product::Inner, self@, b@),
    {
        self.product(b, Product::Inner)
    }

    /// The outer (wedge) product.
    pub fn wedge(self, b: R300) -> (r: R300)
        requires
            within(self@, COEFFICIENT_BOUND as int),
            within(b@, COEFFICIENT_BOUND as int),
        ensures
            r@ == spec_product(Product::Outer, self@, b@),
    {
        self.product(b, Product::Outer)
    }

    /// The geometric product.
    pub fn geometric_product(self, b: R300) -> (r: R300)
        requires
            within(self@, COEFFICIENT_BOUND as int),
            within(b@, COEFFICIENT_BOUND as int),
        ensures
            r@ == spec_product(Product::Geometric, self@, b@),
    {
        self.product(b, Product::Geometric)
    }

    /// `self + b`, coefficient by coefficient.
    pub fn add(self, b: R300) -> (r: R300)
        requires
            fits(spec_add(self@, b@)),
        ensures
            r@ == spec_add(self@, b@),
    {
        let mut r = R300::zero();
        let mut k: usize = 0;
        while k < 8
            invariant
                k <= 8,
                fits(spec_add(self@, b@)),
                forall|j: int| 0 <= j < k ==> #[trigger] r@[j] == self@[j] + b@[j],
            decreases 8 - k,
        {
            assert(i64::MIN <= spec_add(self@, b@)[k as int] <= i64::MAX);
            proof {
                lemma_view(self);
                lemma_view(b);
            }
            let ghost prev = r;
            r.mvec[k] = self.mvec[k] + b.mvec[k];
            proof {
                lemma_view(r);
                lemma_view(prev);
                assert forall|j: int| 0 <= j < k + 1 implies #[trigger] r@[j] == self@[j] + b@[j] by {
                    if j < k {
                        assert(prev@[j] == self@[j] + b@[j]);
                    }
                }
            }
            k = k + 1;
        }
        assert(r@ =~= spec_add(self@, b@));
        r
    }

    /// `self - b`, coefficient by coefficient.
    pub fn sub(self, b: R300) -> (r: R300)
        requires
            fits(spec_sub(self@, b@)),
        ensures
            r@ == spec_sub(self@, b@),
    {
        let mut r = R300::zero();
        let mut k: usize = 0;
        while k < 8
            invariant
                k <= 8,
                fits(spec_sub(self@, b@)),
                forall|j: int| 0 <= j < k ==> #[trigger] r@[j] == self@[j] - b@[j],
            decreases 8 - k,
        {
            assert(i64::MIN <= spec_sub(self@, b@)[k as int] <= i64::MAX);
            proof {
                lemma_view(self);
                lemma_view(b);
            }
            let ghost prev = r;
            r.mvec[k] = self.mvec[k] - b.mvec[k];
            proof {
                lemma_view(r);
                lemma_view(prev);
                assert forall|j: int| 0 <= j < k + 1 implies #[trigger] r@[j] == self@[j] - b@[j] by {
                    if j < k {
                        assert(prev@[j] == self@[j] - b@[j]);
                    }
                }
            }
            k = k + 1;
        }
        assert(r@ =~= spec_sub(self@, b@));
        r
    }

    /// `s * self`: every coefficient multiplied by `s`.
    pub fn scale(self, s: i64) -> (r: R300)
        requires
            fits(spec_scale(s as int, self@)),
        ensures
            r@ == spec_scale(s as int, self@),
    {
        let mut r = R300::zero();
        let mut k: usize = 0;
        while k < 8
            invariant
                k <= 8,
                fits(spec_scale(s as int, self@)),
                forall|j: int| 0 <= j < k ==> #[trigger] r@[j] == s * self@[j],
            decreases 8 - k,
        {
            assert(i64::MIN <= spec_scale(s as int, self@)[k as int] <= i64::MAX);
            proof {
                lemma_view(self);
            }
            let ghost prev = r;
            r.mvec[k] = s * self.mvec[k];
            proof {
                lemma_view(r);
                lemma_view(prev);
                assert forall|j: int| 0 <= j < k + 1 implies #[trigger] r@[j] == s * self@[j] by {
                    if j < k {
                        assert(prev@[j] == s * self@[j]);
                    }
                }
            }
            k = k + 1;
        }
        assert(r@ =~= spec_scale(s as int, self@));
        r
    }

    /// `self + s`: the scalar joins the coefficient of the blade 1.
    pub fn add_scalar(self, s: i64) -> (r: R300)
        requires
            i64::MIN <= self@[0] + s <= i64::MAX,
        ensures
            r@ == spec_add_scalar(self@, s as int),
    {
        let mut r = self;
        r.mvec[0] = self.mvec[0] + s;
        assert(r@ =~= spec_add_scalar(self@, s as int));
        r
    }

    /// `self - s`: the scalar leaves the coefficient of the blade 1.
    pub fn sub_scalar(self, s: i64) -> (r: R300)
        requires
            i64::MIN <= self@[0] - s <= i64::MAX,
        ensures
            r@ == spec_add_scalar(self@, -s),
    {
        let mut r = self;
        r.mvec[0] = self.mvec[0] - s;
        assert(r@ =~= spec_add_scalar(self@, -s));
        r
    }

    /// `s - self`.
    pub fn scalar_sub(self, s: i64) -> (r: R300)
        requires
            negatable(self@),
            i64::MIN <= s - self@[0] <= i64::MAX,
        ensures
            r@ == spec_add_scalar(spec_neg(self@), s as int),
    {
        let mut r = self.neg();
        r.mvec[0] = s - self.mvec[0];
        assert(r@ =~= spec_add_scalar(spec_neg(self@), s as int));
        r
    }

    /// The scalar part of `self` times its reverse.
    pub fn magnitude_squared(self) -> (r: i64)
        requires
            within(self@, COEFFICIENT_BOUND as int),
        ensures
            r as int == spec_magnitude_squared(self@),
    {
        proof {
            lemma_sign_flips_keep_bounds(self@, COEFFICIENT_BOUND as int);
        }
        let p = self.geometric_product(self.Reverse());
        proof {
            lemma_view(p);
        }
        p.mvec[0]
    }

    /// The square of the norm: the size of the scalar part of `self` times its
    /// conjugate. Never negative.
    pub fn norm_squared(self) -> (r: i64)
        requires
            within(self@, COEFFICIENT_BOUND as int),
        ensures
            r as int == spec_norm_squared(self@),
            r >= 0,
    {
        proof {
            lemma_sign_flips_keep_bounds(self@, COEFFICIENT_BOUND as int);
        }
        let p = self.geometric_product(self.Conjugate());
        proof {
            lemma_view(p);
        }
        let s = p.mvec[0];
        if s >= 0 {
            s
        } else {
            assert(s > i64::MIN) by {
                lemma_product_bound(Product::Geometric, self@, spec_conjugate(self@));
                assert(p@[0] == spec_product(Product::Geometric, self@, spec_conjugate(self@))[0]);
            }
            -s
        }
    }

    /// The square of the norm of the dual of `self`.
    pub fn inorm_squared(self) -> (r: i64)
        requires
            within(self@, COEFFICIENT_BOUND as int),
        ensures
            r as int == spec_norm_squared(spec_dual(self@)),
            r >= 0,
    {
        proof {
            lemma_sign_flips_keep_bounds(self@, COEFFICIENT_BOUND as int);
        }
        self.Dual().norm_squared()
    }

    /// Whether every coefficient lies within `COEFFICIENT_BOUND`, as the
    /// products ask.
    pub fn is_bounded(&self) -> (r: bool)
        ensures
            r == within(self@, COEFFICIENT_BOUND as int),
    {
        proof {
            lemma_view(*self);
        }
        let mut k: usize = 0;
        while k < 8
            invariant
                k <= 8,
                forall|j: int| 0 <= j < k ==> -COEFFICIENT_BOUND <= #[trigger] self@[j] <= COEFFICIENT_BOUND,
            decreases 8 - k,
        {
            if self.mvec[k] < -COEFFICIENT_BOUND || self.mvec[k] > COEFFICIENT_BOUND {
                assert(!(-COEFFICIENT_BOUND <= self@[k as int] <= COEFFICIENT_BOUND));
                return false;
            }
            k = k + 1;
        }
        true
    }

    /// Whether every coefficient can be negated (none is `i64::MIN`).
    pub fn is_negatable(&self) -> (r: bool)
        ensures
            r == negatable(self@),
    {
        proof {
            lemma_view(*self);
        }
        let mut k: usize = 0;
        while k < 8
            invariant
                k <= 8,
                forall|j: int| 0 <= j < k ==> -i64::MAX <= #[trigger] self@[j] <= i64::MAX,
            decreases 8 - k,
        {
            if self.mvec[k] == i64::MIN {
                assert(!(-i64::MAX <= self@[k as int]));
                return false;
            }
            k = k + 1;
        }
        true
    }

    /// Whether `self + b` can be held coefficient by coefficient.
    pub fn sum_fits(&self, b: R300) -> (r: bool)
        ensures
            r == fits(spec_add(self@, b@)),
    {
        proof {
            lemma_view(*self);
            lemma_view(b);
        }
        let mut k: usize = 0;
        while k < 8
            invariant
                k <= 8,
                forall|j: int| 0 <= j < k ==> i64::MIN <= #[trigger] spec_add(self@, b@)[j] <= i64::MAX,
            decreases 8 - k,
        {
            if self.mvec[k].checked_add(b.mvec[k]).is_none() {
                assert(!(i64::MIN <= spec_add(self@, b@)[k as int] <= i64::MAX));
                return false;
            }
            k = k + 1;
        }
        true
    }

    /// Whether `self - b` can be held coefficient by coefficient.
    pub fn difference_fits(&self, b: R300) -> (r: bool)
        ensures
            r == fits(spec_sub(self@, b@)),
    {
        proof {
            lemma_view(*self);
            lemma_view(b);
        }
        let mut k: usize = 0;
        while k < 8
            invariant
                k <= 8,
                forall|j: int| 0 <= j < k ==> i64::MIN <= #[trigger] spec_sub(self@, b@)[j] <= i64::MAX,
            decreases 8 - k,
        {
            if self.mvec[k].checked_sub(b.mvec[k]).is_none() {
                assert(!(i64::MIN <= spec_sub(self@, b@)[k as int] <= i64::MAX));
                return false;
            }
            k = k + 1;
        }
        true
    }

    /// Sum over all pairs of blades of `self` and `b` under `rule`.
    fn product(self, b: R300, rule: Product) -> (r: R300)
        requires
            within(self@, COEFFICIENT_BOUND as int),
            within(b@, COEFFICIENT_BOUND as int),
        ensures
            r@ == spec_product(rule, self@, b@),
    {
        let bound: i64 = COEFFICIENT_BOUND;
        let mut res = R300::zero();
        let mut k: usize = 0;
        proof {
            lemma_view(self);
            lemma_view(b);
            assert(bound * bound == 72057594037927936);
        }
        while k < 8
            invariant
                k <= 8,
                bound == COEFFICIENT_BOUND,
                bound * bound == 72057594037927936,
                within(self@, bound as int),
                within(b@, bound as int),
                forall|k2: int| 0 <= k2 < 8 ==> #[trigger] self@[k2] == self.mvec[k2] as int,
                forall|k2: int| 0 <= k2 < 8 ==> #[trigger] b@[k2] == b.mvec[k2] as int,
                forall|k2: int|
                    0 <= k2 < k ==> #[trigger] res@[k2] == partial_product(rule, self@, b@, k2, 8),
            decreases 8 - k,
        {
            let mk = mask_of(k);
            let mut acc: i64 = 0;
            let mut i: usize = 0;
            while i < 8
                invariant
                    i <= 8,
                    k < 8,
                    mk as int == spec_mask_of(k as int),
                    bound == COEFFICIENT_BOUND,
                    bound * bound == 72057594037927936,
                    within(self@, bound as int),
                    within(b@, bound as int),
                    forall|k2: int| 0 <= k2 < 8 ==> #[trigger] self@[k2] == self.mvec[k2] as int,
                    forall|k2: int| 0 <= k2 < 8 ==> #[trigger] b@[k2] == b.mvec[k2] as int,
                    acc == partial_product(rule, self@, b@, k as int, i as nat),
                    -(i * (bound * bound)) <= acc <= i * (bound * bound),
                decreases 8 - i,
            {
                let mi = mask_of(i);
                // The blade of `b` that blade `i` of `self` meets on its way to
                // blade `k` has the mask `mask(i) XOR mask(k)`.
                let (_, mj) = blade_product(rule, mi, mk);
                let j = index_of(mj);
                let (s, _) = blade_product(rule, mi, mask_of(j));
                proof {
                    assert(j as int == partner(i as int, k as int));
                    lemma_term_bound(s as int, self@[i as int], b@[j as int], bound as int);
                    assert(-1 <= s <= 1);
                    assert(i * (bound * bound) + bound * bound == (i + 1) * (bound * bound))
                        by (nonlinear_arith);
                    assert((i + 1) * (bound * bound) <= 8 * (bound * bound)) by (nonlinear_arith)
                        requires
                            i + 1 <= 8,
                    ;
                }
                acc = acc + (s as i64) * (self.mvec[i] * b.mvec[j]);
                i = i + 1;
            }
            let ghost prev = res;
            res.mvec[k] = acc;
            proof {
                lemma_view(res);
                lemma_view(prev);
                assert forall|k2: int| 0 <= k2 < k + 1 implies #[trigger] res@[k2]
                    == partial_product(rule, self@, b@, k2, 8) by {
                    if k2 < k {
                        assert(prev@[k2] == partial_product(rule, self@, b@, k2, 8));
                    }
                }
            }
            k = k + 1;
        }
        assert(res@ =~= spec_product(rule, self@, b@));
        res
    }
}

} // verus!
