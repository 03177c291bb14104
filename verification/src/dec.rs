//! Exact decimal arithmetic for amounts and prices.
//!
//! A `Dec` is a signed rational held as a numerator/denominator pair of
//! `i128` values. Every well-formed value keeps both components strictly
//! below 2^63 in magnitude, so products of components always fit in an
//! `i128`; comparisons are therefore total, while the arithmetic operations
//! reduce their result by a common divisor and report `None` when even the
//! reduced result leaves that range.

use vstd::prelude::*;
use vstd::arithmetic::div_mod::{
    lemma_fundamental_div_mod, lemma_mod_division_less_than_divisor, lemma_mod_multiples_basic,
    lemma_mod_self_0,
};

verus! {

/// Component bound: well-formed values keep |num| and den below this (2^63).
pub const COMPONENT_BOUND: i128 = 0x8000_0000_0000_0000;

/// A signed rational number: `num / den` with `den > 0`.
#[derive(Clone, Copy, Debug, PartialEq, Eq, Structural)]
pub struct Dec {
    pub num: i128,
    pub den: i128,
}

/// Euclid's greatest-common-divisor recursion on nonnegative integers.
pub open spec fn gcd_spec(a: int, b: int) -> int
    decreases b via gcd_spec_decreases
{
    if b <= 0 {
        a
    } else {
        gcd_spec(b, a % b)
    }
}

#[via_fn]
proof fn gcd_spec_decreases(a: int, b: int) {
    if b > 0 {
        lemma_mod_division_less_than_divisor(a, b);
    }
}

/// `gcd_spec` of a nonnegative value and a positive value is positive and
/// divides both.
pub proof fn lemma_gcd_divides(a: int, b: int)
    requires
        0 <= a,
        0 < b,
    ensures
        0 < gcd_spec(a, b) <= b,
        a % gcd_spec(a, b) == 0,
        b % gcd_spec(a, b) == 0,
    decreases b,
{
    let g = gcd_spec(a, b);
    let r = a % b;
    lemma_mod_division_less_than_divisor(a, b);
    if r == 0 {
        assert(g == gcd_spec(b, 0));
        assert(gcd_spec(b, 0) == b);
        lemma_mod_self_0(b);
        assert(a % b == 0);
    } else {
        lemma_gcd_divides(b, r);
        assert(g == gcd_spec(b, r));
        // b and r are multiples of g; so is a = (a / b) * b + r.
        lemma_fundamental_div_mod(a, b);
        let k = b / g;
        let m = r / g;
        lemma_fundamental_div_mod(b, g);
        lemma_fundamental_div_mod(r, g);
        assert(b == g * k + b % g);
        assert(r == g * m + r % g);
        assert(b == k * g && r == m * g) by (nonlinear_arith)
            requires
                b == g * k && r == g * m,
        ;
        let q = a / b;
        assert(a == b * q + a % b);
        assert(a == q * (k * g) + m * g) by (nonlinear_arith)
            requires
                a == b * q + r && b == k * g && r == m * g,
        ;
        assert(a == (q * k + m) * g) by (nonlinear_arith)
            requires
                a == q * (k * g) + m * g,
        ;
        lemma_mod_multiples_basic(q * k + m, g);
        assert(a % g == 0);
        assert(g <= r < b);
    }
}

/// Euclid's algorithm on machine words.
fn gcd_exec(a0: u128, b0: u128) -> (g: u128)
    requires
        0 < b0,
    ensures
        g == gcd_spec(a0 as int, b0 as int),
        0 < g,
    decreases b0,
{
    proof {
        lemma_gcd_divides(a0 as int, b0 as int);
    }
    let r = a0 % b0;
    if r == 0 {
        proof {
            assert(gcd_spec(a0 as int, b0 as int) == gcd_spec(b0 as int, 0));
            assert(gcd_spec(b0 as int, 0) == b0 as int);
        }
        b0
    } else {
        gcd_exec(b0, r)
    }
}

/// A product of two components within the bound stays inside `i128`.
proof fn lemma_prod_fits(x: int, y: int)
    by (nonlinear_arith)
    requires
        -COMPONENT_BOUND < x < COMPONENT_BOUND,
        -COMPONENT_BOUND < y < COMPONENT_BOUND,
    ensures
        -0x4000_0000_0000_0000_0000_0000_0000_0000 < x * y,
        x * y < 0x4000_0000_0000_0000_0000_0000_0000_0000,
{
}

/// Reduction of an integer fraction `n / d` (with `d > 0`) by the greatest
/// common divisor of `|n|` and `d`, then a range check against
/// [`COMPONENT_BOUND`].
pub open spec fn reduce_spec(n: int, d: int) -> Option<Dec> {
    if n == 0 {
        Some(Dec { num: 0, den: 1 })
    } else {
        let a = if n < 0 { -n } else { n };
        let g = gcd_spec(a, d);
        let q = a / g;
        let rd = d / g;
        if q < COMPONENT_BOUND && rd < COMPONENT_BOUND {
            Some(Dec { num: (if n < 0 { -q } else { q }) as i128, den: rd as i128 })
        } else {
            None
        }
    }
}

/// A reduced fraction is well-formed and denotes the fraction it came from.
pub proof fn lemma_reduce_frac(n: int, d: int)
    requires
        0 < d,
        reduce_spec(n, d) is Some,
    ensures
        reduce_spec(n, d).unwrap().wf(),
        reduce_spec(n, d).unwrap().is_frac(n, d),
{
    let c = reduce_spec(n, d).unwrap();
    if n == 0 {
        assert(c.num * d == n * c.den) by (nonlinear_arith)
            requires
                c.num == 0 && c.den == 1 && n == 0,
        ;
    } else {
        let a = if n < 0 { -n } else { n };
        let g = gcd_spec(a, d);
        lemma_gcd_divides(a, d);
        let q = a / g;
        let rd = d / g;
        lemma_fundamental_div_mod(a, g);
        lemma_fundamental_div_mod(d, g);
        assert(a == q * g);
        assert(d == rd * g);
        assert(0 < rd && 0 < q) by (nonlinear_arith)
            requires
                a == q * g && d == rd * g && 0 < g && 0 < d && 0 < a,
        ;
        // q * d == a * rd, so the signed forms agree as well.
        assert(q * d == a * rd) by (nonlinear_arith)
            requires
                a == q * g && d == rd * g,
        ;
        if n < 0 {
            assert(c.num * d == n * c.den) by (nonlinear_arith)
                requires
                    c.num == -q && c.den == rd && q * d == a * rd && a == -n,
            ;
        } else {
            assert(c.num * d == n * c.den) by (nonlinear_arith)
                requires
                    c.num == q && c.den == rd && q * d == a * rd && a == n,
            ;
        }
    }
}

/// A fraction whose components are already inside the component range
/// always reduces successfully.
pub proof fn lemma_reduce_in_range(n: int, d: int)
    requires
        0 < d < COMPONENT_BOUND,
        -COMPONENT_BOUND < n < COMPONENT_BOUND,
    ensures
        reduce_spec(n, d) is Some,
{
    if n != 0 {
        let a = if n < 0 { -n } else { n };
        let g = gcd_spec(a, d);
        lemma_gcd_divides(a, d);
        vstd::arithmetic::div_mod::lemma_div_nonincreasing(a, g);
        vstd::arithmetic::div_mod::lemma_div_nonincreasing(d, g);
        vstd::arithmetic::div_mod::lemma_div_pos_is_pos(a, g);
        vstd::arithmetic::div_mod::lemma_div_pos_is_pos(d, g);
    }
}

/// A successfully scaled raw amount is a well-formed decimal denoting the
/// fraction `n / 10^decimals`.
pub proof fn lemma_from_raw_wf(n: int, decimals: nat)
    requires
        n > i128::MIN,
        Dec::spec_from_raw(n, decimals) is Some,
    ensures
        Dec::spec_from_raw(n, decimals).unwrap().wf(),
        Dec::spec_from_raw(n, decimals).unwrap().is_frac(n, pow10_spec(decimals)),
{
    lemma_pow10_pos(decimals);
    lemma_reduce_frac(n, pow10_spec(decimals));
}

/// Executable reduction; mirrors [`reduce_spec`] exactly.
fn reduce(n: i128, d: i128) -> (r: Option<Dec>)
    requires
        0 < d,
        n > i128::MIN,
    ensures
        r == reduce_spec(n as int, d as int),
{
    if n == 0 {
        return Some(Dec { num: 0, den: 1 });
    }
    let neg = n < 0;
    let a: u128 = (if neg { -n } else { n }) as u128;
    let du: u128 = d as u128;
    let g = gcd_exec(a, du);
    proof {
        lemma_gcd_divides(a as int, du as int);
    }
    let q = a / g;
    let rd = du / g;
    proof {
        lemma_fundamental_div_mod(a as int, g as int);
        lemma_fundamental_div_mod(du as int, g as int);
        assert(0 < rd && 0 < q) by (nonlinear_arith)
            requires
                a == q * g && du == rd * g && 0 < g && 0 < du && 0 < a,
        ;
    }
    if q < COMPONENT_BOUND as u128 && rd < COMPONENT_BOUND as u128 {
        Some(Dec { num: if neg { -(q as i128) } else { q as i128 }, den: rd as i128 })
    } else {
        None
    }
}

/// Powers of ten.
pub open spec fn pow10_spec(n: nat) -> int
    decreases n,
{
    if n == 0 {
        1
    } else {
        10 * pow10_spec((n - 1) as nat)
    }
}

pub proof fn lemma_pow10_pos(n: nat)
    ensures
        pow10_spec(n) >= 1,
    decreases n,
{
    if n > 0 {
        lemma_pow10_pos((n - 1) as nat);
    }
}

pub proof fn lemma_pow10_increases(i: nat, j: nat)
    requires
        i <= j,
    ensures
        pow10_spec(i) <= pow10_spec(j),
    decreases j,
{
    if i < j {
        lemma_pow10_increases(i, (j - 1) as nat);
        lemma_pow10_pos((j - 1) as nat);
    }
}

/// `10^n` as a machine word, or `None` past the `i128` range.
fn pow10_exec(n: u64) -> (r: Option<i128>)
    ensures
        match r {
            Some(p) => p == pow10_spec(n as nat),
            None => pow10_spec(n as nat) > i128::MAX,
        },
{
    let mut p: i128 = 1;
    let mut i: u64 = 0;
    while i < n
        invariant
            0 <= i <= n,
            p == pow10_spec(i as nat),
            1 <= p <= i128::MAX,
        decreases n - i,
    {
        match p.checked_mul(10) {
            Some(next) => {
                p = next;
                i = i + 1;
            },
            None => {
                proof {
                    lemma_pow10_increases((i + 1) as nat, n as nat);
                }
                return None;
            },
        }
    }
    Some(p)
}

impl Dec {
    /// Well-formedness: positive denominator, both components strictly
    /// within the bound that keeps cross products inside `i128`.
    pub open spec fn wf(self) -> bool {
        0 < self.den < COMPONENT_BOUND && -COMPONENT_BOUND < self.num < COMPONENT_BOUND
    }

    /// Two rationals denote the same value (cross multiplication).
    pub open spec fn veq(self, other: Dec) -> bool {
        self.num * other.den == other.num * self.den
    }

    /// Strict order on the denoted values (for positive denominators).
    pub open spec fn vlt(self, other: Dec) -> bool {
        self.num * other.den < other.num * self.den
    }

    /// Non-strict order on the denoted values.
    pub open spec fn vle(self, other: Dec) -> bool {
        self.num * other.den <= other.num * self.den
    }

    /// The value denoted equals the integer fraction `n / d`.
    pub open spec fn is_frac(self, n: int, d: int) -> bool {
        self.num * d == n * self.den
    }

    pub open spec fn is_zero_spec(self) -> bool {
        self.num == 0
    }

    pub open spec fn is_neg_spec(self) -> bool {
        self.num < 0
    }

    /// The zero value.
    pub fn zero() -> (r: Dec)
        ensures
            r.wf(),
            r.num == 0 && r.den == 1,
    {
        Dec { num: 0, den: 1 }
    }

    /// The unit value.
    pub fn one() -> (r: Dec)
        ensures
            r.wf(),
            r.num == 1 && r.den == 1,
    {
        Dec { num: 1, den: 1 }
    }

    /// A whole number.
    pub fn from_int(i: i64) -> (r: Dec)
        requires
            i > i64::MIN,
        ensures
            r.wf(),
            r.num == i as int && r.den == 1,
    {
        Dec { num: i as i128, den: 1 }
    }

    pub fn is_zero(&self) -> (r: bool)
        requires
            self.wf(),
        ensures
            r == self.is_zero_spec(),
    {
        self.num == 0
    }

    /// Model of [`Dec::add`].
    pub open spec fn spec_add(self, other: Dec) -> Option<Dec> {
        reduce_spec(
            self.num * other.den + other.num * self.den,
            self.den * other.den,
        )
    }

    /// Model of [`Dec::sub`].
    pub open spec fn spec_sub(self, other: Dec) -> Option<Dec> {
        reduce_spec(
            self.num * other.den - other.num * self.den,
            self.den * other.den,
        )
    }

    /// Model of [`Dec::mul`].
    pub open spec fn spec_mul(self, other: Dec) -> Option<Dec> {
        reduce_spec(self.num * other.num, self.den * other.den)
    }

    /// Model of [`Dec::div`]: division by zero yields zero (the pipeline's
    /// guarded-division policy); otherwise the exact quotient.
    pub open spec fn spec_div(self, other: Dec) -> Option<Dec> {
        if other.num == 0 {
            Some(Dec { num: 0, den: 1 })
        } else if other.num < 0 {
            reduce_spec(-(self.num * other.den), self.den * -other.num)
        } else {
            reduce_spec(self.num * other.den, self.den * other.num)
        }
    }

    /// Exact sum, reduced; `None` when the reduced result leaves the
    /// component range.
    pub fn add(self, other: Dec) -> (r: Option<Dec>)
        requires
            self.wf(),
            other.wf(),
        ensures
            r == self.spec_add(other),
    {
        proof {
            lemma_prod_fits(self.num as int, other.den as int);
            lemma_prod_fits(other.num as int, self.den as int);
            lemma_prod_fits(self.den as int, other.den as int);
            assert(self.den * other.den > 0) by (nonlinear_arith)
                requires
                    self.den > 0 && other.den > 0,
            ;
        }
        reduce(self.num * other.den + other.num * self.den, self.den * other.den)
    }

    /// Exact difference, reduced.
    pub fn sub(self, other: Dec) -> (r: Option<Dec>)
        requires
            self.wf(),
            other.wf(),
        ensures
            r == self.spec_sub(other),
    {
        proof {
            lemma_prod_fits(self.num as int, other.den as int);
            lemma_prod_fits(other.num as int, self.den as int);
            lemma_prod_fits(self.den as int, other.den as int);
            assert(self.den * other.den > 0) by (nonlinear_arith)
                requires
                    self.den > 0 && other.den > 0,
            ;
        }
        reduce(self.num * other.den - other.num * self.den, self.den * other.den)
    }

    /// Exact product, reduced.
    pub fn mul(self, other: Dec) -> (r: Option<Dec>)
        requires
            self.wf(),
            other.wf(),
        ensures
            r == self.spec_mul(other),
    {
        proof {
            lemma_prod_fits(self.num as int, other.num as int);
            lemma_prod_fits(self.den as int, other.den as int);
            assert(self.den * other.den > 0) by (nonlinear_arith)
                requires
                    self.den > 0 && other.den > 0,
            ;
        }
        reduce(self.num * other.num, self.den * other.den)
    }

    /// Guarded exact quotient: zero when the divisor is zero.
    pub fn div(self, other: Dec) -> (r: Option<Dec>)
        requires
            self.wf(),
            other.wf(),
        ensures
            r == self.spec_div(other),
    {
        if other.num == 0 {
            return Some(Dec { num: 0, den: 1 });
        }
        proof {
            lemma_prod_fits(self.num as int, other.den as int);
            lemma_prod_fits(self.den as int, other.num as int);
            lemma_prod_fits(self.den as int, -(other.num as int));
        }
        if other.num < 0 {
            proof {
                assert(self.den * -other.num > 0) by (nonlinear_arith)
                    requires
                        self.den > 0 && other.num < 0,
                ;
            }
            reduce(-(self.num * other.den), self.den * -other.num)
        } else {
            proof {
                assert(self.den * other.num > 0) by (nonlinear_arith)
                    requires
                        self.den > 0 && other.num > 0,
                ;
            }
            reduce(self.num * other.den, self.den * other.num)
        }
    }

    /// Negation (total: the component range is symmetric).
    pub fn neg(self) -> (r: Dec)
        requires
            self.wf(),
        ensures
            r.wf(),
            r.num == -self.num && r.den == self.den,
    {
        Dec { num: -self.num, den: self.den }
    }

    /// Absolute value.
    pub fn abs(self) -> (r: Dec)
        requires
            self.wf(),
        ensures
            r.wf(),
            r.den == self.den,
            r.num == if self.num < 0 { -self.num as int } else { self.num as int },
    {
        if self.num < 0 {
            Dec { num: -self.num, den: self.den }
        } else {
            self
        }
    }

    /// Strictly less than, on denoted values.
    pub fn lt(&self, other: &Dec) -> (r: bool)
        requires
            self.wf(),
            other.wf(),
        ensures
            r == self.vlt(*other),
    {
        proof {
            lemma_prod_fits(self.num as int, other.den as int);
            lemma_prod_fits(other.num as int, self.den as int);
        }
        self.num * other.den < other.num * self.den
    }

    /// Strictly greater than, on denoted values.
    pub fn gt(&self, other: &Dec) -> (r: bool)
        requires
            self.wf(),
            other.wf(),
        ensures
            r == other.vlt(*self),
    {
        other.lt(self)
    }

    /// Model of [`Dec::from_raw_signed`]: a raw integer amount scaled down
    /// by `10^decimals`.
    pub open spec fn spec_from_raw(n: int, decimals: nat) -> Option<Dec> {
        if pow10_spec(decimals) <= i128::MAX {
            reduce_spec(n, pow10_spec(decimals))
        } else {
            None
        }
    }

    /// A signed raw amount interpreted with the given number of decimal
    /// places.
    pub fn from_raw_signed(n: i128, decimals: u64) -> (r: Option<Dec>)
        requires
            n > i128::MIN,
        ensures
            r == Dec::spec_from_raw(n as int, decimals as nat),
    {
        match pow10_exec(decimals) {
            Some(p) => {
                proof {
                    lemma_pow10_pos(decimals as nat);
                }
                reduce(n, p)
            },
            None => None,
        }
    }

    /// Model of [`Dec::from_raw`].
    pub open spec fn spec_from_raw_u(v: u128, decimals: nat) -> Option<Dec> {
        if v > i128::MAX {
            None
        } else {
            Dec::spec_from_raw(v as int, decimals)
        }
    }

    /// An unsigned raw amount interpreted with the given number of decimal
    /// places; `None` also when the raw value exceeds the `i128` range.
    pub fn from_raw(v: u128, decimals: u64) -> (r: Option<Dec>)
        ensures
            r == Dec::spec_from_raw_u(v, decimals as nat),
    {
        if v > i128::MAX as u128 {
            None
        } else {
            Dec::from_raw_signed(v as i128, decimals)
        }
    }

    /// The smaller of two values (the left one on a tie).
    pub fn min_of(self, other: Dec) -> (r: Dec)
        requires
            self.wf(),
            other.wf(),
        ensures
            r == if other.vlt(self) { other } else { self },
    {
        if other.lt(&self) {
            other
        } else {
            self
        }
    }

    /// The larger of two values (the left one on a tie).
    pub fn max_of(self, other: Dec) -> (r: Dec)
        requires
            self.wf(),
            other.wf(),
        ensures
            r == if self.vlt(other) { other } else { self },
    {
        if self.lt(&other) {
            other
        } else {
            self
        }
    }

    /// Equality of denoted values (representations may differ).
    pub fn eq_value(&self, other: &Dec) -> (r: bool)
        requires
            self.wf(),
            other.wf(),
        ensures
            r == self.veq(*other),
    {
        proof {
            lemma_prod_fits(self.num as int, other.den as int);
            lemma_prod_fits(other.num as int, self.den as int);
        }
        self.num * other.den == other.num * self.den
    }
}

/// `spec_add` results denote the exact sum.
pub proof fn lemma_add_frac(a: Dec, b: Dec)
    requires
        a.wf(),
        b.wf(),
        a.spec_add(b) is Some,
    ensures
        a.spec_add(b).unwrap().wf(),
        a.spec_add(b).unwrap().is_frac(a.num * b.den + b.num * a.den, a.den * b.den),
{
    assert(a.den * b.den > 0) by (nonlinear_arith)
        requires
            a.den > 0 && b.den > 0,
    ;
    lemma_reduce_frac(a.num * b.den + b.num * a.den, a.den * b.den);
}

/// `spec_sub` results denote the exact difference.
pub proof fn lemma_sub_frac(a: Dec, b: Dec)
    requires
        a.wf(),
        b.wf(),
        a.spec_sub(b) is Some,
    ensures
        a.spec_sub(b).unwrap().wf(),
        a.spec_sub(b).unwrap().is_frac(a.num * b.den - b.num * a.den, a.den * b.den),
{
    assert(a.den * b.den > 0) by (nonlinear_arith)
        requires
            a.den > 0 && b.den > 0,
    ;
    lemma_reduce_frac(a.num * b.den - b.num * a.den, a.den * b.den);
}

/// `spec_mul` results denote the exact product.
pub proof fn lemma_mul_frac(a: Dec, b: Dec)
    requires
        a.wf(),
        b.wf(),
        a.spec_mul(b) is Some,
    ensures
        a.spec_mul(b).unwrap().wf(),
        a.spec_mul(b).unwrap().is_frac(a.num * b.num, a.den * b.den),
{
    assert(a.den * b.den > 0) by (nonlinear_arith)
        requires
            a.den > 0 && b.den > 0,
    ;
    lemma_reduce_frac(a.num * b.num, a.den * b.den);
}

/// `spec_div` results denote the exact quotient (or zero for a zero
/// divisor).
pub proof fn lemma_div_frac(a: Dec, b: Dec)
    requires
        a.wf(),
        b.wf(),
        a.spec_div(b) is Some,
    ensures
        a.spec_div(b).unwrap().wf(),
        b.num != 0 ==> a.spec_div(b).unwrap().is_frac(a.num * b.den, a.den * b.num),
        b.num == 0 ==> a.spec_div(b).unwrap() == (Dec { num: 0, den: 1 }),
{
    if b.num < 0 {
        assert(a.den * -b.num > 0) by (nonlinear_arith)
            requires
                a.den > 0 && b.num < 0,
        ;
        lemma_reduce_frac(-(a.num * b.den), a.den * -b.num);
        let c = a.spec_div(b).unwrap();
        assert(c.num * (a.den * -b.num) == -(a.num * b.den) * c.den);
        assert(c.num * (a.den * b.num) == (a.num * b.den) * c.den) by (nonlinear_arith)
            requires
                c.num * (a.den * -b.num) == -(a.num * b.den) * c.den,
        ;
    } else if b.num > 0 {
        assert(a.den * b.num > 0) by (nonlinear_arith)
            requires
                a.den > 0 && b.num > 0,
        ;
        lemma_reduce_frac(a.num * b.den, a.den * b.num);
    }
}

} // verus!
