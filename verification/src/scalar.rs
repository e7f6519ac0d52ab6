//! The scalar type shared by both complex-number forms.
//!
//! A scalar is a signed fixed-point number: an `i64` counting units of
//! `1 / SCALE`.  This module gives the exact integer model of the scalar
//! operations (truncating multiplication, division and square root) and
//! the verified executable routines that compute them.

use vstd::prelude::*;
use vstd::arithmetic::power2::{lemma2_to64, lemma_pow2_unfold, pow2};

verus! {

/// A scalar: a signed fixed-point count of units of `1 / SCALE`.
pub type Real = i64;

/// Number of fixed-point units in one: two raised to the 32nd power.
pub const SCALE: i64 = 0x100000000;

/// Magnitude of a mathematical integer.
pub open spec fn abs_int(a: int) -> int {
    if a < 0 {
        -a
    } else {
        a
    }
}

/// Sign factor used by the argument formula: nonnegative scalars count
/// as positive, the convention the rectangular form inherits from its
/// imaginary component.
pub open spec fn sign_int(a: int) -> int {
    if a < 0 {
        -1
    } else {
        1
    }
}

/// Quotient of `a` by `b`, truncated toward zero: the rounding of every
/// scalar division in this crate.
pub open spec fn div_trunc(a: int, b: int) -> int
    recommends
        b != 0,
{
    if (a < 0) == (b < 0) {
        abs_int(a) / abs_int(b)
    } else {
        -(abs_int(a) / abs_int(b))
    }
}

/// Fixed-point product: the exact integer product scaled back down and
/// truncated toward zero.
pub open spec fn fmul(a: int, b: int) -> int {
    div_trunc(a * b, SCALE as int)
}

/// Fixed-point quotient: the dividend scaled up, then divided and
/// truncated toward zero.
pub open spec fn fdiv(a: int, b: int) -> int
    recommends
        b != 0,
{
    div_trunc(a * (SCALE as int), b)
}

/// Whether a mathematical integer is representable as a scalar.
pub open spec fn fits_i64(a: int) -> bool {
    i64::MIN <= a <= i64::MAX
}

/// Integer square root: the largest `r` with `r * r <= n`.
pub open spec fn isqrt_spec(n: nat) -> nat
    decreases n,
{
    if n == 0 {
        0
    } else {
        let r = isqrt_spec((n - 1) as nat);
        if (r + 1) * (r + 1) <= n {
            (r + 1) as nat
        } else {
            r
        }
    }
}

/// The integer square root of `n` is bracketed by the two neighbouring
/// perfect squares.
pub proof fn lemma_isqrt_bounds(n: nat)
    ensures
        isqrt_spec(n) * isqrt_spec(n) <= n,
        n < (isqrt_spec(n) + 1) * (isqrt_spec(n) + 1),
    decreases n,
{
    if n > 0 {
        lemma_isqrt_bounds((n - 1) as nat);
        let r = isqrt_spec((n - 1) as nat);
        assert(r * r <= n - 1);
        assert(n - 1 < (r + 1) * (r + 1));
        if (r + 1) * (r + 1) <= n {
            assert(isqrt_spec(n) == r + 1);
            assert((r + 1) * (r + 1) < (r + 2) * (r + 2)) by (nonlinear_arith);
            assert(n < (r + 2) * (r + 2));
            assert((isqrt_spec(n) + 1) * (isqrt_spec(n) + 1) == (r + 2) * (r + 2))
                by (nonlinear_arith)
                requires
                    isqrt_spec(n) == r + 1,
            ;
        } else {
            assert(isqrt_spec(n) == r);
        }
    } else {
        assert(isqrt_spec(n) == 0);
        assert((isqrt_spec(n) + 1) * (isqrt_spec(n) + 1) == 1) by (nonlinear_arith)
            requires
                isqrt_spec(n) == 0,
        ;
    }
}

/// Any `r` bracketed by the neighbouring perfect squares of `n` is the
/// integer square root of `n`.
pub proof fn lemma_isqrt_unique(n: nat, r: nat)
    requires
        r * r <= n,
        n < (r + 1) * (r + 1),
    ensures
        r == isqrt_spec(n),
{
    lemma_isqrt_bounds(n);
    let s = isqrt_spec(n);
    if r < s {
        assert((r + 1) * (r + 1) <= s * s) by (nonlinear_arith)
            requires
                r + 1 <= s,
        ;
        assert(false);
    }
    if s < r {
        assert((s + 1) * (s + 1) <= r * r) by (nonlinear_arith)
            requires
                s + 1 <= r,
        ;
        assert(false);
    }
}

/// The integer square root does not decrease when its argument grows.
pub proof fn lemma_isqrt_monotonic(a: nat, b: nat)
    requires
        a <= b,
    ensures
        isqrt_spec(a) <= isqrt_spec(b),
{
    lemma_isqrt_bounds(a);
    lemma_isqrt_bounds(b);
    if isqrt_spec(b) < isqrt_spec(a) {
        assert((isqrt_spec(b) + 1) * (isqrt_spec(b) + 1) <= isqrt_spec(a) * isqrt_spec(a))
            by (nonlinear_arith)
            requires
                isqrt_spec(b) + 1 <= isqrt_spec(a),
        ;
        assert(false);
    }
}

/// On a perfect square the integer square root is exact.
pub proof fn lemma_isqrt_square(x: nat)
    ensures
        isqrt_spec(x * x) == x,
{
    assert(x * x < (x + 1) * (x + 1)) by (nonlinear_arith);
    lemma_isqrt_unique(x * x, x);
}

/// The magnitude of a truncated quotient is the quotient of the
/// magnitudes.
pub proof fn lemma_div_trunc_abs(a: int, b: int)
    requires
        b != 0,
    ensures
        abs_int(div_trunc(a, b)) == abs_int(a) / abs_int(b),
{
    assert(abs_int(a) / abs_int(b) >= 0) by (nonlinear_arith)
        requires
            abs_int(a) >= 0,
            abs_int(b) > 0,
    ;
}

/// A bound on one factor of a fixed-point product bounds the product:
/// if the magnitude of `b` is at most `m` (in value), the magnitude of
/// the product is at most `m` times the magnitude of `a` (in units).
pub proof fn lemma_fmul_bound(a: int, b: int, m: int)
    requires
        0 <= m,
        abs_int(b) <= m * (SCALE as int),
    ensures
        abs_int(fmul(a, b)) <= m * abs_int(a),
{
    lemma_div_trunc_abs(a * b, SCALE as int);
    assert(abs_int(a * b) == abs_int(a) * abs_int(b)) by (nonlinear_arith);
    assert(abs_int(a) * abs_int(b) <= (abs_int(a) * m) * (SCALE as int)) by (nonlinear_arith)
        requires
            abs_int(b) <= m * (SCALE as int),
            abs_int(a) >= 0,
    ;
    vstd::arithmetic::div_mod::lemma_div_is_ordered(
        abs_int(a) * abs_int(b),
        (abs_int(a) * m) * (SCALE as int),
        SCALE as int,
    );
    vstd::arithmetic::div_mod::lemma_div_by_multiple(abs_int(a) * m, SCALE as int);
    assert((abs_int(a) * m) >= 0) by (nonlinear_arith)
        requires
            abs_int(a) >= 0,
            m >= 0,
    ;
}

/// A fixed-point quotient whose dividend magnitude is at most the
/// (positive) divisor has magnitude at most one, that is `SCALE` units.
pub proof fn lemma_fdiv_le_one(a: int, b: int)
    requires
        b > 0,
        abs_int(a) <= b,
    ensures
        abs_int(fdiv(a, b)) <= SCALE as int,
{
    lemma_div_trunc_abs(a * (SCALE as int), b);
    assert(abs_int(a * (SCALE as int)) == abs_int(a) * (SCALE as int)) by (nonlinear_arith);
    assert(abs_int(a) * (SCALE as int) <= b * (SCALE as int)) by (nonlinear_arith)
        requires
            abs_int(a) <= b,
    ;
    vstd::arithmetic::div_mod::lemma_div_is_ordered(
        abs_int(a) * (SCALE as int),
        b * (SCALE as int),
        b,
    );
    vstd::arithmetic::div_mod::lemma_div_multiples_vanish(SCALE as int, b);
}

/// The square of a scalar is nonnegative and fits well inside 128 bits.
pub proof fn lemma_square_bounds(a: int)
    requires
        -0x8000000000000000 <= a <= 0x7fffffffffffffff,
    ensures
        0 <= a * a <= 0x40000000000000000000000000000000,
{
    assert(0 <= a * a <= 0x40000000000000000000000000000000) by (nonlinear_arith)
        requires
            -0x8000000000000000 <= a <= 0x7fffffffffffffff,
    ;
}

/// A sum of two products of scalar-magnitude factors stays strictly
/// inside the 128-bit range.
pub proof fn lemma_i64_products_fit(a: int, b: int, c: int, d: int)
    requires
        abs_int(a) <= 0x7fffffffffffffff,
        abs_int(b) <= 0x7fffffffffffffff,
        abs_int(c) <= 0x7fffffffffffffff,
        abs_int(d) <= 0x7fffffffffffffff,
    ensures
        abs_int(a * b) <= 0x3fffffffffffffff0000000000000001,
        abs_int(c * d) <= 0x3fffffffffffffff0000000000000001,
        abs_int(a * b + c * d) <= 0x7ffffffffffffffe0000000000000002,
{
    lemma_abs_product_bound(a, b, 0x7fffffffffffffff, 0x7fffffffffffffff);
    lemma_abs_product_bound(c, d, 0x7fffffffffffffff, 0x7fffffffffffffff);
    assert(0x7fffffffffffffff * 0x7fffffffffffffff == 0x3fffffffffffffff0000000000000001);
}

/// The magnitude of a product is bounded by the product of bounds on
/// the magnitudes of the factors.
pub proof fn lemma_abs_product_bound(a: int, b: int, ma: int, mb: int)
    requires
        abs_int(a) <= ma,
        abs_int(b) <= mb,
    ensures
        abs_int(a * b) <= ma * mb,
{
    assert(abs_int(a * b) == abs_int(a) * abs_int(b)) by (nonlinear_arith);
    assert(abs_int(a) * abs_int(b) <= ma * mb) by (nonlinear_arith)
        requires
            0 <= abs_int(a) <= ma,
            0 <= abs_int(b) <= mb,
    ;
}

/// A sum of two squares is nonnegative, and zero only at the origin.
pub proof fn lemma_sq_norm_bounds(a: int, b: int)
    ensures
        a * a + b * b >= 0,
        (a * a + b * b == 0) <==> (a == 0 && b == 0),
{
    assert(a * a >= 0) by (nonlinear_arith);
    assert(b * b >= 0) by (nonlinear_arith);
    if a != 0 {
        assert(a * a > 0) by (nonlinear_arith)
            requires
                a != 0,
        ;
    }
    if b != 0 {
        assert(b * b > 0) by (nonlinear_arith)
            requires
                b != 0,
        ;
    }
}

/// Integer square root of a `u128`, by binary descent on the result.
pub(crate) fn isqrt_u128(n: u128) -> (r: u128)
    ensures
        r as nat == isqrt_spec(n as nat),
{
    let mut r: u128 = 0;
    let mut step: u128 = 0x10000000000000000;
    let ghost mut k: nat = 64;
    proof {
        lemma2_to64();
        assert((n as nat) < 0x10000000000000000 * 0x10000000000000000) by (nonlinear_arith)
            requires
                n <= u128::MAX,
        ;
    }
    while step > 1
        invariant
            step == pow2(k),
            1 <= step,
            (r as nat) * (r as nat) <= n as nat,
            (n as nat) < ((r + step) as nat) * ((r + step) as nat),
            r + step <= 0x10000000000000000,
        decreases step,
    {
        proof {
            lemma2_to64();
            if k == 0 {
                assert(false);
            }
            lemma_pow2_unfold(k);
            k = (k - 1) as nat;
        }
        step = step / 2;
        let c = r + step;
        proof {
            assert(c * c <= u128::MAX) by (nonlinear_arith)
                requires
                    c <= 0xffffffffffffffff,
            ;
        }
        if c * c <= n {
            r = c;
        }
    }
    proof {
        lemma_isqrt_unique(n as nat, r as nat);
    }
    r
}

/// Truncated signed division on `i128`, computed through unsigned
/// magnitudes.
pub(crate) fn div_trunc_i128(a: i128, b: i128) -> (q: i128)
    requires
        b != 0,
        a != i128::MIN,
        b != i128::MIN,
    ensures
        q as int == div_trunc(a as int, b as int),
{
    let neg = (a < 0) != (b < 0);
    let am: u128 = if a < 0 {
        (-a) as u128
    } else {
        a as u128
    };
    let bm: u128 = if b < 0 {
        (-b) as u128
    } else {
        b as u128
    };
    let qm = am / bm;
    if neg {
        -(qm as i128)
    } else {
        qm as i128
    }
}

/// Fixed-point product of two scalars.
pub(crate) fn mul_units(a: i64, b: i64) -> (r: i64)
    requires
        fits_i64(fmul(a as int, b as int)),
    ensures
        r as int == fmul(a as int, b as int),
{
    proof {
        assert((a as int) * (b as int) <= i128::MAX && i128::MIN < (a as int) * (b as int))
            by (nonlinear_arith)
            requires
                i64::MIN <= a <= i64::MAX,
                i64::MIN <= b <= i64::MAX,
        ;
    }
    let p: i128 = (a as i128) * (b as i128);
    let q = div_trunc_i128(p, SCALE as i128);
    q as i64
}

/// Fixed-point quotient of two scalars.
pub(crate) fn div_units(a: i64, b: i64) -> (r: i64)
    requires
        b != 0,
        fits_i64(fdiv(a as int, b as int)),
    ensures
        r as int == fdiv(a as int, b as int),
{
    proof {
        assert((a as int) * (SCALE as int) <= i128::MAX && i128::MIN < (a as int) * (SCALE as int))
            by (nonlinear_arith)
            requires
                i64::MIN <= a <= i64::MAX,
                SCALE == 0x100000000,
        ;
    }
    let num: i128 = (a as i128) * (SCALE as i128);
    let q = div_trunc_i128(num, b as i128);
    q as i64
}

} // verus!
