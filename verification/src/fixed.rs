//! Signed 16.16 fixed-point scalars.
//!
//! A real number `r` is represented by the integer `r * SCALE` rounded
//! toward zero.  All derived quantities are defined through the spec
//! functions below, so contracts elsewhere can speak about the exact
//! integer result of every operation.

use vstd::prelude::*;

verus! {

use vstd::arithmetic::div_mod::lemma_div_is_ordered;
use vstd::arithmetic::div_mod::lemma_div_by_multiple;
use vstd::arithmetic::div_mod::lemma_div_pos_is_pos;
use vstd::arithmetic::div_mod::lemma_div_nonincreasing;

/// Number of raw units per whole unit: the representation of 1.
pub const SCALE: i64 = 65536;

/// Truncating division (toward zero), the semantics of Rust's `/` on
/// signed integers; the divisor is expected to be nonzero.
pub open spec fn tdiv(a: int, b: int) -> int {
    if a >= 0 {
        a / b
    } else {
        -((-a) / b)
    }
}

/// Truncating division with a divisor of either sign: truncation
/// toward zero is symmetric, so a negative divisor negates both sides.
pub open spec fn sdiv(a: int, b: int) -> int {
    if b >= 0 {
        tdiv(a, b)
    } else {
        tdiv(-a, -b)
    }
}

/// Product of two fixed-point values, truncated toward zero.
pub open spec fn fxmul(a: int, b: int) -> int {
    tdiv(a * b, SCALE as int)
}

/// Quotient of two fixed-point values, truncated toward zero.
pub open spec fn fxdiv(a: int, b: int) -> int {
    tdiv(a * (SCALE as int), b)
}

/// `v` forced into the closed interval `[lo, hi]`.
pub open spec fn clamp_s(v: int, lo: int, hi: int) -> int {
    if v < lo {
        lo
    } else if v > hi {
        hi
    } else {
        v
    }
}

/// The integer square root: the largest `r` with `r * r <= n`.
pub open spec fn isqrt_s(n: nat) -> nat
    decreases n,
{
    if n == 0 {
        0
    } else {
        let p = isqrt_s((n - 1) as nat);
        if (p + 1) * (p + 1) <= n {
            p + 1
        } else {
            p
        }
    }
}

/// The defining property of `isqrt_s`: it is the floor of the square root.
pub proof fn lemma_isqrt_s(n: nat)
    ensures
        isqrt_s(n) * isqrt_s(n) <= n,
        n < (isqrt_s(n) + 1) * (isqrt_s(n) + 1),
    decreases n,
{
    if n == 0 {
        let r = isqrt_s(n);
        assert(r == 0);
        assert(n < (r + 1) * (r + 1)) by (nonlinear_arith)
            requires
                n == 0,
                r == 0,
        ;
    } else {
        lemma_isqrt_s((n - 1) as nat);
        let p = isqrt_s((n - 1) as nat);
        let r = isqrt_s(n);
        if (p + 1) * (p + 1) <= n {
            assert(r == p + 1);
            assert(n < (r + 1) * (r + 1)) by (nonlinear_arith)
                requires
                    r == p + 1,
                    n - 1 < (p + 1) * (p + 1),
                    p >= 0,
            ;
            assert(r * r <= n) by (nonlinear_arith)
                requires
                    r == p + 1,
                    (p + 1) * (p + 1) <= n,
            ;
        } else {
            assert(r == p);
            assert(n < (r + 1) * (r + 1)) by (nonlinear_arith)
                requires
                    r == p,
                    n < (p + 1) * (p + 1),
            ;
        }
    }
}

/// Squaring is monotone on nonnegative integers.
pub proof fn lemma_square_ordered(a: int, b: int)
    requires
        0 <= a <= b,
    ensures
        a * a <= b * b,
{
    assert(a * a <= b * b) by (nonlinear_arith)
        requires
            0 <= a <= b,
    ;
}

/// Any `r` with `r^2 <= n < (r+1)^2` is the integer square root of `n`.
pub proof fn lemma_isqrt_unique(n: nat, r: nat)
    requires
        r * r <= n,
        n < (r + 1) * (r + 1),
    ensures
        r == isqrt_s(n),
{
    let s = isqrt_s(n);
    lemma_isqrt_s(n);
    if r < s {
        lemma_square_ordered(r as int + 1, s as int);
    }
    if s < r {
        lemma_square_ordered(s as int + 1, r as int);
    }
}

/// The magnitude of a product is bounded by the product of the bounds.
pub proof fn lemma_mul_abs_bound(a: int, b: int, am: int, bm: int)
    requires
        -am <= a <= am,
        -bm <= b <= bm,
    ensures
        -(am * bm) <= a * b <= am * bm,
{
    assert(-(am * bm) <= a * b <= am * bm) by (nonlinear_arith)
        requires
            -am <= a <= am,
            -bm <= b <= bm,
    ;
}

/// Truncating division by a positive divisor keeps integer bounds:
/// `lo <= num/d <= hi` whenever `lo*d <= num <= hi*d`.
pub proof fn lemma_tdiv_bounds(num: int, d: int, lo: int, hi: int)
    requires
        d > 0,
        lo * d <= num,
        num <= hi * d,
    ensures
        lo <= tdiv(num, d) <= hi,
{
    if num >= 0 {
        // Euclidean division by a positive divisor is the floor.
        assert(hi >= 0) by (nonlinear_arith)
            requires
                d > 0,
                hi * d >= 0,
        ;
        lemma_div_is_ordered(num, hi * d, d);
        lemma_div_by_multiple(hi, d);
        if lo >= 0 {
            lemma_div_is_ordered(lo * d, num, d);
            lemma_div_by_multiple(lo, d);
        } else {
            lemma_div_pos_is_pos(num, d);
        }
    } else {
        let m = -num;
        assert(lo < 0) by (nonlinear_arith)
            requires
                d > 0,
                lo * d < 0,
        ;
        assert(m <= (-lo) * d) by (nonlinear_arith)
            requires
                lo * d <= num,
                m == -num,
        ;
        lemma_div_is_ordered(m, (-lo) * d, d);
        lemma_div_by_multiple(-lo, d);
        if hi < 0 {
            assert((-hi) * d <= m) by (nonlinear_arith)
                requires
                    num <= hi * d,
                    m == -num,
            ;
            lemma_div_is_ordered((-hi) * d, m, d);
            lemma_div_by_multiple(-hi, d);
        } else {
            lemma_div_pos_is_pos(m, d);
        }
    }
}

/// The magnitude of a truncated quotient is bounded: `|num| <= m*d`
/// gives `|num/d| <= m`.
pub proof fn lemma_tdiv_abs_bound(num: int, d: int, m: int)
    requires
        d > 0,
        -(m * d) <= num <= m * d,
    ensures
        -m <= tdiv(num, d) <= m,
{
    assert((-m) * d == -(m * d)) by (nonlinear_arith);
    lemma_tdiv_bounds(num, d, -m, m);
}

/// Dividing by a positive divisor keeps the sign and never increases
/// the magnitude.
pub proof fn lemma_tdiv_nonincreasing(num: int, d: int)
    requires
        d > 0,
    ensures
        num >= 0 ==> 0 <= tdiv(num, d) <= num,
        num < 0 ==> num <= tdiv(num, d) <= 0,
{
    if num >= 0 {
        lemma_div_pos_is_pos(num, d);
        lemma_div_nonincreasing(num, d);
    } else {
        lemma_div_pos_is_pos(-num, d);
        lemma_div_nonincreasing(-num, d);
    }
}

/// A fixed-point product is bounded by `m` whenever the plain product
/// of the factor bounds stays below `m * SCALE`.
pub proof fn lemma_fxmul_abs(a: int, b: int, am: int, bm: int, m: int)
    requires
        -am <= a <= am,
        -bm <= b <= bm,
        0 <= am,
        0 <= bm,
        am * bm <= m * SCALE,
    ensures
        -m <= fxmul(a, b) <= m,
{
    lemma_mul_abs_bound(a, b, am, bm);
    lemma_tdiv_abs_bound(a * b, SCALE as int, m);
}

/// Scaling a nonnegative value by a factor within `[0, 1]` keeps it
/// within `[0, value]`.
pub proof fn lemma_fxmul_unit(a: int, b: int)
    requires
        0 <= a,
        0 <= b <= SCALE,
    ensures
        0 <= fxmul(a, b) <= a,
{
    assert(0 <= a * b <= a * SCALE) by (nonlinear_arith)
        requires
            0 <= a,
            0 <= b <= SCALE,
    ;
    lemma_tdiv_bounds(a * b, SCALE as int, 0, a);
}

/// Scaling by one is the identity on nonnegative values.
pub proof fn lemma_fxmul_one(c: int)
    requires
        0 <= c,
    ensures
        fxmul(SCALE as int, c) == c,
{
    lemma_div_by_multiple(c, SCALE as int);
    assert((SCALE as int) * c == c * (SCALE as int)) by (nonlinear_arith);
}

/// The integer square root stays below any `b` whose square exceeds
/// the radicand.
pub proof fn lemma_isqrt_below(n: nat, b: int)
    requires
        b >= 0,
        n < b * b,
    ensures
        isqrt_s(n) < b,
{
    lemma_isqrt_s(n);
    if isqrt_s(n) >= b {
        lemma_square_ordered(b, isqrt_s(n) as int);
    }
}

/// Exact truncating division of an `i128` by a positive `i128`.
pub fn div_i128(a: i128, b: i128) -> (r: i128)
    requires
        b > 0,
    ensures
        r == tdiv(a as int, b as int),
{
    proof {
        lemma_tdiv_nonincreasing(a as int, b as int);
    }
    a / b
}

/// Fixed-point product of two scalars, exact per `fxmul`.
pub fn fx_mul(a: i64, b: i64) -> (r: i64)
    requires
        i64::MIN <= fxmul(a as int, b as int) <= i64::MAX,
    ensures
        r == fxmul(a as int, b as int),
{
    let wide: i128 = (a as i128) * (b as i128);
    proof {
        lemma_tdiv_nonincreasing(wide as int, SCALE as int);
    }
    let q: i128 = wide / (SCALE as i128);
    q as i64
}

/// Fixed-point quotient of two scalars, exact per `fxdiv`; the divisor
/// must be positive.
pub fn fx_div(a: i64, b: i64) -> (r: i64)
    requires
        b > 0,
        i64::MIN <= fxdiv(a as int, b as int) <= i64::MAX,
    ensures
        r == fxdiv(a as int, b as int),
{
    let wide: i128 = (a as i128) * (SCALE as i128);
    proof {
        lemma_tdiv_nonincreasing(wide as int, b as int);
    }
    let q: i128 = wide / (b as i128);
    q as i64
}

/// `v` forced into `[lo, hi]`, exact per `clamp_s`.
pub fn clamp_i128(v: i128, lo: i128, hi: i128) -> (r: i128)
    requires
        lo <= hi,
    ensures
        r == clamp_s(v as int, lo as int, hi as int),
{
    if v < lo {
        lo
    } else if v > hi {
        hi
    } else {
        v
    }
}

/// Floor of the square root of a 128-bit unsigned integer, by binary
/// search; exact per `isqrt_s`.
pub fn isqrt_u128(n: u128) -> (r: u128)
    ensures
        r == isqrt_s(n as nat),
        r * r <= n,
        n < (r + 1) * (r + 1),
{
    if n == 0 {
        proof {
            assert(isqrt_s(0) == 0);
            assert(0 < (0 + 1) * (0 + 1)) by (nonlinear_arith);
        }
        return 0;
    }
    let mut lo: u128 = 0;
    let mut hi: u128 = 18446744073709551616;  // 2^64: hi^2 exceeds any u128
    proof {
        assert((18446744073709551616 as int) * (18446744073709551616 as int) > n as int)
            by (nonlinear_arith)
            requires
                n <= u128::MAX,
        ;
    }
    while lo + 1 < hi
        invariant
            lo < hi,
            hi <= 18446744073709551616,
            (lo as int) * (lo as int) <= n as int,
            (n as int) < (hi as int) * (hi as int),
        decreases hi - lo,
    {
        let mid: u128 = lo + (hi - lo) / 2;
        proof {
            lemma_mul_abs_bound(
                mid as int,
                mid as int,
                18446744073709551615,
                18446744073709551615,
            );
        }
        if mid * mid <= n {
            lo = mid;
        } else {
            hi = mid;
        }
    }
    proof {
        lemma_isqrt_unique(n as nat, lo as nat);
    }
    lo
}

/// Floor of the square root of a nonnegative fixed-point value,
/// returned as a raw (integer) root of the raw value: for lengths,
/// `isqrt_s` of the raw radicand.
pub fn isqrt_i128(n: i128) -> (r: i64)
    requires
        0 <= n < 0x4000_0000_0000_0000_0000_0000_0000_0000,  // below 2^126, so the root fits in i64
    ensures
        r == isqrt_s(n as nat),
        r >= 0,
{
    let r = isqrt_u128(n as u128);
    proof {
        if r as int > i64::MAX {
            lemma_square_ordered(0x8000_0000_0000_0000, r as int);
        }
    }
    r as i64
}


} // verus!
