//! Fixed-point arithmetic.
//!
//! Lengths, coordinates, angles and ratios are integers that count parts of
//! 65536: `ONE` stands for one pixel, one radian or the ratio 1.

use vstd::prelude::*;

verus! {

/// The fixed-point representation of 1.
pub const ONE: i64 = 65536;

/// The fixed-point representation of one half.
pub const HALF: i64 = 32768;

/// The quotient rounded toward zero, for a positive divisor.
pub open spec fn trunc_div(a: int, b: int) -> int {
    if a >= 0 {
        a / b
    } else {
        -((-a) / b)
    }
}

/// `r` is the integer part of the square root of `n`.
pub open spec fn is_floor_sqrt(n: int, r: int) -> bool {
    &&& 0 <= r
    &&& r * r <= n
    &&& n < (r + 1) * (r + 1)
}

/// The product of two bounded factors is bounded by the product of the bounds.
pub proof fn lemma_mul_bounded(a: int, b: int, bound_a: int, bound_b: int)
    by (nonlinear_arith)
    requires
        -bound_a <= a <= bound_a,
        -bound_b <= b <= bound_b,
    ensures
        -(bound_a * bound_b) <= a * b <= bound_a * bound_b,
{
}

/// Multiplying by a non-negative factor keeps an inequality.
pub proof fn lemma_mul_monotone(a: int, b: int, c: int)
    by (nonlinear_arith)
    requires
        a <= b,
        0 <= c,
    ensures
        a * c <= b * c,
        c * a <= c * b,
{
}

/// A quotient by a positive divisor, bracketed by multiples of the divisor.
pub proof fn lemma_div_bracket(a: int, b: int)
    by (nonlinear_arith)
    requires
        b > 0,
    ensures
        (a / b) * b <= a < (a / b) * b + b,
        a % b == a - (a / b) * b,
        0 <= a % b < b,
{
}

/// A dividend below `q * d` has a quotient below `q`.
pub proof fn lemma_div_below(a: int, q: int, d: int)
    by (nonlinear_arith)
    requires
        d > 0,
        a < q * d,
    ensures
        a / d < q,
{
}

/// A dividend of at least `q * d` has a quotient of at least `q`.
pub proof fn lemma_div_at_least(a: int, q: int, d: int)
    by (nonlinear_arith)
    requires
        d > 0,
        a >= q * d,
    ensures
        a / d >= q,
{
}

/// A non-negative dividend and a divisor of at least one give a quotient
/// between zero and the dividend.
pub proof fn lemma_div_shrinks(a: int, d: int)
    by (nonlinear_arith)
    requires
        0 <= a,
        1 <= d,
    ensures
        0 <= a / d <= a,
{
}

/// A larger divisor gives no larger quotient of a non-negative dividend.
pub proof fn lemma_div_antitone(a: int, c: int, d: int)
    by (nonlinear_arith)
    requires
        0 <= a,
        0 < c <= d,
    ensures
        a / d <= a / c,
{
}

/// A number has one integer square root.
pub proof fn lemma_floor_sqrt_unique(n: int, r1: int, r2: int)
    by (nonlinear_arith)
    requires
        is_floor_sqrt(n, r1),
        is_floor_sqrt(n, r2),
    ensures
        r1 == r2,
{
}

/// The integer part of the square root of a number that is not negative.
pub open spec fn floor_sqrt(n: int) -> int {
    choose|r: int| is_floor_sqrt(n, r)
}

/// The number of `[low, high]` nearest to `v`; meant for `low <= high`.
pub open spec fn clip(v: int, low: int, high: int) -> int {
    if v < low {
        low
    } else if v > high {
        high
    } else {
        v
    }
}

/// Brings a coordinate into `[low, high]`.
pub fn clip_to(v: i128, low: usize, high: usize) -> (c: usize)
    requires
        low <= high,
    ensures
        c == clip(v as int, low as int, high as int),
        low <= c <= high,
{
    if v < low as i128 {
        low
    } else if v > high as i128 {
        high
    } else {
        v as usize
    }
}

/// Integer division rounded toward zero.
pub fn div_trunc(a: i128, b: i128) -> (q: i128)
    requires
        b > 0,
    ensures
        q == trunc_div(a as int, b as int),
{
    a / b
}

/// Integer division rounded toward negative infinity.
pub fn div_floor(a: i128, b: i128) -> (q: i128)
    requires
        b > 0,
        a > i128::MIN,
    ensures
        q == a as int / b as int,
{
    if a >= 0 {
        a / b
    } else {
        let n: i128 = -a;
        let q: i128 = n / b;
        let r: i128 = n % b;
        proof {
            lemma_div_bracket(n as int, b as int);
            lemma_div_bracket(a as int, b as int);
            lemma_floor_of_negated(n as int, b as int);
        }
        if r == 0 {
            -q
        } else {
            -q - 1
        }
    }
}

/// How the floor of `-n / b` follows from the quotient and remainder of `n / b`.
pub proof fn lemma_floor_of_negated(n: int, b: int)
    by (nonlinear_arith)
    requires
        b > 0,
    ensures
        n % b == 0 ==> (-n) / b == -(n / b),
        n % b != 0 ==> (-n) / b == -(n / b) - 1,
{
}

/// The integer part of the square root.
pub fn isqrt(n: u64) -> (r: u64)
    ensures
        is_floor_sqrt(n as int, r as int),
        r == floor_sqrt(n as int),
        r < 0x1_0000_0000,
{
    let mut lo: u64 = 0;
    let mut hi: u64 = 0x1_0000_0000;
    assert(n < 0x1_0000_0000 * 0x1_0000_0000) by (nonlinear_arith)
        requires
            n <= u64::MAX,
    ;
    while hi - lo > 1
        invariant
            lo < hi <= 0x1_0000_0000,
            lo * lo <= n,
            n < hi * hi,
        decreases hi - lo,
    {
        let mid: u64 = lo + (hi - lo) / 2;
        assert(mid * mid <= 0xffff_ffff * 0xffff_ffff) by (nonlinear_arith)
            requires
                0 <= mid <= 0xffff_ffff,
        ;
        if mid * mid <= n {
            lo = mid;
        } else {
            hi = mid;
        }
    }
    proof {
        assert((lo + 1) * (lo + 1) == hi * hi) by (nonlinear_arith)
            requires
                hi == lo + 1,
        ;
        assert(is_floor_sqrt(n as int, lo as int));
        lemma_floor_sqrt_unique(n as int, lo as int, floor_sqrt(n as int));
    }
    lo
}

} // verus!
