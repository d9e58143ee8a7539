//! Fixed-point scalars.
//!
//! Every physical quantity is an `i64` count of millionths. Products and
//! quotients are formed exactly in 128 bits and rounded toward zero; a result
//! that leaves the `i64` range is *not finite* and is reported as `None`.

use vstd::prelude::*;

verus! {

/// Raw units per whole unit.
pub const SCALE: i64 = 1_000_000;

/// The value lies in the representable range.
pub open spec fn fits(v: int) -> bool {
    i64::MIN <= v <= i64::MAX
}

/// Magnitude of an integer.
pub open spec fn magnitude(v: int) -> int {
    if v < 0 { -v } else { v }
}

/// Quotient rounded toward zero; zero when the divisor is zero.
pub open spec fn quot(n: int, d: int) -> int {
    if d > 0 {
        if n >= 0 { n / d } else { -((-n) / d) }
    } else if d < 0 {
        if n >= 0 { -(n / (-d)) } else { (-n) / (-d) }
    } else {
        0
    }
}

/// A representable value, or `None` when it is not finite.
pub open spec fn checked(v: int) -> Option<i64> {
    if fits(v) { Some(v as i64) } else { None }
}

/// The nearest representable value.
pub open spec fn saturated(v: int) -> i64 {
    if v < i64::MIN { i64::MIN } else if v > i64::MAX { i64::MAX } else { v as i64 }
}

/// Fixed-point product.
pub open spec fn mul_spec(a: int, b: int) -> Option<i64> {
    checked(quot(a * b, SCALE as int))
}

/// Fixed-point quotient; not finite when the divisor is zero.
pub open spec fn div_spec(a: int, b: int) -> Option<i64> {
    if b == 0 { None } else { checked(quot(a * SCALE, b)) }
}

/// `r` is the largest integer whose square does not exceed `n`.
pub open spec fn is_floor_sqrt(n: int, r: int) -> bool {
    0 <= r && r * r <= n < (r + 1) * (r + 1)
}

/// Integer square root, rounded down; zero for a negative argument.
pub open spec fn floor_sqrt(n: int) -> int
    decreases n,
{
    if n <= 0 {
        0
    } else {
        let r = floor_sqrt(n - 1);
        if (r + 1) * (r + 1) <= n { r + 1 } else { r }
    }
}

/// `floor_sqrt` meets its defining inequality.
pub proof fn lemma_floor_sqrt(n: int)
    requires
        0 <= n,
    ensures
        is_floor_sqrt(n, floor_sqrt(n)),
    decreases n,
{
    if n > 0 {
        lemma_floor_sqrt(n - 1);
        let r = floor_sqrt(n - 1);
        assert((r + 2) * (r + 2) > (r + 1) * (r + 1) + 1) by (nonlinear_arith)
            requires
                0 <= r,
        ;
    }
}

/// The defining inequality has one solution.
pub proof fn lemma_floor_sqrt_unique(n: int, r: int, s: int)
    by (nonlinear_arith)
    requires
        is_floor_sqrt(n, r),
        is_floor_sqrt(n, s),
    ensures
        r == s,
{
    if r < s {
        assert((r + 1) * (r + 1) <= s * s);
    } else if s < r {
        assert((s + 1) * (s + 1) <= r * r);
    }
}

/// Squaring is monotone on the non-negative integers.
pub proof fn lemma_square_le(a: int, b: int)
    by (nonlinear_arith)
    requires
        0 <= a <= b,
    ensures
        a * a <= b * b,
{
}

/// A root stays below a bound exactly when the argument stays below its square.
pub proof fn lemma_floor_sqrt_below(n: int, bound: int)
    requires
        0 <= n,
        0 <= bound,
    ensures
        floor_sqrt(n) < bound <==> n < bound * bound,
{
    lemma_floor_sqrt(n);
    let r = floor_sqrt(n);
    if r < bound {
        lemma_square_le(r + 1, bound);
    } else {
        lemma_square_le(bound, r);
    }
}

pub proof fn lemma_product_bound(a: int, b: int, la: int, lb: int)
    by (nonlinear_arith)
    requires
        -la <= a <= la,
        -lb <= b <= lb,
    ensures
        -(la * lb) <= a * b <= la * lb,
{
}

/// Converts a wide value, reporting a value outside the range as not finite.
pub fn narrow(v: i128) -> (r: Option<i64>)
    ensures
        r == checked(v as int),
{
    if v < -9_223_372_036_854_775_808i128 || v > 9_223_372_036_854_775_807i128 {
        None
    } else {
        Some(v as i64)
    }
}

/// Converts a wide value, clamping it into the range.
pub fn saturate(v: i128) -> (r: i64)
    ensures
        r == saturated(v as int),
{
    if v < -9_223_372_036_854_775_808i128 {
        i64::MIN
    } else if v > 9_223_372_036_854_775_807i128 {
        i64::MAX
    } else {
        v as i64
    }
}

/// Exact product of two scalars in 128 bits.
pub fn wide_mul(a: i64, b: i64) -> (r: i128)
    ensures
        r == a * b,
        -0x4000_0000_0000_0000_0000_0000_0000_0000 <= r <= 0x4000_0000_0000_0000_0000_0000_0000_0000,
{
    proof {
        lemma_product_bound(a as int, b as int, 0x8000_0000_0000_0000, 0x8000_0000_0000_0000);
    }
    (a as i128) * (b as i128)
}

/// Quotient of wide values, rounded toward zero.
pub fn wide_quot(n: i128, d: i128) -> (r: i128)
    requires
        d != 0,
        n > i128::MIN,
        d > i128::MIN,
    ensures
        r == quot(n as int, d as int),
{
    let nm: u128 = if n < 0 { (-n) as u128 } else { n as u128 };
    let dm: u128 = if d < 0 { (-d) as u128 } else { d as u128 };
    let q: u128 = nm / dm;
    assert(q <= nm) by (nonlinear_arith)
        requires
            q == nm / dm,
            dm >= 1,
    ;
    if (n < 0) != (d < 0) { -(q as i128) } else { q as i128 }
}

/// Fixed-point product, `None` when it is not finite.
pub fn fx_mul(a: i64, b: i64) -> (r: Option<i64>)
    ensures
        r == mul_spec(a as int, b as int),
{
    let p = wide_mul(a, b);
    narrow(wide_quot(p, 1_000_000))
}

/// Fixed-point quotient, `None` when it is not finite.
pub fn fx_div(a: i64, b: i64) -> (r: Option<i64>)
    ensures
        r == div_spec(a as int, b as int),
{
    if b == 0 {
        None
    } else {
        let p = wide_mul(a, SCALE);
        narrow(wide_quot(p, b as i128))
    }
}

/// Sum, `None` when it is not finite.
pub fn fx_add(a: i64, b: i64) -> (r: Option<i64>)
    ensures
        r == checked(a + b),
{
    a.checked_add(b)
}

/// Difference, `None` when it is not finite.
pub fn fx_sub(a: i64, b: i64) -> (r: Option<i64>)
    ensures
        r == checked(a - b),
{
    a.checked_sub(b)
}

/// Integer square root, rounded down.
pub fn isqrt(n: u128) -> (r: u64)
    ensures
        r == floor_sqrt(n as int),
{
    let mut lo: u128 = 0;
    let mut hi: u128 = 0x1_0000_0000_0000_0000;
    assert(0x1_0000_0000_0000_0000int * 0x1_0000_0000_0000_0000int > u128::MAX);
    while hi - lo > 1
        invariant
            lo < hi <= 0x1_0000_0000_0000_0000,
            lo * lo <= n < hi * hi,
        decreases hi - lo,
    {
        let mid: u128 = lo + (hi - lo) / 2;
        proof {
            lemma_square_le(mid as int, 0xFFFF_FFFF_FFFF_FFFF);
        }
        if mid * mid <= n {
            lo = mid;
        } else {
            hi = mid;
        }
    }
    proof {
        lemma_floor_sqrt(n as int);
        lemma_floor_sqrt_unique(n as int, lo as int, floor_sqrt(n as int));
    }
    lo as u64
}

} // verus!
