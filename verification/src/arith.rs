//! Fixed-point scalar arithmetic: truncating division, saturation at the
//! world bound, and integer square roots.

use vstd::prelude::*;
use vstd::math::abs;

verus! {

/// Number of fixed-point sub-units per world unit (one world unit = one pixel).
pub const SCALE: i64 = 1000;

/// Saturation bound for every world coordinate, velocity, acceleration and
/// force component. Values are clamped here instead of overflowing.
pub const LIM: i64 = 0x4000_0000;

/// Division truncating toward zero, the semantics of hardware integer
/// division (spec-level `/` rounds toward negative infinity instead).
pub open spec fn tdiv(a: int, b: int) -> int
    recommends
        b != 0,
{
    if (a < 0) == (b < 0) {
        (abs(a) / abs(b)) as int
    } else {
        -((abs(a) / abs(b)) as int)
    }
}

/// Saturation of a mathematical integer into the representable world range.
pub open spec fn clamp(v: int) -> int {
    if v > LIM as int {
        LIM as int
    } else if v < -(LIM as int) {
        -(LIM as int)
    } else {
        v
    }
}

/// Saturation, producing the machine integer.
pub open spec fn cl(v: int) -> i64 {
    clamp(v) as i64
}

/// `r` is the floor of the square root of `n`.
pub open spec fn is_isqrt(n: int, r: int) -> bool {
    &&& 0 <= r
    &&& r * r <= n
    &&& n < (r + 1) * (r + 1)
}

/// The floor of the square root of a nonnegative integer.
pub open spec fn sqrt_floor(n: int) -> int {
    choose|r: int| is_isqrt(n, r)
}

/// Every nonnegative integer has an integer square root.
pub proof fn lemma_isqrt_exists(n: int)
    requires
        0 <= n,
    ensures
        is_isqrt(n, sqrt_floor(n)),
    decreases n,
{
    if n == 0 {
        assert(is_isqrt(0, 0));
    } else {
        lemma_isqrt_exists(n - 1);
        let r = choose|r: int| #[trigger] is_isqrt(n - 1, r);
        if (r + 1) * (r + 1) <= n {
            assert(n <= (r + 1) * (r + 1));
            assert((r + 1) * (r + 1) < (r + 2) * (r + 2)) by (nonlinear_arith)
                requires r >= 0;
            assert(is_isqrt(n, r + 1));
        } else {
            assert(is_isqrt(n, r));
        }
    }
    let w = choose|w: int| #[trigger] is_isqrt(n, w);
    assert(is_isqrt(n, w));
}

/// The integer square root is unique.
pub proof fn lemma_isqrt_unique(n: int, r1: int, r2: int)
    requires
        is_isqrt(n, r1),
        is_isqrt(n, r2),
    ensures
        r1 == r2,
{
    assert(r1 == r2) by (nonlinear_arith)
        requires
            0 <= r1,
            0 <= r2,
            r1 * r1 <= n,
            n < (r1 + 1) * (r1 + 1),
            r2 * r2 <= n,
            n < (r2 + 1) * (r2 + 1),
    ;
}

/// A product of bounded factors is bounded.
pub proof fn lemma_mul_bound(a: int, b: int, m: int, n: int)
    requires
        -m <= a <= m,
        -n <= b <= n,
        0 <= m,
        0 <= n,
    ensures
        -(m * n) <= a * b <= m * n,
{
    assert(-(m * n) <= a * b <= m * n) by (nonlinear_arith)
        requires
            -m <= a <= m,
            -n <= b <= n,
            0 <= m,
            0 <= n,
    ;
}

/// Truncating division shrinks: a quotient by a positive divisor stays
/// within `m / b` when the dividend stays within `m`.
pub proof fn lemma_tdiv_range(a: int, b: int, m: int)
    requires
        b >= 1,
        -m <= a <= m,
    ensures
        -(m / b) <= tdiv(a, b) <= m / b,
        -m <= tdiv(a, b) <= m,
{
    vstd::arithmetic::div_mod::lemma_div_pos_is_pos(abs(a) as int, b);
    vstd::arithmetic::div_mod::lemma_div_is_ordered(abs(a) as int, m, b);
    vstd::arithmetic::div_mod::lemma_div_pos_is_pos(m, b);
    vstd::arithmetic::div_mod::lemma_div_nonincreasing(m, b);
}

/// Truncating division is odd in its dividend.
pub proof fn lemma_tdiv_neg(a: int, b: int)
    requires
        b != 0,
    ensures
        tdiv(-a, b) == -tdiv(a, b),
{
    assert(abs(-a) == abs(a));
}

/// A truncated quotient never exceeds its dividend in magnitude, whatever
/// the sign of the divisor.
pub proof fn lemma_tdiv_abs_bound(a: int, b: int, m: int)
    requires
        b != 0,
        -m <= a <= m,
    ensures
        -m <= tdiv(a, b) <= m,
{
    vstd::arithmetic::div_mod::lemma_div_pos_is_pos(abs(a) as int, abs(b) as int);
    vstd::arithmetic::div_mod::lemma_div_is_ordered(abs(a) as int, m, abs(b) as int);
    vstd::arithmetic::div_mod::lemma_div_nonincreasing(m, abs(b) as int);
}

/// Saturate a machine integer into the world range.
pub fn clamp64(v: i64) -> (r: i64)
    ensures
        r == cl(v as int),
{
    if v > LIM {
        LIM
    } else if v < -LIM {
        -LIM
    } else {
        v
    }
}

/// Hardware-style division: truncates toward zero.
pub fn div_trunc(a: i64, b: i64) -> (q: i64)
    requires
        b != 0,
        a != i64::MIN,
        b != i64::MIN,
    ensures
        q == tdiv(a as int, b as int),
{
    let ua: u64 = if a < 0 { (-a) as u64 } else { a as u64 };
    let ub: u64 = if b < 0 { (-b) as u64 } else { b as u64 };
    let uq: u64 = ua / ub;
    assert(uq <= ua) by (nonlinear_arith)
        requires uq == ua as int / ub as int, ub >= 1;
    let q: i64 = uq as i64;
    if (a < 0) != (b < 0) {
        -q
    } else {
        q
    }
}

/// Floor of the square root, on machine integers.
pub fn isqrt(n: u64) -> (r: u64)
    ensures
        r == sqrt_floor(n as int),
        is_isqrt(n as int, r as int),
{
    let mut lo: u64 = 0;
    let mut hi: u64 = 0x1_0000_0000;
    assert((0x1_0000_0000 as int) * (0x1_0000_0000 as int) > n as int);
    while lo + 1 < hi
        invariant
            lo < hi <= 0x1_0000_0000,
            (lo as int) * (lo as int) <= n as int,
            (n as int) < (hi as int) * (hi as int),
        decreases hi - lo,
    {
        let mid: u64 = lo + (hi - lo) / 2;
        assert(lo < mid < hi);
        assert((mid as int) * (mid as int) <= 0xffff_ffff_ffff_ffff) by (nonlinear_arith)
            requires mid <= 0xffff_ffff;
        let sq: u64 = mid * mid;
        if sq <= n {
            lo = mid;
        } else {
            hi = mid;
        }
    }
    proof {
        assert(is_isqrt(n as int, lo as int));
        lemma_isqrt_exists(n as int);
        lemma_isqrt_unique(n as int, lo as int, sqrt_floor(n as int));
    }
    lo
}

} // verus!
