//! Fixed-point integer helpers: absolute value, clamping, a combined
//! multiply-divide, and an integer square root.

use vstd::prelude::*;
use vstd::arithmetic::div_mod::lemma_div_is_ordered;

verus! {

/// Absolute value, in the mathematical integers.
pub open spec fn absi(x: int) -> int {
    if x < 0 {
        -x
    } else {
        x
    }
}

/// `(a * b) / d`, rounded toward zero.
pub open spec fn spec_muldiv(a: int, b: int, d: int) -> int
    recommends
        d > 0,
{
    if (a < 0) != (b < 0) {
        -((absi(a) * absi(b)) / d)
    } else {
        (absi(a) * absi(b)) / d
    }
}

/// `x` clamped into `[lo, hi]`.
pub open spec fn spec_clamp(x: int, lo: int, hi: int) -> int
    recommends
        lo <= hi,
{
    if x < lo {
        lo
    } else if x > hi {
        hi
    } else {
        x
    }
}

pub fn clamp_i64(x: i64, lo: i64, hi: i64) -> (r: i64)
    requires
        lo <= hi,
    ensures
        r == spec_clamp(x as int, lo as int, hi as int),
        lo <= r <= hi,
{
    if x < lo {
        lo
    } else if x > hi {
        hi
    } else {
        x
    }
}

/// `(a * b) / d` rounded toward zero, computed without overflow.
pub fn muldiv(a: i64, b: i64, d: i64) -> (r: i64)
    requires
        d > 0,
        absi(a as int) <= i64::MAX as int,
        absi(b as int) <= i64::MAX as int,
        absi(a as int) * absi(b as int) <= i64::MAX as int,
    ensures
        r as int == spec_muldiv(a as int, b as int, d as int),
        absi(r as int) <= absi(a as int) * absi(b as int) / (d as int),
        a >= 0 && b >= 0 ==> r >= 0,
        a <= 0 && b >= 0 ==> r <= 0,
        a >= 0 && b <= 0 ==> r <= 0,
        a <= 0 && b <= 0 ==> r >= 0,
{
    proof {
        assert(forall|p: int, q: int| 0 <= p && 0 < q ==> 0 <= #[trigger] (p / q)) by (
        nonlinear_arith);
        assert(forall|q: int| 0 < q ==> #[trigger] (0int / q) == 0) by (nonlinear_arith);
    }
    let an: i64 = if a < 0 {
        -a
    } else {
        a
    };
    let bn: i64 = if b < 0 {
        -b
    } else {
        b
    };
    let p: i64 = an * bn;
    proof {
        assert(p >= 0 && ((an == 0 || bn == 0) ==> p == 0)) by (nonlinear_arith)
            requires
                an >= 0,
                bn >= 0,
                p as int == (an as int) * (bn as int),
        ;
    }
    let q: i64 = p / d;
    if (a < 0) != (b < 0) {
        -q
    } else {
        q
    }
}

/// The integer square root: the largest `r` with `r * r <= n`.
pub open spec fn spec_isqrt(n: int) -> int
    decreases n,
{
    if n <= 0 {
        0
    } else {
        let p = spec_isqrt(n - 1);
        if (p + 1) * (p + 1) <= n {
            p + 1
        } else {
            p
        }
    }
}

pub proof fn lemma_isqrt_bounds(n: int)
    requires
        n >= 0,
    ensures
        spec_isqrt(n) >= 0,
        spec_isqrt(n) * spec_isqrt(n) <= n,
        (spec_isqrt(n) + 1) * (spec_isqrt(n) + 1) > n,
    decreases n,
{
    if n > 0 {
        lemma_isqrt_bounds(n - 1);
        let p = spec_isqrt(n - 1);
        if (p + 1) * (p + 1) <= n {
            assert((p + 2) * (p + 2) > n) by (nonlinear_arith)
                requires
                    p >= 0,
                    (p + 1) * (p + 1) > n - 1,
                    (p + 1) * (p + 1) <= n,
            ;
        }
    }
}

/// Any value bracketed like an integer square root is the integer
/// square root.
pub proof fn lemma_isqrt_unique(n: int, r: int)
    requires
        n >= 0,
        0 <= r,
        r * r <= n,
        (r + 1) * (r + 1) > n,
    ensures
        r == spec_isqrt(n),
{
    lemma_isqrt_bounds(n);
    let q = spec_isqrt(n);
    if r < q {
        assert((r + 1) * (r + 1) <= q * q) by (nonlinear_arith)
            requires
                0 <= r + 1 <= q,
        ;
    }
    if q < r {
        assert((q + 1) * (q + 1) <= r * r) by (nonlinear_arith)
            requires
                0 <= q + 1 <= r,
        ;
    }
}

pub fn isqrt(n: i64) -> (r: i64)
    requires
        0 <= n < 4_000_000_000_000_000_000,
    ensures
        0 <= r,
        r * r <= n,
        (r + 1) * (r + 1) > n,
        r == spec_isqrt(n as int),
{
    proof {
        lemma_isqrt_bounds(n as int);
    }
    let mut lo: i64 = 0;
    let mut hi: i64 = 2_000_000_000;
    proof {
        assert(hi * hi > n) by (nonlinear_arith)
            requires
                hi == 2_000_000_000,
                n < 4_000_000_000_000_000_000,
        ;
    }
    while lo + 1 < hi
        invariant
            0 <= lo < hi <= 2_000_000_000,
            lo * lo <= n,
            hi * hi > n,
        decreases hi - lo,
    {
        let mid: i64 = lo + (hi - lo) / 2;
        proof {
            assert(mid * mid <= 2_000_000_000i64 * 2_000_000_000i64) by (nonlinear_arith)
                requires
                    0 <= mid <= 2_000_000_000,
            ;
        }
        if mid * mid <= n {
            lo = mid;
        } else {
            hi = mid;
        }
    }
    proof {
        lemma_isqrt_unique(n as int, lo as int);
    }
    lo
}

/// A product of two non-negative bounded factors is bounded by the
/// product of the bounds.
pub proof fn lemma_mul_bound(x: int, y: int, cx: int, cy: int) by (nonlinear_arith)
    requires
        0 <= x <= cx,
        0 <= y <= cy,
    ensures
        0 <= x * y <= cx * cy,
{
}

/// Division keeps order: used by callers of `muldiv` to turn a bound on
/// the product into a bound on the quotient.
pub proof fn lemma_muldiv_bound(a: int, b: int, d: int, cap: int)
    requires
        d > 0,
        0 <= absi(a) * absi(b) <= cap,
    ensures
        absi(spec_muldiv(a, b, d)) <= cap / d,
{
    lemma_div_is_ordered(absi(a) * absi(b), cap, d);
}

} // verus!
