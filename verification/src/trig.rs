//! Fixed-point circle functions on milliradian angles.
//!
//! Angles are integers in milliradians, kept normalized to one turn
//! `[0, TWO_PI_MRAD)`.  Sine and cosine return per-mille values in
//! `[-1000, 1000]`, computed with a quarter-turn rational approximation;
//! the bearing function returns a milliradian angle built from an octant
//! reduction of the same approximation.  The simulation only depends on
//! these being fixed total functions with the stated ranges.

use vstd::prelude::*;
use crate::num::absi;

verus! {

/// One half turn, in milliradians.
pub const PI_MRAD: i64 = 3_142;
/// One quarter turn, in milliradians.
pub const HALF_PI_MRAD: i64 = 1_571;
/// One full turn, in milliradians.
pub const TWO_PI_MRAD: i64 = 6_283;

/// `a` reduced to `[0, TWO_PI_MRAD)` by whole turns.
pub open spec fn spec_norm_angle(a: int) -> int {
    if a >= 0 {
        a % (TWO_PI_MRAD as int)
    } else if (-a) % (TWO_PI_MRAD as int) == 0 {
        0
    } else {
        TWO_PI_MRAD - (-a) % (TWO_PI_MRAD as int)
    }
}

pub proof fn lemma_norm_angle_bounds(a: int)
    ensures
        0 <= spec_norm_angle(a) < TWO_PI_MRAD,
{
    if a >= 0 {
        assert(0 <= a % (TWO_PI_MRAD as int) < TWO_PI_MRAD);
    } else {
        assert(0 <= (-a) % (TWO_PI_MRAD as int) < TWO_PI_MRAD);
    }
}

pub fn norm_angle(a: i64) -> (r: i64)
    requires
        -0x1000_0000_0000 <= a <= 0x1000_0000_0000,
    ensures
        r == spec_norm_angle(a as int),
        0 <= r < TWO_PI_MRAD,
{
    if a >= 0 {
        a % TWO_PI_MRAD
    } else {
        let m = (-a) % TWO_PI_MRAD;
        if m == 0 {
            0
        } else {
            TWO_PI_MRAD - m
        }
    }
}

/// The rational sine approximation as a function of the chord product
/// `p = x * (PI_MRAD - x)`, scaled to per-mille.
pub open spec fn sin_from_prod(p: int) -> int {
    16_000 * p / (49_368_820 - 4 * p)
}

/// The half-turn rational sine approximation, for `x` in `[0, PI_MRAD]`,
/// scaled to per-mille.
pub open spec fn spec_sin_half(x: int) -> int {
    sin_from_prod(x * (PI_MRAD - x))
}

/// Per-mille sine of a normalized milliradian angle.
pub open spec fn spec_sin_milli(a: int) -> int {
    if a <= PI_MRAD {
        spec_sin_half(a)
    } else {
        -spec_sin_half(a - PI_MRAD)
    }
}

/// Per-mille cosine of a normalized milliradian angle: the sine a
/// quarter turn ahead.
pub open spec fn spec_cos_milli(a: int) -> int {
    spec_sin_milli(spec_norm_angle(a + HALF_PI_MRAD))
}

/// The product `x * (PI_MRAD - x)` stays under the quarter-turn square.
proof fn lemma_sin_prod_bounds(x: int)
    requires
        0 <= x <= PI_MRAD,
    ensures
        0 <= x * (PI_MRAD as int - x) <= 2_468_041,
{
    assert(0 <= x * (3142 - x) <= 2_468_041) by (nonlinear_arith)
        requires
            0 <= x <= 3142,
    ;
}

/// The half-turn approximation stays in `[0, 1000]`.
proof fn lemma_sin_half_bounds(x: int)
    requires
        0 <= x <= PI_MRAD,
    ensures
        0 <= spec_sin_half(x) <= 1000,
{
    lemma_sin_prod_bounds(x);
    let p = x * (PI_MRAD as int - x);
    assert(0 <= 16_000 * p / (49_368_820 - 4 * p) <= 1000) by (nonlinear_arith)
        requires
            0 <= p <= 2_468_041,
    ;
}

pub fn sin_milli(a: i64) -> (r: i64)
    requires
        0 <= a < TWO_PI_MRAD,
    ensures
        r == spec_sin_milli(a as int),
        -1000 <= r <= 1000,
{
    let x: i64 = if a <= PI_MRAD {
        a
    } else {
        a - PI_MRAD
    };
    proof {
        lemma_sin_prod_bounds(x as int);
        lemma_sin_half_bounds(x as int);
    }
    let p: i64 = x * (PI_MRAD - x);
    let s: i64 = 16_000 * p / (49_368_820 - 4 * p);
    if a <= PI_MRAD {
        s
    } else {
        -s
    }
}

/// The octant arctangent approximation as a function of the slope `q`
/// (per-mille, in `[0, 1000]`) and the product `p = q * (1000 - q)`.
pub open spec fn atan_from_prod(q: int, p: int) -> int {
    (785_000 * q + 273 * p) / 1_000_000
}

/// Milliradian arctangent of a per-mille slope `q` in `[0, 1000]`.
pub open spec fn spec_atan_octant(q: int) -> int {
    atan_from_prod(q, q * (1000 - q))
}

/// Milliradian bearing of the vector `(dx, dy)`, in `[0, TWO_PI_MRAD)`;
/// zero for the zero vector.
pub open spec fn spec_atan2_milli(dy: int, dx: int) -> int {
    if dx == 0 && dy == 0 {
        0
    } else {
        let ax = absi(dx);
        let ay = absi(dy);
        let base = if ax >= ay {
            spec_atan_octant(ay * 1000 / ax)
        } else {
            HALF_PI_MRAD - spec_atan_octant(ax * 1000 / ay)
        };
        let raw = if dx >= 0 && dy >= 0 {
            base
        } else if dx < 0 && dy >= 0 {
            PI_MRAD - base
        } else if dx < 0 {
            PI_MRAD + base
        } else {
            TWO_PI_MRAD - base
        };
        spec_norm_angle(raw)
    }
}

fn atan_octant(q: i64) -> (r: i64)
    requires
        0 <= q <= 1000,
    ensures
        r == spec_atan_octant(q as int),
        0 <= r <= 1000,
{
    proof {
        assert(0 <= q * (1000 - q) <= 250_000) by (nonlinear_arith)
            requires
                0 <= q <= 1000,
        ;
    }
    let p: i64 = q * (1000 - q);
    (785_000 * q + 273 * p) / 1_000_000
}

pub fn atan2_milli(dy: i64, dx: i64) -> (r: i64)
    requires
        -100_000_000 <= dy <= 100_000_000,
        -100_000_000 <= dx <= 100_000_000,
    ensures
        r == spec_atan2_milli(dy as int, dx as int),
        0 <= r < TWO_PI_MRAD,
{
    if dx == 0 && dy == 0 {
        return 0;
    }
    let ax: i64 = if dx < 0 {
        -dx
    } else {
        dx
    };
    let ay: i64 = if dy < 0 {
        -dy
    } else {
        dy
    };
    let base: i64 = if ax >= ay {
        proof {
            assert((ay as int) * 1000 / (ax as int) <= 1000 && 0 <= (ay as int) * 1000 / (
            ax as int)) by (nonlinear_arith)
                requires
                    1 <= ax,
                    0 <= ay <= ax,
            ;
        }
        atan_octant(ay * 1000 / ax)
    } else {
        proof {
            assert((ax as int) * 1000 / (ay as int) <= 1000 && 0 <= (ax as int) * 1000 / (
            ay as int)) by (nonlinear_arith)
                requires
                    1 <= ay,
                    0 <= ax <= ay,
            ;
        }
        HALF_PI_MRAD - atan_octant(ax * 1000 / ay)
    };
    let raw: i64 = if dx >= 0 && dy >= 0 {
        base
    } else if dx < 0 && dy >= 0 {
        PI_MRAD - base
    } else if dx < 0 {
        PI_MRAD + base
    } else {
        TWO_PI_MRAD - base
    };
    norm_angle(raw)
}

pub fn cos_milli(a: i64) -> (r: i64)
    requires
        0 <= a < TWO_PI_MRAD,
    ensures
        r == spec_cos_milli(a as int),
        -1000 <= r <= 1000,
{
    let shifted = norm_angle(a + HALF_PI_MRAD);
    sin_milli(shifted)
}

} // verus!
