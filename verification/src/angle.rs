//! Angles in exact fixed-point units.
//!
//! A full half-turn (pi radians) is exactly `PI_U` units, so every multiple
//! of pi/4 — the directions that matter on a rectangular pad — has an exact
//! representation, and the continuity unwrap below is exact integer
//! arithmetic.  Between those directions the bearing comes from a polynomial
//! arctangent approximation, good to well under a thousandth of a radian.

use vstd::prelude::*;
use crate::fixed::floor_div;

verus! {

/// Pi, in angle units.
pub const PI_U: i64 = 3_600_000;

/// A full turn, in angle units.
pub const TWO_PI_U: i64 = 7_200_000;

/// Pi / 2, in angle units.
pub const PI_2_U: i64 = 1_800_000;

/// Pi / 4, in angle units.
pub const PI_4_U: i64 = 900_000;

/// Angle units per radian, rounded: `PI_U / pi`.
pub const UNITS_PER_RAD: i64 = 1_145_916;

/// Bound on the committed angle the generator will store.  The unwrap steps
/// the angle by at most pi per placement, so this is unreachable in any
/// realistic chart; it exists so that every angle computation provably fits
/// in an `i64`.
pub const ANGLE_LIMIT: i64 = 0x100_0000_0000;

/// Coordinate deltas the geometry can produce, in tenths of a panel.
pub const DELTA_LIMIT: i64 = 2_000;

/// Arctangent of `t / 2^20` for `t` in `[0, 2^20]`, in angle units:
/// an odd-polynomial approximation evaluated in integer arithmetic.
pub open spec fn spec_atan_poly(t: int) -> int {
    let t2 = (t * t) / 0x100000;
    let c_term = (t2 * 90907) / 0x100000;
    let b_minus = 330802 - c_term;
    let mid = 1140592 - (t2 * b_minus) / 0x100000;
    (t * mid) / 0x100000
}

/// The polynomial stays within `[0, 1_200_000]` units on its domain.
pub proof fn lemma_atan_poly_range(t: int)
    requires
        0 <= t <= 0x100000,
    ensures
        0 <= spec_atan_poly(t) <= 1_200_000,
{
    let t2 = (t * t) / 0x100000;
    assert(0 <= t * t <= 0x100000 * 0x100000) by (nonlinear_arith)
        requires 0 <= t <= 0x100000;
    vstd::arithmetic::div_mod::lemma_div_pos_is_pos(t * t, 0x100000);
    vstd::arithmetic::div_mod::lemma_div_is_ordered(t * t, 0x100000int * 0x100000, 0x100000);
    assert(0x100000 * 0x100000 / 0x100000 == 0x100000);
    let c_term = (t2 * 90907) / 0x100000;
    assert(0 <= t2 * 90907 <= 0x100000 * 90907) by (nonlinear_arith)
        requires 0 <= t2 <= 0x100000;
    vstd::arithmetic::div_mod::lemma_div_pos_is_pos(t2 * 90907, 0x100000);
    vstd::arithmetic::div_mod::lemma_div_is_ordered(t2 * 90907, 0x100000int * 90907, 0x100000);
    assert(0x100000 * 90907 / 0x100000 == 90907);
    let b_minus = 330802 - c_term;
    assert(239895 <= b_minus <= 330802);
    assert(0 <= t2 * b_minus <= 0x100000 * 330802) by (nonlinear_arith)
        requires 0 <= t2 <= 0x100000, 0 <= b_minus <= 330802;
    vstd::arithmetic::div_mod::lemma_div_pos_is_pos(t2 * b_minus, 0x100000);
    vstd::arithmetic::div_mod::lemma_div_is_ordered(t2 * b_minus, 0x100000int * 330802, 0x100000);
    assert(0x100000 * 330802 / 0x100000 == 330802);
    let mid = 1140592 - (t2 * b_minus) / 0x100000;
    assert(809790 <= mid <= 1140592);
    assert(0 <= t * mid <= 0x100000 * 1140592) by (nonlinear_arith)
        requires 0 <= t <= 0x100000, 0 <= mid <= 1140592;
    vstd::arithmetic::div_mod::lemma_div_pos_is_pos(t * mid, 0x100000);
    vstd::arithmetic::div_mod::lemma_div_is_ordered(t * mid, 0x100000int * 1140592, 0x100000);
    assert(0x100000 * 1140592 / 0x100000 == 1140592);
}

fn atan_poly(t: i64) -> (r: i64)
    requires
        0 <= t <= 0x100000,
    ensures
        r == spec_atan_poly(t as int),
        0 <= r <= 1_200_000,
{
    proof {
        lemma_atan_poly_range(t as int);
    }
    let tu = t as u64;
    proof {
        assert(tu * tu <= 0x100000u64 * 0x100000u64) by (nonlinear_arith)
            requires tu <= 0x100000u64;
    }
    let t2 = (tu * tu) / 0x100000;
    proof {
        vstd::arithmetic::div_mod::lemma_div_is_ordered(
            tu as int * tu as int, 0x100000int * 0x100000, 0x100000);
        assert(t2 * 90907 <= 0x100000u64 * 90907u64) by (nonlinear_arith)
            requires t2 <= 0x100000u64;
    }
    let c_term = (t2 * 90907) / 0x100000;
    proof {
        vstd::arithmetic::div_mod::lemma_div_is_ordered(
            t2 as int * 90907, 0x100000int * 90907, 0x100000);
        assert(0x100000 * 90907 / 0x100000 == 90907);
    }
    let b_minus = 330802 - c_term;
    proof {
        assert(t2 * b_minus <= 0x100000u64 * 330802u64) by (nonlinear_arith)
            requires t2 <= 0x100000u64, b_minus <= 330802u64;
        vstd::arithmetic::div_mod::lemma_div_is_ordered(
            t2 as int * b_minus as int, 0x100000int * 330802, 0x100000);
        assert(0x100000 * 330802 / 0x100000 == 330802);
    }
    let mid = 1140592 - (t2 * b_minus) / 0x100000;
    proof {
        assert(tu * mid <= 0x100000u64 * 1140592u64) by (nonlinear_arith)
            requires tu <= 0x100000u64, mid <= 1140592u64;
        vstd::arithmetic::div_mod::lemma_div_is_ordered(
            tu as int * mid as int, 0x100000int * 1140592, 0x100000);
        assert(0x100000 * 1140592 / 0x100000 == 1140592);
    }
    let r = (tu * mid) / 0x100000;
    r as i64
}

/// The raw bearing of the vector `(dx, dy)`, in angle units in
/// `[-PI_U, PI_U]`.  Exact on the eight principal directions (axes and
/// diagonals); elsewhere a close polynomial approximation of `atan2`.
pub open spec fn spec_bearing(dy: int, dx: int) -> int {
    if dy == 0 {
        if dx >= 0 {
            0
        } else {
            PI_U as int
        }
    } else if dx == 0 {
        if dy > 0 {
            PI_2_U as int
        } else {
            -PI_2_U as int
        }
    } else {
        let ax = if dx < 0 {
            -dx
        } else {
            dx
        };
        let ay = if dy < 0 {
            -dy
        } else {
            dy
        };
        let a1 = if ax == ay {
            PI_4_U as int
        } else if ay < ax {
            spec_atan_poly((ay * 0x100000) / ax)
        } else {
            PI_2_U - spec_atan_poly((ax * 0x100000) / ay)
        };
        if dx > 0 {
            if dy > 0 {
                a1
            } else {
                -a1
            }
        } else {
            if dy > 0 {
                PI_U - a1
            } else {
                -(PI_U - a1)
            }
        }
    }
}

/// The bearing always lies in `[-PI_U, PI_U]`.
pub proof fn lemma_bearing_range(dy: int, dx: int)
    ensures
        -PI_U <= spec_bearing(dy, dx) <= PI_U,
{
    if dy != 0 && dx != 0 {
        let ax = if dx < 0 {
            -dx
        } else {
            dx
        };
        let ay = if dy < 0 {
            -dy
        } else {
            dy
        };
        if ax != ay && ay < ax {
            let t = (ay * 0x100000) / ax;
            assert(0 <= ay * 0x100000) by (nonlinear_arith)
                requires ay > 0;
            vstd::arithmetic::div_mod::lemma_div_pos_is_pos(ay * 0x100000, ax);
            assert(ay * 0x100000 <= ax * 0x100000) by (nonlinear_arith)
                requires 0 < ay <= ax;
            vstd::arithmetic::div_mod::lemma_div_is_ordered(ay * 0x100000, ax * 0x100000, ax);
            vstd::arithmetic::div_mod::lemma_div_multiples_vanish(0x100000, ax);
            lemma_atan_poly_range(t);
        } else if ax != ay {
            let t = (ax * 0x100000) / ay;
            assert(0 <= ax * 0x100000) by (nonlinear_arith)
                requires ax > 0;
            vstd::arithmetic::div_mod::lemma_div_pos_is_pos(ax * 0x100000, ay);
            assert(ax * 0x100000 <= ay * 0x100000) by (nonlinear_arith)
                requires 0 < ax <= ay;
            vstd::arithmetic::div_mod::lemma_div_is_ordered(ax * 0x100000, ay * 0x100000, ay);
            vstd::arithmetic::div_mod::lemma_div_multiples_vanish(0x100000, ay);
            lemma_atan_poly_range(t);
        }
    }
}

/// Raw bearing of `(dx, dy)` in angle units, matching `spec_bearing`.
pub fn bearing(dy: i64, dx: i64) -> (r: i64)
    requires
        -DELTA_LIMIT <= dy <= DELTA_LIMIT,
        -DELTA_LIMIT <= dx <= DELTA_LIMIT,
    ensures
        r == spec_bearing(dy as int, dx as int),
        -PI_U <= r <= PI_U,
{
    proof {
        lemma_bearing_range(dy as int, dx as int);
    }
    if dy == 0 {
        if dx >= 0 {
            0
        } else {
            PI_U
        }
    } else if dx == 0 {
        if dy > 0 {
            PI_2_U
        } else {
            -PI_2_U
        }
    } else {
        let ax = if dx < 0 {
            -dx
        } else {
            dx
        };
        let ay = if dy < 0 {
            -dy
        } else {
            dy
        };
        let a1 = if ax == ay {
            PI_4_U
        } else if ay < ax {
            proof {
                assert(0 <= ay * 0x100000 <= ax * 0x100000) by (nonlinear_arith)
                    requires 0 < ay <= ax;
                vstd::arithmetic::div_mod::lemma_div_pos_is_pos(ay as int * 0x100000, ax as int);
                vstd::arithmetic::div_mod::lemma_div_is_ordered(
                    ay as int * 0x100000, ax as int * 0x100000, ax as int);
                vstd::arithmetic::div_mod::lemma_div_multiples_vanish(0x100000, ax as int);
            }
            atan_poly((((ay as u64) * 0x100000) / (ax as u64)) as i64)
        } else {
            proof {
                assert(0 <= ax * 0x100000 <= ay * 0x100000) by (nonlinear_arith)
                    requires 0 < ax <= ay;
                vstd::arithmetic::div_mod::lemma_div_pos_is_pos(ax as int * 0x100000, ay as int);
                vstd::arithmetic::div_mod::lemma_div_is_ordered(
                    ax as int * 0x100000, ay as int * 0x100000, ay as int);
                vstd::arithmetic::div_mod::lemma_div_multiples_vanish(0x100000, ay as int);
            }
            PI_2_U - atan_poly((((ax as u64) * 0x100000) / (ay as u64)) as i64)
        };
        if dx > 0 {
            if dy > 0 {
                a1
            } else {
                -a1
            }
        } else {
            if dy > 0 {
                PI_U - a1
            } else {
                -(PI_U - a1)
            }
        }
    }
}

/// The unwrapped angle: the unique value congruent to `raw` modulo a full
/// turn that lies in the half-open window `(prev - PI_U, prev + PI_U]`.
pub open spec fn spec_unwrap(raw: int, prev: int) -> int {
    raw + TWO_PI_U * ((prev - raw + PI_U) / (TWO_PI_U as int))
}

/// The unwrap lands in the continuity window around `prev`.
pub proof fn lemma_unwrap_window(raw: int, prev: int)
    ensures
        prev - PI_U < spec_unwrap(raw, prev),
        spec_unwrap(raw, prev) <= prev + PI_U,
{
    let d = TWO_PI_U as int;
    let x = prev - raw + PI_U;
    let k = x / d;
    vstd::arithmetic::div_mod::lemma_fundamental_div_mod(x, d);
    vstd::arithmetic::div_mod::lemma_mod_division_less_than_divisor(x, d);
}

/// The unwrap is congruent to the raw bearing modulo a full turn.
pub proof fn lemma_unwrap_congruent(raw: int, prev: int)
    ensures
        (spec_unwrap(raw, prev) - raw) % (TWO_PI_U as int) == 0,
{
    let d = TWO_PI_U as int;
    let k = (prev - raw + PI_U) / d;
    assert(spec_unwrap(raw, prev) - raw == d * k);
    assert((d * k) % d == 0) by {
        vstd::arithmetic::div_mod::lemma_mod_multiples_basic(k, d);
        assert(d * k == k * d) by (nonlinear_arith);
    }
}

/// Uniqueness: any value congruent to `raw` that lies in the window equals
/// the unwrap.  Hence nudging `prev` without crossing the window edge
/// cannot change the result.
pub proof fn lemma_unwrap_unique(raw: int, prev: int, z: int)
    requires
        (z - raw) % (TWO_PI_U as int) == 0,
        prev - PI_U < z <= prev + PI_U,
    ensures
        z == spec_unwrap(raw, prev),
{
    let d = TWO_PI_U as int;
    let u = spec_unwrap(raw, prev);
    lemma_unwrap_window(raw, prev);
    lemma_unwrap_congruent(raw, prev);
    let kz = (z - raw) / d;
    let ku = (u - raw) / d;
    vstd::arithmetic::div_mod::lemma_fundamental_div_mod(z - raw, d);
    vstd::arithmetic::div_mod::lemma_fundamental_div_mod(u - raw, d);
    assert(z - raw == d * kz);
    assert(u - raw == d * ku);
    assert(z - u == d * (kz - ku)) by (nonlinear_arith)
        requires z - raw == d * kz, u - raw == d * ku;
    assert(-d < z - u < d);
    if kz != ku {
        assert(d * (kz - ku) >= d || d * (kz - ku) <= -d) by (nonlinear_arith)
            requires kz != ku, d > 0;
    }
}

/// Two previous angles whose windows both contain the same unwrapped value
/// give the same answer: the stability half of the continuity property.
pub proof fn lemma_unwrap_stable(raw: int, prev1: int, prev2: int)
    requires
        prev2 - PI_U < spec_unwrap(raw, prev1) <= prev2 + PI_U,
    ensures
        spec_unwrap(raw, prev2) == spec_unwrap(raw, prev1),
{
    lemma_unwrap_congruent(raw, prev1);
    lemma_unwrap_unique(raw, prev2, spec_unwrap(raw, prev1));
}

/// Unwrap `raw` to the representative nearest `prev`, exactly as
/// `spec_unwrap` describes.
pub fn unwrap_angle(raw: i64, prev: i64) -> (r: i64)
    requires
        -PI_U <= raw <= PI_U,
        -ANGLE_LIMIT <= prev <= ANGLE_LIMIT,
    ensures
        r == spec_unwrap(raw as int, prev as int),
        prev - PI_U < r <= prev + PI_U,
{
    proof {
        lemma_unwrap_window(raw as int, prev as int);
    }
    let k = floor_div(prev - raw + PI_U, TWO_PI_U);
    raw + k * TWO_PI_U
}

} // verus!
