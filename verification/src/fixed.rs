//! Exact fixed-point arithmetic for the engine.
//!
//! Distances are carried in tenths and hundredths of a panel, probability
//! weights in Q32 fixed point (the integer `w` stands for the real weight
//! `w / 2^32`).  All operations are integer-exact, so every comparison the
//! engine makes is free of rounding surprises.

use vstd::prelude::*;

verus! {

/// The weight 1.0 in Q32 fixed point.
pub const ONE_Q32: u64 = 0x1_0000_0000;

/// Upper cap for weights: multiplications saturate here so that a sum over
/// all candidate columns always fits in a `u64`.
pub const WEIGHT_CAP: u64 = 0x4_0000_0000_0000;

/// Integer square root, by the recurrence "step up while the next square
/// still fits".
pub open spec fn spec_isqrt(n: nat) -> nat
    decreases n,
{
    if n == 0 {
        0
    } else {
        let p = spec_isqrt((n - 1) as nat);
        if (p + 1) * (p + 1) <= n {
            p + 1
        } else {
            p
        }
    }
}

/// `spec_isqrt(n)` is the unique `r` with `r*r <= n < (r+1)*(r+1)`.
pub proof fn lemma_isqrt_bounds(n: nat)
    ensures
        spec_isqrt(n) * spec_isqrt(n) <= n,
        n < (spec_isqrt(n) + 1) * (spec_isqrt(n) + 1),
    decreases n,
{
    if n > 0 {
        lemma_isqrt_bounds((n - 1) as nat);
        let p = spec_isqrt((n - 1) as nat);
        assert(p * p <= n - 1);
        assert(n - 1 < (p + 1) * (p + 1));
        if (p + 1) * (p + 1) <= n {
            assert(spec_isqrt(n) == p + 1);
            assert(n < (p + 2) * (p + 2)) by (nonlinear_arith)
                requires n <= (p + 1) * (p + 1) + 1, p >= 0;
            assert((spec_isqrt(n) + 1) * (spec_isqrt(n) + 1) == (p + 2) * (p + 2));
            assert(n < (spec_isqrt(n) + 1) * (spec_isqrt(n) + 1));
        } else {
            assert(spec_isqrt(n) == p);
            assert(n < (p + 1) * (p + 1));
            assert(n < (spec_isqrt(n) + 1) * (spec_isqrt(n) + 1));
        }
    } else {
        assert(spec_isqrt(0) == 0);
        assert(n < (spec_isqrt(n) + 1) * (spec_isqrt(n) + 1)) by (nonlinear_arith)
            requires n == 0, spec_isqrt(n) == 0;
    }
}

/// Any two values satisfying the square-root bracketing are equal.
pub proof fn lemma_isqrt_unique(n: nat, a: nat, b: nat)
    requires
        a * a <= n,
        n < (a + 1) * (a + 1),
        b * b <= n,
        n < (b + 1) * (b + 1),
    ensures
        a == b,
{
    if a < b {
        assert((a + 1) * (a + 1) <= b * b) by (nonlinear_arith)
            requires a + 1 <= b;
    }
    if b < a {
        assert((b + 1) * (b + 1) <= a * a) by (nonlinear_arith)
            requires b + 1 <= a;
    }
}

/// Integer square root of a `u64`, exact: the result is the largest `r`
/// with `r * r <= n`.
pub fn isqrt(n: u64) -> (r: u64)
    ensures
        r == spec_isqrt(n as nat),
        r * r <= n,
        n < (r + 1) * (r + 1),
{
    proof {
        lemma_isqrt_bounds(n as nat);
    }
    if n == 0 {
        return 0;
    }
    let mut lo: u64 = 0;
    let mut hi: u64 = 0x1_0000_0000;
    proof {
        assert((hi as int) * (hi as int) > n as int) by (nonlinear_arith)
            requires hi == 0x1_0000_0000u64, (n as int) < 0x1_0000_0000_0000_0000int;
    }
    while hi - lo > 1
        invariant
            lo < hi,
            hi <= 0x1_0000_0000,
            (lo as int) * (lo as int) <= n as int,
            (hi as int) * (hi as int) > n as int,
        decreases hi - lo,
    {
        let mid = lo + (hi - lo) / 2;
        proof {
            assert((mid as int) * (mid as int) <= 0x1_0000_0000_0000_0000int)
                by (nonlinear_arith)
                requires 0 <= mid <= 0x1_0000_0000u64;
        }
        let sq = (mid as u128) * (mid as u128);
        if sq <= n as u128 {
            lo = mid;
        } else {
            hi = mid;
        }
    }
    proof {
        lemma_isqrt_unique(n as nat, lo as nat, spec_isqrt(n as nat));
    }
    lo
}

/// Floor division with a positive divisor.  Matches the mathematical
/// (Euclidean) quotient that specifications use.
pub fn floor_div(a: i64, b: i64) -> (r: i64)
    requires
        b > 0,
        -0x4000_0000_0000_0000 < a < 0x4000_0000_0000_0000,
    ensures
        r == a as int / b as int,
        (b as int) * r <= a as int,
        (a as int) < (b as int) * (r + 1),
{
    proof {
        vstd::arithmetic::div_mod::lemma_fundamental_div_mod(a as int, b as int);
        vstd::arithmetic::div_mod::lemma_mod_division_less_than_divisor(a as int, b as int);
        assert((b as int) * (a as int / b as int) <= a as int);
        assert((a as int) < (b as int) * (a as int / b as int + 1)) by {
            assert((b as int) * (a as int / b as int + 1)
                == (b as int) * (a as int / b as int) + b as int) by (nonlinear_arith);
        }
    }
    if a >= 0 {
        let q = (a as u64 / b as u64) as i64;
        proof {
            assert(a as u64 as int / (b as u64 as int) == a as int / b as int);
        }
        q
    } else {
        // floor(a / b) == -ceil(-a / b) for negative a
        let na = (-a) as u64;
        let bu = b as u64;
        let d = na / bu;
        let m = na % bu;
        let qu = if m != 0 { d + 1 } else { d };
        proof {
            let ai = a as int;
            let bi = b as int;
            vstd::arithmetic::div_mod::lemma_fundamental_div_mod(na as int, bi);
            vstd::arithmetic::div_mod::lemma_mod_division_less_than_divisor(na as int, bi);
            vstd::arithmetic::div_mod::lemma_div_nonincreasing(na as int, bi);
            vstd::arithmetic::div_mod::lemma_div_pos_is_pos(na as int, bi);
            assert(bi * (-(qu as int)) == -(bi * (qu as int))) by (nonlinear_arith);
            assert(bi * (d + 1) == bi * (d as int) + bi) by (nonlinear_arith);
            vstd::arithmetic::div_mod::lemma_fundamental_div_mod_converse(
                ai, bi, -(qu as int), ai + bi * (qu as int));
        }
        let q = qu as i64;
        -q
    }
}

/// Saturating Q32 multiplication: the product of two weights, capped at
/// `WEIGHT_CAP`.
pub open spec fn spec_mul_q32(a: int, b: int) -> int {
    let p = (a * b) / (ONE_Q32 as int);
    if p > WEIGHT_CAP as int {
        WEIGHT_CAP as int
    } else {
        p
    }
}

/// Multiplying by the weight one is exact: 1.0 is the neutral element of
/// Q32 multiplication below the cap.
pub proof fn lemma_mul_q32_one(x: int)
    requires
        0 <= x <= WEIGHT_CAP,
    ensures
        spec_mul_q32(ONE_Q32 as int, x) == x,
        spec_mul_q32(x, ONE_Q32 as int) == x,
{
    vstd::arithmetic::div_mod::lemma_div_multiples_vanish(x, ONE_Q32 as int);
    assert(ONE_Q32 as int * x == x * ONE_Q32 as int) by (nonlinear_arith);
}

/// Multiply two Q32 weights, rounding down and saturating at `WEIGHT_CAP`.
pub fn mul_q32(a: u64, b: u64) -> (r: u64)
    requires
        a <= WEIGHT_CAP,
        b <= WEIGHT_CAP,
    ensures
        r == spec_mul_q32(a as int, b as int),
        r <= WEIGHT_CAP,
        a <= ONE_Q32 && b <= ONE_Q32 ==> r <= ONE_Q32,
{
    proof {
        assert((a as int) * (b as int) <= (WEIGHT_CAP as int) * (WEIGHT_CAP as int))
            by (nonlinear_arith)
            requires a <= WEIGHT_CAP, b <= WEIGHT_CAP;
    }
    let p = ((a as u128) * (b as u128)) / (ONE_Q32 as u128);
    proof {
        assert(a <= ONE_Q32 && b <= ONE_Q32 ==> (a as int) * (b as int)
            <= (ONE_Q32 as int) * (ONE_Q32 as int)) by (nonlinear_arith);
        vstd::arithmetic::div_mod::lemma_div_is_ordered(
            (a as int) * (b as int),
            (WEIGHT_CAP as int) * (WEIGHT_CAP as int),
            ONE_Q32 as int);
        if a <= ONE_Q32 && b <= ONE_Q32 {
            vstd::arithmetic::div_mod::lemma_div_is_ordered(
                (a as int) * (b as int),
                (ONE_Q32 as int) * (ONE_Q32 as int),
                ONE_Q32 as int);
        }
    }
    if p > WEIGHT_CAP as u128 {
        WEIGHT_CAP
    } else {
        p as u64
    }
}

/// Q32 square root: the largest `r` with `(r/2^32)^2 <= b/2^32`.
pub open spec fn spec_sqrt_q32(b: int) -> int {
    spec_isqrt((b * ONE_Q32 as int) as nat) as int
}

fn sqrt_q32(b: u64) -> (r: u64)
    requires
        b < ONE_Q32,
    ensures
        r == spec_sqrt_q32(b as int),
        r < ONE_Q32,
{
    let n = b * ONE_Q32;
    let r = isqrt(n);
    proof {
        if r >= ONE_Q32 {
            assert((r as int) * (r as int) >= (ONE_Q32 as int) * (ONE_Q32 as int))
                by (nonlinear_arith)
                requires r >= ONE_Q32;
        }
    }
    r
}

/// `base` multiplied into `acc` once per unit of the integer exponent:
/// the Q32 value of `base^n`, folded left from `acc`.
pub open spec fn spec_pow_int(acc: int, base: int, n: nat) -> int
    decreases n,
{
    if n == 0 {
        acc
    } else {
        spec_mul_q32(spec_pow_int(acc, base, (n - 1) as nat), base)
    }
}

/// Fractional power accumulator: `k` bits of the exponent fraction remain,
/// `frac < 2^k`; each step halves the exponent of `cur` by a Q32 square
/// root and multiplies `acc` when the leading bit is set.
pub open spec fn spec_pow_frac(acc: int, cur: int, frac: int, k: nat) -> int
    decreases k,
{
    if k == 0 {
        acc
    } else {
        let half = vstd::arithmetic::power2::pow2((k - 1) as nat) as int;
        let c = if cur >= ONE_Q32 as int { cur } else { spec_sqrt_q32(cur) };
        if frac >= half {
            spec_pow_frac(spec_mul_q32(acc, c), c, frac - half, (k - 1) as nat)
        } else {
            spec_pow_frac(acc, c, frac, (k - 1) as nat)
        }
    }
}

/// The Q32 value of `base` raised to the Q16 fixed-point exponent
/// `exp_q16 / 2^16`.
pub open spec fn spec_pow_q32(base: int, exp_q16: int) -> int {
    let ip = spec_pow_int(ONE_Q32 as int, base, (exp_q16 / 0x10000) as nat);
    spec_pow_frac(ip, base, exp_q16 % 0x10000, 16)
}

proof fn lemma_pow_int_le_one(acc: int, base: int, n: nat)
    requires
        0 <= acc <= ONE_Q32 as int,
        0 <= base <= ONE_Q32 as int,
    ensures
        0 <= spec_pow_int(acc, base, n) <= ONE_Q32 as int,
    decreases n,
{
    if n > 0 {
        lemma_pow_int_le_one(acc, base, (n - 1) as nat);
        let p = spec_pow_int(acc, base, (n - 1) as nat);
        assert(0 <= p * base <= (ONE_Q32 as int) * (ONE_Q32 as int)) by (nonlinear_arith)
            requires 0 <= p <= ONE_Q32 as int, 0 <= base <= ONE_Q32 as int;
        vstd::arithmetic::div_mod::lemma_div_is_ordered(
            p * base, (ONE_Q32 as int) * (ONE_Q32 as int), ONE_Q32 as int);
        vstd::arithmetic::div_mod::lemma_div_pos_is_pos(p * base, ONE_Q32 as int);
    }
}

/// Raise a decay base (at most 1.0) to a nonnegative Q16 exponent.
/// Exact whenever the exponent is a whole number: the result is then just
/// `base` multiplied into 1.0 that many times.
pub fn pow_q32(base: u64, exp_q16: u64) -> (r: u64)
    requires
        base <= ONE_Q32,
        exp_q16 < 0x1_0000_0000_0000,
    ensures
        r == spec_pow_q32(base as int, exp_q16 as int),
        r <= ONE_Q32,
{
    let int_part = exp_q16 / 0x10000;
    let frac = exp_q16 % 0x10000;
    let mut result: u64 = ONE_Q32;
    let mut i: u64 = 0;
    proof {
        lemma_pow_int_le_one(ONE_Q32 as int, base as int, int_part as nat);
    }
    while i < int_part
        invariant
            i <= int_part,
            base <= ONE_Q32,
            result == spec_pow_int(ONE_Q32 as int, base as int, i as nat),
            result <= ONE_Q32,
        decreases int_part - i,
    {
        proof {
            lemma_pow_int_le_one(ONE_Q32 as int, base as int, (i + 1) as nat);
        }
        result = mul_q32(result, base);
        i = i + 1;
    }
    let mut cur: u64 = base;
    let mut fr: u64 = frac;
    let mut k: u64 = 16;
    let mut half: u64 = 0x8000;
    proof {
        vstd::arithmetic::power2::lemma2_to64();
    }
    while k > 0
        invariant
            k <= 16,
            cur <= ONE_Q32,
            result <= ONE_Q32,
            half == vstd::arithmetic::power2::pow2((k - 1) as nat) || k == 0,
            fr < 2 * half || k == 0,
            spec_pow_frac(result as int, cur as int, fr as int, k as nat)
                == spec_pow_q32(base as int, exp_q16 as int),
        decreases k,
    {
        proof {
            if k >= 2 {
                vstd::arithmetic::power2::lemma_pow2_unfold((k - 1) as nat);
            }
            vstd::arithmetic::power2::lemma2_to64();
        }
        let c = if cur >= ONE_Q32 { cur } else { sqrt_q32(cur) };
        if fr >= half {
            result = mul_q32(result, c);
            fr = fr - half;
        }
        cur = c;
        k = k - 1;
        half = half / 2;
    }
    result
}

} // verus!
