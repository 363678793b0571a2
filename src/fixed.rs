//! Fixed-point exponential and logarithm.
//!
//! Real numbers are held as integers scaled by `WAD` (10^18). Both functions
//! are series evaluations whose every truncation is written out in the spec
//! functions below, so the executable code is pinned to one exact integer
//! result for every input.
use vstd::arithmetic::power2::{lemma2_to64, lemma_pow2_adds, lemma_pow2_strictly_increases, lemma_pow2_unfold, pow2};
use vstd::prelude::*;

verus! {

/// The fixed-point unit: 1.0 is held as 10^18.
pub const WAD: u128 = 1_000_000_000_000_000_000;

/// e^-1 scaled by `WAD` (rounded to nearest).
pub const E_INV_WAD: u128 = 367_879_441_171_442_322;

/// ln 2 scaled by `WAD` (rounded to nearest).
pub const LN2_WAD: u128 = 693_147_180_559_945_309;

/// Exponents whose integer part reaches this bound give e^-x below 10^-18.
pub const EXP_CUTOFF: u128 = 42;

/// Number of Taylor terms used for e^f on the fractional part.
pub const EXP_TERMS: u128 = 20;

/// Number of terms of the series ln y = 2 * atanh((y - 1) / (y + 1)).
pub const LN_TERMS: u128 = 20;

/// The `t`-th Taylor term f^t / t! of e^f, each step truncated.
pub open spec fn taylor_term(f: int, t: nat) -> int
    decreases t,
{
    if t == 0 {
        WAD as int
    } else {
        taylor_term(f, (t - 1) as nat) * f / (t * WAD)
    }
}

/// The sum of the first `t + 1` Taylor terms of e^f.
pub open spec fn taylor_sum(f: int, t: nat) -> int
    decreases t,
{
    if t == 0 {
        WAD as int
    } else {
        taylor_sum(f, (t - 1) as nat) + taylor_term(f, t)
    }
}

/// `r` multiplied `k` times by e^-1, each step truncated.
pub open spec fn scale_by_e_inv(r: int, k: nat) -> int
    decreases k,
{
    if k == 0 {
        r
    } else {
        scale_by_e_inv(r, (k - 1) as nat) * E_INV_WAD / WAD as int
    }
}

/// e^-x for `x` scaled by `WAD`: e^-f from the Taylor series of e^f on the
/// fractional part, then one factor e^-1 per unit of the integer part.
pub open spec fn exp_neg_spec(x: int) -> int {
    let k = x / WAD as int;
    let f = x % WAD as int;
    if k >= EXP_CUTOFF {
        0
    } else {
        scale_by_e_inv((WAD * WAD) as int / taylor_sum(f, EXP_TERMS as nat), k as nat)
    }
}

/// How often `y` is halved (truncating) before it drops below 2.0.
pub open spec fn halvings(y: int) -> nat
    decreases y,
{
    if y < 2 * WAD || y <= 0 {
        0
    } else {
        halvings(y / 2) + 1
    }
}

/// `y` halved (truncating) until it drops below 2.0.
pub open spec fn mantissa(y: int) -> int
    decreases y,
{
    if y < 2 * WAD || y <= 0 {
        y
    } else {
        mantissa(y / 2)
    }
}

/// The odd powers z^(2t+1), each step multiplied by `z2` and truncated.
pub open spec fn odd_power(z: int, z2: int, t: nat) -> int
    decreases t,
{
    if t == 0 {
        z
    } else {
        odd_power(z, z2, (t - 1) as nat) * z2 / WAD as int
    }
}

/// The partial sum of z^(2j+1) / (2j+1) for j up to `t`.
pub open spec fn atanh_sum(z: int, z2: int, t: nat) -> int
    decreases t,
{
    if t == 0 {
        z
    } else {
        atanh_sum(z, z2, (t - 1) as nat) + odd_power(z, z2, t) / (2 * t + 1) as int
    }
}

/// ln(y / WAD) scaled by `WAD`, for y at least 1.0: k ln 2 for the halvings,
/// then 2 atanh((m - 1) / (m + 1)) for the mantissa m in [1, 2).
pub open spec fn ln_spec(y: int) -> int {
    let m = mantissa(y);
    let z = (m - WAD) * WAD / (m + WAD);
    let z2 = z * z / WAD as int;
    halvings(y) * LN2_WAD + 2 * atanh_sum(z, z2, (LN_TERMS - 1) as nat)
}

proof fn lemma_taylor_bounds(f: int, t: nat)
    requires
        0 <= f < WAD,
    ensures
        0 <= taylor_term(f, t) <= WAD,
        WAD <= taylor_sum(f, t) <= (t + 1) * WAD,
    decreases t,
{
    if t > 0 {
        lemma_taylor_bounds(f, (t - 1) as nat);
        let p = taylor_term(f, (t - 1) as nat);
        assert(0 <= p * f <= WAD * (t * WAD)) by (nonlinear_arith)
            requires
                0 <= p <= WAD,
                0 <= f < WAD,
                t >= 1,
        ;
        assert(0 <= p * f / (t * WAD) <= WAD) by (nonlinear_arith)
            requires
                0 <= p * f <= WAD * (t * WAD),
                t >= 1,
        ;
    }
}

proof fn lemma_taylor_at_zero(t: nat)
    ensures
        taylor_sum(0, t) == WAD,
        t > 0 ==> taylor_term(0, t) == 0,
    decreases t,
{
    if t > 0 {
        lemma_taylor_at_zero((t - 1) as nat);
    }
}

proof fn lemma_scale_bounds(r: int, k: nat)
    requires
        0 <= r <= WAD,
    ensures
        0 <= scale_by_e_inv(r, k) <= WAD,
    decreases k,
{
    if k > 0 {
        lemma_scale_bounds(r, (k - 1) as nat);
        let p = scale_by_e_inv(r, (k - 1) as nat);
        assert(0 <= p * E_INV_WAD / WAD as int <= WAD) by (nonlinear_arith)
            requires
                0 <= p <= WAD,
        ;
    }
}

/// e^-x lies in [0, 1], and e^-0 is exactly 1.
pub proof fn lemma_exp_neg_bounds(x: int)
    requires
        x >= 0,
    ensures
        0 <= exp_neg_spec(x) <= WAD,
        x == 0 ==> exp_neg_spec(x) == WAD,
{
    let f = x % WAD as int;
    lemma_taylor_bounds(f, EXP_TERMS as nat);
    let s = taylor_sum(f, EXP_TERMS as nat);
    assert(0 <= (WAD * WAD) as int / s <= WAD) by (nonlinear_arith)
        requires
            s >= WAD,
    ;
    lemma_scale_bounds((WAD * WAD) as int / s, (x / WAD as int) as nat);
    if x == 0 {
        lemma_taylor_at_zero(EXP_TERMS as nat);
        assert((WAD * WAD) as int / (WAD as int) == WAD) by (nonlinear_arith);
    }
}

/// e^-x for `x` scaled by `WAD`, as `exp_neg_spec` states it.
pub fn exp_neg_wad(x: u128) -> (r: u128)
    ensures
        r == exp_neg_spec(x as int),
        r <= WAD,
{
    proof {
        lemma_exp_neg_bounds(x as int);
    }
    let k = x / WAD;
    let f = x % WAD;
    if k >= EXP_CUTOFF {
        return 0;
    }
    let mut term: u128 = WAD;
    let mut sum: u128 = WAD;
    let mut t: u128 = 1;
    while t <= EXP_TERMS
        invariant
            1 <= t <= EXP_TERMS + 1,
            f < WAD,
            term == taylor_term(f as int, (t - 1) as nat),
            sum == taylor_sum(f as int, (t - 1) as nat),
        decreases EXP_TERMS + 1 - t,
    {
        proof {
            lemma_taylor_bounds(f as int, (t - 1) as nat);
            lemma_taylor_bounds(f as int, t as nat);
            assert(term * f <= WAD * WAD) by (nonlinear_arith)
                requires
                    term <= WAD,
                    f < WAD,
            ;
        }
        term = term * f / (t * WAD);
        sum = sum + term;
        t = t + 1;
    }
    proof {
        lemma_taylor_bounds(f as int, EXP_TERMS as nat);
    }
    let mut r: u128 = WAD * WAD / sum;
    let ghost r0 = r as int;
    assert(r <= WAD) by (nonlinear_arith)
        requires
            sum >= WAD,
            r == (WAD * WAD) as int / sum as int,
    ;
    let mut j: u128 = 0;
    while j < k
        invariant
            j <= k,
            0 <= r0 <= WAD,
            r == scale_by_e_inv(r0, j as nat),
        decreases k - j,
    {
        proof {
            lemma_scale_bounds(r0, j as nat);
        }
        r = r * E_INV_WAD / WAD;
        j = j + 1;
    }
    r
}

proof fn lemma_halvings_scale(y: int)
    requires
        WAD <= y,
    ensures
        WAD <= mantissa(y) < 2 * WAD,
        WAD * pow2(halvings(y)) <= y,
    decreases y,
{
    if y >= 2 * WAD {
        lemma_halvings_scale(y / 2);
        let h = halvings(y / 2);
        lemma_pow2_unfold(h + 1);
        assert(WAD * pow2(h + 1) == 2 * (WAD * pow2(h))) by (nonlinear_arith)
            requires
                pow2(h + 1) == 2 * pow2(h),
        ;
    } else {
        assert(pow2(0) == 1) by {
            lemma2_to64();
        }
    }
}

/// A value of `u128` at least 1.0 halves at most 68 times below 2.0, and
/// what is left lies in [1.0, 2.0).
pub proof fn lemma_halvings_bound(y: int)
    requires
        WAD <= y <= u128::MAX,
    ensures
        WAD <= mantissa(y) < 2 * WAD,
        halvings(y) <= 68,
{
    lemma_halvings_scale(y);
    let h = halvings(y);
    if h > 68 {
        lemma_pow2_strictly_increases(68, h);
        lemma2_to64();
        lemma_pow2_adds(64, 5);
        assert(pow2(69) == pow2(64) * pow2(5));
        assert(pow2(h) >= pow2(69)) by {
            if h > 69 {
                lemma_pow2_strictly_increases(69, h);
            }
        }
        assert(WAD * pow2(h) >= WAD * pow2(69)) by (nonlinear_arith)
            requires
                pow2(h) >= pow2(69),
        ;
    }
}

proof fn lemma_atanh_bounds(z: int, z2: int, t: nat)
    requires
        0 <= z <= WAD,
        0 <= z2 <= WAD,
    ensures
        0 <= odd_power(z, z2, t) <= WAD,
        0 <= atanh_sum(z, z2, t) <= (t + 1) * WAD,
    decreases t,
{
    if t > 0 {
        lemma_atanh_bounds(z, z2, (t - 1) as nat);
        let p = odd_power(z, z2, (t - 1) as nat);
        assert(0 <= p * z2 / WAD as int <= WAD) by (nonlinear_arith)
            requires
                0 <= p <= WAD,
                0 <= z2 <= WAD,
        ;
        let q = odd_power(z, z2, t);
        assert(0 <= q / (2 * t + 1) as int <= WAD) by (nonlinear_arith)
            requires
                0 <= q <= WAD,
                t >= 1,
        ;
    }
}

/// The logarithm of a value of at least 1.0 is non-negative and below 100.0.
pub proof fn lemma_ln_bounds(y: int)
    requires
        WAD <= y <= u128::MAX,
    ensures
        0 <= ln_spec(y) < 100 * WAD,
{
    lemma_halvings_bound(y);
    let m = mantissa(y);
    let z = (m - WAD) * WAD / (m + WAD);
    assert(0 <= z <= WAD) by (nonlinear_arith)
        requires
            WAD <= m < 2 * WAD,
            z == (m - WAD) * WAD / (m + WAD),
    ;
    let z2 = z * z / WAD as int;
    assert(0 <= z2 <= WAD) by (nonlinear_arith)
        requires
            0 <= z <= WAD,
            z2 == z * z / WAD as int,
    ;
    lemma_atanh_bounds(z, z2, (LN_TERMS - 1) as nat);
}

/// ln(y) for `y` scaled by `WAD` and at least 1.0, as `ln_spec` states it.
pub fn ln_wad(y: u128) -> (r: u128)
    requires
        WAD <= y,
    ensures
        r == ln_spec(y as int),
        r < 100 * WAD,
{
    proof {
        lemma_halvings_bound(y as int);
        lemma_ln_bounds(y as int);
    }
    let mut m: u128 = y;
    let mut k: u128 = 0;
    while m >= 2 * WAD
        invariant
            WAD <= m <= y,
            halvings(y as int) == halvings(m as int) + k,
            mantissa(y as int) == mantissa(m as int),
            halvings(y as int) <= 68,
        decreases m,
    {
        m = m / 2;
        k = k + 1;
    }
    let z: u128 = (m - WAD) * WAD / (m + WAD);
    assert(z <= WAD) by (nonlinear_arith)
        requires
            WAD <= m < 2 * WAD,
            z == (m - WAD) * WAD / (m + WAD),
    ;
    assert(z * z <= WAD * WAD) by (nonlinear_arith)
        requires
            z <= WAD,
    ;
    let z2: u128 = z * z / WAD;
    assert(z2 <= WAD) by (nonlinear_arith)
        requires
            z <= WAD,
            z2 == (z * z) as int / WAD as int,
    ;
    let mut pw: u128 = z;
    let mut acc: u128 = z;
    let mut t: u128 = 1;
    while t < LN_TERMS
        invariant
            1 <= t <= LN_TERMS,
            z <= WAD,
            z2 <= WAD,
            pw == odd_power(z as int, z2 as int, (t - 1) as nat),
            acc == atanh_sum(z as int, z2 as int, (t - 1) as nat),
        decreases LN_TERMS - t,
    {
        proof {
            lemma_atanh_bounds(z as int, z2 as int, (t - 1) as nat);
            lemma_atanh_bounds(z as int, z2 as int, t as nat);
            assert(pw * z2 <= WAD * WAD) by (nonlinear_arith)
                requires
                    pw <= WAD,
                    z2 <= WAD,
            ;
        }
        pw = pw * z2 / WAD;
        acc = acc + pw / (2 * t + 1);
        t = t + 1;
    }
    proof {
        lemma_atanh_bounds(z as int, z2 as int, (LN_TERMS - 1) as nat);
    }
    k * LN2_WAD + 2 * acc
}

} // verus!
