//! The LS-LMSR cost, price and quote engine, and the quantity solver.
//!
//! Quantities are whole shares. The liquidity parameter `b` is held in base
//! units (10^9 base units make one major unit), so a market whose pool holds
//! `L` base units has `b = 100 * L`. Costs are returned in base units,
//! truncated.
//!
//! The cost C(q) = b ln(sum_j exp(q_j / b)) is evaluated with the max shifted
//! out: C(q) = max(q) + b ln(sum_j exp(-(max(q) - q_j) / b)), with every
//! exponential and the logarithm taken in fixed point (see `fixed`).
use crate::errors::OpinionMarketError;
use crate::fixed::{
    exp_neg_spec, exp_neg_wad, lemma_exp_neg_bounds, lemma_ln_bounds, ln_spec, ln_wad, EXP_CUTOFF,
    WAD,
};
use vstd::prelude::*;

verus! {

/// Base units per major unit.
pub const NANO: u128 = 1_000_000_000;

/// Liquidity parameter per base unit of pooled liquidity.
pub const LIQUIDITY_SCALE: u64 = 100;

/// Every cost of 64-bit quantities in base units lies below this bound.
pub const COST_BOUND: u128 = 100_000_000_000_000_000_000_000_000_000;

/// Basis points in a whole.
pub const BPS: u64 = 10_000;

/// The largest quantity in `q` (0 for the empty sequence).
pub open spec fn max_quantity(q: Seq<u64>) -> int
    decreases q.len(),
{
    if q.len() == 0 {
        0
    } else {
        vstd::math::max(max_quantity(q.drop_last()), q.last() as int)
    }
}

/// exp(-d / b) scaled by `WAD`, for a distance `d` in shares below the
/// largest quantity and `b` in base units.
pub open spec fn weight(d: int, b: int) -> int {
    let a = d * NANO;
    if a / b >= EXP_CUTOFF {
        0
    } else {
        exp_neg_spec((a / b) * WAD + (a % b) * WAD / b)
    }
}

/// The sum of the weights of the quantities in `q` below the level `m`.
pub open spec fn weight_sum(q: Seq<u64>, m: int, b: int) -> int
    decreases q.len(),
{
    if q.len() == 0 {
        0
    } else {
        weight_sum(q.drop_last(), m, b) + weight(m - q.last(), b)
    }
}

/// sum_j exp(-(max(q) - q_j) / b), scaled by `WAD`.
pub open spec fn partition(q: Seq<u64>, b: int) -> int {
    weight_sum(q, max_quantity(q), b)
}

/// C(q) in base units: max(q) + b ln(partition), truncated.
pub open spec fn cost_spec(q: Seq<u64>, b: int) -> int {
    max_quantity(q) * NANO + b * (ln_spec(partition(q, b)) / NANO as int) / NANO as int
}

/// The price of outcome `i` in basis points: exp(q_i / b) / sum_j exp(q_j / b),
/// times 10000, rounded to nearest.
pub open spec fn price_spec(q: Seq<u64>, i: int, b: int) -> int {
    let s = partition(q, b);
    (2 * BPS * weight(max_quantity(q) - q[i], b) + s) / (2 * s)
}

/// `q` with `shares` more of outcome `i`.
pub open spec fn bought(q: Seq<u64>, i: int, shares: int) -> Seq<u64> {
    q.update(i, (q[i] + shares) as u64)
}

/// `q` with `shares` fewer of outcome `i`.
pub open spec fn sold(q: Seq<u64>, i: int, shares: int) -> Seq<u64> {
    q.update(i, (q[i] - shares) as u64)
}

/// C(q with q_i += shares) - C(q).
pub open spec fn buy_cost_spec(q: Seq<u64>, i: int, shares: int, b: int) -> int {
    cost_spec(bought(q, i, shares), b) - cost_spec(q, b)
}

/// C(q) - C(q with q_i -= shares).
pub open spec fn sell_cost_spec(q: Seq<u64>, i: int, shares: int, b: int) -> int {
    cost_spec(q, b) - cost_spec(sold(q, i, shares), b)
}

/// What `buy_cost` returns: `InvalidInput` for an index out of range or a
/// zero `b`, `ArithmeticOverflow` when q_i + shares or the cost leaves 64 bits
/// (or the cost is negative), else the cost.
pub open spec fn buy_cost_result(q: Seq<u64>, i: int, shares: int, b: int) -> Result<
    u64,
    OpinionMarketError,
> {
    if !(0 <= i < q.len()) || b == 0 {
        Err(OpinionMarketError::InvalidInput)
    } else if q[i] + shares > u64::MAX {
        Err(OpinionMarketError::ArithmeticOverflow)
    } else if !(0 <= buy_cost_spec(q, i, shares, b) <= u64::MAX) {
        Err(OpinionMarketError::ArithmeticOverflow)
    } else {
        Ok(buy_cost_spec(q, i, shares, b) as u64)
    }
}

/// Buying `shares` of outcome `i` costs at most `cost`.
pub open spec fn affordable(q: Seq<u64>, i: int, shares: int, b: int, cost: int) -> bool {
    buy_cost_spec(q, i, shares, b) <= cost
}

/// Binary search on [lo, hi] for the last share count whose buy cost fits in
/// `cost`: the highest probed count that was affordable, or `lo - 1`.
pub open spec fn search(q: Seq<u64>, i: int, b: int, cost: int, lo: int, hi: int) -> int
    decreases hi - lo + 1,
{
    if lo > hi {
        hi
    } else {
        let mid = lo + (hi - lo) / 2;
        if affordable(q, i, mid, b, cost) {
            search(q, i, b, cost, mid + 1, hi)
        } else {
            search(q, i, b, cost, lo, mid - 1)
        }
    }
}

/// The largest share count that the solver considers for outcome `i`: every
/// count that keeps q_i representable.
pub open spec fn share_ceiling(q: Seq<u64>, i: int) -> int {
    u64::MAX - q[i]
}

/// What `shares_for_cost` returns on valid arguments.
pub open spec fn shares_for_cost_spec(q: Seq<u64>, i: int, cost: int, b: int) -> int {
    if cost == 0 {
        0
    } else {
        search(q, i, b, cost, 1, share_ceiling(q, i))
    }
}

/// floor(amount * rate / 10000).
pub open spec fn fee_spec(amount: int, fee_rate_bps: int) -> int {
    amount * fee_rate_bps / BPS as int
}

/// |actual - expected| <= floor(expected * tolerance / 10000).
pub open spec fn within_slippage(expected: int, actual: int, tolerance_bps: int) -> bool {
    let diff = if actual > expected {
        actual - expected
    } else {
        expected - actual
    };
    diff <= expected * tolerance_bps / BPS as int
}

pub proof fn lemma_max_quantity(q: Seq<u64>)
    requires
        q.len() > 0,
    ensures
        exists|k: int| 0 <= k < q.len() && q[k] == max_quantity(q),
        forall|k: int| 0 <= k < q.len() ==> q[k] <= max_quantity(q),
        0 <= max_quantity(q) <= u64::MAX,
    decreases q.len(),
{
    let p = q.drop_last();
    if p.len() == 0 {
        assert(q[0] == max_quantity(q));
    } else {
        lemma_max_quantity(p);
        if max_quantity(p) >= q.last() {
            let k = choose|k: int| 0 <= k < p.len() && p[k] == max_quantity(p);
            assert(q[k] == max_quantity(q));
        } else {
            assert(q[q.len() - 1] == max_quantity(q));
        }
        assert forall|k: int| 0 <= k < q.len() implies q[k] <= max_quantity(q) by {
            if k < p.len() {
                assert(q[k] == p[k]);
            }
        }
    }
}

pub proof fn lemma_weight_bounds(d: int, b: int)
    requires
        d >= 0,
        b > 0,
    ensures
        0 <= weight(d, b) <= WAD,
        d == 0 ==> weight(d, b) == WAD,
{
    let a = d * NANO;
    assert(a >= 0) by (nonlinear_arith)
        requires
            d >= 0,
            a == d * NANO,
    ;
    assert(a / b >= 0 && a % b >= 0) by (nonlinear_arith)
        requires
            a >= 0,
            b > 0,
    ;
    assert((a % b) * WAD / b >= 0) by (nonlinear_arith)
        requires
            a % b >= 0,
            b > 0,
    ;
    lemma_exp_neg_bounds((a / b) * WAD + (a % b) * WAD / b);
    if d == 0 {
        assert(a == 0);
        assert(a / b == 0 && a % b == 0) by (nonlinear_arith)
            requires
                a == 0,
                b > 0,
        ;
        assert((a % b) * WAD / b == 0) by (nonlinear_arith)
            requires
                a % b == 0,
                b > 0,
        ;
    }
}

/// Each weight of `q` below a level `m` at or above all of `q` lies in
/// [0, 1], so the sum lies in [0, len].
pub proof fn lemma_weight_sum_bounds(q: Seq<u64>, m: int, b: int)
    requires
        b > 0,
        forall|k: int| 0 <= k < q.len() ==> q[k] <= m,
    ensures
        0 <= weight_sum(q, m, b) <= q.len() * WAD,
        forall|k: int| 0 <= k < q.len() ==> weight(m - q[k], b) <= weight_sum(q, m, b),
    decreases q.len(),
{
    if q.len() > 0 {
        let p = q.drop_last();
        assert forall|k: int| 0 <= k < p.len() implies p[k] <= m by {
            assert(p[k] == q[k]);
        }
        lemma_weight_sum_bounds(p, m, b);
        lemma_weight_bounds(m - q.last(), b);
        assert forall|k: int| 0 <= k < q.len() implies weight(m - q[k], b) <= weight_sum(q, m, b) by {
            if k < p.len() {
                assert(p[k] == q[k]);
            }
        }
    }
}

/// The partition of a non-empty `q` lies in [1, len(q)].
pub proof fn lemma_partition_bounds(q: Seq<u64>, b: int)
    requires
        q.len() > 0,
        b > 0,
    ensures
        WAD <= partition(q, b) <= q.len() * WAD,
{
    lemma_max_quantity(q);
    lemma_weight_sum_bounds(q, max_quantity(q), b);
    let k = choose|k: int| 0 <= k < q.len() && q[k] == max_quantity(q);
    lemma_weight_bounds(0, b);
    assert(weight(max_quantity(q) - q[k], b) == WAD);
}

/// exp(-d / b) scaled by `WAD`, as `weight` states it.
fn weight_exec(d: u64, b: u64) -> (r: u128)
    requires
        b > 0,
    ensures
        r == weight(d as int, b as int),
{
    let a: u128 = d as u128 * NANO;
    let whole: u128 = a / (b as u128);
    if whole >= EXP_CUTOFF {
        return 0;
    }
    let rem: u128 = a % (b as u128);
    assert(rem * WAD < (b as int) * WAD) by (nonlinear_arith)
        requires
            rem < b,
    ;
    let x: u128 = whole * WAD + rem * WAD / (b as u128);
    exp_neg_wad(x)
}

/// The largest quantity of a slice.
fn max_of(q: &[u64]) -> (r: u64)
    ensures
        r == max_quantity(q@),
{
    let mut m: u64 = 0;
    let mut j: usize = 0;
    while j < q.len()
        invariant
            j <= q@.len(),
            m == max_quantity(q@.take(j as int)),
        decreases q@.len() - j,
    {
        assert(q@.take(j as int + 1).drop_last() =~= q@.take(j as int));
        if q[j] > m {
            m = q[j];
        }
        j = j + 1;
    }
    assert(q@.take(q@.len() as int) =~= q@);
    m
}

/// C(q) in base units, in the wide type that holds it for every input.
fn cost_wide(q: &[u64], b: u64) -> (r: u128)
    requires
        q@.len() > 0,
        b > 0,
    ensures
        r == cost_spec(q@, b as int),
        r < COST_BOUND,
{
    let m = max_of(q);
    proof {
        lemma_max_quantity(q@);
        lemma_partition_bounds(q@, b as int);
    }
    let mut s: u128 = 0;
    let mut j: usize = 0;
    while j < q.len()
        invariant
            j <= q@.len(),
            b > 0,
            m == max_quantity(q@),
            forall|k: int| 0 <= k < q@.len() ==> q@[k] <= m,
            s == weight_sum(q@.take(j as int), m as int, b as int),
            s <= j * WAD,
        decreases q@.len() - j,
    {
        assert(q@.take(j as int + 1).drop_last() =~= q@.take(j as int));
        proof {
            lemma_weight_bounds(m - q@[j as int], b as int);
        }
        let w = weight_exec(m - q[j], b);
        s = s + w;
        j = j + 1;
    }
    assert(q@.take(q@.len() as int) =~= q@);
    let l = ln_wad(s);
    proof {
        lemma_ln_bounds(s as int);
    }
    let lb: u128 = l / NANO;
    assert((b as u128) * lb <= 0xffff_ffff_ffff_ffffu128 * 100_000_000_000u128) by (nonlinear_arith)
        requires
            lb <= 100_000_000_000u128,
            b <= 0xffff_ffff_ffff_ffffu64,
    ;
    assert((m as int) * NANO + ((b as int) * lb) / (NANO as int) < COST_BOUND) by (nonlinear_arith)
        requires
            (b as u128) * lb <= 0xffff_ffff_ffff_ffffu128 * 100_000_000_000u128,
            m <= 0xffff_ffff_ffff_ffffu64,
    ;
    (m as u128) * NANO + (b as u128) * lb / NANO
}

/// A copy of `q` with outcome `i` set to `v`.
fn with_quantity(q: &[u64], i: usize, v: u64) -> (r: Vec<u64>)
    requires
        i < q@.len(),
    ensures
        r@ == q@.update(i as int, v),
{
    let mut r: Vec<u64> = Vec::new();
    let mut j: usize = 0;
    while j < q.len()
        invariant
            j <= q@.len(),
            i < q@.len(),
            r@ == q@.update(i as int, v).take(j as int),
        decreases q@.len() - j,
    {
        if j == i {
            r.push(v);
        } else {
            r.push(q[j]);
        }
        j = j + 1;
        assert(r@ =~= q@.update(i as int, v).take(j as int));
    }
    assert(q@.update(i as int, v).take(q@.len() as int) =~= q@.update(i as int, v));
    r
}

/// The search narrows [lo, hi] to a single boundary: its result lies in
/// [lo - 1, hi], is affordable unless it is `lo - 1`, and the next count is
/// not affordable unless it is `hi`.
pub proof fn lemma_search_boundary(q: Seq<u64>, i: int, b: int, cost: int, lo: int, hi: int)
    requires
        lo <= hi + 1,
    ensures
        lo - 1 <= search(q, i, b, cost, lo, hi) <= hi,
        search(q, i, b, cost, lo, hi) == lo - 1 || affordable(
            q,
            i,
            search(q, i, b, cost, lo, hi),
            b,
            cost,
        ),
        search(q, i, b, cost, lo, hi) == hi || !affordable(
            q,
            i,
            search(q, i, b, cost, lo, hi) + 1,
            b,
            cost,
        ),
    decreases hi - lo + 1,
{
    if lo <= hi {
        let mid = lo + (hi - lo) / 2;
        if affordable(q, i, mid, b, cost) {
            lemma_search_boundary(q, i, b, cost, mid + 1, hi);
        } else {
            lemma_search_boundary(q, i, b, cost, lo, mid - 1);
        }
    }
}

/// The sum of the prices of outcomes 0 .. k-1, in basis points.
pub open spec fn price_sum(q: Seq<u64>, b: int, k: nat) -> int
    decreases k,
{
    if k == 0 {
        0
    } else {
        price_sum(q, b, (k - 1) as nat) + price_spec(q, (k - 1) as int, b)
    }
}

proof fn lemma_price_rounding(w: int, s: int, p: int)
    requires
        0 <= w <= s,
        s > 0,
        p == (2 * BPS * w + s) / (2 * s),
    ensures
        2 * s * p <= 2 * BPS * w + s,
        2 * BPS * w + s < 2 * s * p + 2 * s,
        0 <= p <= BPS,
{
    let x = 2 * BPS * w + s;
    let d = 2 * s;
    vstd::arithmetic::div_mod::lemma_fundamental_div_mod(x, d);
    assert(0 <= x % d < d) by {
        vstd::arithmetic::div_mod::lemma_mod_bound(x, d);
    }
    assert(d * p == 2 * s * p) by (nonlinear_arith)
        requires
            d == 2 * s,
    ;
    assert(0 <= p <= BPS) by (nonlinear_arith)
        requires
            0 <= w <= s,
            s > 0,
            d == 2 * s,
            x == 2 * BPS * w + s,
            x == d * p + x % d,
            0 <= x % d < d,
    ;
}

proof fn lemma_price_prefix(q: Seq<u64>, b: int, k: nat)
    requires
        q.len() > 0,
        b > 0,
        k <= q.len(),
    ensures
        2 * partition(q, b) * price_sum(q, b, k) <= 2 * BPS * weight_sum(
            q.take(k as int),
            max_quantity(q),
            b,
        ) + k * partition(q, b),
        2 * BPS * weight_sum(q.take(k as int), max_quantity(q), b) - k * partition(q, b) <= 2
            * partition(q, b) * price_sum(q, b, k),
    decreases k,
{
    let s = partition(q, b);
    let m = max_quantity(q);
    if k > 0 {
        lemma_price_prefix(q, b, (k - 1) as nat);
        lemma_partition_bounds(q, b);
        lemma_max_quantity(q);
        lemma_weight_sum_bounds(q, m, b);
        let j = k - 1;
        assert(q.take(k as int).drop_last() =~= q.take(j as int));
        let w = weight(m - q[j as int], b);
        lemma_weight_bounds(m - q[j as int], b);
        let p = price_spec(q, j as int, b);
        lemma_price_rounding(w, s, p);
        let ps = price_sum(q, b, j as nat);
        let wp = weight_sum(q.take(j as int), m, b);
        assert(2 * s * (ps + p) == 2 * s * ps + 2 * s * p) by (nonlinear_arith);
        assert(k * s == j * s + s) by (nonlinear_arith)
            requires
                k == j + 1,
        ;
    }
}

/// Each price lies in [0, 10000] basis points, and the prices of all
/// outcomes sum to 10000 up to half a basis point of rounding per outcome.
pub proof fn lemma_prices_sum_to_one(q: Seq<u64>, b: int)
    requires
        q.len() > 0,
        b > 0,
    ensures
        forall|i: int| 0 <= i < q.len() ==> 0 <= #[trigger] price_spec(q, i, b) <= BPS,
        2 * BPS - q.len() <= 2 * price_sum(q, b, q.len()) <= 2 * BPS + q.len(),
{
    let s = partition(q, b);
    let m = max_quantity(q);
    lemma_partition_bounds(q, b);
    lemma_max_quantity(q);
    lemma_weight_sum_bounds(q, m, b);
    assert forall|i: int| 0 <= i < q.len() implies 0 <= #[trigger] price_spec(q, i, b) <= BPS by {
        lemma_weight_bounds(m - q[i], b);
        lemma_price_rounding(weight(m - q[i], b), s, price_spec(q, i, b));
    }
    lemma_price_prefix(q, b, q.len());
    assert(q.take(q.len() as int) =~= q);
    let t = price_sum(q, b, q.len());
    let n = q.len() as int;
    assert(2 * BPS - n <= 2 * t <= 2 * BPS + n) by (nonlinear_arith)
        requires
            s > 0,
            2 * s * t <= 2 * BPS * s + n * s,
            2 * BPS * s - n * s <= 2 * s * t,
    ;
}

/// Selling the shares just bought, from the quantities that the purchase
/// left, returns exactly what they cost: both are the same difference of
/// C, truncated in the same way.
pub proof fn lemma_buy_then_sell_round_trip(q: Seq<u64>, i: int, shares: int, b: int)
    requires
        0 <= i < q.len(),
        0 <= shares,
        q[i] + shares <= u64::MAX,
    ensures
        bought(q, i, shares)[i] >= shares,
        sell_cost_spec(bought(q, i, shares), i, shares, b) == buy_cost_spec(q, i, shares, b),
{
    assert(sold(bought(q, i, shares), i, shares) =~= q);
}

proof fn lemma_search_monotone(q: Seq<u64>, i: int, b: int, c1: int, c2: int, lo: int, hi: int)
    requires
        lo <= hi + 1,
        c1 <= c2,
    ensures
        search(q, i, b, c1, lo, hi) <= search(q, i, b, c2, lo, hi),
    decreases hi - lo + 1,
{
    if lo <= hi {
        let mid = lo + (hi - lo) / 2;
        let a1 = affordable(q, i, mid, b, c1);
        let a2 = affordable(q, i, mid, b, c2);
        if a1 {
            lemma_search_monotone(q, i, b, c1, c2, mid + 1, hi);
        } else if !a2 {
            lemma_search_monotone(q, i, b, c1, c2, lo, mid - 1);
        } else {
            lemma_search_boundary(q, i, b, c1, lo, mid - 1);
            lemma_search_boundary(q, i, b, c2, mid + 1, hi);
        }
    }
}

/// A larger budget never buys fewer shares: `shares_for_cost` is
/// non-decreasing in `cost` for fixed quantities, outcome and `b`.
pub proof fn lemma_shares_for_cost_monotone(q: Seq<u64>, i: int, b: int, c1: int, c2: int)
    requires
        0 <= i < q.len(),
        0 <= c1 <= c2,
    ensures
        shares_for_cost_spec(q, i, c1, b) <= shares_for_cost_spec(q, i, c2, b),
{
    lemma_search_boundary(q, i, b, c2, 1, share_ceiling(q, i));
    if c1 > 0 {
        lemma_search_monotone(q, i, b, c1, c2, 1, share_ceiling(q, i));
    }
}

/// Unit type that carries the engine's operations.
pub struct LsLmsr;

impl LsLmsr {
    /// C(q) in base units. Fails with `InvalidInput` on an empty `quantities`
    /// or a zero `liquidity_param`, and with `ArithmeticOverflow` when the cost
    /// does not fit in 64 bits.
    pub fn cost_function(quantities: &[u64], liquidity_param: u64) -> (r: Result<
        u64,
        OpinionMarketError,
    >)
        ensures
            quantities@.len() == 0 || liquidity_param == 0 ==> r == Err::<
                u64,
                OpinionMarketError,
            >(OpinionMarketError::InvalidInput),
            quantities@.len() > 0 && liquidity_param > 0 ==> {
                let c = cost_spec(quantities@, liquidity_param as int);
                &&& c > u64::MAX ==> r == Err::<u64, OpinionMarketError>(
                    OpinionMarketError::ArithmeticOverflow,
                )
                &&& c <= u64::MAX ==> r == Ok::<u64, OpinionMarketError>(c as u64)
            },
    {
        if quantities.len() == 0 || liquidity_param == 0 {
            return Err(OpinionMarketError::InvalidInput);
        }
        let c = cost_wide(quantities, liquidity_param);
        if c > u64::MAX as u128 {
            Err(OpinionMarketError::ArithmeticOverflow)
        } else {
            Ok(c as u64)
        }
    }

    /// The price of outcome `option_index` in basis points, in [0, 10000].
    /// Fails with `InvalidInput` on an index out of range or a zero
    /// `liquidity_param`.
    pub fn price_function(quantities: &[u64], option_index: usize, liquidity_param: u64) -> (r:
        Result<u64, OpinionMarketError>)
        ensures
            option_index >= quantities@.len() || liquidity_param == 0 ==> r == Err::<
                u64,
                OpinionMarketError,
            >(OpinionMarketError::InvalidInput),
            option_index < quantities@.len() && liquidity_param > 0 ==> r == Ok::<
                u64,
                OpinionMarketError,
            >(price_spec(quantities@, option_index as int, liquidity_param as int) as u64),
            r is Ok ==> r->Ok_0 <= BPS,
    {
        if option_index >= quantities.len() || liquidity_param == 0 {
            return Err(OpinionMarketError::InvalidInput);
        }
        let m = max_of(quantities);
        proof {
            lemma_max_quantity(quantities@);
            lemma_partition_bounds(quantities@, liquidity_param as int);
            lemma_weight_sum_bounds(quantities@, m as int, liquidity_param as int);
            lemma_weight_bounds(m - quantities@[option_index as int], liquidity_param as int);
        }
        let mut s: u128 = 0;
        let mut j: usize = 0;
        while j < quantities.len()
            invariant
                j <= quantities@.len(),
                liquidity_param > 0,
                m == max_quantity(quantities@),
                forall|k: int| 0 <= k < quantities@.len() ==> quantities@[k] <= m,
                s == weight_sum(quantities@.take(j as int), m as int, liquidity_param as int),
                s <= j * WAD,
            decreases quantities@.len() - j,
        {
            assert(quantities@.take(j as int + 1).drop_last() =~= quantities@.take(j as int));
            proof {
                lemma_weight_bounds(m - quantities@[j as int], liquidity_param as int);
            }
            let w = weight_exec(m - quantities[j], liquidity_param);
            s = s + w;
            j = j + 1;
        }
        assert(quantities@.take(quantities@.len() as int) =~= quantities@);
        let w = weight_exec(m - quantities[option_index], liquidity_param);
        let p: u128 = (2 * (BPS as u128) * w + s) / (2 * s);
        assert(p <= BPS) by (nonlinear_arith)
            requires
                w <= s,
                s >= WAD,
                p == (2 * (BPS as u128) * w + s) / (2 * s),
        ;
        Ok(p as u64)
    }

    /// The cost in base units of `shares` more of outcome `option_index`:
    /// C(q with q_i += shares) - C(q). Fails with `InvalidInput` on an index out
    /// of range or a zero `liquidity_param`, and with `ArithmeticOverflow` when
    /// q_i + shares or the cost leaves 64 bits (or the cost is negative).
    pub fn buy_cost(quantities: &[u64], option_index: usize, shares: u64, liquidity_param: u64) -> (r:
        Result<u64, OpinionMarketError>)
        ensures
            r == buy_cost_result(quantities@, option_index as int, shares as int, liquidity_param as int),
    {
        if option_index >= quantities.len() || liquidity_param == 0 {
            return Err(OpinionMarketError::InvalidInput);
        }
        let new_q = match quantities[option_index].checked_add(shares) {
            Some(v) => v,
            None => return Err(OpinionMarketError::ArithmeticOverflow),
        };
        let current = cost_wide(quantities, liquidity_param);
        let next = with_quantity(quantities, option_index, new_q);
        let after = cost_wide(next.as_slice(), liquidity_param);
        if after < current || after - current > u64::MAX as u128 {
            return Err(OpinionMarketError::ArithmeticOverflow);
        }
        Ok((after - current) as u64)
    }

    /// The proceeds in base units of selling `shares` of outcome
    /// `option_index`: C(q) - C(q with q_i -= shares). Fails with `InvalidInput`
    /// on an index out of range or a zero `liquidity_param`, with
    /// `InsufficientShares` when q_i < shares, and with `ArithmeticOverflow`
    /// when the proceeds leave 64 bits (or are negative).
    pub fn sell_cost(quantities: &[u64], option_index: usize, shares: u64, liquidity_param: u64) -> (r:
        Result<u64, OpinionMarketError>)
        ensures
            option_index >= quantities@.len() || liquidity_param == 0 ==> r == Err::<
                u64,
                OpinionMarketError,
            >(OpinionMarketError::InvalidInput),
            option_index < quantities@.len() && liquidity_param > 0 ==> {
                let c = sell_cost_spec(
                    quantities@,
                    option_index as int,
                    shares as int,
                    liquidity_param as int,
                );
                &&& quantities@[option_index as int] < shares ==> r == Err::<
                    u64,
                    OpinionMarketError,
                >(OpinionMarketError::InsufficientShares)
                &&& quantities@[option_index as int] >= shares ==> {
                    &&& 0 <= c <= u64::MAX ==> r == Ok::<u64, OpinionMarketError>(c as u64)
                    &&& !(0 <= c <= u64::MAX) ==> r == Err::<u64, OpinionMarketError>(
                        OpinionMarketError::ArithmeticOverflow,
                    )
                }
            },
    {
        if option_index >= quantities.len() || liquidity_param == 0 {
            return Err(OpinionMarketError::InvalidInput);
        }
        if quantities[option_index] < shares {
            return Err(OpinionMarketError::InsufficientShares);
        }
        let current = cost_wide(quantities, liquidity_param);
        let next = with_quantity(quantities, option_index, quantities[option_index] - shares);
        let after = cost_wide(next.as_slice(), liquidity_param);
        if current < after || current - after > u64::MAX as u128 {
            return Err(OpinionMarketError::ArithmeticOverflow);
        }
        Ok((current - after) as u64)
    }

    /// The number of shares of outcome `option_index` that a budget of `cost`
    /// base units buys: a binary search over [1, u64::MAX - q_i] for the last
    /// count whose buy cost fits in the budget. The result is 0 for a zero
    /// budget; otherwise it is 0 or affordable, and one share more is not
    /// affordable unless the result is the ceiling. Fails with `InvalidInput`
    /// on an index out of range or a zero `liquidity_param`.
    pub fn shares_for_cost(quantities: &[u64], option_index: usize, cost: u64, liquidity_param: u64) -> (r:
        Result<u64, OpinionMarketError>)
        ensures
            option_index >= quantities@.len() || liquidity_param == 0 ==> r == Err::<
                u64,
                OpinionMarketError,
            >(OpinionMarketError::InvalidInput),
            option_index < quantities@.len() && liquidity_param > 0 ==> {
                let q = quantities@;
                let i = option_index as int;
                let b = liquidity_param as int;
                &&& r == Ok::<u64, OpinionMarketError>(
                    shares_for_cost_spec(q, i, cost as int, b) as u64,
                )
                &&& 0 <= shares_for_cost_spec(q, i, cost as int, b) <= share_ceiling(q, i)
                &&& cost > 0 ==> {
                    let s = shares_for_cost_spec(q, i, cost as int, b);
                    &&& s == 0 || affordable(q, i, s, b, cost as int)
                    &&& s == share_ceiling(q, i) || !affordable(q, i, s + 1, b, cost as int)
                }
            },
    {
        if option_index >= quantities.len() || liquidity_param == 0 {
            return Err(OpinionMarketError::InvalidInput);
        }
        if cost == 0 {
            return Ok(0);
        }
        let ghost q = quantities@;
        let ghost i = option_index as int;
        let ghost b = liquidity_param as int;
        let qi = quantities[option_index];
        let current = cost_wide(quantities, liquidity_param);
        let mut low: u128 = 1;
        let mut high: u128 = (u64::MAX - qi) as u128;
        proof {
            lemma_search_boundary(q, i, b, cost as int, 1, share_ceiling(q, i));
        }
        while low <= high
            invariant
                i < q.len(),
                quantities@ == q,
                i == option_index,
                b == liquidity_param,
                b > 0,
                qi == q[i],
                current == cost_spec(q, b),
                current < COST_BOUND,
                1 <= low <= high + 1,
                high <= share_ceiling(q, i),
                search(q, i, b, cost as int, low as int, high as int) == search(
                    q,
                    i,
                    b,
                    cost as int,
                    1,
                    share_ceiling(q, i),
                ),
            decreases high + 1 - low,
        {
            let mid: u128 = low + (high - low) / 2;
            let next = with_quantity(quantities, option_index, qi + mid as u64);
            assert(next@ == bought(q, i, mid as int));
            let after = cost_wide(next.as_slice(), liquidity_param);
            if after <= current + cost as u128 {
                low = mid + 1;
            } else {
                high = mid - 1;
            }
        }
        Ok(high as u64)
    }

    /// Same as `buy_cost`: the cost in base units of `shares` of outcome
    /// `option_index`.
    pub fn cost_for_shares(quantities: &[u64], option_index: usize, shares: u64, liquidity_param: u64) -> (r:
        Result<u64, OpinionMarketError>)
        ensures
            r == buy_cost_result(quantities@, option_index as int, shares as int, liquidity_param as int),
    {
        Self::buy_cost(quantities, option_index, shares, liquidity_param)
    }

    /// The liquidity parameter `b`, in base units, of a pool holding
    /// `total_liquidity` base units: b = (L / 10^9) * 100 major units, that is
    /// 100 * L base units. Fails with `ArithmeticOverflow` when that leaves 64
    /// bits.
    pub fn liquidity_param_from_total(total_liquidity: u64) -> (r: Result<u64, OpinionMarketError>)
        ensures
            total_liquidity * LIQUIDITY_SCALE <= u64::MAX ==> r == Ok::<u64, OpinionMarketError>(
                (total_liquidity * LIQUIDITY_SCALE) as u64,
            ),
            total_liquidity * LIQUIDITY_SCALE > u64::MAX ==> r == Err::<u64, OpinionMarketError>(
                OpinionMarketError::ArithmeticOverflow,
            ),
    {
        match total_liquidity.checked_mul(LIQUIDITY_SCALE) {
            Some(b) => Ok(b),
            None => Err(OpinionMarketError::ArithmeticOverflow),
        }
    }

    /// Succeeds when |actual - expected| <= floor(expected * tolerance / 10000).
    /// Fails with `InvalidInput` on a zero `expected` and with
    /// `SlippageExceeded` when the deviation is larger.
    pub fn validate_slippage(expected: u64, actual: u64, tolerance_bps: u64) -> (r: Result<
        (),
        OpinionMarketError,
    >)
        ensures
            expected == 0 ==> r == Err::<(), OpinionMarketError>(OpinionMarketError::InvalidInput),
            expected > 0 && within_slippage(expected as int, actual as int, tolerance_bps as int)
                ==> r == Ok::<(), OpinionMarketError>(()),
            expected > 0 && !within_slippage(expected as int, actual as int, tolerance_bps as int)
                ==> r == Err::<(), OpinionMarketError>(OpinionMarketError::SlippageExceeded),
    {
        if expected == 0 {
            return Err(OpinionMarketError::InvalidInput);
        }
        let difference = if actual > expected {
            actual - expected
        } else {
            expected - actual
        };
        assert((expected as u128) * (tolerance_bps as u128) <= 0xffff_ffff_ffff_ffffu128 * 0xffff_ffff_ffff_ffffu128) by (nonlinear_arith);
        let tolerance_amount: u128 = (expected as u128) * (tolerance_bps as u128) / (BPS as u128);
        if difference as u128 > tolerance_amount {
            return Err(OpinionMarketError::SlippageExceeded);
        }
        Ok(())
    }

    /// fee = floor(amount * fee_rate_bps / 10000); never more than `amount`
    /// for a rate of at most 10000.
    pub fn calculate_fee(amount: u64, fee_rate_bps: u64) -> (r: Result<u64, OpinionMarketError>)
        requires
            fee_rate_bps <= BPS,
        ensures
            r == Ok::<u64, OpinionMarketError>(fee_spec(amount as int, fee_rate_bps as int) as u64),
            fee_spec(amount as int, fee_rate_bps as int) <= amount,
    {
        assert((amount as u128) * (fee_rate_bps as u128) <= 0xffff_ffff_ffff_ffffu128 * 10_000u128) by (nonlinear_arith)
            requires
                fee_rate_bps <= BPS,
        ;
        let fee: u128 = (amount as u128) * (fee_rate_bps as u128) / (BPS as u128);
        assert(fee <= amount) by (nonlinear_arith)
            requires
                fee == fee_spec(amount as int, fee_rate_bps as int),
                fee_rate_bps <= BPS,
        ;
        Ok(fee as u64)
    }

    /// amount - fee, the amount left after the fee at `fee_rate_bps`.
    pub fn amount_after_fees(amount: u64, fee_rate_bps: u64) -> (r: Result<u64, OpinionMarketError>)
        requires
            fee_rate_bps <= BPS,
        ensures
            r == Ok::<u64, OpinionMarketError>(
                (amount - fee_spec(amount as int, fee_rate_bps as int)) as u64,
            ),
    {
        let fee = match Self::calculate_fee(amount, fee_rate_bps) {
            Ok(f) => f,
            Err(e) => return Err(e),
        };
        Ok(amount - fee)
    }
}

} // verus!
