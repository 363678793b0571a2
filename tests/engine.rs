use opinion_market::errors::OpinionMarketError;
use opinion_market::lmsr::LsLmsr;

/// b = 100 major units, in base units.
const B_100: u64 = 100_000_000_000;

fn reference_cost(q: &[u64], b_major: f64) -> f64 {
    let top = q.iter().map(|&x| x as f64).fold(0.0, f64::max);
    let sum: f64 = q.iter().map(|&x| ((x as f64 - top) / b_major).exp()).sum();
    (top + b_major * sum.ln()) * 1e9
}

fn assert_close(actual: u64, expected: f64) {
    let err = (actual as f64 - expected).abs() / expected.abs().max(1.0);
    assert!(err < 1e-6, "actual {} expected {} relative error {}", actual, expected, err);
}

#[test]
fn test_cost_function() {
    let quantities = vec![1000, 1000, 1000];
    let cost = LsLmsr::cost_function(&quantities, B_100).unwrap();
    assert!(cost > 0);
}

#[test]
fn test_price_function() {
    let quantities = vec![1000, 1000, 1000];
    let price = LsLmsr::price_function(&quantities, 0, B_100).unwrap();
    assert!(price > 0 && price <= 10000);
}

#[test]
fn test_buy_cost() {
    let quantities = vec![1000, 1000, 1000];
    let cost = LsLmsr::buy_cost(&quantities, 0, 100, B_100).unwrap();
    assert!(cost > 0);
}

#[test]
fn test_sell_cost() {
    let quantities = vec![1000, 1000, 1000];
    let cost = LsLmsr::sell_cost(&quantities, 0, 100, B_100).unwrap();
    assert!(cost > 0);
}

#[test]
fn cost_of_two_empty_outcomes_is_b_ln_2() {
    // 100 * ln 2 major units; the logarithm is carried to 10^-9 before scaling.
    assert_eq!(LsLmsr::cost_function(&[0, 0], B_100), Ok(69_314_718_000));
}

#[test]
fn cost_matches_the_formula() {
    let cases: Vec<(Vec<u64>, u64)> = vec![
        (vec![1000, 1000, 1000], B_100),
        (vec![1000, 0, 500], 1_000_000_000_000),
        (vec![0, 7, 3, 12, 0], 10_000_000_000),
        (vec![250, 40], 100_000_000),
    ];
    for (q, b) in cases {
        let c = LsLmsr::cost_function(&q, b).unwrap();
        assert_close(c, reference_cost(&q, b as f64 / 1e9));
    }
}

#[test]
fn cost_with_far_apart_quantities_does_not_overflow() {
    // exp(q / b) alone would overflow a double here; the shifted form does not.
    let q = vec![5_000_000, 0];
    let c = LsLmsr::cost_function(&q, 1_000_000_000).unwrap();
    assert_eq!(c, 5_000_000 * 1_000_000_000);
}

#[test]
fn cost_beyond_64_bits_overflows() {
    let q = vec![u64::MAX, 0];
    assert_eq!(LsLmsr::cost_function(&q, B_100), Err(OpinionMarketError::ArithmeticOverflow));
}

#[test]
fn cost_of_nothing_is_invalid() {
    assert_eq!(LsLmsr::cost_function(&[], B_100), Err(OpinionMarketError::InvalidInput));
    assert_eq!(LsLmsr::cost_function(&[1, 2], 0), Err(OpinionMarketError::InvalidInput));
}

#[test]
fn equal_quantities_have_equal_prices() {
    let q = vec![0, 0, 0];
    for i in 0..3 {
        assert_eq!(LsLmsr::price_function(&q, i, B_100), Ok(3333));
    }
    assert_eq!(LsLmsr::price_function(&[5, 5], 1, B_100), Ok(5000));
}

#[test]
fn prices_sum_to_one_within_rounding() {
    let cases: Vec<(Vec<u64>, u64)> = vec![
        (vec![0, 0, 0], B_100),
        (vec![1000, 0, 500], B_100),
        (vec![10, 20, 30, 40, 50, 60, 70, 80, 90, 100], 10_000_000_000),
        (vec![0, 1_000_000], 1_000_000_000),
    ];
    for (q, b) in cases {
        let mut sum: i64 = 0;
        for i in 0..q.len() {
            let p = LsLmsr::price_function(&q, i, b).unwrap();
            assert!(p <= 10000);
            sum += p as i64;
        }
        assert!((2 * sum - 20000).abs() <= q.len() as i64, "sum {}", sum);
    }
}

#[test]
fn seven_equal_outcomes_round_up_together() {
    // Each price is 10000 / 7 = 1428.57, rounded to 1429: the sum is 10003,
    // half a basis point or less of rounding per outcome.
    let q = vec![0u64; 7];
    for i in 0..7 {
        assert_eq!(LsLmsr::price_function(&q, i, B_100), Ok(1429));
    }
}

#[test]
fn price_matches_the_formula() {
    let q = vec![1000, 0, 500];
    let b = 1000.0;
    let total: f64 = q.iter().map(|&x| (x as f64 / b).exp()).sum();
    for i in 0..3 {
        let expected = ((q[i] as f64 / b).exp() / total * 10000.0).round() as u64;
        assert_eq!(LsLmsr::price_function(&q, i, 1_000_000_000_000), Ok(expected));
    }
}

#[test]
fn price_out_of_range_is_invalid() {
    assert_eq!(LsLmsr::price_function(&[1, 2], 2, B_100), Err(OpinionMarketError::InvalidInput));
}

#[test]
fn buy_cost_matches_the_formula() {
    let q = vec![1000, 1000, 1000];
    let c = LsLmsr::buy_cost(&q, 0, 100, B_100).unwrap();
    let after = vec![1100, 1000, 1000];
    assert_close(c, reference_cost(&after, 100.0) - reference_cost(&q, 100.0));
}

#[test]
fn buy_then_sell_returns_the_cost() {
    let cases: Vec<(Vec<u64>, usize, u64, u64)> = vec![
        (vec![1000, 1000, 1000], 0, 100, B_100),
        (vec![0, 0], 1, 7, 10_000_000_000),
        (vec![3, 900, 12, 0], 3, 250, 50_000_000_000),
    ];
    for (q, i, s, b) in cases {
        let bought = LsLmsr::buy_cost(&q, i, s, b).unwrap();
        let mut after = q.clone();
        after[i] += s;
        assert_eq!(LsLmsr::sell_cost(&after, i, s, b), Ok(bought));
    }
}

#[test]
fn cost_for_shares_is_buy_cost() {
    let q = vec![10, 20];
    assert_eq!(LsLmsr::cost_for_shares(&q, 1, 5, B_100), LsLmsr::buy_cost(&q, 1, 5, B_100));
}

#[test]
fn buy_beyond_64_bits_overflows() {
    let q = vec![u64::MAX - 1, 0];
    assert_eq!(LsLmsr::buy_cost(&q, 0, 2, B_100), Err(OpinionMarketError::ArithmeticOverflow));
}

#[test]
fn selling_more_than_outstanding_is_insufficient() {
    let q = vec![10, 20];
    assert_eq!(LsLmsr::sell_cost(&q, 0, 11, B_100), Err(OpinionMarketError::InsufficientShares));
}

#[test]
fn out_of_range_outcome_is_invalid() {
    let q = vec![10, 20];
    assert_eq!(LsLmsr::buy_cost(&q, 2, 1, B_100), Err(OpinionMarketError::InvalidInput));
    assert_eq!(LsLmsr::sell_cost(&q, 5, 1, B_100), Err(OpinionMarketError::InvalidInput));
    assert_eq!(LsLmsr::shares_for_cost(&q, 2, 1000, B_100), Err(OpinionMarketError::InvalidInput));
}

#[test]
fn zero_budget_buys_nothing() {
    assert_eq!(LsLmsr::shares_for_cost(&[0, 0, 0], 0, 0, B_100), Ok(0));
}

#[test]
fn solver_finds_the_last_affordable_count() {
    let q = vec![0, 0, 0];
    let b = 10_000_000_000;
    let budget = 1_000_000_000;
    let s = LsLmsr::shares_for_cost(&q, 0, budget, b).unwrap();
    assert_eq!(s, 2);
    assert!(LsLmsr::buy_cost(&q, 0, s, b).unwrap() <= budget);
    assert!(LsLmsr::buy_cost(&q, 0, s + 1, b).unwrap() > budget);
}

#[test]
fn tiny_budget_buys_no_whole_share() {
    // A pool of 0.1 major units gives b = 10; one share costs about 0.34.
    assert_eq!(LsLmsr::shares_for_cost(&[0, 0, 0], 0, 1_000_000, 10_000_000_000), Ok(0));
}

#[test]
fn larger_budgets_never_buy_fewer_shares() {
    let q = vec![40, 0, 15];
    let b = 1_000_000_000_000;
    let mut last = 0;
    for budget in [0u64, 1, 1_000, 1_000_000, 300_000_000, 1_000_000_000, 50_000_000_000, 2_000_000_000_000] {
        let s = LsLmsr::shares_for_cost(&q, 1, budget, b).unwrap();
        assert!(s >= last, "budget {} gave {} after {}", budget, s, last);
        last = s;
    }
    assert!(last > 0);
}

#[test]
fn liquidity_param_scales_the_pool() {
    assert_eq!(LsLmsr::liquidity_param_from_total(1_000_000_000), Ok(100_000_000_000));
    assert_eq!(LsLmsr::liquidity_param_from_total(u64::MAX), Err(OpinionMarketError::ArithmeticOverflow));
}

#[test]
fn slippage_within_one_percent_passes() {
    assert_eq!(LsLmsr::validate_slippage(100, 101, 100), Ok(()));
    assert_eq!(LsLmsr::validate_slippage(100, 99, 100), Ok(()));
}

#[test]
fn slippage_beyond_tolerance_fails() {
    assert_eq!(LsLmsr::validate_slippage(100, 110, 100), Err(OpinionMarketError::SlippageExceeded));
    assert_eq!(LsLmsr::validate_slippage(100, 98, 100), Err(OpinionMarketError::SlippageExceeded));
}

#[test]
fn slippage_against_zero_is_invalid() {
    assert_eq!(LsLmsr::validate_slippage(0, 0, 100), Err(OpinionMarketError::InvalidInput));
}

#[test]
fn fee_of_two_and_a_half_percent() {
    assert_eq!(LsLmsr::calculate_fee(10_000, 250), Ok(250));
    assert_eq!(LsLmsr::calculate_fee(399, 250), Ok(9));
    assert_eq!(LsLmsr::calculate_fee(u64::MAX, 10_000), Ok(u64::MAX));
}

#[test]
fn amount_after_fee() {
    assert_eq!(LsLmsr::amount_after_fees(10_000, 250), Ok(9_750));
    assert_eq!(LsLmsr::amount_after_fees(399, 250), Ok(390));
}
