use opinion_market::errors::OpinionMarketError;
use opinion_market::instructions::{
    add_liquidity, buy_shares, claim_winnings, collect_fees, create_market, initialize,
    remove_liquidity, resolve_market, sell_shares, update_admin,
};
use opinion_market::lmsr::LsLmsr;
use opinion_market::state::{AccountKey, AdminConfig, FeeAccount, Market, Position};

const NOW: i64 = 1_700_000_000;
const DAY: i64 = 86_400;

fn key(b: u8) -> AccountKey {
    AccountKey { bytes: [b; 32] }
}

fn setup(fee_rate: u64) -> (AdminConfig, FeeAccount) {
    initialize::handler(key(1), fee_rate, 1_000_000).unwrap()
}

fn labels(n: usize) -> Vec<String> {
    (0..n).map(|i| format!("outcome {}", i)).collect()
}

fn open_market(config: &AdminConfig, n: usize, liquidity: u64) -> Market {
    create_market::handler(
        config,
        key(2),
        "m1".to_string(),
        "Will it rain?".to_string(),
        labels(n),
        NOW + 2 * DAY,
        liquidity,
        NOW,
    )
    .unwrap()
}

#[test]
fn initialize_checks_its_limits() {
    let (config, fees) = setup(250);
    assert_eq!(config.fee_rate, 250);
    assert_eq!(config.min_liquidity, 1_000_000);
    assert_eq!(fees.total_fees, 0);
    assert_eq!(fees.authority, key(1));
    assert!(matches!(initialize::handler(key(1), 1001, 1_000_000), Err(OpinionMarketError::InvalidFeeRate)));
    assert!(matches!(initialize::handler(key(1), 100, 999_999), Err(OpinionMarketError::LiquidityTooLow)));
}

#[test]
fn update_admin_checks_the_rate() {
    let (mut config, _) = setup(250);
    assert_eq!(update_admin::handler(&mut config, key(9), 1001), Err(OpinionMarketError::InvalidFeeRate));
    assert_eq!(config.fee_rate, 250);
    assert_eq!(update_admin::handler(&mut config, key(9), 500), Ok(()));
    assert_eq!(config.fee_rate, 500);
    assert_eq!(config.admin, key(9));
}

#[test]
fn create_market_starts_open_and_empty() {
    let (config, _) = setup(250);
    let m = open_market(&config, 3, 100_000_000);
    assert_eq!(m.total_shares, vec![0, 0, 0]);
    assert!(!m.is_resolved);
    assert_eq!(m.winning_option, None);
    assert_eq!(m.created_at, NOW);
    assert_eq!(m.creator, key(2));
}

#[test]
fn create_market_refusals() {
    let (config, _) = setup(250);
    let make = |id: String, q: String, opts: Vec<String>, end: i64, liq: u64| {
        create_market::handler(&config, key(2), id, q, opts, end, liq, NOW).map(|_| ())
    };
    let end = NOW + 2 * DAY;
    assert_eq!(make("x".repeat(101), "q".into(), labels(2), end, 1_000_000), Err(OpinionMarketError::MarketIdTooLong));
    assert_eq!(make("x".into(), "q".repeat(501), labels(2), end, 1_000_000), Err(OpinionMarketError::QuestionTooLong));
    assert_eq!(make("x".into(), "q".into(), labels(1), end, 1_000_000), Err(OpinionMarketError::TooManyOptions));
    assert_eq!(make("x".into(), "q".into(), labels(11), end, 1_000_000), Err(OpinionMarketError::TooManyOptions));
    assert_eq!(make("x".into(), "q".into(), vec!["a".into(), "b".repeat(201)], end, 1_000_000), Err(OpinionMarketError::OptionTooLong));
    assert_eq!(make("x".into(), "q".into(), labels(2), NOW, 1_000_000), Err(OpinionMarketError::MarketEndTimeInPast));
    assert_eq!(make("x".into(), "q".into(), labels(2), NOW + DAY - 1, 1_000_000), Err(OpinionMarketError::MarketDurationTooShort));
    assert_eq!(make("x".into(), "q".into(), labels(2), NOW + 365 * DAY + 1, 1_000_000), Err(OpinionMarketError::MarketDurationTooLong));
    assert_eq!(make("x".into(), "q".into(), labels(2), end, 999_999), Err(OpinionMarketError::LiquidityTooLow));
    assert_eq!(make("x".into(), "q".into(), labels(2), end, 1_000_000_000_001), Err(OpinionMarketError::LiquidityTooHigh));
    assert_eq!(make("x".repeat(100), "q".into(), labels(10), NOW + DAY, 1_000_000_000_000), Ok(()));
}

#[test]
fn end_to_end_buy_resolve_claim() {
    let (config, mut fees) = setup(250);
    let mut market = open_market(&config, 3, 100_000_000);
    let mut position = Position::unopened();
    let cost = 1_000_000_000;
    let shares = buy_shares::handler(&config, &mut market, &mut position, &mut fees, key(3), key(4), 0, cost, 2, NOW)
        .unwrap();
    assert_eq!(shares, 2);
    assert!(position.shares[0] > 0);
    assert_eq!(position.shares, vec![2, 0, 0]);
    assert_eq!(market.total_shares, vec![2, 0, 0]);
    assert_eq!(fees.total_fees, 250 * cost / 10_000);
    assert_eq!(position.total_cost, cost);
    assert_eq!(position.total_fees_paid, 25_000_000);
    assert_eq!(position.market, key(3));
    assert_eq!(position.user, key(4));

    assert_eq!(resolve_market::handler(&mut market, 0, NOW + 2 * DAY), Ok(()));
    assert!(market.is_resolved);
    assert_eq!(market.winning_option, Some(0));

    assert_eq!(claim_winnings::handler(&market, &mut position), Ok(100_000_000));
    assert!(position.has_claimed);
    assert_eq!(claim_winnings::handler(&market, &mut position), Err(OpinionMarketError::AlreadyClaimed));
}

#[test]
fn buy_with_a_budget_too_small_for_one_share_fails_slippage() {
    let (config, mut fees) = setup(250);
    let mut market = open_market(&config, 3, 100_000_000);
    let mut position = Position::unopened();
    let r = buy_shares::handler(&config, &mut market, &mut position, &mut fees, key(3), key(4), 0, 1_000_000, 1, NOW);
    assert_eq!(r, Err(OpinionMarketError::SlippageExceeded));
    assert_eq!(market.total_shares, vec![0, 0, 0]);
    assert_eq!(fees.total_fees, 0);
    assert!(position.market.is_default());
}

#[test]
fn buy_refusals_leave_everything_unchanged() {
    let (config, mut fees) = setup(250);
    let mut market = open_market(&config, 3, 100_000_000);
    let mut position = Position::unopened();
    let mut buy = |m: &mut Market, i: u8, cost: u64, exp: u64, now: i64| {
        buy_shares::handler(&config, m, &mut position, &mut fees, key(3), key(4), i, cost, exp, now)
    };
    assert_eq!(buy(&mut market, 3, 1_000_000_000, 2, NOW), Err(OpinionMarketError::InvalidInput));
    assert_eq!(buy(&mut market, 0, 9_999, 2, NOW), Err(OpinionMarketError::CostTooLow));
    assert_eq!(buy(&mut market, 0, 1_000_000_001, 2, NOW), Err(OpinionMarketError::CostTooHigh));
    assert_eq!(buy(&mut market, 0, 1_000_000_000, 0, NOW), Err(OpinionMarketError::SharesTooLow));
    assert_eq!(buy(&mut market, 0, 1_000_000_000, 1_000_000_001, NOW), Err(OpinionMarketError::SharesTooHigh));
    assert_eq!(buy(&mut market, 0, 1_000_000_000, 2, NOW + 2 * DAY), Err(OpinionMarketError::MarketClosed));
    assert_eq!(buy(&mut market, 0, 1_000_000_000, 5, NOW), Err(OpinionMarketError::SlippageExceeded));
    assert_eq!(market.total_shares, vec![0, 0, 0]);
    resolve_market::handler(&mut market, 1, NOW + 2 * DAY).unwrap();
    assert_eq!(buy(&mut market, 0, 1_000_000_000, 2, NOW), Err(OpinionMarketError::MarketResolved));
    assert_eq!(fees.total_fees, 0);
}

/// A ten-outcome market with b = 100000 major units: a budget of one major
/// unit buys about ten shares.
fn wide_market(config: &AdminConfig) -> Market {
    open_market(config, 10, 1_000_000_000_000)
}

const WIDE_B: u64 = 100_000_000_000_000;

fn quote(market: &Market, i: usize, cost: u64) -> u64 {
    LsLmsr::shares_for_cost(&market.total_shares, i, cost, WIDE_B).unwrap()
}

#[test]
fn sell_returns_proceeds_less_fee() {
    let (config, mut fees) = setup(250);
    let mut market = wide_market(&config);
    let mut position = Position::unopened();
    let expected = quote(&market, 1, 1_000_000_000);
    assert!(expected >= 5);
    let bought = buy_shares::handler(&config, &mut market, &mut position, &mut fees, key(3), key(4), 1, 1_000_000_000, expected, NOW)
        .unwrap();
    assert_eq!(bought, expected);
    let fees_after_buy = fees.total_fees;
    let proceeds = LsLmsr::sell_cost(&market.total_shares, 1, 5, WIDE_B).unwrap();
    let fee = proceeds * 250 / 10_000;
    let paid = sell_shares::handler(&config, &mut market, &mut position, &mut fees, 1, 5, proceeds, NOW).unwrap();
    assert_eq!(paid, proceeds - fee);
    assert_eq!(market.total_shares[1], bought - 5);
    assert_eq!(position.shares[1], bought - 5);
    assert_eq!(position.total_cost, 1_000_000_000 - proceeds);
    assert_eq!(position.total_fees_paid, 25_000_000 + fee);
    assert_eq!(fees.total_fees, fees_after_buy + fee);
}

#[test]
fn selling_more_than_held_is_insufficient() {
    let (config, mut fees) = setup(250);
    let mut market = wide_market(&config);
    let mut position = Position::unopened();
    assert_eq!(
        sell_shares::handler(&config, &mut market, &mut position, &mut fees, 0, 1, 1, NOW),
        Err(OpinionMarketError::InsufficientShares)
    );
    let expected = quote(&market, 1, 1_000_000_000);
    buy_shares::handler(&config, &mut market, &mut position, &mut fees, key(3), key(4), 1, 1_000_000_000, expected, NOW).unwrap();
    assert_eq!(
        sell_shares::handler(&config, &mut market, &mut position, &mut fees, 1, expected + 1, 1_000_000_000, NOW),
        Err(OpinionMarketError::InsufficientShares)
    );
    assert_eq!(
        sell_shares::handler(&config, &mut market, &mut position, &mut fees, 10, 1, 1_000_000_000, NOW),
        Err(OpinionMarketError::InvalidInput)
    );
    assert_eq!(
        sell_shares::handler(&config, &mut market, &mut position, &mut fees, 1, 1, 1, NOW),
        Err(OpinionMarketError::SlippageExceeded)
    );
    assert_eq!(
        sell_shares::handler(&config, &mut market, &mut position, &mut fees, 1, 1, 0, NOW),
        Err(OpinionMarketError::InvalidInput)
    );
    assert_eq!(position.shares[1], expected);
    assert_eq!(market.total_shares[1], expected);
}

#[test]
fn resolving_twice_fails_and_keeps_the_winner() {
    let (config, _) = setup(250);
    let mut market = open_market(&config, 3, 100_000_000);
    assert_eq!(resolve_market::handler(&mut market, 2, NOW + 2 * DAY), Ok(()));
    assert_eq!(resolve_market::handler(&mut market, 1, NOW + 3 * DAY), Err(OpinionMarketError::MarketResolved));
    assert_eq!(market.winning_option, Some(2));
}

#[test]
fn resolve_refusals() {
    let (config, _) = setup(250);
    let mut market = open_market(&config, 3, 100_000_000);
    assert_eq!(resolve_market::handler(&mut market, 0, NOW), Err(OpinionMarketError::MarketNotResolved));
    assert_eq!(resolve_market::handler(&mut market, 3, NOW + 2 * DAY), Err(OpinionMarketError::InvalidWinningOption));
    assert!(!market.is_resolved);
}

#[test]
fn claim_refusals() {
    let (config, mut fees) = setup(250);
    let mut market = open_market(&config, 3, 100_000_000);
    let mut position = Position::unopened();
    assert_eq!(claim_winnings::handler(&market, &mut position), Err(OpinionMarketError::MarketNotResolved));
    buy_shares::handler(&config, &mut market, &mut position, &mut fees, key(3), key(4), 1, 1_000_000_000, 2, NOW).unwrap();
    resolve_market::handler(&mut market, 0, NOW + 2 * DAY).unwrap();
    assert_eq!(claim_winnings::handler(&market, &mut position), Err(OpinionMarketError::NoWinningsToClaim));
    assert!(!position.has_claimed);
}

#[test]
fn claim_pays_in_proportion() {
    let (config, mut fees) = setup(0);
    let mut market = wide_market(&config);
    let mut alice = Position::unopened();
    let mut bob = Position::unopened();
    let ea = quote(&market, 0, 1_000_000_000);
    let a = buy_shares::handler(&config, &mut market, &mut alice, &mut fees, key(3), key(4), 0, 1_000_000_000, ea, NOW).unwrap();
    let eb = quote(&market, 0, 500_000_000);
    let b = buy_shares::handler(&config, &mut market, &mut bob, &mut fees, key(3), key(5), 0, 500_000_000, eb, NOW).unwrap();
    assert!(a > b && b > 0);
    resolve_market::handler(&mut market, 0, NOW + 2 * DAY).unwrap();
    let total = a + b;
    assert_eq!(claim_winnings::handler(&market, &mut alice), Ok(1_000_000_000_000 * a / total));
    assert_eq!(claim_winnings::handler(&market, &mut bob), Ok(1_000_000_000_000 * b / total));
}

#[test]
fn liquidity_deposits_and_withdrawals() {
    let (config, _) = setup(250);
    let mut market = open_market(&config, 2, 100_000_000);
    assert_eq!(add_liquidity::handler(&mut market, 9_999), Err(OpinionMarketError::InvalidAmount));
    assert_eq!(add_liquidity::handler(&mut market, 50_000), Ok(()));
    assert_eq!(market.liquidity, 100_050_000);
    assert_eq!(remove_liquidity::handler(&mut market, 0), Err(OpinionMarketError::InvalidAmount));
    assert_eq!(remove_liquidity::handler(&mut market, 50_000), Ok(50_000));
    assert_eq!(market.liquidity, 100_000_000);
    assert_eq!(remove_liquidity::handler(&mut market, 1_000_000_001), Err(OpinionMarketError::InvalidAmount));
    assert_eq!(remove_liquidity::handler(&mut market, 200_000_000), Err(OpinionMarketError::InsufficientLiquidity));
    market.total_shares = vec![3, 1];
    assert_eq!(remove_liquidity::handler(&mut market, 1), Ok(25_000_000));
    assert_eq!(market.liquidity, 75_000_000);
    assert_eq!(remove_liquidity::handler(&mut market, 5), Err(OpinionMarketError::InsufficientLiquidity));
}

#[test]
fn fee_collection() {
    let (_, mut fees) = setup(250);
    fees.total_fees = 1_000;
    assert_eq!(collect_fees::handler(&mut fees, 0), Err(OpinionMarketError::InvalidAmount));
    assert_eq!(collect_fees::handler(&mut fees, 1_001), Err(OpinionMarketError::InvalidAmount));
    assert_eq!(collect_fees::handler(&mut fees, 400), Ok(()));
    assert_eq!(fees.total_fees, 600);
}

#[test]
fn well_formedness_check() {
    let (config, _) = setup(250);
    let mut market = open_market(&config, 3, 100_000_000);
    assert!(market.is_well_formed());
    market.total_shares.push(0);
    assert!(!market.is_well_formed());
}

#[test]
fn buy_by_share_count_pays_the_quote() {
    let (config, mut fees) = setup(250);
    let mut market = wide_market(&config);
    let mut position = Position::unopened();
    let cost = LsLmsr::buy_cost(&market.total_shares, 2, 5, WIDE_B).unwrap();
    let paid = buy_shares::handler_for_shares(&config, &mut market, &mut position, &mut fees, key(3), key(4), 2, 5, cost, NOW)
        .unwrap();
    assert_eq!(paid, cost);
    assert_eq!(market.total_shares[2], 5);
    assert_eq!(position.shares[2], 5);
    assert_eq!(position.total_cost, cost);
    assert_eq!(fees.total_fees, cost * 250 / 10_000);
}

#[test]
fn buy_by_share_count_refusals() {
    let (config, mut fees) = setup(250);
    let mut market = wide_market(&config);
    let mut position = Position::unopened();
    let mut buy = |shares: u64, expected: u64| {
        buy_shares::handler_for_shares(&config, &mut market, &mut position, &mut fees, key(3), key(4), 2, shares, expected, NOW)
    };
    assert_eq!(buy(0, 1), Err(OpinionMarketError::SharesTooLow));
    assert_eq!(buy(5, 0), Err(OpinionMarketError::InvalidInput));
    assert_eq!(buy(5, 1), Err(OpinionMarketError::SlippageExceeded));
    assert_eq!(buy(1_000, 1_000_000_000), Err(OpinionMarketError::CostTooHigh));
    assert_eq!(fees.total_fees, 0);
}
