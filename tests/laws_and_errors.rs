use lending::fixed::{div_to, from_decimal, mul_decimal, mul_div, mul_to, ten_pow};
use lending::interest::{calc_borrow_amount_with_interest, calc_interest_rate, get_current_liquidity_index_ln};
use lending::pool::LendingContract;
use lending::types::{Account, Error, TokenInterestRateModelParams, HUNDRED_PERCENT};

const XLM: u64 = 1;
const ETH: u64 = 2;
const E18: u128 = 1_000_000_000_000_000_000;
const YEAR: u64 = 31_536_000;

/// ETH (85% / 90%) and XLM (75% / 80%) at $2000 and $10, each funded with 1000 tokens.
fn two_markets() -> LendingContract {
    let mut pool = LendingContract::new();
    pool.add_markets(XLM, 18, 7_500_000, 8_000_000, 5 * E18, 30 * E18, 70 * E18, 8_000_000, 0).unwrap();
    pool.add_markets(ETH, 18, 8_500_000, 9_000_000, 5 * E18, 30 * E18, 70 * E18, 8_000_000, 0).unwrap();
    pool.update_liquidity(XLM, 1000 * E18).unwrap();
    pool.update_liquidity(ETH, 1000 * E18).unwrap();
    pool.update_price(XLM, 10 * 100_000_000).unwrap();
    pool.update_price(ETH, 2000 * 100_000_000).unwrap();
    pool
}

/// A user with 200 ETH of collateral who borrowed 121 ETH at time zero.
fn indebted_user(pool: &mut LendingContract) -> Account {
    let mut user = Account::new();
    pool.deposit(&mut user, ETH, 200 * E18, 0).unwrap();
    pool.toggle_collateral_setting(&mut user, ETH, 0).unwrap();
    pool.borrow(&mut user, ETH, 121 * E18, 0).unwrap();
    user
}

#[test]
fn fixed_point_exact_values() {
    assert_eq!(ten_pow(0), 1);
    assert_eq!(ten_pow(18), E18);
    assert_eq!(mul_div(10, 3, 4), Some(7));
    assert_eq!(mul_div(u128::MAX, u128::MAX, u128::MAX), Some(u128::MAX));
    assert_eq!(mul_div(u128::MAX, 2, 1), None);
    assert_eq!(mul_to(15, 1, 25, 1, 2), Ok(375));
    assert_eq!(mul_to(19, 1, 19, 1, 1), Ok(36));
    assert_eq!(mul_to(u128::MAX, 0, 2, 0, 0), Err(Error::Overflow));
    assert_eq!(div_to(1, 0, 3, 0, 18), Ok(333_333_333_333_333_333));
    assert_eq!(div_to(1, 0, 0, 0, 0), Err(Error::DivisionByZero));
    assert_eq!(div_to(1000 * E18, 18, E18, 18, 18), Ok(1000 * E18));
    assert_eq!(from_decimal(-5, 0, 2), Ok(0));
    assert_eq!(from_decimal(12345, 3, 1), Ok(123));
    assert_eq!(from_decimal(7, 0, 2), Ok(700));
    assert_eq!(mul_decimal(50, 105, 2), Ok(52));
    assert_eq!(mul_decimal(50, 105, 39), Err(Error::Overflow));
}

#[test]
fn interest_rate_curve_values() {
    let p = TokenInterestRateModelParams {
        min_interest_rate: 5 * E18,
        safe_borrow_max_rate: 30 * E18,
        rate_growth_factor: 70 * E18,
        optimal_utilization_ratio: 8_000_000,
    };
    assert_eq!(calc_interest_rate(&p, 0), Ok(5 * E18));
    assert_eq!(calc_interest_rate(&p, 4_000_000), Ok(17_500_000_000_000_000_000));
    assert_eq!(calc_interest_rate(&p, 8_000_000), Ok(30 * E18));
    assert_eq!(calc_interest_rate(&p, 9_000_000), Ok(65 * E18));
    assert_eq!(calc_interest_rate(&p, HUNDRED_PERCENT), Ok(100 * E18));
    let flat = TokenInterestRateModelParams { optimal_utilization_ratio: 0, ..p };
    assert_eq!(calc_interest_rate(&flat, 0), Err(Error::DivisionByZero));
    let inverted = TokenInterestRateModelParams { safe_borrow_max_rate: E18, ..p };
    assert_eq!(calc_interest_rate(&inverted, 0), Err(Error::Overflow));
}

#[test]
fn compounding_goes_through_the_decimal_power() {
    // no time: the principal itself
    assert_eq!(calc_borrow_amount_with_interest(50 * E18, 5 * E18, 0, 18), Ok(50 * E18));
    // one year at 5%
    assert_eq!(calc_borrow_amount_with_interest(50 * E18, 5 * E18, YEAR as u128, 18), Ok(52_500_000_000_000_000_000));
    // half a year: strictly between the principal and a full year's interest
    let half = calc_borrow_amount_with_interest(50 * E18, 5 * E18, (YEAR / 2) as u128, 18).unwrap();
    assert!(half > 50 * E18 && half < 52_500_000_000_000_000_000);
}

#[test]
fn interest_never_below_principal() {
    for interval in [0u128, 1, 3600, 86_400, 15_768_000, 31_536_000, 63_072_000] {
        for rate in [0u128, E18, 5 * E18, 30 * E18, 100 * E18] {
            let owed = calc_borrow_amount_with_interest(1_000 * E18, rate, interval, 18).unwrap();
            assert!(owed >= 1_000 * E18, "rate {} interval {}", rate, interval);
        }
    }
}

#[test]
fn deposit_then_redeem_all_returns_the_deposit() {
    let mut pool = two_markets();
    let mut user = Account::new();
    let shares = pool.deposit(&mut user, ETH, 123_456_789, 0).unwrap();
    assert_eq!(shares, 123_456_789);
    assert_eq!(pool.redeem(&mut user, ETH, 0, 0), Ok(123_456_789));
    assert_eq!(pool.get_deposit(&user, ETH, 0), Ok(0));
    assert_eq!(pool.get_available_liquidity_by_token(ETH), Ok(1000 * E18));
}

#[test]
fn deposit_then_redeem_all_after_interest_loses_at_most_the_truncation() {
    let mut pool = two_markets();
    let _debtor = indebted_user(&mut pool);
    let now = YEAR;
    let mut user = Account::new();
    let x = 777 * E18 + 3;
    pool.deposit(&mut user, ETH, x, now).unwrap();
    let price = pool.get_mm_token_price(ETH, now).unwrap();
    assert!(price > E18);
    let out = pool.redeem(&mut user, ETH, 0, now).unwrap();
    assert!(out <= x);
    assert!((x - out) * E18 < price + E18);
}

#[test]
fn share_price_grows_with_time() {
    let mut pool = two_markets();
    let _debtor = indebted_user(&mut pool);
    let mut last = 0u128;
    for t in [0u64, 1, 1000, YEAR / 2, YEAR, 2 * YEAR] {
        let price = pool.get_mm_token_price(ETH, t).unwrap();
        assert!(price >= last, "time {}", t);
        last = price;
    }
    assert!(last > E18);
    let market = pool.markets[1];
    assert!(get_current_liquidity_index_ln(&market, YEAR).unwrap() > 0);
}

#[test]
fn refreshing_keeps_the_index_from_falling() {
    let mut pool = two_markets();
    let mut debtor = indebted_user(&mut pool);
    let before = pool.markets[1].liquidity_index_data.liquidity_index_ln;
    pool.repay(&mut debtor, ETH, E18, YEAR).unwrap();
    let after = pool.markets[1].liquidity_index_data.liquidity_index_ln;
    assert!(after > before);
    assert_eq!(pool.markets[1].liquidity_index_data.timestamp, YEAR);
}

#[test]
fn repaying_without_debt_moves_nothing() {
    let mut pool = two_markets();
    let _debtor = indebted_user(&mut pool);
    let mut user = Account::new();
    let liquidity = pool.get_available_liquidity_by_token(ETH).unwrap();
    let totals = pool.get_total_borrow_data(ETH).unwrap();
    assert_eq!(pool.repay(&mut user, ETH, 5 * E18, 100), Ok((0, 5 * E18)));
    assert_eq!(pool.get_available_liquidity_by_token(ETH), Ok(liquidity));
    let after = pool.get_total_borrow_data(ETH).unwrap();
    assert_eq!(after.total_borrowed_amount, totals.total_borrowed_amount);
    assert_eq!(after.expected_annual_interest_income, totals.expected_annual_interest_income);
    assert_eq!(pool.get_user_borrow_with_interest(&user, ETH, 100), Ok(0));
    assert_eq!(pool.repay(&mut user, ETH, 0, 100), Ok((0, 0)));
}

#[test]
fn liquidation_of_a_healthy_position_is_refused() {
    let mut pool = two_markets();
    let mut user = indebted_user(&mut pool);
    let mut liquidator = Account::new();
    let lt = pool.get_user_liquidation_threshold(&user, 0).unwrap();
    let u = pool.get_user_utilization_rate(&user, 0).unwrap();
    assert_eq!(lt, 9_000_000);
    assert_eq!(u, 6_050_000);
    assert_eq!(pool.liquidation(&mut user, &mut liquidator, 0), Err(Error::NotOverLiquidationThreshold));
    assert_eq!(pool.get_deposit(&user, ETH, 0), Ok(200 * E18));
}

#[test]
fn liquidation_by_a_borrower_is_refused() {
    let mut pool = two_markets();
    let mut user = indebted_user(&mut pool);
    let mut liquidator = indebted_user(&mut pool);
    assert_eq!(pool.liquidation(&mut user, &mut liquidator, 0), Err(Error::MustNotHaveBorrow));
}

#[test]
fn liquidation_moves_collateral_and_clears_debt() {
    let mut pool = two_markets();
    pool.set_reserve_configuration(ETH, 8_500_000, 6_000_000).unwrap();
    let mut user = indebted_user(&mut pool);
    let mut liquidator = Account::new();
    pool.deposit(&mut liquidator, ETH, 500 * E18, 0).unwrap();
    let owed = pool.get_user_borrow_with_interest(&user, ETH, 0).unwrap();
    assert_eq!(owed, 121 * E18);
    assert_eq!(pool.liquidation(&mut user, &mut liquidator, 0), Ok(()));
    assert_eq!(pool.get_deposit(&user, ETH, 0), Ok(0));
    assert_eq!(pool.get_user_borrow_with_interest(&user, ETH, 0), Ok(0));
    assert_eq!(pool.get_user_collateral_usd(&user, 0), Ok(0));
    assert_eq!(pool.get_deposit(&liquidator, ETH, 0), Ok(500 * E18 + 200 * E18 - 121 * E18));
    assert_eq!(pool.get_total_borrow_data(ETH).unwrap().total_borrowed_amount, 0);
}

#[test]
fn liquidation_needs_a_liquidator_deposit_covering_the_debt() {
    let mut pool = two_markets();
    pool.set_reserve_configuration(ETH, 8_500_000, 6_000_000).unwrap();
    let mut user = indebted_user(&mut pool);
    let mut liquidator = Account::new();
    pool.deposit(&mut liquidator, ETH, 100 * E18, 0).unwrap();
    assert_eq!(pool.liquidation(&mut user, &mut liquidator, 0), Err(Error::NotEnoughBalance));
    assert_eq!(pool.get_deposit(&user, ETH, 0), Ok(200 * E18));
    assert_eq!(pool.get_deposit(&liquidator, ETH, 0), Ok(100 * E18));
}

#[test]
fn full_borrow_scenario_with_two_collaterals() {
    let mut pool = two_markets();
    let mut user = Account::new();
    pool.deposit(&mut user, ETH, 200 * E18, 0).unwrap();
    pool.deposit(&mut user, XLM, 300 * E18, 0).unwrap();
    pool.toggle_collateral_setting(&mut user, ETH, 0).unwrap();
    pool.toggle_collateral_setting(&mut user, XLM, 0).unwrap();
    assert_eq!(pool.get_user_collateral_usd(&user, 0), Ok(403_000 * 100_000_000));
    assert_eq!(pool.get_user_max_allowed_borrow_usd(&user, 0), Ok(342_250 * 100_000_000));
    pool.borrow(&mut user, ETH, 50 * E18, 0).unwrap();
    pool.borrow(&mut user, ETH, 121 * E18, 0).unwrap();
    assert_eq!(pool.get_available_to_borrow(&user, ETH, 0), Ok(125_000_000_000_000_000));
}

#[test]
fn tvl_of_two_markets() {
    let mut pool = two_markets();
    pool.update_liquidity(ETH, 1200 * E18).unwrap();
    pool.update_liquidity(XLM, 1300 * E18).unwrap();
    assert_eq!(pool.get_tvl(), Ok(241_300_000_000_000));
}

#[test]
fn every_error_has_an_input() {
    let mut pool = two_markets();
    let mut user = Account::new();
    assert_eq!(pool.deposit(&mut user, 99, 1, 0), Err(Error::UnsupportedToken));
    assert_eq!(pool.update_price(99, 1), Err(Error::UnsupportedToken));
    assert_eq!(
        pool.add_markets(ETH, 18, 1, 1, 1, 1, 1, 1, 0),
        Err(Error::AlreadySupportedToken)
    );
    pool.deposit(&mut user, ETH, 10 * E18, 0).unwrap();
    assert_eq!(pool.redeem(&mut user, ETH, 11 * E18, 0), Err(Error::NotEnoughBalance));
    assert_eq!(pool.borrow(&mut user, ETH, E18, 0), Err(Error::NotEnoughCollateral));
    pool.toggle_collateral_setting(&mut user, ETH, 0).unwrap();
    assert_eq!(pool.get_user_liquidation_threshold(&Account::new(), 0), Err(Error::NoCollateral));
    pool.borrow(&mut user, XLM, 100 * E18, 0).unwrap();
    assert_eq!(pool.toggle_collateral_setting(&mut user, ETH, 0), Err(Error::RemainingCollateralNotEnough));
    let mut whale = Account::new();
    pool.deposit(&mut whale, ETH, 900 * E18, 0).unwrap();
    pool.toggle_collateral_setting(&mut whale, ETH, 0).unwrap();
    pool.update_liquidity(XLM, 10 * E18).unwrap();
    assert_eq!(pool.get_available_to_borrow(&whale, XLM, 0), Ok(10 * E18));
    pool.update_liquidity(XLM, 1000 * E18).unwrap();
    let mut unpriced = LendingContract::new();
    unpriced.add_markets(XLM, 18, 7_500_000, 8_000_000, 5 * E18, 30 * E18, 70 * E18, 8_000_000, 0).unwrap();
    unpriced.add_markets(ETH, 18, 8_500_000, 9_000_000, 5 * E18, 30 * E18, 70 * E18, 8_000_000, 0).unwrap();
    unpriced.update_price(ETH, 2000 * 100_000_000).unwrap();
    let mut holder = Account::new();
    unpriced.deposit(&mut holder, ETH, E18, 0).unwrap();
    unpriced.toggle_collateral_setting(&mut holder, ETH, 0).unwrap();
    assert_eq!(unpriced.get_available_to_borrow(&holder, XLM, 0), Err(Error::DivisionByZero));
    let mut empty = LendingContract::new();
    empty.add_markets(ETH, 18, 1, 1, 1, 1, 1, 1, 0).unwrap();
    assert_eq!(empty.borrow(&mut Account::new(), ETH, 0, 0), Err(Error::DivisionByZero));
    assert_eq!(mul_to(u128::MAX, 0, 2, 0, 0), Err(Error::Overflow));
    let mut drained = two_markets();
    let mut saver = Account::new();
    drained.deposit(&mut saver, ETH, 10 * E18, 0).unwrap();
    drained.update_liquidity(ETH, 5 * E18).unwrap();
    assert_eq!(drained.redeem(&mut saver, ETH, 10 * E18, 0), Err(Error::NotEnoughLiquidity));
    assert_eq!(drained.get_deposit(&saver, ETH, 0), Ok(10 * E18));
}

#[test]
fn borrow_beyond_liquidity_is_refused() {
    let mut pool = two_markets();
    let mut user = Account::new();
    pool.deposit(&mut user, ETH, 500 * E18, 0).unwrap();
    pool.toggle_collateral_setting(&mut user, ETH, 0).unwrap();
    // the allowance is capped by the liquidity, so ask for more than both
    let available = pool.get_available_to_borrow(&user, XLM, 0).unwrap();
    assert_eq!(available, 1000 * E18);
    assert_eq!(pool.borrow(&mut user, XLM, 1001 * E18, 0), Err(Error::NotEnoughCollateral));
    assert_eq!(pool.borrow(&mut user, XLM, 1000 * E18, 0), Ok(()));
    assert_eq!(pool.get_available_liquidity_by_token(XLM), Ok(0));
}

#[test]
fn repaying_without_debt_leaves_the_market_as_it_was() {
    let mut pool = two_markets();
    let _debtor = indebted_user(&mut pool);
    let mut user = Account::new();
    let before = pool.markets[1];
    assert_eq!(pool.repay(&mut user, ETH, 0, YEAR), Ok((0, 0)));
    assert_eq!(pool.repay(&mut user, ETH, 7 * E18, YEAR), Ok((0, 7 * E18)));
    assert_eq!(pool.markets[1], before);
    assert_eq!(pool.get_total_borrow_data(ETH).unwrap().timestamp, 0);
}

#[test]
fn repaying_everything_with_a_zero_amount_is_paid_for() {
    let mut pool = two_markets();
    let mut debtor = indebted_user(&mut pool);
    let now = YEAR;
    let owed = pool.get_user_borrow_with_interest(&debtor, ETH, now).unwrap();
    let liquidity = pool.get_available_liquidity_by_token(ETH).unwrap();
    assert_eq!(pool.repay(&mut debtor, ETH, 0, now), Ok((owed, 0)));
    assert_eq!(pool.get_available_liquidity_by_token(ETH), Ok(liquidity + owed));
    assert_eq!(pool.get_user_borrow_with_interest(&debtor, ETH, now), Ok(0));
}

#[test]
fn a_liquidator_with_debt_in_an_unpriced_market_is_refused() {
    let mut pool = two_markets();
    pool.set_reserve_configuration(ETH, 8_500_000, 6_000_000).unwrap();
    let mut user = indebted_user(&mut pool);
    let mut liquidator = Account::new();
    pool.deposit(&mut liquidator, ETH, 500 * E18, 0).unwrap();
    pool.toggle_collateral_setting(&mut liquidator, ETH, 0).unwrap();
    pool.borrow(&mut liquidator, XLM, 1, 0).unwrap();
    pool.update_price(XLM, 0).unwrap();
    assert_eq!(pool.get_user_borrowed_usd(&liquidator, 0), Ok(0));
    assert_eq!(pool.liquidation(&mut user, &mut liquidator, 0), Err(Error::MustNotHaveBorrow));
}

#[test]
fn interest_without_time_or_principal_is_the_principal() {
    assert_eq!(calc_borrow_amount_with_interest(50 * E18, u128::MAX, 0, 18), Ok(50 * E18));
    assert_eq!(calc_borrow_amount_with_interest(0, u128::MAX, 1000, 18), Ok(0));
    assert_eq!(calc_borrow_amount_with_interest(50 * E18, 99, 1000, 18), Ok(50 * E18));
}

#[test]
fn a_headroom_too_large_for_u128_is_capped_by_liquidity() {
    let mut pool = two_markets();
    pool.add_markets(3, 28, 7_500_000, 8_000_000, 5 * E18, 30 * E18, 70 * E18, 8_000_000, 0).unwrap();
    pool.update_price(3, 1).unwrap();
    pool.update_liquidity(3, 12345).unwrap();
    let mut user = Account::new();
    pool.deposit(&mut user, ETH, 200 * E18, 0).unwrap();
    pool.toggle_collateral_setting(&mut user, ETH, 0).unwrap();
    assert_eq!(pool.get_available_to_borrow(&user, 3, 0), Ok(12345));
}
