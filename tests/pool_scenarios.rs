use lending::pool::LendingContract;
use lending::types::{Account, Error};

const XLM: u64 = 1;
const ETH: u64 = 2;
const ATOM: u64 = 3;
const USDC: u64 = 4;
const USDT: u64 = 5;
const DAI: u64 = 6;

const TOKENS_DECIMALS: u32 = 18;
const E18: u128 = 1_000_000_000_000_000_000;
const YEAR_IN_SECONDS: u64 = 31_536_000;

const LTV_ETH: u128 = 85 * 100_000;
const LIQUIDATION_THRESHOLD_ETH: u128 = 90 * 100_000;
const LTV_XLM: u128 = 75 * 100_000;
const LIQUIDATION_THRESHOLD_XLM: u128 = 80 * 100_000;
const MIN_INTEREST_RATE: u128 = 5 * E18;
const SAFE_BORROW_MAX_RATE: u128 = 30 * E18;
const RATE_GROWTH_FACTOR: u128 = 70 * E18;
const OPTIMAL_UTILIZATION_RATIO: u128 = 80 * 100_000;

const PRICE_ETH: u128 = 2000 * 100_000_000;
const PRICE_XLM: u128 = 10 * 100_000_000;

struct Setup {
    pool: LendingContract,
    admin: Account,
    user: Account,
}

fn add_market(pool: &mut LendingContract, denom: u64, ltv: u128, threshold: u128, now: u64) {
    pool.add_markets(
        denom,
        TOKENS_DECIMALS,
        ltv,
        threshold,
        MIN_INTEREST_RATE,
        SAFE_BORROW_MAX_RATE,
        RATE_GROWTH_FACTOR,
        OPTIMAL_UTILIZATION_RATIO,
        now,
    )
    .unwrap();
}

/// One market funded with a million ETH; the user deposits 200 and then 300 ETH.
fn deposit_of_one_token(second: u64) -> Setup {
    let mut pool = LendingContract::new();
    add_market(&mut pool, second, LTV_XLM, LIQUIDATION_THRESHOLD_XLM, 0);
    add_market(&mut pool, ETH, LTV_ETH, LIQUIDATION_THRESHOLD_ETH, 0);
    let reserves = 1_000_000 * E18;
    pool.update_liquidity(ETH, reserves).unwrap();
    let admin = Account::new();
    let mut user = Account::new();
    pool.deposit(&mut user, ETH, 200 * E18, 0).unwrap();
    assert_eq!(pool.get_deposit(&user, ETH, 0), Ok(200 * E18));
    assert_eq!(pool.get_available_liquidity_by_token(ETH), Ok(reserves + 200 * E18));
    pool.deposit(&mut user, ETH, 300 * E18, 0).unwrap();
    assert_eq!(pool.get_deposit(&user, ETH, 0), Ok(500 * E18));
    assert_eq!(pool.get_available_liquidity_by_token(ETH), Ok(reserves + 500 * E18));
    Setup { pool, admin, user }
}

/// Two markets funded with 1000 tokens each and priced; the user deposits 200 ETH and 300 of the other.
fn deposit_of_diff_token_with_prices(second: u64) -> Setup {
    let mut pool = LendingContract::new();
    add_market(&mut pool, second, LTV_XLM, LIQUIDATION_THRESHOLD_XLM, 0);
    add_market(&mut pool, ETH, LTV_ETH, LIQUIDATION_THRESHOLD_ETH, 0);
    pool.update_liquidity(second, 1000 * E18).unwrap();
    pool.update_liquidity(ETH, 1000 * E18).unwrap();
    pool.update_price(second, PRICE_XLM).unwrap();
    pool.update_price(ETH, PRICE_ETH).unwrap();
    assert_eq!(pool.get_price(second), Ok(1_000_000_000));
    assert_eq!(pool.get_price(ETH), Ok(200_000_000_000));
    let admin = Account::new();
    let mut user = Account::new();
    pool.deposit(&mut user, ETH, 200 * E18, 0).unwrap();
    assert_eq!(pool.get_deposit(&user, ETH, 0), Ok(200 * E18));
    assert_eq!(pool.get_available_liquidity_by_token(ETH), Ok(1200 * E18));
    pool.deposit(&mut user, second, 300 * E18, 0).unwrap();
    assert_eq!(pool.get_deposit(&user, second, 0), Ok(300 * E18));
    assert_eq!(pool.get_available_liquidity_by_token(second), Ok(1300 * E18));
    Setup { pool, admin, user }
}

fn deposit_as_collateral_of_diff_token_with_prices(second: u64) -> Setup {
    let mut s = deposit_of_diff_token_with_prices(second);
    s.pool.toggle_collateral_setting(&mut s.user, ETH, 0).unwrap();
    s.pool.toggle_collateral_setting(&mut s.user, second, 0).unwrap();
    s.pool.toggle_collateral_setting(&mut s.admin, ETH, 0).unwrap();
    s.pool.toggle_collateral_setting(&mut s.admin, second, 0).unwrap();
    s
}

/// Collateral of 200 ETH and 300 of the other asset, then a borrow of 50 ETH at time 10000.
fn borrow_setup(second: u64) -> Setup {
    let mut pool = LendingContract::new();
    add_market(&mut pool, second, LTV_XLM, LIQUIDATION_THRESHOLD_XLM, 0);
    add_market(&mut pool, ETH, LTV_ETH, LIQUIDATION_THRESHOLD_ETH, 0);
    pool.update_liquidity(second, 1000 * E18).unwrap();
    pool.update_liquidity(ETH, 1000 * E18).unwrap();
    pool.update_price(second, PRICE_XLM).unwrap();
    pool.update_price(ETH, PRICE_ETH).unwrap();
    let mut admin = Account::new();
    let mut user = Account::new();
    pool.toggle_collateral_setting(&mut user, ETH, 0).unwrap();
    pool.toggle_collateral_setting(&mut user, second, 0).unwrap();
    pool.toggle_collateral_setting(&mut admin, ETH, 0).unwrap();
    pool.toggle_collateral_setting(&mut admin, second, 0).unwrap();
    pool.deposit(&mut user, ETH, 200 * E18, 0).unwrap();
    let _ = pool.get_available_to_redeem(&user, ETH, 1000).unwrap();
    assert_eq!(pool.get_deposit(&user, ETH, 1000), Ok(200 * E18));
    assert_eq!(pool.get_available_liquidity_by_token(ETH), Ok(1200 * E18));
    pool.deposit(&mut user, second, 300 * E18, 1000).unwrap();
    assert_eq!(pool.get_deposit(&user, second, 2000), Ok(300 * E18));
    assert_eq!(pool.get_available_liquidity_by_token(second), Ok(1300 * E18));
    pool.borrow(&mut user, ETH, 50 * E18, 10_000).unwrap();
    Setup { pool, admin, user }
}

fn successful_deposits_of_one_token(second: u64) {
    const INIT_USER_BALANCE: u128 = 1000 * E18;
    const CONTRACT_RESERVES: u128 = 1_000_000 * E18;
    const FIRST_DEPOSIT_AMOUNT: u128 = 200 * E18;
    const SECOND_DEPOSIT_AMOUNT: u128 = 300 * E18;
    let mut pool = LendingContract::new();
    pool.add_markets(second, TOKENS_DECIMALS, LTV_XLM, LIQUIDATION_THRESHOLD_XLM, 5000000000000000000, 20000000000000000000, 100000000000000000000, OPTIMAL_UTILIZATION_RATIO, 0).unwrap();
    pool.add_markets(ETH, TOKENS_DECIMALS, LTV_ETH, LIQUIDATION_THRESHOLD_ETH, MIN_INTEREST_RATE, SAFE_BORROW_MAX_RATE, RATE_GROWTH_FACTOR, OPTIMAL_UTILIZATION_RATIO, 0).unwrap();
    pool.update_liquidity(second, CONTRACT_RESERVES / 100).unwrap();
    pool.update_liquidity(ETH, CONTRACT_RESERVES / 100).unwrap();
    pool.update_price(second, PRICE_XLM).unwrap();
    pool.update_price(ETH, PRICE_ETH).unwrap();
    let mut admin = Account::new();
    let mut user = Account::new();
    let mut user_wallet = INIT_USER_BALANCE;
    pool.deposit(&mut user, ETH, FIRST_DEPOSIT_AMOUNT, 0).unwrap();
    user_wallet -= FIRST_DEPOSIT_AMOUNT;
    pool.deposit(&mut admin, ETH, FIRST_DEPOSIT_AMOUNT * 15 / 10, 0).unwrap();
    pool.toggle_collateral_setting(&mut user, ETH, 0).unwrap();
    pool.toggle_collateral_setting(&mut admin, ETH, 0).unwrap();
    assert_eq!(pool.get_deposit(&user, ETH, 0), Ok(FIRST_DEPOSIT_AMOUNT));
    assert_eq!(user_wallet, INIT_USER_BALANCE - FIRST_DEPOSIT_AMOUNT);
    pool.deposit(&mut user, ETH, SECOND_DEPOSIT_AMOUNT, 0).unwrap();
    user_wallet -= SECOND_DEPOSIT_AMOUNT;
    pool.borrow(&mut admin, ETH, SECOND_DEPOSIT_AMOUNT / 2, 0).unwrap();
    let now = YEAR_IN_SECONDS;
    let _ = pool.get_total_borrow_data(ETH).unwrap();
    let _ = pool.get_total_reserves_by_token(ETH, now).unwrap();
    let user_deposited_balance = pool.get_deposit(&user, ETH, now).unwrap();
    assert!(user_deposited_balance > FIRST_DEPOSIT_AMOUNT + SECOND_DEPOSIT_AMOUNT);
    assert_eq!(user_wallet, INIT_USER_BALANCE - FIRST_DEPOSIT_AMOUNT - SECOND_DEPOSIT_AMOUNT);
}

#[test]
fn test_successful_deposits_of_one_token() {
    successful_deposits_of_one_token(XLM);
}

#[test]
fn test_test_successful_deposits_of_one_token() {
    successful_deposits_of_one_token(ATOM);
}

fn get_deposit(second: u64) {
    let s = deposit_of_one_token(second);
    assert_eq!(s.pool.get_deposit(&s.user, second, 0), Ok(0));
    assert_eq!(s.pool.get_deposit(&s.user, ETH, 0), Ok(500000000000000000000));
}

#[test]
fn test_get_deposit() {
    get_deposit(XLM);
}

#[test]
fn test_test_get_deposit() {
    get_deposit(ATOM);
}

fn get_mm_token_price(second: u64) {
    let s = deposit_of_one_token(second);
    assert_eq!(s.pool.get_mm_token_price(second, 0), Ok(1000000000000000000));
    assert_eq!(s.pool.get_mm_token_price(ETH, 0), Ok(1000000000000000000));
}

#[test]
fn test_get_mm_token_price() {
    get_mm_token_price(XLM);
}

#[test]
fn test_test_get_mm_token_price() {
    get_mm_token_price(ATOM);
}

fn get_liquidity_rate(second: u64) {
    let mut s = deposit_as_collateral_of_diff_token_with_prices(second);
    s.pool.borrow(&mut s.user, second, 300 * E18, 0).unwrap();
    assert_eq!(s.pool.get_liquidity_rate(second, 0), Ok(1153846153846153846));
    assert_eq!(s.pool.get_liquidity_rate(ETH, 0), Ok(0));
}

#[test]
fn test_get_liquidity_rate() {
    get_liquidity_rate(XLM);
}

#[test]
fn test_test_get_liquidity_rate() {
    get_liquidity_rate(ATOM);
}

fn user_borrow_with_interest(second: u64) {
    let mut s = deposit_as_collateral_of_diff_token_with_prices(second);
    assert_eq!(s.pool.get_user_borrow_with_interest(&s.user, ETH, 0), Ok(0));
    assert_eq!(s.pool.get_user_borrow_with_interest(&s.user, second, 0), Ok(0));
    s.pool.borrow(&mut s.user, ETH, 50 * E18, 0).unwrap();
    s.pool.borrow(&mut s.user, second, 200 * E18, 0).unwrap();
    assert_eq!(s.pool.get_user_borrow_with_interest(&s.user, ETH, 0), Ok(50000000000000000000));
    assert_eq!(s.pool.get_user_borrow_with_interest(&s.user, second, 0), Ok(200000000000000000000));
    // 50 ETH + 5% = 52.5 ETH, 200 + 5% = 210
    let now = YEAR_IN_SECONDS;
    assert_eq!(s.pool.get_user_borrow_with_interest(&s.user, ETH, now), Ok(52500000000000000000));
    assert_eq!(s.pool.get_user_borrow_with_interest(&s.user, second, now), Ok(210000000000000000000));
}

#[test]
fn test_get_user_borrow_with_interest() {
    user_borrow_with_interest(XLM);
}

#[test]
fn test_get_user_borrow_amount_with_interest() {
    user_borrow_with_interest(ATOM);
}

fn success_borrow_one_token(second: u64) {
    const DEPOSIT_OF_SECOND_TOKEN: u128 = 300 * E18;
    const BORROW_SECOND_TOKEN: u128 = 300 * E18;
    let mut s = deposit_as_collateral_of_diff_token_with_prices(second);
    s.pool.redeem(&mut s.user, second, DEPOSIT_OF_SECOND_TOKEN, 0).unwrap();
    assert_eq!(s.pool.get_deposit(&s.user, second, 0), Ok(0));
    s.pool.borrow(&mut s.user, second, BORROW_SECOND_TOKEN, 0).unwrap();
    let owed = s.pool.get_user_borrow_with_interest(&s.user, second, 31536000).unwrap();
    assert_ne!(owed, BORROW_SECOND_TOKEN);
    assert_eq!(owed, BORROW_SECOND_TOKEN * 105 / 100);
}

#[test]
fn test_success_borrow_one_token() {
    success_borrow_one_token(XLM);
}

#[test]
fn test_test_success_borrow_one_token() {
    success_borrow_one_token(ATOM);
}

fn success_repay_whole_amount(second: u64) {
    let mut s = borrow_setup(second);
    let now = 3153600 + 10000;
    let owed = s.pool.get_user_borrow_with_interest(&s.user, ETH, now).unwrap();
    s.pool.repay(&mut s.user, ETH, owed, now).unwrap();
    assert_eq!(s.pool.get_user_borrow_with_interest(&s.user, ETH, now), Ok(0));
}

#[test]
fn test_success_repay_whole_amount() {
    success_repay_whole_amount(XLM);
}

#[test]
fn test_test_success_repay_whole_amount() {
    success_repay_whole_amount(ATOM);
}

fn success_repay_more_than_needed(second: u64) {
    let mut s = borrow_setup(second);
    let now = 3153600 + 10000;
    let owed = s.pool.get_user_borrow_with_interest(&s.user, ETH, now).unwrap();
    let before = s.pool.get_available_liquidity_by_token(ETH).unwrap();
    let (repaid, refund) = s.pool.repay(&mut s.user, ETH, owed * 2, now).unwrap();
    assert_eq!((repaid, refund), (owed, owed));
    let after = s.pool.get_available_liquidity_by_token(ETH).unwrap();
    // paying only what we supposed to, not twice as much
    assert_eq!(after - owed, before);
    assert_eq!(s.pool.get_user_borrow_with_interest(&s.user, ETH, now), Ok(0));
}

#[test]
fn test_success_repay_more_than_needed() {
    success_repay_more_than_needed(XLM);
}

#[test]
fn test_test_success_repay_more_than_needed() {
    success_repay_more_than_needed(ATOM);
}

fn success_repay_by_parts(second: u64) {
    const BORROW_AMOUNT_ETH: u128 = 50 * E18;
    let mut s = borrow_setup(second);
    let now = 31536000 + 10000;
    let before_first = s.pool.get_user_borrow_with_interest(&s.user, ETH, now).unwrap();
    assert_eq!(before_first, BORROW_AMOUNT_ETH * 105 / 100);
    s.pool.repay(&mut s.user, ETH, before_first / 2, now).unwrap();
    let after_first = s.pool.get_user_borrow_with_interest(&s.user, ETH, now).unwrap();
    s.pool.repay(&mut s.user, ETH, after_first, now).unwrap();
    assert_eq!(s.pool.get_user_borrow_with_interest(&s.user, ETH, now), Ok(0));
}

#[test]
fn test_success_repay_by_parts() {
    success_repay_by_parts(XLM);
}

#[test]
fn test_test_success_repay_by_parts() {
    success_repay_by_parts(ATOM);
}

#[test]
fn test_full_borrow() {
    let mut s = borrow_setup(XLM);
    let now = 10000;
    assert_eq!(s.pool.get_deposit(&s.user, ETH, now), Ok(200_000000000000000000));
    assert_eq!(s.pool.get_deposit(&s.user, XLM, now), Ok(300_000000000000000000));
    // 200 ETH * 2000 + 300 XLM * 10 == 403_000$
    assert_eq!(s.pool.get_user_collateral_usd(&s.user, now), Ok(403_000_00000000));
    assert_eq!(s.pool.get_reserve_configuration(XLM).unwrap().loan_to_value_ratio, 7500000);
    assert_eq!(s.pool.get_reserve_configuration(ETH).unwrap().loan_to_value_ratio, 8500000);
    // 200 ETH * 0.85 * 2000 + 300 XLM * 0.75 * 10 == 340_000 + 2_250 = 342_250$
    assert_eq!(s.pool.get_user_max_allowed_borrow_usd(&s.user, now), Ok(342_250_00000000));
    assert_eq!(s.pool.get_user_borrowed_usd(&s.user, now), Ok(100_000_00000000));
    // (342_250$ - 100_000$) / 2000 == 121.125 ETH
    assert_eq!(s.pool.get_available_to_borrow(&s.user, ETH, now), Ok(121125000000000000000));
    s.pool.borrow(&mut s.user, ETH, 121 * E18, now).unwrap();
    assert_eq!(s.pool.get_available_to_borrow(&s.user, ETH, now), Ok(125000000000000000));
    s.pool.borrow(&mut s.user, ETH, 125000000000000000, now).unwrap();
    assert_eq!(s.pool.get_available_to_borrow(&s.user, ETH, now), Ok(0));
}

#[test]
fn test_redeem() {
    const DEPOSIT_AMOUNT_ETH: u128 = 200 * E18;
    const DEPOSIT_AMOUNT_XLM: u128 = 300 * E18;
    let mut s = deposit_as_collateral_of_diff_token_with_prices(XLM);
    let pool = &mut s.pool;
    for denom in [USDC, USDT, DAI] {
        pool.add_markets(denom, 7, 75 * 100_000, 80 * 100_000, 5 * E18, 30 * E18, 70 * E18, 80 * 100_000, 0).unwrap();
        pool.deposit(&mut s.admin, denom, 10_000_0000000, 0).unwrap();
        pool.update_price(denom, 100_000_000).unwrap();
    }
    let mut borrowers = vec![Account::new(), Account::new(), Account::new()];
    pool.deposit(&mut s.user, USDC, 1000_0000000, 0).unwrap();
    pool.toggle_collateral_setting(&mut s.user, USDC, 0).unwrap();
    pool.borrow(&mut s.user, XLM, 100_000, 0).unwrap();
    pool.borrow(&mut s.user, ETH, 1_000, 0).unwrap();
    for (k, b) in borrowers.iter_mut().enumerate() {
        let collateral = if k == 1 { USDT } else { USDC };
        pool.deposit(b, collateral, 1000_0000000, 0).unwrap();
        pool.toggle_collateral_setting(b, collateral, 0).unwrap();
        pool.borrow(b, XLM, 100_000, 0).unwrap();
        pool.borrow(b, ETH, 1_000, 0).unwrap();
    }
    pool.toggle_collateral_setting(&mut s.user, ETH, 0).unwrap();
    pool.toggle_collateral_setting(&mut s.user, ETH, 0).unwrap();
    let _ = pool.get_user_max_allowed_borrow_usd(&s.user, 0).unwrap();
    assert_eq!(pool.get_available_to_redeem(&s.user, ETH, 0), Ok(DEPOSIT_AMOUNT_ETH));
    assert_eq!(pool.get_available_to_redeem(&s.user, XLM, 0), Ok(DEPOSIT_AMOUNT_XLM));
    let _ = pool.get_available_to_borrow(&s.user, ETH, 0).unwrap();
    let _ = pool.get_user_collateral_usd(&s.user, 0).unwrap();
    let _ = pool.get_user_borrowed_usd(&s.user, 0).unwrap();
    let _ = pool.get_user_liquidation_threshold(&s.user, 0).unwrap();
    let _ = pool.get_available_liquidity_by_token(ETH).unwrap();
    pool.borrow(&mut s.user, ETH, 1_000_000, 0).unwrap();
    pool.redeem(&mut s.user, XLM, 0, 0).unwrap();
    pool.redeem(&mut s.user, ETH, 0, 0).unwrap();
    assert_eq!(pool.get_available_to_redeem(&s.user, ETH, 0), Ok(0));
    assert_eq!(pool.get_available_to_redeem(&s.user, XLM, 0), Ok(0));
}

fn budget(denom: u64) {
    let mut pool = LendingContract::new();
    assert_eq!(
        pool.add_markets(denom, 7, 75 * 100_000, 80 * 100_000, 5 * E18, 30 * E18, 70 * E18, 80 * 100_000, 0),
        Ok(())
    );
    assert_eq!(pool.get_supported_tokens(), vec![denom]);
    assert_eq!(pool.get_token_decimal(denom), Ok(7));
}

#[test]
fn test_budget() {
    budget(XLM);
}

#[test]
fn test_test_budget() {
    budget(ATOM);
}

fn tvl(second: u64) {
    let s = deposit_of_diff_token_with_prices(second);
    assert_eq!(s.pool.get_tvl(), Ok(2_413_000 * 100_000_000));
}

#[test]
fn test_tvl() {
    tvl(XLM);
}

#[test]
fn test_test_tvl() {
    tvl(ATOM);
}
