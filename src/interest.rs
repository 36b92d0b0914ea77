//! Per-market quantities: borrow interest, utilisation, the rate curve, the
//! liquidity rate and index, the share price and one user's deposit and debt.
//!
//! Every quantity is a function of the market's checkpoints and the time
//! `now`; the spec functions here state each one, and each executable function
//! returns exactly its spec function's value.

use vstd::prelude::*;

use crate::fixed::{
    add_checked, add_spec, checked, div_spec, div_to, from_decimal, from_decimal_spec, mul_decimal,
    mul_decimal_spec, mul_div, mul_spec, mul_to,
};
use crate::maths::{exp, exp_result, ln, ln_result, powd, powd_result, MAX_MANTISSA};
use crate::types::{
    Error, LiquidityIndexData, Market, TokenInterestRateModelParams, UserBorrowingInfo,
    UserPosition, HUNDRED, HUNDRED_PERCENT, INTEREST_RATE_DECIMALS, INTEREST_RATE_MULTIPLIER,
    YEAR_IN_SECONDS,
};

verus! {

/// Seconds from `from` to `now`; zero when the clock reads earlier than `from`.
pub open spec fn elapsed(now: u64, from: u64) -> u128 {
    if now >= from {
        (now - from) as u128
    } else {
        0
    }
}

/// Mantissa, at `INTEREST_RATE_DECIMALS` places, of the growth factor
/// `1 + rate / 100` of a rate given as a percent.
pub open spec fn growth_base(rate: u128) -> int {
    (rate as int) / (HUNDRED as int) + INTEREST_RATE_MULTIPLIER
}

/// `borrowed` compounded at `rate` (a percent at `INTEREST_RATE_DECIMALS`
/// places) over `interval` seconds: `borrowed * (1 + rate/100)^(interval/year)`,
/// the power computed by `rust_decimal` and the product truncated. Without
/// principal, without elapsed time or with a growth factor of exactly one the
/// principal is returned as it is.
pub open spec fn borrow_amount_with_interest(borrowed: u128, rate: u128, interval: u128) -> Result<
    u128,
    Error,
> {
    let base = growth_base(rate);
    let exponent = interval * INTEREST_RATE_MULTIPLIER / YEAR_IN_SECONDS as int;
    if borrowed == 0 || interval == 0 || base == INTEREST_RATE_MULTIPLIER {
        Ok(borrowed)
    } else if base > MAX_MANTISSA || exponent > MAX_MANTISSA {
        Err(Error::Overflow)
    } else {
        match powd_result(base as i128, INTEREST_RATE_DECIMALS, exponent as i128, INTEREST_RATE_DECIMALS) {
            None => Err(Error::Overflow),
            Some(p) => mul_decimal_spec(borrowed, p.0, p.1),
        }
    }
}

/// Everything borrowed from the market, with interest up to `now`.
pub open spec fn total_borrowed_by_token(m: Market, now: u64) -> Result<u128, Error> {
    borrow_amount_with_interest(
        m.total_borrow_data.total_borrowed_amount,
        m.total_borrow_data.average_interest_rate,
        elapsed(now, m.total_borrow_data.timestamp),
    )
}

/// Liquidity plus everything borrowed: what the market's lenders own.
pub open spec fn total_reserves_by_token(m: Market, now: u64) -> Result<u128, Error> {
    match total_borrowed_by_token(m, now) {
        Err(e) => Err(e),
        Ok(b) => add_spec(m.liquidity, b),
    }
}

/// Borrowed over reserves, a percentage at `PERCENT_DECIMALS` places; zero
/// without reserves.
pub open spec fn utilization_rate_by_token(m: Market, now: u64) -> Result<u128, Error> {
    match total_borrowed_by_token(m, now) {
        Err(e) => Err(e),
        Ok(b) => match add_spec(m.liquidity, b) {
            Err(e) => Err(e),
            Ok(reserves) => if reserves == 0 {
                Ok(0)
            } else {
                checked(b * HUNDRED_PERCENT / reserves as int)
            },
        },
    }
}

/// The rate curve at utilisation `u`: linear from the minimum rate to the safe
/// maximum up to the optimal utilisation, then rising by the growth factor
/// towards full utilisation.
pub open spec fn curve_rate(p: TokenInterestRateModelParams, u: u128) -> Result<u128, Error> {
    let opt = p.optimal_utilization_ratio;
    if u <= opt {
        if p.safe_borrow_max_rate < p.min_interest_rate {
            Err(Error::Overflow)
        } else if opt == 0 {
            Err(Error::DivisionByZero)
        } else {
            checked(
                p.min_interest_rate + u * (p.safe_borrow_max_rate - p.min_interest_rate) / opt as int,
            )
        }
    } else {
        if HUNDRED_PERCENT < opt {
            Err(Error::Overflow)
        } else if HUNDRED_PERCENT == opt {
            Err(Error::DivisionByZero)
        } else {
            checked(
                p.safe_borrow_max_rate + p.rate_growth_factor * (u - opt) / (HUNDRED_PERCENT - opt) as int,
            )
        }
    }
}

/// The market's current borrow rate.
pub open spec fn interest_rate(m: Market, now: u64) -> Result<u128, Error> {
    match utilization_rate_by_token(m, now) {
        Err(e) => Err(e),
        Ok(u) => curve_rate(m.interest_rate_params, u),
    }
}

/// Yearly yield of the market's lenders, a percent at `INTEREST_RATE_DECIMALS`
/// places: `100 * income / reserves`, zero without reserves.
pub open spec fn liquidity_rate(m: Market, now: u64) -> Result<u128, Error> {
    match total_reserves_by_token(m, now) {
        Err(e) => Err(e),
        Ok(reserves) => if reserves == 0 {
            Ok(0)
        } else {
            match checked(m.total_borrow_data.expected_annual_interest_income * HUNDRED) {
                Err(e) => Err(e),
                Ok(x) => div_spec(
                    x,
                    INTEREST_RATE_DECIMALS,
                    reserves,
                    m.decimals,
                    INTEREST_RATE_DECIMALS,
                ),
            }
        },
    }
}

/// `ln(1 + rate/100)` by `rust_decimal`, at `INTEREST_RATE_DECIMALS` places.
pub open spec fn ln_growth(rate: u128) -> Result<u128, Error> {
    let base = growth_base(rate);
    if base > MAX_MANTISSA {
        Err(Error::Overflow)
    } else {
        match ln_result(base as i128, INTEREST_RATE_DECIMALS) {
            None => Err(Error::Overflow),
            Some(l) => from_decimal_spec(l.0, l.1, INTEREST_RATE_DECIMALS),
        }
    }
}

/// The liquidity index at `now`: the stored index plus the elapsed share of a
/// year times `ln(1 + liquidity rate/100)`.
pub open spec fn current_liquidity_index_ln(m: Market, now: u64) -> Result<u128, Error> {
    match liquidity_rate(m, now) {
        Err(e) => Err(e),
        Ok(rate) => match ln_growth(rate) {
            Err(e) => Err(e),
            Ok(l) => checked(
                elapsed(now, m.liquidity_index_data.timestamp) * l / YEAR_IN_SECONDS as int
                    + m.liquidity_index_data.liquidity_index_ln,
            ),
        },
    }
}

/// The market with its liquidity index checkpointed at `now`.
pub open spec fn refreshed(m: Market, now: u64) -> Result<Market, Error> {
    match current_liquidity_index_ln(m, now) {
        Err(e) => Err(e),
        Ok(idx) => Ok(
            Market {
                liquidity_index_data: LiquidityIndexData { liquidity_index_ln: idx, timestamp: now },
                ..m
            },
        ),
    }
}

/// Tokens that one pool share is worth, at the token's places: `exp` of the
/// liquidity index by `rust_decimal`.
pub open spec fn mm_token_price(m: Market, now: u64) -> Result<u128, Error> {
    match current_liquidity_index_ln(m, now) {
        Err(e) => Err(e),
        Ok(idx) => if idx > MAX_MANTISSA {
            Err(Error::Overflow)
        } else {
            match exp_result(idx as i128, INTEREST_RATE_DECIMALS) {
                None => Err(Error::Overflow),
                Some(x) => from_decimal_spec(x.0, x.1, m.decimals),
            }
        },
    }
}

/// Tokens a balance of `shares` pool shares is worth.
pub open spec fn shares_value(m: Market, shares: u128, now: u64) -> Result<u128, Error> {
    match mm_token_price(m, now) {
        Err(e) => Err(e),
        Ok(price) => mul_spec(shares, m.decimals, price, m.decimals, m.decimals),
    }
}

/// A user's deposit in tokens, interest included.
pub open spec fn deposit_amount(m: Market, pos: UserPosition, now: u64) -> Result<u128, Error> {
    shares_value(m, pos.mm_token_balance, now)
}

/// A user's borrow checkpoint as interest is computed from it: a position
/// without principal takes the market's current rate and starts now.
pub open spec fn effective_borrowing_info(m: Market, pos: UserPosition, now: u64) -> Result<
    UserBorrowingInfo,
    Error,
> {
    if pos.borrowing.borrowed_amount == 0 {
        match interest_rate(m, now) {
            Err(e) => Err(e),
            Ok(r) => Ok(
                UserBorrowingInfo { borrowed_amount: 0, average_interest_rate: r, timestamp: now },
            ),
        }
    } else {
        Ok(pos.borrowing)
    }
}

/// What a user owes in a market at `now`, interest included.
pub open spec fn borrow_with_interest(m: Market, pos: UserPosition, now: u64) -> Result<u128, Error> {
    match effective_borrowing_info(m, pos, now) {
        Err(e) => Err(e),
        Ok(info) => borrow_amount_with_interest(
            info.borrowed_amount,
            info.average_interest_rate,
            elapsed(now, info.timestamp),
        ),
    }
}

pub fn elapsed_seconds(now: u64, from: u64) -> (r: u128)
    ensures
        r == elapsed(now, from),
{
    if now >= from {
        (now - from) as u128
    } else {
        0
    }
}

/// `borrowed_amount` compounded at `interest_rate` over `interval` seconds.
/// The amount keeps its own units, whatever `token_decimals` is.
pub fn calc_borrow_amount_with_interest(
    borrowed_amount: u128,
    interest_rate: u128,
    interval: u128,
    token_decimals: u32,
) -> (r: Result<u128, Error>)
    ensures
        r == borrow_amount_with_interest(borrowed_amount, interest_rate, interval),
        interval == 0 || borrowed_amount == 0 ==> r == Ok::<u128, Error>(borrowed_amount),
{
    let base = interest_rate / HUNDRED + INTEREST_RATE_MULTIPLIER;
    if borrowed_amount == 0 || interval == 0 || base == INTEREST_RATE_MULTIPLIER {
        return Ok(borrowed_amount);
    }
    let exponent = match mul_div(interval, INTEREST_RATE_MULTIPLIER, YEAR_IN_SECONDS) {
        None => return Err(Error::Overflow),
        Some(e) => e,
    };
    if base > MAX_MANTISSA as u128 || exponent > MAX_MANTISSA as u128 {
        return Err(Error::Overflow);
    }
    match powd(base as i128, INTEREST_RATE_DECIMALS, exponent as i128, INTEREST_RATE_DECIMALS) {
        None => Err(Error::Overflow),
        Some(p) => mul_decimal(borrowed_amount, p.0, p.1),
    }
}

pub fn get_total_borrowed_by_token(m: &Market, now: u64) -> (r: Result<u128, Error>)
    ensures
        r == total_borrowed_by_token(*m, now),
{
    calc_borrow_amount_with_interest(
        m.total_borrow_data.total_borrowed_amount,
        m.total_borrow_data.average_interest_rate,
        elapsed_seconds(now, m.total_borrow_data.timestamp),
        m.decimals,
    )
}

pub fn get_total_reserves_by_token(m: &Market, now: u64) -> (r: Result<u128, Error>)
    ensures
        r == total_reserves_by_token(*m, now),
{
    let borrowed = get_total_borrowed_by_token(m, now)?;
    add_checked(m.liquidity, borrowed)
}

pub fn get_utilization_rate_by_token(m: &Market, now: u64) -> (r: Result<u128, Error>)
    ensures
        r == utilization_rate_by_token(*m, now),
{
    let borrowed = get_total_borrowed_by_token(m, now)?;
    let reserves = add_checked(m.liquidity, borrowed)?;
    if reserves == 0 {
        return Ok(0);
    }
    match mul_div(borrowed, HUNDRED_PERCENT, reserves) {
        None => Err(Error::Overflow),
        Some(u) => Ok(u),
    }
}

/// The rate curve of `params` at utilisation `utilization`.
pub fn calc_interest_rate(params: &TokenInterestRateModelParams, utilization: u128) -> (r: Result<
    u128,
    Error,
>)
    ensures
        r == curve_rate(*params, utilization),
{
    let opt = params.optimal_utilization_ratio;
    if utilization <= opt {
        if params.safe_borrow_max_rate < params.min_interest_rate {
            return Err(Error::Overflow);
        }
        if opt == 0 {
            return Err(Error::DivisionByZero);
        }
        match mul_div(utilization, params.safe_borrow_max_rate - params.min_interest_rate, opt) {
            None => Err(Error::Overflow),
            Some(x) => add_checked(params.min_interest_rate, x),
        }
    } else {
        if HUNDRED_PERCENT < opt {
            return Err(Error::Overflow);
        }
        if HUNDRED_PERCENT == opt {
            return Err(Error::DivisionByZero);
        }
        match mul_div(params.rate_growth_factor, utilization - opt, HUNDRED_PERCENT - opt) {
            None => Err(Error::Overflow),
            Some(x) => add_checked(params.safe_borrow_max_rate, x),
        }
    }
}

pub fn get_interest_rate(m: &Market, now: u64) -> (r: Result<u128, Error>)
    ensures
        r == interest_rate(*m, now),
{
    let u = get_utilization_rate_by_token(m, now)?;
    calc_interest_rate(&m.interest_rate_params, u)
}

pub fn get_liquidity_rate(m: &Market, now: u64) -> (r: Result<u128, Error>)
    requires
        m.wf(),
    ensures
        r == liquidity_rate(*m, now),
{
    let reserves = get_total_reserves_by_token(m, now)?;
    if reserves == 0 {
        return Ok(0);
    }
    let income = m.total_borrow_data.expected_annual_interest_income;
    if income > u128::MAX / HUNDRED {
        return Err(Error::Overflow);
    }
    div_to(income * HUNDRED, INTEREST_RATE_DECIMALS, reserves, m.decimals, INTEREST_RATE_DECIMALS)
}

fn calc_ln_growth(rate: u128) -> (r: Result<u128, Error>)
    ensures
        r == ln_growth(rate),
{
    let base = rate / HUNDRED + INTEREST_RATE_MULTIPLIER;
    if base > MAX_MANTISSA as u128 {
        return Err(Error::Overflow);
    }
    match ln(base as i128, INTEREST_RATE_DECIMALS) {
        None => Err(Error::Overflow),
        Some(l) => from_decimal(l.0, l.1, INTEREST_RATE_DECIMALS),
    }
}

pub fn get_current_liquidity_index_ln(m: &Market, now: u64) -> (r: Result<u128, Error>)
    requires
        m.wf(),
    ensures
        r == current_liquidity_index_ln(*m, now),
{
    let rate = get_liquidity_rate(m, now)?;
    let l = calc_ln_growth(rate)?;
    match mul_div(elapsed_seconds(now, m.liquidity_index_data.timestamp), l, YEAR_IN_SECONDS) {
        None => Err(Error::Overflow),
        Some(delta) => add_checked(delta, m.liquidity_index_data.liquidity_index_ln),
    }
}

/// Checkpoints the market's liquidity index at `now`; on an error the market
/// is left as it was.
pub fn execute_update_liquidity_index_data(m: &mut Market, now: u64) -> (r: Result<(), Error>)
    requires
        old(m).wf(),
    ensures
        match refreshed(*old(m), now) {
            Ok(n) => r is Ok && *final(m) == n,
            Err(e) => r == Err::<(), Error>(e) && *final(m) == *old(m),
        },
{
    let idx = get_current_liquidity_index_ln(m, now)?;
    m.liquidity_index_data = LiquidityIndexData { liquidity_index_ln: idx, timestamp: now };
    Ok(())
}

pub fn get_mm_token_price(m: &Market, now: u64) -> (r: Result<u128, Error>)
    requires
        m.wf(),
    ensures
        r == mm_token_price(*m, now),
{
    let idx = get_current_liquidity_index_ln(m, now)?;
    if idx > MAX_MANTISSA as u128 {
        return Err(Error::Overflow);
    }
    match exp(idx as i128, INTEREST_RATE_DECIMALS) {
        None => Err(Error::Overflow),
        Some(x) => from_decimal(x.0, x.1, m.decimals),
    }
}

/// Tokens that `shares` pool shares are worth at `now`.
pub fn get_shares_value(m: &Market, shares: u128, now: u64) -> (r: Result<u128, Error>)
    requires
        m.wf(),
    ensures
        r == shares_value(*m, shares, now),
{
    let price = get_mm_token_price(m, now)?;
    mul_to(shares, m.decimals, price, m.decimals, m.decimals)
}

/// A user's deposit in tokens, interest included.
pub fn get_deposit(m: &Market, pos: &UserPosition, now: u64) -> (r: Result<u128, Error>)
    requires
        m.wf(),
    ensures
        r == deposit_amount(*m, *pos, now),
{
    get_shares_value(m, pos.mm_token_balance, now)
}

/// A user's borrow checkpoint as interest is computed from it.
pub fn get_user_borrowing_info(m: &Market, pos: &UserPosition, now: u64) -> (r: Result<
    UserBorrowingInfo,
    Error,
>)
    ensures
        r == effective_borrowing_info(*m, *pos, now),
{
    if pos.borrowing.borrowed_amount == 0 {
        let rate = get_interest_rate(m, now)?;
        Ok(UserBorrowingInfo { borrowed_amount: 0, average_interest_rate: rate, timestamp: now })
    } else {
        Ok(pos.borrowing)
    }
}

/// What a user owes in a market at `now`, interest included.
pub fn get_user_borrow_amount_with_interest(m: &Market, pos: &UserPosition, now: u64) -> (r: Result<
    u128,
    Error,
>)
    ensures
        r == borrow_with_interest(*m, *pos, now),
{
    let info = get_user_borrowing_info(m, pos, now)?;
    calc_borrow_amount_with_interest(
        info.borrowed_amount,
        info.average_interest_rate,
        elapsed_seconds(now, info.timestamp),
        m.decimals,
    )
}

} // verus!
