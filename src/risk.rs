//! The risk engine: a user's deposits, collateral and debt across every market,
//! in USD at `USD_DECIMALS` places, and what the user may still borrow or redeem.

use vstd::prelude::*;

use crate::fixed::{
    add_checked, add_spec, checked, div_capped, div_capped_spec, mul_div, mul_spec, mul_to,
};
use crate::interest::{
    borrow_with_interest, deposit_amount, get_deposit, get_user_borrow_amount_with_interest,
};
use crate::types::{Account, Error, Market, UserPosition, HUNDRED_PERCENT, USD_DECIMALS};

verus! {

/// Every market is well formed.
pub open spec fn markets_wf(markets: Seq<Market>) -> bool {
    forall|i: int| 0 <= i < markets.len() ==> #[trigger] markets[i].wf()
}

/// USD value of `amount` tokens of market `m`.
pub open spec fn usd_value(m: Market, amount: u128) -> Result<u128, Error> {
    mul_spec(amount, m.decimals, m.price, USD_DECIMALS, USD_DECIMALS)
}

/// What one market adds to a sum over a user's markets.
pub enum Metric {
    /// The deposit's USD value.
    Deposited,
    /// The deposit's USD value where it counts as collateral.
    Collateral,
    /// The debt's USD value.
    Borrowed,
    /// The collateral's USD value times the loan-to-value ratio.
    MaxBorrow,
    /// The collateral's USD value times the liquidation threshold.
    LiquidationThreshold,
}

/// The term of market `m` in the sum of `metric`.
pub open spec fn metric_term(metric: Metric, m: Market, pos: UserPosition, now: u64) -> Result<
    u128,
    Error,
> {
    match metric {
        Metric::Borrowed => match borrow_with_interest(m, pos, now) {
            Err(e) => Err(e),
            Ok(owed) => usd_value(m, owed),
        },
        Metric::Deposited => match deposit_amount(m, pos, now) {
            Err(e) => Err(e),
            Ok(d) => usd_value(m, d),
        },
        _ => if !pos.deposit_as_collateral {
            Ok(0)
        } else {
            match deposit_amount(m, pos, now) {
                Err(e) => Err(e),
                Ok(d) => match usd_value(m, d) {
                    Err(e) => Err(e),
                    Ok(usd) => match metric {
                        Metric::MaxBorrow => checked(
                            usd * m.reserve_configuration.loan_to_value_ratio
                                / HUNDRED_PERCENT as int,
                        ),
                        Metric::LiquidationThreshold => checked(
                            usd * m.reserve_configuration.liquidation_threshold
                                / HUNDRED_PERCENT as int,
                        ),
                        _ => Ok(usd),
                    },
                },
            }
        },
    }
}

/// Sum of terms, stopping at the first error or overflow.
pub open spec fn sum_terms(terms: Seq<Result<u128, Error>>) -> Result<u128, Error>
    decreases terms.len(),
{
    if terms.len() == 0 {
        Ok(0)
    } else {
        match sum_terms(terms.drop_last()) {
            Err(e) => Err(e),
            Ok(s) => match terms.last() {
                Err(e) => Err(e),
                Ok(v) => add_spec(s, v),
            },
        }
    }
}

/// The terms of `metric`, one per market.
pub open spec fn metric_terms(metric: Metric, markets: Seq<Market>, acct: Account, now: u64) -> Seq<
    Result<u128, Error>,
> {
    Seq::new(markets.len(), |i: int| metric_term(metric, markets[i], acct.position(i), now))
}

/// The sum of `metric` over every market, in market order.
pub open spec fn metric_sum(metric: Metric, markets: Seq<Market>, acct: Account, now: u64) -> Result<
    u128,
    Error,
> {
    sum_terms(metric_terms(metric, markets, acct, now))
}

/// USD value of all the user's deposits.
pub open spec fn deposited_usd(markets: Seq<Market>, acct: Account, now: u64) -> Result<u128, Error> {
    metric_sum(Metric::Deposited, markets, acct, now)
}

/// USD value of the user's deposits that count as collateral.
pub open spec fn collateral_usd(markets: Seq<Market>, acct: Account, now: u64) -> Result<u128, Error> {
    metric_sum(Metric::Collateral, markets, acct, now)
}

/// USD value of everything the user owes, interest included.
pub open spec fn borrowed_usd(markets: Seq<Market>, acct: Account, now: u64) -> Result<u128, Error> {
    metric_sum(Metric::Borrowed, markets, acct, now)
}

/// The most the user may owe in USD: each collateral's value times its
/// loan-to-value ratio.
pub open spec fn max_allowed_borrow_usd(markets: Seq<Market>, acct: Account, now: u64) -> Result<
    u128,
    Error,
> {
    metric_sum(Metric::MaxBorrow, markets, acct, now)
}

/// The user's liquidation threshold: the average of the collateral markets'
/// thresholds weighted by the collateral's USD value, a percentage at
/// `PERCENT_DECIMALS` places. `NoCollateral` when the collateral is worth nothing.
pub open spec fn liquidation_threshold(markets: Seq<Market>, acct: Account, now: u64) -> Result<
    u128,
    Error,
> {
    match metric_sum(Metric::LiquidationThreshold, markets, acct, now) {
        Err(e) => Err(e),
        Ok(weighted) => match collateral_usd(markets, acct, now) {
            Err(e) => Err(e),
            Ok(total) => if total == 0 {
                Err(Error::NoCollateral)
            } else {
                checked(weighted * HUNDRED_PERCENT / total as int)
            },
        },
    }
}

/// The user's debt over collateral, a percentage at `PERCENT_DECIMALS`
/// places; zero without collateral.
pub open spec fn user_utilization_rate(markets: Seq<Market>, acct: Account, now: u64) -> Result<
    u128,
    Error,
> {
    match collateral_usd(markets, acct, now) {
        Err(e) => Err(e),
        Ok(c) => if c == 0 {
            Ok(0)
        } else {
            match borrowed_usd(markets, acct, now) {
                Err(e) => Err(e),
                Ok(b) => checked(b * HUNDRED_PERCENT / c as int),
            }
        },
    }
}

/// Tokens of market `i` the user may still borrow: the unused USD allowance
/// over the price, at most the market's liquidity; zero once the debt reaches
/// the allowance.
pub open spec fn available_to_borrow(markets: Seq<Market>, acct: Account, i: int, now: u64) -> Result<
    u128,
    Error,
> {
    match max_allowed_borrow_usd(markets, acct, now) {
        Err(e) => Err(e),
        Ok(max) => match borrowed_usd(markets, acct, now) {
            Err(e) => Err(e),
            Ok(b) => if max > b {
                div_capped_spec(
                    (max - b) as u128,
                    USD_DECIMALS,
                    markets[i].price,
                    USD_DECIMALS,
                    markets[i].decimals,
                    markets[i].liquidity,
                )
            } else {
                Ok(0)
            },
        },
    }
}

/// Tokens of market `i` the user may redeem. A deposit that is not collateral
/// may be redeemed whole. Of a collateral deposit, the part whose USD value
/// exceeds what the debt requires at the liquidation threshold, at most the
/// deposit and the market's liquidity.
pub open spec fn available_to_redeem(markets: Seq<Market>, acct: Account, i: int, now: u64) -> Result<
    u128,
    Error,
> {
    let m = markets[i];
    let pos = acct.position(i);
    match deposit_amount(m, pos, now) {
        Err(e) => Err(e),
        Ok(bal) => if !pos.deposit_as_collateral {
            Ok(bal)
        } else if bal == 0 {
            Ok(0)
        } else {
            match collateral_usd(markets, acct, now) {
                Err(e) => Err(e),
                Ok(coll) => match borrowed_usd(markets, acct, now) {
                    Err(e) => Err(e),
                    Ok(borr) => match liquidation_threshold(markets, acct, now) {
                        Err(e) => Err(e),
                        Ok(lt) => if lt == 0 {
                            Err(Error::DivisionByZero)
                        } else {
                            let required = borr * HUNDRED_PERCENT / lt as int;
                            if coll < required {
                                Ok(0)
                            } else {
                                div_capped_spec(
                                    (coll - required) as u128,
                                    USD_DECIMALS,
                                    m.price,
                                    USD_DECIMALS,
                                    m.decimals,
                                    if bal > m.liquidity {
                                        m.liquidity
                                    } else {
                                        bal
                                    },
                                )
                            }
                        },
                    },
                },
            }
        },
    }
}

proof fn lemma_sum_push(terms: Seq<Result<u128, Error>>, i: int)
    requires
        0 <= i < terms.len(),
    ensures
        sum_terms(terms.subrange(0, i + 1)) == match sum_terms(terms.subrange(0, i)) {
            Err(e) => Err(e),
            Ok(s) => match terms[i] {
                Err(e) => Err(e),
                Ok(v) => add_spec(s, v),
            },
        },
{
    assert(terms.subrange(0, i + 1).drop_last() =~= terms.subrange(0, i));
}

pub(crate) proof fn lemma_sum_err(terms: Seq<Result<u128, Error>>, i: int, j: int)
    requires
        0 <= i <= j <= terms.len(),
        sum_terms(terms.subrange(0, i)) is Err,
    ensures
        sum_terms(terms.subrange(0, j)) == sum_terms(terms.subrange(0, i)),
    decreases j - i,
{
    if j > i {
        lemma_sum_err(terms, i, j - 1);
        lemma_sum_push(terms, j - 1);
    }
}

/// USD value of `amount` tokens of market `m`.
pub fn get_usd_value(m: &Market, amount: u128) -> (r: Result<u128, Error>)
    requires
        m.wf(),
    ensures
        r == usd_value(*m, amount),
{
    mul_to(amount, m.decimals, m.price, USD_DECIMALS, USD_DECIMALS)
}

/// The term of market `m` in the sum of `metric`.
pub fn get_metric_term(metric: &Metric, m: &Market, pos: &UserPosition, now: u64) -> (r: Result<
    u128,
    Error,
>)
    requires
        m.wf(),
    ensures
        r == metric_term(*metric, *m, *pos, now),
{
    match metric {
        Metric::Borrowed => {
            let owed = get_user_borrow_amount_with_interest(m, pos, now)?;
            get_usd_value(m, owed)
        },
        Metric::Deposited => {
            let d = get_deposit(m, pos, now)?;
            get_usd_value(m, d)
        },
        _ => {
            if !pos.deposit_as_collateral {
                return Ok(0);
            }
            let d = get_deposit(m, pos, now)?;
            let usd = get_usd_value(m, d)?;
            match metric {
                Metric::MaxBorrow => match mul_div(
                    usd,
                    m.reserve_configuration.loan_to_value_ratio,
                    HUNDRED_PERCENT,
                ) {
                    None => Err(Error::Overflow),
                    Some(v) => Ok(v),
                },
                Metric::LiquidationThreshold => match mul_div(
                    usd,
                    m.reserve_configuration.liquidation_threshold,
                    HUNDRED_PERCENT,
                ) {
                    None => Err(Error::Overflow),
                    Some(v) => Ok(v),
                },
                _ => Ok(usd),
            }
        },
    }
}

/// The sum of `metric` over every market, in market order.
pub fn get_metric_sum(metric: &Metric, markets: &Vec<Market>, acct: &Account, now: u64) -> (r: Result<
    u128,
    Error,
>)
    requires
        markets_wf(markets@),
    ensures
        r == metric_sum(*metric, markets@, *acct, now),
{
    let ghost terms = metric_terms(*metric, markets@, *acct, now);
    let mut total: u128 = 0;
    let mut i: usize = 0;
    proof {
        assert(terms.subrange(0, 0).len() == 0);
    }
    while i < markets.len()
        invariant
            i <= markets.len(),
            markets_wf(markets@),
            terms == metric_terms(*metric, markets@, *acct, now),
            terms.len() == markets.len(),
            sum_terms(terms.subrange(0, i as int)) == Ok::<u128, Error>(total),
        decreases markets.len() - i,
    {
        let pos = acct.get_position(i);
        let term = get_metric_term(metric, &markets[i], &pos, now);
        proof {
            lemma_sum_push(terms, i as int);
        }
        match term {
            Err(e) => {
                proof {
                    lemma_sum_err(terms, i + 1, terms.len() as int);
                    assert(terms.subrange(0, terms.len() as int) =~= terms);
                }
                return Err(e);
            },
            Ok(v) => match add_checked(total, v) {
                Err(e) => {
                    proof {
                        lemma_sum_err(terms, i + 1, terms.len() as int);
                        assert(terms.subrange(0, terms.len() as int) =~= terms);
                    }
                    return Err(e);
                },
                Ok(s) => {
                    total = s;
                },
            },
        }
        i = i + 1;
    }
    proof {
        assert(terms.subrange(0, terms.len() as int) =~= terms);
    }
    Ok(total)
}

pub fn get_user_deposited_usd(markets: &Vec<Market>, acct: &Account, now: u64) -> (r: Result<
    u128,
    Error,
>)
    requires
        markets_wf(markets@),
    ensures
        r == deposited_usd(markets@, *acct, now),
{
    get_metric_sum(&Metric::Deposited, markets, acct, now)
}

pub fn get_user_collateral_usd(markets: &Vec<Market>, acct: &Account, now: u64) -> (r: Result<
    u128,
    Error,
>)
    requires
        markets_wf(markets@),
    ensures
        r == collateral_usd(markets@, *acct, now),
{
    get_metric_sum(&Metric::Collateral, markets, acct, now)
}

pub fn get_user_borrowed_usd(markets: &Vec<Market>, acct: &Account, now: u64) -> (r: Result<
    u128,
    Error,
>)
    requires
        markets_wf(markets@),
    ensures
        r == borrowed_usd(markets@, *acct, now),
{
    get_metric_sum(&Metric::Borrowed, markets, acct, now)
}

pub fn get_user_max_allowed_borrow_amount_usd(
    markets: &Vec<Market>,
    acct: &Account,
    now: u64,
) -> (r: Result<u128, Error>)
    requires
        markets_wf(markets@),
    ensures
        r == max_allowed_borrow_usd(markets@, *acct, now),
{
    get_metric_sum(&Metric::MaxBorrow, markets, acct, now)
}

pub fn get_user_liquidation_threshold(markets: &Vec<Market>, acct: &Account, now: u64) -> (r: Result<
    u128,
    Error,
>)
    requires
        markets_wf(markets@),
    ensures
        r == liquidation_threshold(markets@, *acct, now),
{
    let weighted = get_metric_sum(&Metric::LiquidationThreshold, markets, acct, now)?;
    let total = get_user_collateral_usd(markets, acct, now)?;
    if total == 0 {
        return Err(Error::NoCollateral);
    }
    match mul_div(weighted, HUNDRED_PERCENT, total) {
        None => Err(Error::Overflow),
        Some(v) => Ok(v),
    }
}

pub fn get_user_utilization_rate(markets: &Vec<Market>, acct: &Account, now: u64) -> (r: Result<
    u128,
    Error,
>)
    requires
        markets_wf(markets@),
    ensures
        r == user_utilization_rate(markets@, *acct, now),
{
    let c = get_user_collateral_usd(markets, acct, now)?;
    if c == 0 {
        return Ok(0);
    }
    let b = get_user_borrowed_usd(markets, acct, now)?;
    match mul_div(b, HUNDRED_PERCENT, c) {
        None => Err(Error::Overflow),
        Some(v) => Ok(v),
    }
}

pub fn get_available_to_borrow(markets: &Vec<Market>, acct: &Account, i: usize, now: u64) -> (r:
    Result<u128, Error>)
    requires
        markets_wf(markets@),
        i < markets.len(),
    ensures
        r == available_to_borrow(markets@, *acct, i as int, now),
{
    let max = get_user_max_allowed_borrow_amount_usd(markets, acct, now)?;
    let b = get_user_borrowed_usd(markets, acct, now)?;
    if max <= b {
        return Ok(0);
    }
    let m = &markets[i];
    proof {
        assert(markets@[i as int].wf());
    }
    div_capped(max - b, USD_DECIMALS, m.price, USD_DECIMALS, m.decimals, m.liquidity)
}

pub fn get_available_to_redeem(markets: &Vec<Market>, acct: &Account, i: usize, now: u64) -> (r:
    Result<u128, Error>)
    requires
        markets_wf(markets@),
        i < markets.len(),
    ensures
        r == available_to_redeem(markets@, *acct, i as int, now),
{
    let m = &markets[i];
    proof {
        assert(markets@[i as int].wf());
    }
    let pos = acct.get_position(i);
    let bal = get_deposit(m, &pos, now)?;
    if !pos.deposit_as_collateral {
        return Ok(bal);
    }
    if bal == 0 {
        return Ok(0);
    }
    let coll = get_user_collateral_usd(markets, acct, now)?;
    let borr = get_user_borrowed_usd(markets, acct, now)?;
    let lt = get_user_liquidation_threshold(markets, acct, now)?;
    if lt == 0 {
        return Err(Error::DivisionByZero);
    }
    let required = match mul_div(borr, HUNDRED_PERCENT, lt) {
        None => return Ok(0),
        Some(v) => v,
    };
    if coll < required {
        return Ok(0);
    }
    let cap = if bal > m.liquidity {
        m.liquidity
    } else {
        bal
    };
    div_capped(coll - required, USD_DECIMALS, m.price, USD_DECIMALS, m.decimals, cap)
}

} // verus!
