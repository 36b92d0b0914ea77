//! The lending pool: its markets, the admin operations on them and the five
//! operations that move value (deposit, redeem, borrow, repay, liquidation).
//!
//! A user's holdings live in an `Account` that the caller keeps and passes in.
//! Each operation either succeeds with the outcome its spec function gives, or
//! fails and changes nothing. Token transfers are the caller's: an operation
//! says how many tokens move, and keeps the market's liquidity in step.

use vstd::prelude::*;

use crate::fixed::{
    add_checked, add_spec, checked, div_spec, div_to, lemma_pow10_positive, mul_div, mul_spec,
    mul_to, pow10, ten_pow,
};
use crate::interest::{
    borrow_with_interest, deposit_amount, effective_borrowing_info,
    execute_update_liquidity_index_data, get_deposit, get_interest_rate, get_liquidity_rate,
    get_mm_token_price, get_total_borrowed_by_token, get_total_reserves_by_token,
    get_user_borrow_amount_with_interest, get_user_borrowing_info, get_utilization_rate_by_token,
    interest_rate, liquidity_rate, mm_token_price, refreshed, total_borrowed_by_token,
    total_reserves_by_token, utilization_rate_by_token,
};
use crate::risk::{
    available_to_borrow, available_to_redeem, borrowed_usd, collateral_usd, deposited_usd,
    get_available_to_borrow, get_available_to_redeem, get_usd_value, get_user_borrowed_usd,
    get_user_collateral_usd, get_user_deposited_usd, get_user_liquidation_threshold,
    get_user_max_allowed_borrow_amount_usd, get_user_utilization_rate, liquidation_threshold,
    lemma_sum_err, markets_wf, max_allowed_borrow_usd, sum_terms, usd_value, user_utilization_rate,
};
use crate::types::{
    Account, Error, LiquidityIndexData, Market, ReserveConfiguration,
    TokenInterestRateModelParams, TotalBorrowData, UserBorrowingInfo, UserPosition, HUNDRED,
    HUNDRED_PERCENT, INTEREST_RATE_DECIMALS, MAX_TOKEN_DECIMALS, REPAID_POSITION_RATE,
};

verus! {

/// `a - b` as a `u128`, or `Overflow` when `b > a`.
pub open spec fn sub_spec(a: u128, b: u128) -> Result<u128, Error> {
    if a < b {
        Err(Error::Overflow)
    } else {
        Ok((a - b) as u128)
    }
}

/// Interest that `amount` tokens borrowed at `rate` (a percent) earn in a
/// year, at `INTEREST_RATE_DECIMALS` places.
pub open spec fn annual_income(amount: u128, rate: u128, decimals: u32) -> Result<u128, Error> {
    mul_spec(amount, decimals, rate / HUNDRED, INTEREST_RATE_DECIMALS, INTEREST_RATE_DECIMALS)
}

/// Average rate of a market's borrowed principal: `100 * income / total`,
/// zero when nothing is borrowed.
pub open spec fn pool_average_rate(income: u128, total: u128, decimals: u32) -> Result<u128, Error> {
    if total == 0 {
        Ok(0)
    } else {
        match div_spec(income, INTEREST_RATE_DECIMALS, total, decimals, INTEREST_RATE_DECIMALS) {
            Err(e) => Err(e),
            Ok(x) => checked(HUNDRED * x),
        }
    }
}

/// The market with a new borrow checkpoint taken at `now`.
pub open spec fn with_totals(m: Market, total: u128, income: u128, now: u64) -> Result<Market, Error> {
    match pool_average_rate(income, total, m.decimals) {
        Err(e) => Err(e),
        Ok(avg) => Ok(
            Market {
                total_borrow_data: TotalBorrowData {
                    total_borrowed_amount: total,
                    expected_annual_interest_income: income,
                    average_interest_rate: avg,
                    timestamp: now,
                },
                ..m
            },
        ),
    }
}

/// Rate of a grown borrow: the average of the old debt's rate and the new
/// amount's rate, weighted by the two amounts.
pub open spec fn blended_rate(
    owed: u128,
    old_rate: u128,
    amount: u128,
    new_rate: u128,
    total: u128,
    decimals: u32,
) -> Result<u128, Error> {
    match mul_spec(owed, decimals, old_rate, INTEREST_RATE_DECIMALS, INTEREST_RATE_DECIMALS) {
        Err(e) => Err(e),
        Ok(p1) => match mul_spec(amount, decimals, new_rate, INTEREST_RATE_DECIMALS, INTEREST_RATE_DECIMALS) {
            Err(e) => Err(e),
            Ok(p2) => match add_spec(p1, p2) {
                Err(e) => Err(e),
                Ok(s) => div_spec(s, INTEREST_RATE_DECIMALS, total, decimals, INTEREST_RATE_DECIMALS),
            },
        },
    }
}

/// Index of the first market of `denom` at or after `k`.
pub open spec fn index_from(markets: Seq<Market>, denom: u64, k: int) -> Option<int>
    decreases markets.len() - k,
{
    if k < 0 || k >= markets.len() {
        None
    } else if markets[k].denom == denom {
        Some(k)
    } else {
        index_from(markets, denom, k + 1)
    }
}

/// Index of the market of `denom`, if the pool supports it.
pub open spec fn index_of(markets: Seq<Market>, denom: u64) -> Option<int> {
    index_from(markets, denom, 0)
}

/// `new` holds `p` in market `i` and what `old` held everywhere else.
pub open spec fn updated_at(old: Account, new: Account, i: int, p: UserPosition) -> bool {
    forall|j: int| #[trigger] new.position(j) == if j == i {
        p
    } else {
        old.position(j)
    }
}

/// `a` and `b` hold the same positions.
pub open spec fn same_positions(a: Account, b: Account) -> bool {
    forall|j: int| #[trigger] a.position(j) == b.position(j)
}

/// Deposit of `amount` tokens into market `m`: the tokens join the liquidity,
/// the index is refreshed, and the shares they buy at the current share price
/// join the user's balance. Gives the market, the position and the shares.
pub open spec fn deposit_outcome(m: Market, pos: UserPosition, amount: u128, now: u64) -> Result<
    (Market, UserPosition, u128),
    Error,
> {
    match add_spec(m.liquidity, amount) {
        Err(e) => Err(e),
        Ok(liq) => match refreshed(Market { liquidity: liq, ..m }, now) {
            Err(e) => Err(e),
            Ok(m1) => match mm_token_price(m1, now) {
                Err(e) => Err(e),
                Ok(price) => match div_spec(amount, m1.decimals, price, m1.decimals, m1.decimals) {
                    Err(e) => Err(e),
                    Ok(shares) => match add_spec(pos.mm_token_balance, shares) {
                        Err(e) => Err(e),
                        Ok(bal) => Ok((m1, UserPosition { mm_token_balance: bal, ..pos }, shares)),
                    },
                },
            },
        },
    }
}

/// Redemption of `amount` tokens (all of the deposit when `amount` is zero)
/// from market `m`: the index is refreshed, the remaining deposit is converted
/// back to shares, and the tokens leave the liquidity. Gives the market, the
/// position and the tokens paid out.
pub open spec fn redeem_outcome(m: Market, pos: UserPosition, amount: u128, now: u64) -> Result<
    (Market, UserPosition, u128),
    Error,
> {
    match refreshed(m, now) {
        Err(e) => Err(e),
        Ok(m1) => match deposit_amount(m1, pos, now) {
            Err(e) => Err(e),
            Ok(bal) => if amount > bal {
                Err(Error::NotEnoughBalance)
            } else {
                let amt = if amount == 0 {
                    bal
                } else {
                    amount
                };
                match mm_token_price(m1, now) {
                    Err(e) => Err(e),
                    Ok(price) => match div_spec(
                        (bal - amt) as u128,
                        m1.decimals,
                        price,
                        m1.decimals,
                        m1.decimals,
                    ) {
                        Err(e) => Err(e),
                        Ok(shares) => if m1.liquidity < amt {
                            Err(Error::NotEnoughLiquidity)
                        } else {
                            Ok(
                                (
                                    Market { liquidity: (m1.liquidity - amt) as u128, ..m1 },
                                    UserPosition { mm_token_balance: shares, ..pos },
                                    amt,
                                ),
                            )
                        },
                    },
                }
            },
        },
    }
}

/// The market's side of a borrow of `amount` once it is allowed: the index is
/// refreshed, the debt with interest grows by `amount` at the blended rate, the
/// market's borrow checkpoint takes the change, and the tokens leave the
/// liquidity.
pub open spec fn market_borrow_outcome(m: Market, pos: UserPosition, amount: u128, now: u64) -> Result<
    (Market, UserPosition),
    Error,
> {
    match refreshed(m, now) {
        Err(e) => Err(e),
        Ok(m1) => match borrow_with_interest(m1, pos, now) {
            Err(e) => Err(e),
            Ok(owed) => match effective_borrowing_info(m1, pos, now) {
                Err(e) => Err(e),
                Ok(info) => match add_spec(owed, amount) {
                    Err(e) => Err(e),
                    Ok(new_amount) => match interest_rate(m1, now) {
                        Err(e) => Err(e),
                        Ok(rate_now) => match blended_rate(
                            owed,
                            info.average_interest_rate,
                            amount,
                            rate_now,
                            new_amount,
                            m1.decimals,
                        ) {
                            Err(e) => Err(e),
                            Ok(avg) => borrow_checkpoint(m1, pos, info, new_amount, avg, amount, now),
                        },
                    },
                },
            },
        },
    }
}

/// The borrow checkpoints after a borrow that leaves `new_amount` owed at `avg`.
pub open spec fn borrow_checkpoint(
    m1: Market,
    pos: UserPosition,
    info: UserBorrowingInfo,
    new_amount: u128,
    avg: u128,
    amount: u128,
    now: u64,
) -> Result<(Market, UserPosition), Error> {
    let tb = m1.total_borrow_data;
    match annual_income(info.borrowed_amount, info.average_interest_rate, m1.decimals) {
        Err(e) => Err(e),
        Ok(old_income) => match annual_income(new_amount, avg, m1.decimals) {
            Err(e) => Err(e),
            Ok(new_income) => match sub_spec(tb.expected_annual_interest_income, old_income) {
                Err(e) => Err(e),
                Ok(i1) => match add_spec(i1, new_income) {
                    Err(e) => Err(e),
                    Ok(income) => match sub_spec(tb.total_borrowed_amount, info.borrowed_amount) {
                        Err(e) => Err(e),
                        Ok(t1) => match add_spec(t1, new_amount) {
                            Err(e) => Err(e),
                            Ok(total) => match with_totals(m1, total, income, now) {
                                Err(e) => Err(e),
                                Ok(m2) => match sub_spec(m2.liquidity, amount) {
                                    Err(e) => Err(e),
                                    Ok(liq) => Ok(
                                        (
                                            Market { liquidity: liq, ..m2 },
                                            UserPosition {
                                                borrowing: UserBorrowingInfo {
                                                    borrowed_amount: new_amount,
                                                    average_interest_rate: avg,
                                                    timestamp: now,
                                                },
                                                ..pos
                                            },
                                        ),
                                    ),
                                },
                            },
                        },
                    },
                },
            },
        },
    }
}

/// A borrow of `amount` tokens of market `i`: refused with `NotEnoughCollateral`
/// above what the user may borrow and with `NotEnoughLiquidity` above the
/// market's liquidity, otherwise `market_borrow_outcome`.
pub open spec fn borrow_outcome(markets: Seq<Market>, acct: Account, i: int, amount: u128, now: u64) -> Result<
    (Market, UserPosition),
    Error,
> {
    match available_to_borrow(markets, acct, i, now) {
        Err(e) => Err(e),
        Ok(avail) => if amount > avail {
            Err(Error::NotEnoughCollateral)
        } else if amount > markets[i].liquidity {
            Err(Error::NotEnoughLiquidity)
        } else {
            market_borrow_outcome(markets[i], acct.position(i), amount, now)
        },
    }
}

/// Repayment of `amount` tokens (everything owed when `amount` is zero) in
/// market `m`. The rates are taken with the tokens already in the liquidity.
/// Where nothing is owed, nothing changes and the whole amount is refunded.
/// Otherwise what exceeds the debt with interest is refunded, the liquidity
/// grows by what is repaid, and a debt repaid in full keeps the rate
/// `REPAID_POSITION_RATE`. Gives the market, the position, the amount repaid
/// and the refund.
pub open spec fn repay_outcome(m: Market, pos: UserPosition, amount: u128, now: u64) -> Result<
    (Market, UserPosition, u128, u128),
    Error,
> {
    match add_spec(m.liquidity, amount) {
        Err(e) => Err(e),
        Ok(liq) => {
            let m0 = Market { liquidity: liq, ..m };
            match effective_borrowing_info(m0, pos, now) {
                Err(e) => Err(e),
                Ok(info) => match refreshed(m0, now) {
                    Err(e) => Err(e),
                    Ok(m1) => match borrow_with_interest(m1, pos, now) {
                        Err(e) => Err(e),
                        Ok(owed) => if owed == 0 {
                            Ok((m, pos, 0u128, amount))
                        } else {
                            let amt = if amount == 0 {
                                owed
                            } else {
                                amount
                            };
                            let repaid = if amt >= owed {
                                owed
                            } else {
                                amt
                            };
                            let refund = (amt - repaid) as u128;
                            let rate = if amt >= owed {
                                REPAID_POSITION_RATE
                            } else {
                                info.average_interest_rate
                            };
                            repay_checkpoint(m1, m.liquidity, pos, info, owed, repaid, refund, rate, now)
                        },
                    },
                },
            }
        },
    }
}

/// The borrow checkpoints after `repaid` of a debt of `owed` is paid back; the
/// liquidity, `liquidity` before the repayment, grows by what was repaid.
pub open spec fn repay_checkpoint(
    m1: Market,
    liquidity: u128,
    pos: UserPosition,
    info: UserBorrowingInfo,
    owed: u128,
    repaid: u128,
    refund: u128,
    rate: u128,
    now: u64,
) -> Result<(Market, UserPosition, u128, u128), Error> {
    let tb = m1.total_borrow_data;
    match sub_spec(owed, info.borrowed_amount) {
        Err(e) => Err(e),
        Ok(accrued) => match annual_income(accrued, info.average_interest_rate, m1.decimals) {
            Err(e) => Err(e),
            Ok(accrued_income) => match annual_income(repaid, info.average_interest_rate, m1.decimals) {
                Err(e) => Err(e),
                Ok(repaid_income) => match add_spec(tb.expected_annual_interest_income, accrued_income) {
                    Err(e) => Err(e),
                    Ok(i1) => match sub_spec(i1, repaid_income) {
                        Err(e) => Err(e),
                        Ok(income) => match add_spec(tb.total_borrowed_amount, owed) {
                            Err(e) => Err(e),
                            Ok(t1) => match sub_spec(t1, info.borrowed_amount) {
                                Err(e) => Err(e),
                                Ok(t2) => match sub_spec(t2, repaid) {
                                    Err(e) => Err(e),
                                    Ok(total) => match with_totals(m1, total, income, now) {
                                        Err(e) => Err(e),
                                        Ok(m2) => match add_spec(liquidity, repaid) {
                                            Err(e) => Err(e),
                                            Ok(liq) => Ok(
                                                (
                                                    Market { liquidity: liq, ..m2 },
                                                    UserPosition {
                                                        borrowing: UserBorrowingInfo {
                                                            borrowed_amount: (owed - repaid) as u128,
                                                            average_interest_rate: rate,
                                                            timestamp: now,
                                                        },
                                                        ..pos
                                                    },
                                                    repaid,
                                                    refund,
                                                ),
                                            ),
                                        },
                                    },
                                },
                            },
                        },
                    },
                },
            },
        },
    }
}

#[verifier::opaque]
/// Liquidation in one market: the index is refreshed; the target's collateral
/// deposit there passes to the liquidator, and the target's debt there is
/// cleared out of the liquidator's deposit, which must cover it. Gives the
/// market and the target's and the liquidator's positions.
pub open spec fn liquidate_market(m: Market, target: UserPosition, liquidator: UserPosition, now: u64) -> Result<
    (Market, UserPosition, UserPosition),
    Error,
> {
    match refreshed(m, now) {
        Err(e) => Err(e),
        Ok(m1) => match (if target.deposit_as_collateral {
            deposit_amount(m1, target, now)
        } else {
            Ok(0u128)
        }) {
            Err(e) => Err(e),
            Ok(seized) => {
                let t1 = if target.deposit_as_collateral {
                    UserPosition { mm_token_balance: 0, ..target }
                } else {
                    target
                };
                match borrow_with_interest(m1, t1, now) {
                    Err(e) => Err(e),
                    Ok(owed) => if owed == 0 && seized == 0 {
                        Ok((m1, t1, liquidator))
                    } else {
                        match deposit_amount(m1, liquidator, now) {
                            Err(e) => Err(e),
                            Ok(lb) => match clear_debt(m1, t1, owed, lb, now) {
                                Err(e) => Err(e),
                                Ok(cleared) => match add_spec(lb, seized) {
                                    Err(e) => Err(e),
                                    Ok(x) => match sub_spec(x, owed) {
                                        Err(e) => Err(e),
                                        Ok(new_lb) => match mm_token_price(cleared.0, now) {
                                            Err(e) => Err(e),
                                            Ok(price) => match div_spec(
                                                new_lb,
                                                m1.decimals,
                                                price,
                                                m1.decimals,
                                                m1.decimals,
                                            ) {
                                                Err(e) => Err(e),
                                                Ok(shares) => Ok(
                                                    (
                                                        cleared.0,
                                                        cleared.1,
                                                        UserPosition {
                                                            mm_token_balance: shares,
                                                            ..liquidator
                                                        },
                                                    ),
                                                ),
                                            },
                                        },
                                    },
                                },
                            },
                        }
                    },
                }
            },
        },
    }
}

/// The target's debt of `owed` cleared, when the liquidator's deposit `lb`
/// covers it; nothing changes without debt.
pub open spec fn clear_debt(m1: Market, t1: UserPosition, owed: u128, lb: u128, now: u64) -> Result<
    (Market, UserPosition),
    Error,
> {
    if owed == 0 {
        Ok((m1, t1))
    } else if lb < owed {
        Err(Error::NotEnoughBalance)
    } else {
        match effective_borrowing_info(m1, t1, now) {
            Err(e) => Err(e),
            Ok(info) => match annual_income(info.borrowed_amount, info.average_interest_rate, m1.decimals) {
                Err(e) => Err(e),
                Ok(old_income) => match sub_spec(m1.total_borrow_data.expected_annual_interest_income, old_income) {
                    Err(e) => Err(e),
                    Ok(income) => match sub_spec(m1.total_borrow_data.total_borrowed_amount, info.borrowed_amount) {
                        Err(e) => Err(e),
                        Ok(total) => match with_totals(m1, total, income, now) {
                            Err(e) => Err(e),
                            Ok(m2) => Ok(
                                (
                                    m2,
                                    UserPosition {
                                        borrowing: UserBorrowingInfo {
                                            borrowed_amount: 0,
                                            average_interest_rate: 0,
                                            timestamp: now,
                                        },
                                        ..t1
                                    },
                                ),
                            ),
                        },
                    },
                },
            },
        }
    }
}

/// Outcome of the liquidation in market `i`.
pub open spec fn liquidation_at(markets: Seq<Market>, target: Account, liquidator: Account, now: u64, i: int) -> Result<
    (Market, UserPosition, UserPosition),
    Error,
> {
    liquidate_market(markets[i], target.position(i), liquidator.position(i), now)
}

/// The first error among the liquidations in markets `0..n`, if any.
pub open spec fn first_liquidation_error(markets: Seq<Market>, target: Account, liquidator: Account, now: u64, n: int) -> Option<Error>
    decreases n,
{
    if n <= 0 {
        None
    } else {
        match first_liquidation_error(markets, target, liquidator, now, n - 1) {
            Some(e) => Some(e),
            None => match liquidation_at(markets, target, liquidator, now, n - 1) {
                Err(e) => Some(e),
                Ok(_) => None,
            },
        }
    }
}

/// The user owes a non-zero amount, interest included, in market `j`.
pub open spec fn has_debt_in(markets: Seq<Market>, acct: Account, j: int, now: u64) -> bool {
    borrow_with_interest(markets[j], acct.position(j), now) matches Ok(v) && v > 0
}

/// The first error met computing the user's debts in markets `0..n`, if any.
pub open spec fn first_debt_error(markets: Seq<Market>, acct: Account, now: u64, n: int) -> Option<Error>
    decreases n,
{
    if n <= 0 {
        None
    } else {
        match first_debt_error(markets, acct, now, n - 1) {
            Some(e) => Some(e),
            None => match borrow_with_interest(markets[n - 1], acct.position(n - 1), now) {
                Err(e) => Some(e),
                Ok(_) => None,
            },
        }
    }
}

/// Whether the user is free of debt: `MustNotHaveBorrow` when a non-zero
/// amount is owed in any market, otherwise the first error met computing the
/// debts, if any.
pub open spec fn debt_free(markets: Seq<Market>, acct: Account, now: u64) -> Result<(), Error> {
    if exists|j: int| 0 <= j < markets.len() && #[trigger] has_debt_in(markets, acct, j, now) {
        Err(Error::MustNotHaveBorrow)
    } else {
        match first_debt_error(markets, acct, now, markets.len() as int) {
            Some(e) => Err(e),
            None => Ok(()),
        }
    }
}

/// Whether a liquidation of `target` by `liquidator` may start: the liquidator
/// must owe nothing in any market (`MustNotHaveBorrow`), and then the target's
/// utilisation must reach its liquidation threshold
/// (`NotOverLiquidationThreshold`).
pub open spec fn liquidation_allowed(markets: Seq<Market>, target: Account, liquidator: Account, now: u64) -> Result<(), Error> {
    match debt_free(markets, liquidator, now) {
        Err(e) => Err(e),
        Ok(_) => match user_utilization_rate(markets, target, now) {
            Err(e) => Err(e),
            Ok(u) => match liquidation_threshold(markets, target, now) {
                Err(e) => Err(e),
                Ok(lt) => if u < lt {
                    Err(Error::NotOverLiquidationThreshold)
                } else {
                    Ok(())
                },
            },
        },
    }
}

/// Switching whether market `i`'s deposit counts as collateral. Switching it
/// off is refused with `RemainingCollateralNotEnough` when the collateral left
/// would not exceed what the debt requires at the liquidation threshold.
pub open spec fn toggle_outcome(markets: Seq<Market>, acct: Account, i: int, now: u64) -> Result<UserPosition, Error> {
    let m = markets[i];
    let pos = acct.position(i);
    let flipped = UserPosition { deposit_as_collateral: !pos.deposit_as_collateral, ..pos };
    if !pos.deposit_as_collateral {
        Ok(flipped)
    } else {
        match deposit_amount(m, pos, now) {
            Err(e) => Err(e),
            Ok(bal) => if bal == 0 {
                Ok(flipped)
            } else {
                match usd_value(m, bal) {
                    Err(e) => Err(e),
                    Ok(usd) => match collateral_usd(markets, acct, now) {
                        Err(e) => Err(e),
                        Ok(coll) => match borrowed_usd(markets, acct, now) {
                            Err(e) => Err(e),
                            Ok(borr) => match liquidation_threshold(markets, acct, now) {
                                Err(e) => Err(e),
                                Ok(lt) => if lt == 0 {
                                    Err(Error::DivisionByZero)
                                } else {
                                    match checked(borr * HUNDRED_PERCENT / lt as int) {
                                        Err(e) => Err(e),
                                        Ok(required) => if coll < usd {
                                            Err(Error::Overflow)
                                        } else if required >= coll - usd {
                                            Err(Error::RemainingCollateralNotEnough)
                                        } else {
                                            Ok(flipped)
                                        },
                                    }
                                },
                            },
                        },
                    },
                }
            },
        }
    }
}

/// USD value of the liquidity of market `m`.
pub open spec fn tvl_term(m: Market) -> Result<u128, Error> {
    checked(m.price * m.liquidity / pow10(m.decimals as nat) as int)
}

/// USD value of the liquidity of every market.
pub open spec fn tvl(markets: Seq<Market>) -> Result<u128, Error> {
    sum_terms(Seq::new(markets.len(), |i: int| tvl_term(markets[i])))
}

/// A fresh market of `denom` whose checkpoints start at `now`.
pub open spec fn new_market(
    denom: u64,
    decimals: u32,
    reserve: ReserveConfiguration,
    params: TokenInterestRateModelParams,
    now: u64,
) -> Market {
    Market {
        denom,
        decimals,
        reserve_configuration: reserve,
        interest_rate_params: params,
        total_borrow_data: TotalBorrowData {
            total_borrowed_amount: 0,
            expected_annual_interest_income: 0,
            average_interest_rate: 0,
            timestamp: now,
        },
        liquidity_index_data: LiquidityIndexData { liquidity_index_ln: 0, timestamp: now },
        price: 0,
        liquidity: 0,
    }
}

fn sub_checked(a: u128, b: u128) -> (r: Result<u128, Error>)
    ensures
        r == sub_spec(a, b),
{
    if a < b {
        Err(Error::Overflow)
    } else {
        Ok(a - b)
    }
}

fn calc_annual_income(amount: u128, rate: u128, decimals: u32) -> (r: Result<u128, Error>)
    requires
        decimals <= MAX_TOKEN_DECIMALS,
    ensures
        r == annual_income(amount, rate, decimals),
{
    mul_to(amount, decimals, rate / HUNDRED, INTEREST_RATE_DECIMALS, INTEREST_RATE_DECIMALS)
}

fn calc_pool_average_rate(income: u128, total: u128, decimals: u32) -> (r: Result<u128, Error>)
    requires
        decimals <= MAX_TOKEN_DECIMALS,
    ensures
        r == pool_average_rate(income, total, decimals),
{
    if total == 0 {
        return Ok(0);
    }
    let x = div_to(income, INTEREST_RATE_DECIMALS, total, decimals, INTEREST_RATE_DECIMALS)?;
    if x > u128::MAX / HUNDRED {
        Err(Error::Overflow)
    } else {
        Ok(HUNDRED * x)
    }
}

fn set_totals(m: &Market, total: u128, income: u128, now: u64) -> (r: Result<Market, Error>)
    requires
        m.wf(),
    ensures
        r == with_totals(*m, total, income, now),
{
    let avg = calc_pool_average_rate(income, total, m.decimals)?;
    Ok(
        Market {
            total_borrow_data: TotalBorrowData {
                total_borrowed_amount: total,
                expected_annual_interest_income: income,
                average_interest_rate: avg,
                timestamp: now,
            },
            ..*m
        },
    )
}

fn calc_blended_rate(
    owed: u128,
    old_rate: u128,
    amount: u128,
    new_rate: u128,
    total: u128,
    decimals: u32,
) -> (r: Result<u128, Error>)
    requires
        decimals <= MAX_TOKEN_DECIMALS,
    ensures
        r == blended_rate(owed, old_rate, amount, new_rate, total, decimals),
{
    let p1 = mul_to(owed, decimals, old_rate, INTEREST_RATE_DECIMALS, INTEREST_RATE_DECIMALS)?;
    let p2 = mul_to(amount, decimals, new_rate, INTEREST_RATE_DECIMALS, INTEREST_RATE_DECIMALS)?;
    let s = add_checked(p1, p2)?;
    div_to(s, INTEREST_RATE_DECIMALS, total, decimals, INTEREST_RATE_DECIMALS)
}

fn refreshed_copy(m: &Market, now: u64) -> (r: Result<Market, Error>)
    requires
        m.wf(),
    ensures
        r == refreshed(*m, now),
        r matches Ok(n) ==> n.wf(),
{
    let mut m1 = *m;
    execute_update_liquidity_index_data(&mut m1, now)?;
    Ok(m1)
}

/// Market side of a deposit.
pub fn deposit_in_market(m: &Market, pos: &UserPosition, amount: u128, now: u64) -> (r: Result<
    (Market, UserPosition, u128),
    Error,
>)
    requires
        m.wf(),
    ensures
        r == deposit_outcome(*m, *pos, amount, now),
        r matches Ok(o) ==> o.0.wf() && o.0.denom == m.denom,
{
    let liq = add_checked(m.liquidity, amount)?;
    let m0 = Market { liquidity: liq, ..*m };
    let m1 = refreshed_copy(&m0, now)?;
    let price = get_mm_token_price(&m1, now)?;
    let shares = div_to(amount, m1.decimals, price, m1.decimals, m1.decimals)?;
    let bal = add_checked(pos.mm_token_balance, shares)?;
    Ok((m1, UserPosition { mm_token_balance: bal, ..*pos }, shares))
}

/// Market side of a redemption.
pub fn redeem_in_market(m: &Market, pos: &UserPosition, amount: u128, now: u64) -> (r: Result<
    (Market, UserPosition, u128),
    Error,
>)
    requires
        m.wf(),
    ensures
        r == redeem_outcome(*m, *pos, amount, now),
        r matches Ok(o) ==> o.0.wf() && o.0.denom == m.denom,
{
    let m1 = refreshed_copy(m, now)?;
    let bal = get_deposit(&m1, pos, now)?;
    if amount > bal {
        return Err(Error::NotEnoughBalance);
    }
    let amt = if amount == 0 {
        bal
    } else {
        amount
    };
    let price = get_mm_token_price(&m1, now)?;
    let shares = div_to(bal - amt, m1.decimals, price, m1.decimals, m1.decimals)?;
    if m1.liquidity < amt {
        return Err(Error::NotEnoughLiquidity);
    }
    Ok((Market { liquidity: m1.liquidity - amt, ..m1 }, UserPosition { mm_token_balance: shares, ..*pos }, amt))
}

/// Market side of an allowed borrow.
pub fn borrow_in_market(m: &Market, pos: &UserPosition, amount: u128, now: u64) -> (r: Result<
    (Market, UserPosition),
    Error,
>)
    requires
        m.wf(),
    ensures
        r == market_borrow_outcome(*m, *pos, amount, now),
        r matches Ok(o) ==> o.0.wf() && o.0.denom == m.denom,
{
    let m1 = refreshed_copy(m, now)?;
    let owed = get_user_borrow_amount_with_interest(&m1, pos, now)?;
    let info = get_user_borrowing_info(&m1, pos, now)?;
    let new_amount = add_checked(owed, amount)?;
    let rate_now = get_interest_rate(&m1, now)?;
    let avg = calc_blended_rate(owed, info.average_interest_rate, amount, rate_now, new_amount, m1.decimals)?;
    let tb = m1.total_borrow_data;
    let old_income = calc_annual_income(info.borrowed_amount, info.average_interest_rate, m1.decimals)?;
    let new_income = calc_annual_income(new_amount, avg, m1.decimals)?;
    let i1 = sub_checked(tb.expected_annual_interest_income, old_income)?;
    let income = add_checked(i1, new_income)?;
    let t1 = sub_checked(tb.total_borrowed_amount, info.borrowed_amount)?;
    let total = add_checked(t1, new_amount)?;
    let m2 = set_totals(&m1, total, income, now)?;
    let liq = sub_checked(m2.liquidity, amount)?;
    Ok(
        (
            Market { liquidity: liq, ..m2 },
            UserPosition {
                borrowing: UserBorrowingInfo {
                    borrowed_amount: new_amount,
                    average_interest_rate: avg,
                    timestamp: now,
                },
                ..*pos
            },
        ),
    )
}

/// Market side of a repayment.
pub fn repay_in_market(m: &Market, pos: &UserPosition, amount: u128, now: u64) -> (r: Result<
    (Market, UserPosition, u128, u128),
    Error,
>)
    requires
        m.wf(),
    ensures
        r == repay_outcome(*m, *pos, amount, now),
        r matches Ok(o) ==> o.0.wf() && o.0.denom == m.denom,
{
    let liq = add_checked(m.liquidity, amount)?;
    let m0 = Market { liquidity: liq, ..*m };
    let info = get_user_borrowing_info(&m0, pos, now)?;
    let m1 = refreshed_copy(&m0, now)?;
    let owed = get_user_borrow_amount_with_interest(&m1, pos, now)?;
    if owed == 0 {
        return Ok((*m, *pos, 0, amount));
    }
    let amt = if amount == 0 {
        owed
    } else {
        amount
    };
    let repaid = if amt >= owed {
        owed
    } else {
        amt
    };
    let refund = amt - repaid;
    let rate = if amt >= owed {
        REPAID_POSITION_RATE
    } else {
        info.average_interest_rate
    };
    let tb = m1.total_borrow_data;
    let accrued = sub_checked(owed, info.borrowed_amount)?;
    let accrued_income = calc_annual_income(accrued, info.average_interest_rate, m1.decimals)?;
    let repaid_income = calc_annual_income(repaid, info.average_interest_rate, m1.decimals)?;
    let i1 = add_checked(tb.expected_annual_interest_income, accrued_income)?;
    let income = sub_checked(i1, repaid_income)?;
    let t1 = add_checked(tb.total_borrowed_amount, owed)?;
    let t2 = sub_checked(t1, info.borrowed_amount)?;
    let total = sub_checked(t2, repaid)?;
    let m2 = set_totals(&m1, total, income, now)?;
    let liq2 = add_checked(m.liquidity, repaid)?;
    Ok(
        (
            Market { liquidity: liq2, ..m2 },
            UserPosition {
                borrowing: UserBorrowingInfo {
                    borrowed_amount: owed - repaid,
                    average_interest_rate: rate,
                    timestamp: now,
                },
                ..*pos
            },
            repaid,
            refund,
        ),
    )
}

fn clear_debt_exec(m1: &Market, t1: &UserPosition, owed: u128, lb: u128, now: u64) -> (r: Result<
    (Market, UserPosition),
    Error,
>)
    requires
        m1.wf(),
    ensures
        r == clear_debt(*m1, *t1, owed, lb, now),
        r matches Ok(o) ==> o.0.wf() && o.0.denom == m1.denom,
{
    if owed == 0 {
        return Ok((*m1, *t1));
    }
    if lb < owed {
        return Err(Error::NotEnoughBalance);
    }
    let info = get_user_borrowing_info(m1, t1, now)?;
    let old_income = calc_annual_income(info.borrowed_amount, info.average_interest_rate, m1.decimals)?;
    let income = sub_checked(m1.total_borrow_data.expected_annual_interest_income, old_income)?;
    let total = sub_checked(m1.total_borrow_data.total_borrowed_amount, info.borrowed_amount)?;
    let m2 = set_totals(m1, total, income, now)?;
    Ok(
        (
            m2,
            UserPosition {
                borrowing: UserBorrowingInfo { borrowed_amount: 0, average_interest_rate: 0, timestamp: now },
                ..*t1
            },
        ),
    )
}

/// Market side of a liquidation.
pub fn liquidate_in_market(m: &Market, target: &UserPosition, liquidator: &UserPosition, now: u64) -> (r: Result<
    (Market, UserPosition, UserPosition),
    Error,
>)
    requires
        m.wf(),
    ensures
        r == liquidate_market(*m, *target, *liquidator, now),
        r matches Ok(o) ==> o.0.wf() && o.0.denom == m.denom,
{
    proof {
        reveal(liquidate_market);
    }
    let m1 = refreshed_copy(m, now)?;
    let seized = if target.deposit_as_collateral {
        get_deposit(&m1, target, now)?
    } else {
        0
    };
    let t1 = if target.deposit_as_collateral {
        UserPosition { mm_token_balance: 0, ..*target }
    } else {
        *target
    };
    let owed = get_user_borrow_amount_with_interest(&m1, &t1, now)?;
    if owed == 0 && seized == 0 {
        return Ok((m1, t1, *liquidator));
    }
    let lb = get_deposit(&m1, liquidator, now)?;
    let cleared = clear_debt_exec(&m1, &t1, owed, lb, now)?;
    let x = add_checked(lb, seized)?;
    let new_lb = sub_checked(x, owed)?;
    let price = get_mm_token_price(&cleared.0, now)?;
    let shares = div_to(new_lb, m1.decimals, price, m1.decimals, m1.decimals)?;
    Ok((cleared.0, cleared.1, UserPosition { mm_token_balance: shares, ..*liquidator }))
}

proof fn lemma_first_error_sticks(markets: Seq<Market>, target: Account, liquidator: Account, now: u64, n: int, k: int)
    requires
        0 <= n <= k,
        first_liquidation_error(markets, target, liquidator, now, n) is Some,
    ensures
        first_liquidation_error(markets, target, liquidator, now, k) == first_liquidation_error(markets, target, liquidator, now, n),
    decreases k - n,
{
    if k > n {
        lemma_first_error_sticks(markets, target, liquidator, now, n, k - 1);
    }
}

/// The pool: its markets, in the order they were added.
pub struct LendingContract {
    pub markets: Vec<Market>,
}

impl LendingContract {
    /// Every market is well formed.
    pub open spec fn wf(&self) -> bool {
        markets_wf(self.markets@)
    }

    /// A pool without markets.
    pub fn new() -> (r: Self)
        ensures
            r.wf(),
            r.markets@.len() == 0,
    {
        LendingContract { markets: Vec::new() }
    }

    /// Index of the market of `denom`.
    pub fn find_market(&self, denom: u64) -> (r: Option<usize>)
        ensures
            r matches Some(i) ==> index_of(self.markets@, denom) == Some(i as int),
            r is None ==> index_of(self.markets@, denom) is None,
    {
        let mut i: usize = 0;
        while i < self.markets.len()
            invariant
                i <= self.markets.len(),
                index_of(self.markets@, denom) == index_from(self.markets@, denom, i as int),
            decreases self.markets.len() - i,
        {
            if self.markets[i].denom == denom {
                return Some(i);
            }
            i = i + 1;
        }
        None
    }

    /// Index of the market of `denom`, or `UnsupportedToken`.
    pub fn market_index(&self, denom: u64) -> (r: Result<usize, Error>)
        ensures
            r matches Ok(i) ==> index_of(self.markets@, denom) == Some(i as int) && i < self.markets.len(),
            r is Err ==> r == Err::<usize, Error>(Error::UnsupportedToken) && index_of(self.markets@, denom) is None,
    {
        match self.find_market(denom) {
            Some(i) => {
                proof {
                    lemma_index_in_range(self.markets@, denom, 0);
                }
                Ok(i)
            },
            None => Err(Error::UnsupportedToken),
        }
    }

    /// Adds the market of `denom`, with empty checkpoints taken at `now`, no
    /// price and no liquidity. `AlreadySupportedToken` if `denom` has one.
    pub fn add_markets(
        &mut self,
        denom: u64,
        decimals: u32,
        loan_to_value_ratio: u128,
        liquidation_threshold: u128,
        min_interest_rate: u128,
        safe_borrow_max_rate: u128,
        rate_growth_factor: u128,
        optimal_utilization_ratio: u128,
        now: u64,
    ) -> (r: Result<(), Error>)
        requires
            old(self).wf(),
            decimals <= MAX_TOKEN_DECIMALS,
        ensures
            final(self).wf(),
            index_of(old(self).markets@, denom) is Some ==> r == Err::<(), Error>(
                Error::AlreadySupportedToken,
            ) && final(self).markets@ == old(self).markets@,
            index_of(old(self).markets@, denom) is None ==> r is Ok && final(self).markets@
                == old(self).markets@.push(
                new_market(
                    denom,
                    decimals,
                    ReserveConfiguration { loan_to_value_ratio, liquidation_threshold },
                    TokenInterestRateModelParams {
                        min_interest_rate,
                        safe_borrow_max_rate,
                        rate_growth_factor,
                        optimal_utilization_ratio,
                    },
                    now,
                ),
            ),
    {
        if self.find_market(denom).is_some() {
            return Err(Error::AlreadySupportedToken);
        }
        let m = Market {
            denom,
            decimals,
            reserve_configuration: ReserveConfiguration { loan_to_value_ratio, liquidation_threshold },
            interest_rate_params: TokenInterestRateModelParams {
                min_interest_rate,
                safe_borrow_max_rate,
                rate_growth_factor,
                optimal_utilization_ratio,
            },
            total_borrow_data: TotalBorrowData {
                total_borrowed_amount: 0,
                expected_annual_interest_income: 0,
                average_interest_rate: 0,
                timestamp: now,
            },
            liquidity_index_data: LiquidityIndexData { liquidity_index_ln: 0, timestamp: now },
            price: 0,
            liquidity: 0,
        };
        self.markets.push(m);
        Ok(())
    }

    /// Sets the USD price of `denom`.
    pub fn update_price(&mut self, denom: u64, price: u128) -> (r: Result<(), Error>)
        requires
            old(self).wf(),
        ensures
            final(self).wf(),
            match index_of(old(self).markets@, denom) {
                None => r == Err::<(), Error>(Error::UnsupportedToken) && final(self).markets@ == old(
                    self,
                ).markets@,
                Some(i) => r is Ok && final(self).markets@ == old(self).markets@.update(
                    i,
                    Market { price, ..old(self).markets@[i] },
                ),
            },
    {
        let i = self.market_index(denom)?;
        let m = Market { price, ..self.markets[i] };
        self.markets.set(i, m);
        proof {
            assert(old(self).markets@[i as int].wf());
            lemma_update_keeps_wf(old(self).markets@, i as int, self.markets@[i as int]);
        }
        Ok(())
    }

    /// Records the pool's balance of `denom` as the token reports it, which is
    /// the liquidity that can be lent out.
    pub fn update_liquidity(&mut self, denom: u64, balance: u128) -> (r: Result<(), Error>)
        requires
            old(self).wf(),
        ensures
            final(self).wf(),
            match index_of(old(self).markets@, denom) {
                None => r == Err::<(), Error>(Error::UnsupportedToken) && final(self).markets@ == old(
                    self,
                ).markets@,
                Some(i) => r is Ok && final(self).markets@ == old(self).markets@.update(
                    i,
                    Market { liquidity: balance, ..old(self).markets@[i] },
                ),
            },
    {
        let i = self.market_index(denom)?;
        let m = Market { liquidity: balance, ..self.markets[i] };
        self.markets.set(i, m);
        proof {
            assert(old(self).markets@[i as int].wf());
            lemma_update_keeps_wf(old(self).markets@, i as int, self.markets@[i as int]);
        }
        Ok(())
    }

    /// Sets the loan-to-value ratio and the liquidation threshold of `denom`.
    pub fn set_reserve_configuration(
        &mut self,
        denom: u64,
        loan_to_value_ratio: u128,
        liquidation_threshold: u128,
    ) -> (r: Result<(), Error>)
        requires
            old(self).wf(),
        ensures
            final(self).wf(),
            match index_of(old(self).markets@, denom) {
                None => r == Err::<(), Error>(Error::UnsupportedToken) && final(self).markets@ == old(
                    self,
                ).markets@,
                Some(i) => r is Ok && final(self).markets@ == old(self).markets@.update(
                    i,
                    Market {
                        reserve_configuration: ReserveConfiguration {
                            loan_to_value_ratio,
                            liquidation_threshold,
                        },
                        ..old(self).markets@[i]
                    },
                ),
            },
    {
        let i = self.market_index(denom)?;
        let m = Market {
            reserve_configuration: ReserveConfiguration { loan_to_value_ratio, liquidation_threshold },
            ..self.markets[i]
        };
        self.markets.set(i, m);
        proof {
            assert(old(self).markets@[i as int].wf());
            lemma_update_keeps_wf(old(self).markets@, i as int, self.markets@[i as int]);
        }
        Ok(())
    }

    /// Sets the rate-curve parameters of `denom`.
    pub fn set_token_interest_rate_params(
        &mut self,
        denom: u64,
        min_interest_rate: u128,
        safe_borrow_max_rate: u128,
        rate_growth_factor: u128,
        optimal_utilization_ratio: u128,
    ) -> (r: Result<(), Error>)
        requires
            old(self).wf(),
        ensures
            final(self).wf(),
            match index_of(old(self).markets@, denom) {
                None => r == Err::<(), Error>(Error::UnsupportedToken) && final(self).markets@ == old(
                    self,
                ).markets@,
                Some(i) => r is Ok && final(self).markets@ == old(self).markets@.update(
                    i,
                    Market {
                        interest_rate_params: TokenInterestRateModelParams {
                            min_interest_rate,
                            safe_borrow_max_rate,
                            rate_growth_factor,
                            optimal_utilization_ratio,
                        },
                        ..old(self).markets@[i]
                    },
                ),
            },
    {
        let i = self.market_index(denom)?;
        let m = Market {
            interest_rate_params: TokenInterestRateModelParams {
                min_interest_rate,
                safe_borrow_max_rate,
                rate_growth_factor,
                optimal_utilization_ratio,
            },
            ..self.markets[i]
        };
        self.markets.set(i, m);
        proof {
            assert(old(self).markets@[i as int].wf());
            lemma_update_keeps_wf(old(self).markets@, i as int, self.markets@[i as int]);
        }
        Ok(())
    }

    /// Deposits `amount` tokens of `denom`, which the caller moves from the
    /// user to the pool. Returns the pool shares minted.
    pub fn deposit(&mut self, acct: &mut Account, denom: u64, amount: u128, now: u64) -> (r: Result<
        u128,
        Error,
    >)
        requires
            old(self).wf(),
        ensures
            final(self).wf(),
            match index_of(old(self).markets@, denom) {
                None => r == Err::<u128, Error>(Error::UnsupportedToken) && final(self).markets@
                    == old(self).markets@ && same_positions(*final(acct), *old(acct)),
                Some(i) => match deposit_outcome(old(self).markets@[i], old(acct).position(i), amount, now) {
                    Err(e) => r == Err::<u128, Error>(e) && final(self).markets@ == old(self).markets@
                        && same_positions(*final(acct), *old(acct)),
                    Ok(o) => r == Ok::<u128, Error>(o.2) && final(self).markets@ == old(
                        self,
                    ).markets@.update(i, o.0) && updated_at(*old(acct), *final(acct), i, o.1),
                },
            },
    {
        let i = self.market_index(denom)?;
        let pos = acct.get_position(i);
        proof {
            assert(self.markets@[i as int].wf());
        }
        let o = deposit_in_market(&self.markets[i], &pos, amount, now)?;
        self.markets.set(i, o.0);
        acct.set_position(i, o.1);
        proof {
            lemma_update_keeps_wf(old(self).markets@, i as int, self.markets@[i as int]);
        }
        Ok(o.2)
    }

    /// Redeems `amount` tokens of `denom` (the whole deposit when `amount` is
    /// zero), which the caller moves from the pool to the user. Returns the
    /// tokens paid out.
    pub fn redeem(&mut self, acct: &mut Account, denom: u64, amount: u128, now: u64) -> (r: Result<
        u128,
        Error,
    >)
        requires
            old(self).wf(),
        ensures
            final(self).wf(),
            match index_of(old(self).markets@, denom) {
                None => r == Err::<u128, Error>(Error::UnsupportedToken) && final(self).markets@
                    == old(self).markets@ && same_positions(*final(acct), *old(acct)),
                Some(i) => match redeem_outcome(old(self).markets@[i], old(acct).position(i), amount, now) {
                    Err(e) => r == Err::<u128, Error>(e) && final(self).markets@ == old(self).markets@
                        && same_positions(*final(acct), *old(acct)),
                    Ok(o) => r == Ok::<u128, Error>(o.2) && final(self).markets@ == old(
                        self,
                    ).markets@.update(i, o.0) && updated_at(*old(acct), *final(acct), i, o.1),
                },
            },
    {
        let i = self.market_index(denom)?;
        let pos = acct.get_position(i);
        proof {
            assert(self.markets@[i as int].wf());
        }
        let o = redeem_in_market(&self.markets[i], &pos, amount, now)?;
        self.markets.set(i, o.0);
        acct.set_position(i, o.1);
        proof {
            lemma_update_keeps_wf(old(self).markets@, i as int, self.markets@[i as int]);
        }
        Ok(o.2)
    }

    /// Borrows `amount` tokens of `denom`, which the caller moves from the pool
    /// to the user.
    pub fn borrow(&mut self, acct: &mut Account, denom: u64, amount: u128, now: u64) -> (r: Result<
        (),
        Error,
    >)
        requires
            old(self).wf(),
        ensures
            final(self).wf(),
            match index_of(old(self).markets@, denom) {
                None => r == Err::<(), Error>(Error::UnsupportedToken) && final(self).markets@
                    == old(self).markets@ && same_positions(*final(acct), *old(acct)),
                Some(i) => match borrow_outcome(old(self).markets@, *old(acct), i, amount, now) {
                    Err(e) => r == Err::<(), Error>(e) && final(self).markets@ == old(self).markets@
                        && same_positions(*final(acct), *old(acct)),
                    Ok(o) => r is Ok && final(self).markets@ == old(self).markets@.update(i, o.0)
                        && updated_at(*old(acct), *final(acct), i, o.1),
                },
            },
    {
        let i = self.market_index(denom)?;
        let avail = get_available_to_borrow(&self.markets, acct, i, now)?;
        if amount > avail {
            return Err(Error::NotEnoughCollateral);
        }
        if amount > self.markets[i].liquidity {
            return Err(Error::NotEnoughLiquidity);
        }
        let pos = acct.get_position(i);
        proof {
            assert(self.markets@[i as int].wf());
        }
        let o = borrow_in_market(&self.markets[i], &pos, amount, now)?;
        self.markets.set(i, o.0);
        acct.set_position(i, o.1);
        proof {
            lemma_update_keeps_wf(old(self).markets@, i as int, self.markets@[i as int]);
        }
        Ok(())
    }

    /// Repays `amount` tokens of `denom` (everything owed when `amount` is
    /// zero). Returns the amount repaid and the refund: the caller moves their
    /// sum from the user to the pool, and the refund back.
    pub fn repay(&mut self, acct: &mut Account, denom: u64, amount: u128, now: u64) -> (r: Result<
        (u128, u128),
        Error,
    >)
        requires
            old(self).wf(),
        ensures
            final(self).wf(),
            match index_of(old(self).markets@, denom) {
                None => r == Err::<(u128, u128), Error>(Error::UnsupportedToken) && final(self).markets@
                    == old(self).markets@ && same_positions(*final(acct), *old(acct)),
                Some(i) => (old(acct).position(i).borrowing.borrowed_amount == 0 && r is Ok ==> r
                    == Ok::<(u128, u128), Error>((0u128, amount)) && final(self).markets@ == old(
                    self,
                ).markets@ && same_positions(*final(acct), *old(acct))) && match repay_outcome(old(self).markets@[i], old(acct).position(i), amount, now) {
                    Err(e) => r == Err::<(u128, u128), Error>(e) && final(self).markets@ == old(
                        self,
                    ).markets@ && same_positions(*final(acct), *old(acct)),
                    Ok(o) => r == Ok::<(u128, u128), Error>((o.2, o.3)) && final(self).markets@ == old(
                        self,
                    ).markets@.update(i, o.0) && updated_at(*old(acct), *final(acct), i, o.1),
                },
            },
    {
        let i = self.market_index(denom)?;
        let pos = acct.get_position(i);
        proof {
            assert(self.markets@[i as int].wf());
        }
        let o = repay_in_market(&self.markets[i], &pos, amount, now)?;
        self.markets.set(i, o.0);
        acct.set_position(i, o.1);
        proof {
            lemma_update_keeps_wf(old(self).markets@, i as int, self.markets@[i as int]);
        }
        Ok((o.2, o.3))
    }

    /// Liquidates `target` in favour of `liquidator`, market by market:
    /// the target's collateral passes to the liquidator and the target's debts
    /// are cleared out of the liquidator's deposits.
    pub fn liquidation(&mut self, target: &mut Account, liquidator: &mut Account, now: u64) -> (r: Result<
        (),
        Error,
    >)
        requires
            old(self).wf(),
        ensures
            final(self).wf(),
            (exists|j: int|
                0 <= j < old(self).markets@.len() && #[trigger] has_debt_in(
                    old(self).markets@,
                    *old(liquidator),
                    j,
                    now,
                )) ==> r == Err::<(), Error>(Error::MustNotHaveBorrow),
            match liquidation_allowed(old(self).markets@, *old(target), *old(liquidator), now) {
                Err(e) => r == Err::<(), Error>(e) && final(self).markets@ == old(self).markets@
                    && same_positions(*final(target), *old(target)) && same_positions(
                    *final(liquidator),
                    *old(liquidator),
                ),
                Ok(_) => match first_liquidation_error(
                    old(self).markets@,
                    *old(target),
                    *old(liquidator),
                    now,
                    old(self).markets@.len() as int,
                ) {
                    Some(e) => r == Err::<(), Error>(e) && final(self).markets@ == old(self).markets@
                        && same_positions(*final(target), *old(target)) && same_positions(
                        *final(liquidator),
                        *old(liquidator),
                    ),
                    None => r is Ok && final(self).markets@.len() == old(self).markets@.len() && (
                    forall|j: int|
                        0 <= j < old(self).markets@.len() ==> #[trigger] liquidation_at(
                            old(self).markets@,
                            *old(target),
                            *old(liquidator),
                            now,
                            j,
                        ) == Ok::<(Market, UserPosition, UserPosition), Error>(
                            (
                                final(self).markets@[j],
                                final(target).position(j),
                                final(liquidator).position(j),
                            ),
                        )) && (forall|j: int|
                        !(0 <= j < old(self).markets@.len()) ==> #[trigger] final(target).position(j)
                            == old(target).position(j) && final(liquidator).position(j) == old(
                            liquidator,
                        ).position(j)),
                },
            },
    {
        check_debt_free(&self.markets, liquidator, now)?;
        let u = get_user_utilization_rate(&self.markets, target, now)?;
        let lt = get_user_liquidation_threshold(&self.markets, target, now)?;
        if u < lt {
            return Err(Error::NotOverLiquidationThreshold);
        }
        let ghost markets0 = self.markets@;
        let ghost t0 = *target;
        let ghost l0 = *liquidator;
        let mut new_markets: Vec<Market> = Vec::new();
        let mut new_target: Vec<UserPosition> = Vec::new();
        let mut new_liquidator: Vec<UserPosition> = Vec::new();
        let mut i: usize = 0;
        while i < self.markets.len()
            invariant
                self.markets@ == markets0,
                *target == t0,
                *liquidator == l0,
                markets0 == old(self).markets@,
                t0 == *old(target),
                l0 == *old(liquidator),
                liquidation_allowed(markets0, t0, l0, now) is Ok,
                markets_wf(markets0),
                i <= markets0.len(),
                new_markets.len() == i,
                new_target.len() == i,
                new_liquidator.len() == i,
                first_liquidation_error(markets0, t0, l0, now, i as int) is None,
                forall|k: int|
                    0 <= k < i ==> #[trigger] liquidation_at(markets0, t0, l0, now, k) == Ok::<
                        (Market, UserPosition, UserPosition),
                        Error,
                    >((new_markets@[k], new_target@[k], new_liquidator@[k])),
                markets_wf(new_markets@),
            decreases markets0.len() - i,
        {
            let tp = target.get_position(i);
            let lp = liquidator.get_position(i);
            proof {
                assert(markets0[i as int].wf());
            }
            match liquidate_in_market(&self.markets[i], &tp, &lp, now) {
                Err(e) => {
                    proof {
                        assert(first_liquidation_error(markets0, t0, l0, now, i + 1) == Some(e));
                        lemma_first_error_sticks(markets0, t0, l0, now, i + 1, markets0.len() as int);
                    }
                    return Err(e);
                },
                Ok(o) => {
                    let ghost prev = new_markets@;
                    new_markets.push(o.0);
                    new_target.push(o.1);
                    new_liquidator.push(o.2);
                    proof {
                        assert forall|k: int|
                            0 <= k < new_markets@.len() implies #[trigger] new_markets@[k].wf() by {
                            if k < i {
                                assert(new_markets@[k] == prev[k]);
                            }
                        }
                    }
                },
            }
            i = i + 1;
        }
        self.markets = new_markets;
        target.set_positions(&new_target);
        liquidator.set_positions(&new_liquidator);
        Ok(())
    }

    /// Switches whether the user's deposit of `denom` counts as collateral.
    pub fn toggle_collateral_setting(&self, acct: &mut Account, denom: u64, now: u64) -> (r: Result<
        (),
        Error,
    >)
        requires
            self.wf(),
        ensures
            match index_of(self.markets@, denom) {
                None => r == Err::<(), Error>(Error::UnsupportedToken) && same_positions(
                    *final(acct),
                    *old(acct),
                ),
                Some(i) => match toggle_outcome(self.markets@, *old(acct), i, now) {
                    Err(e) => r == Err::<(), Error>(e) && same_positions(*final(acct), *old(acct)),
                    Ok(p) => r is Ok && updated_at(*old(acct), *final(acct), i, p),
                },
            },
    {
        let i = self.market_index(denom)?;
        let m = &self.markets[i];
        proof {
            assert(self.markets@[i as int].wf());
        }
        let pos = acct.get_position(i);
        let flipped = UserPosition { deposit_as_collateral: !pos.deposit_as_collateral, ..pos };
        if pos.deposit_as_collateral {
            let bal = get_deposit(m, &pos, now)?;
            if bal != 0 {
                let usd = get_usd_value(m, bal)?;
                let coll = get_user_collateral_usd(&self.markets, acct, now)?;
                let borr = get_user_borrowed_usd(&self.markets, acct, now)?;
                let lt = get_user_liquidation_threshold(&self.markets, acct, now)?;
                if lt == 0 {
                    return Err(Error::DivisionByZero);
                }
                let required = match mul_div(borr, HUNDRED_PERCENT, lt) {
                    None => return Err(Error::Overflow),
                    Some(v) => v,
                };
                if coll < usd {
                    return Err(Error::Overflow);
                }
                if required >= coll - usd {
                    return Err(Error::RemainingCollateralNotEnough);
                }
            }
        }
        acct.set_position(i, flipped);
        Ok(())
    }

    /// Tokens the user has deposited in `denom`, interest included.
    pub fn get_deposit(&self, acct: &Account, denom: u64, now: u64) -> (r: Result<u128, Error>)
        requires
            self.wf(),
        ensures
            match index_of(self.markets@, denom) {
                None => r == Err::<u128, Error>(Error::UnsupportedToken),
                Some(i) => r == deposit_amount(self.markets@[i], acct.position(i), now),
            },
    {
        let i = self.market_index(denom)?;
        proof {
            assert(self.markets@[i as int].wf());
        }
        let pos = acct.get_position(i);
        get_deposit(&self.markets[i], &pos, now)
    }

    /// Tokens one pool share of `denom` is worth.
    pub fn get_mm_token_price(&self, denom: u64, now: u64) -> (r: Result<u128, Error>)
        requires
            self.wf(),
        ensures
            match index_of(self.markets@, denom) {
                None => r == Err::<u128, Error>(Error::UnsupportedToken),
                Some(i) => r == mm_token_price(self.markets@[i], now),
            },
    {
        let i = self.market_index(denom)?;
        proof {
            assert(self.markets@[i as int].wf());
        }
        get_mm_token_price(&self.markets[i], now)
    }

    /// Yearly yield of the lenders of `denom`.
    pub fn get_liquidity_rate(&self, denom: u64, now: u64) -> (r: Result<u128, Error>)
        requires
            self.wf(),
        ensures
            match index_of(self.markets@, denom) {
                None => r == Err::<u128, Error>(Error::UnsupportedToken),
                Some(i) => r == liquidity_rate(self.markets@[i], now),
            },
    {
        let i = self.market_index(denom)?;
        proof {
            assert(self.markets@[i as int].wf());
        }
        get_liquidity_rate(&self.markets[i], now)
    }

    /// What the user owes in `denom`, interest included.
    pub fn get_user_borrow_with_interest(&self, acct: &Account, denom: u64, now: u64) -> (r: Result<u128, Error>)
        requires
            self.wf(),
        ensures
            match index_of(self.markets@, denom) {
                None => r == Err::<u128, Error>(Error::UnsupportedToken),
                Some(i) => r == borrow_with_interest(self.markets@[i], acct.position(i), now),
            },
    {
        let i = self.market_index(denom)?;
        proof {
            assert(self.markets@[i as int].wf());
        }
        let pos = acct.get_position(i);
        get_user_borrow_amount_with_interest(&self.markets[i], &pos, now)
    }

    /// The current borrow rate of `denom`.
    pub fn get_interest_rate(&self, denom: u64, now: u64) -> (r: Result<u128, Error>)
        requires
            self.wf(),
        ensures
            match index_of(self.markets@, denom) {
                None => r == Err::<u128, Error>(Error::UnsupportedToken),
                Some(i) => r == interest_rate(self.markets@[i], now),
            },
    {
        let i = self.market_index(denom)?;
        proof {
            assert(self.markets@[i as int].wf());
        }
        get_interest_rate(&self.markets[i], now)
    }

    /// The user's borrow checkpoint in `denom` as interest is computed from it.
    pub fn get_user_borrowing_info(&self, acct: &Account, denom: u64, now: u64) -> (r: Result<UserBorrowingInfo, Error>)
        requires
            self.wf(),
        ensures
            match index_of(self.markets@, denom) {
                None => r == Err::<UserBorrowingInfo, Error>(Error::UnsupportedToken),
                Some(i) => r == effective_borrowing_info(self.markets@[i], acct.position(i), now),
            },
    {
        let i = self.market_index(denom)?;
        proof {
            assert(self.markets@[i as int].wf());
        }
        let pos = acct.get_position(i);
        get_user_borrowing_info(&self.markets[i], &pos, now)
    }

    /// Borrowed over reserves in `denom`.
    pub fn get_utilization_rate_by_token(&self, denom: u64, now: u64) -> (r: Result<u128, Error>)
        requires
            self.wf(),
        ensures
            match index_of(self.markets@, denom) {
                None => r == Err::<u128, Error>(Error::UnsupportedToken),
                Some(i) => r == utilization_rate_by_token(self.markets@[i], now),
            },
    {
        let i = self.market_index(denom)?;
        proof {
            assert(self.markets@[i as int].wf());
        }
        get_utilization_rate_by_token(&self.markets[i], now)
    }

    /// Everything borrowed in `denom`, interest included.
    pub fn get_total_borrowed_by_token(&self, denom: u64, now: u64) -> (r: Result<u128, Error>)
        requires
            self.wf(),
        ensures
            match index_of(self.markets@, denom) {
                None => r == Err::<u128, Error>(Error::UnsupportedToken),
                Some(i) => r == total_borrowed_by_token(self.markets@[i], now),
            },
    {
        let i = self.market_index(denom)?;
        proof {
            assert(self.markets@[i as int].wf());
        }
        get_total_borrowed_by_token(&self.markets[i], now)
    }

    /// Liquidity plus everything borrowed in `denom`.
    pub fn get_total_reserves_by_token(&self, denom: u64, now: u64) -> (r: Result<u128, Error>)
        requires
            self.wf(),
        ensures
            match index_of(self.markets@, denom) {
                None => r == Err::<u128, Error>(Error::UnsupportedToken),
                Some(i) => r == total_reserves_by_token(self.markets@[i], now),
            },
    {
        let i = self.market_index(denom)?;
        proof {
            assert(self.markets@[i as int].wf());
        }
        get_total_reserves_by_token(&self.markets[i], now)
    }

    /// Tokens of `denom` the user may still borrow.
    pub fn get_available_to_borrow(&self, acct: &Account, denom: u64, now: u64) -> (r: Result<u128, Error>)
        requires
            self.wf(),
        ensures
            match index_of(self.markets@, denom) {
                None => r == Err::<u128, Error>(Error::UnsupportedToken),
                Some(i) => r == available_to_borrow(self.markets@, *acct, i, now),
            },
    {
        let i = self.market_index(denom)?;
        proof {
            assert(self.markets@[i as int].wf());
        }
        get_available_to_borrow(&self.markets, acct, i, now)
    }

    /// Tokens of `denom` the user may redeem.
    pub fn get_available_to_redeem(&self, acct: &Account, denom: u64, now: u64) -> (r: Result<u128, Error>)
        requires
            self.wf(),
        ensures
            match index_of(self.markets@, denom) {
                None => r == Err::<u128, Error>(Error::UnsupportedToken),
                Some(i) => r == available_to_redeem(self.markets@, *acct, i, now),
            },
    {
        let i = self.market_index(denom)?;
        proof {
            assert(self.markets@[i as int].wf());
        }
        get_available_to_redeem(&self.markets, acct, i, now)
    }

    /// USD price of `denom`.
    pub fn get_price(&self, denom: u64) -> (r: Result<u128, Error>)
        requires
            self.wf(),
        ensures
            match index_of(self.markets@, denom) {
                None => r == Err::<u128, Error>(Error::UnsupportedToken),
                Some(i) => r == Ok::<u128, Error>(self.markets@[i].price),
            },
    {
        let i = self.market_index(denom)?;
        proof {
            assert(self.markets@[i as int].wf());
        }
        Ok(self.markets[i].price)
    }

    /// Tokens of `denom` the pool holds.
    pub fn get_available_liquidity_by_token(&self, denom: u64) -> (r: Result<u128, Error>)
        requires
            self.wf(),
        ensures
            match index_of(self.markets@, denom) {
                None => r == Err::<u128, Error>(Error::UnsupportedToken),
                Some(i) => r == Ok::<u128, Error>(self.markets@[i].liquidity),
            },
    {
        let i = self.market_index(denom)?;
        proof {
            assert(self.markets@[i as int].wf());
        }
        Ok(self.markets[i].liquidity)
    }

    /// Decimal places of `denom`.
    pub fn get_token_decimal(&self, denom: u64) -> (r: Result<u32, Error>)
        requires
            self.wf(),
        ensures
            match index_of(self.markets@, denom) {
                None => r == Err::<u32, Error>(Error::UnsupportedToken),
                Some(i) => r == Ok::<u32, Error>(self.markets@[i].decimals),
            },
    {
        let i = self.market_index(denom)?;
        proof {
            assert(self.markets@[i as int].wf());
        }
        Ok(self.markets[i].decimals)
    }

    /// Risk parameters of `denom`.
    pub fn get_reserve_configuration(&self, denom: u64) -> (r: Result<ReserveConfiguration, Error>)
        requires
            self.wf(),
        ensures
            match index_of(self.markets@, denom) {
                None => r == Err::<ReserveConfiguration, Error>(Error::UnsupportedToken),
                Some(i) => r == Ok::<ReserveConfiguration, Error>(self.markets@[i].reserve_configuration),
            },
    {
        let i = self.market_index(denom)?;
        proof {
            assert(self.markets@[i as int].wf());
        }
        Ok(self.markets[i].reserve_configuration)
    }

    /// The borrow checkpoint of `denom`.
    pub fn get_total_borrow_data(&self, denom: u64) -> (r: Result<TotalBorrowData, Error>)
        requires
            self.wf(),
        ensures
            match index_of(self.markets@, denom) {
                None => r == Err::<TotalBorrowData, Error>(Error::UnsupportedToken),
                Some(i) => r == Ok::<TotalBorrowData, Error>(self.markets@[i].total_borrow_data),
            },
    {
        let i = self.market_index(denom)?;
        proof {
            assert(self.markets@[i as int].wf());
        }
        Ok(self.markets[i].total_borrow_data)
    }

    /// Whether the user's deposit of `denom` counts as collateral.
    pub fn user_deposit_as_collateral(&self, acct: &Account, denom: u64) -> (r: Result<bool, Error>)
        requires
            self.wf(),
        ensures
            match index_of(self.markets@, denom) {
                None => r == Err::<bool, Error>(Error::UnsupportedToken),
                Some(i) => r == Ok::<bool, Error>(acct.position(i).deposit_as_collateral),
            },
    {
        let i = self.market_index(denom)?;
        proof {
            assert(self.markets@[i as int].wf());
        }
        Ok(acct.get_position(i).deposit_as_collateral)
    }

    /// USD value of all the user's deposits.
    pub fn get_user_deposited_usd(&self, acct: &Account, now: u64) -> (r: Result<u128, Error>)
        requires
            self.wf(),
        ensures
            r == deposited_usd(self.markets@, *acct, now),
    {
        get_user_deposited_usd(&self.markets, acct, now)
    }

    /// USD value of the user's collateral.
    pub fn get_user_collateral_usd(&self, acct: &Account, now: u64) -> (r: Result<u128, Error>)
        requires
            self.wf(),
        ensures
            r == collateral_usd(self.markets@, *acct, now),
    {
        get_user_collateral_usd(&self.markets, acct, now)
    }

    /// USD value of the user's debts, interest included.
    pub fn get_user_borrowed_usd(&self, acct: &Account, now: u64) -> (r: Result<u128, Error>)
        requires
            self.wf(),
        ensures
            r == borrowed_usd(self.markets@, *acct, now),
    {
        get_user_borrowed_usd(&self.markets, acct, now)
    }

    /// The most the user may owe, in USD.
    pub fn get_user_max_allowed_borrow_usd(&self, acct: &Account, now: u64) -> (r: Result<u128, Error>)
        requires
            self.wf(),
        ensures
            r == max_allowed_borrow_usd(self.markets@, *acct, now),
    {
        get_user_max_allowed_borrow_amount_usd(&self.markets, acct, now)
    }

    /// The user's liquidation threshold.
    pub fn get_user_liquidation_threshold(&self, acct: &Account, now: u64) -> (r: Result<u128, Error>)
        requires
            self.wf(),
        ensures
            r == liquidation_threshold(self.markets@, *acct, now),
    {
        get_user_liquidation_threshold(&self.markets, acct, now)
    }

    /// The user's debt over collateral.
    pub fn get_user_utilization_rate(&self, acct: &Account, now: u64) -> (r: Result<u128, Error>)
        requires
            self.wf(),
        ensures
            r == user_utilization_rate(self.markets@, *acct, now),
    {
        get_user_utilization_rate(&self.markets, acct, now)
    }

    /// The supported assets, in the order they were added.
    pub fn get_supported_tokens(&self) -> (r: Vec<u64>)
        ensures
            r@.len() == self.markets@.len(),
            forall|i: int| 0 <= i < r@.len() ==> #[trigger] r@[i] == self.markets@[i].denom,
    {
        let mut r: Vec<u64> = Vec::new();
        let mut i: usize = 0;
        while i < self.markets.len()
            invariant
                i <= self.markets.len(),
                r@.len() == i,
                forall|k: int| 0 <= k < i ==> #[trigger] r@[k] == self.markets@[k].denom,
            decreases self.markets.len() - i,
        {
            r.push(self.markets[i].denom);
            i = i + 1;
        }
        r
    }

    /// USD value of the liquidity of every market, at `USD_DECIMALS` places.
    pub fn get_tvl(&self) -> (r: Result<u128, Error>)
        requires
            self.wf(),
        ensures
            r == tvl(self.markets@),
    {
        let ghost terms = Seq::new(self.markets@.len(), |i: int| tvl_term(self.markets@[i]));
        let mut total: u128 = 0;
        let mut i: usize = 0;
        while i < self.markets.len()
            invariant
                i <= self.markets.len(),
                markets_wf(self.markets@),
                terms == Seq::new(self.markets@.len(), |i: int| tvl_term(self.markets@[i])),
                sum_terms(terms.subrange(0, i as int)) == Ok::<u128, Error>(total),
            decreases self.markets.len() - i,
        {
            let m = &self.markets[i];
            proof {
                assert(self.markets@[i as int].wf());
                lemma_pow10_positive(m.decimals as nat);
                assert(terms.subrange(0, i + 1).drop_last() =~= terms.subrange(0, i as int));
            }
            let term = match mul_div(m.price, m.liquidity, ten_pow(m.decimals)) {
                None => Err(Error::Overflow),
                Some(v) => Ok(v),
            };
            match term {
                Err(e) => {
                    proof {
                        lemma_sum_err(terms, i + 1, terms.len() as int);
                        assert(terms.subrange(0, terms.len() as int) =~= terms);
                    }
                    return Err(e);
                },
                Ok(v) => match add_checked(total, v) {
                    Err(e) => {
                        proof {
                            lemma_sum_err(terms, i + 1, terms.len() as int);
                            assert(terms.subrange(0, terms.len() as int) =~= terms);
                        }
                        return Err(e);
                    },
                    Ok(s) => {
                        total = s;
                    },
                },
            }
            i = i + 1;
        }
        proof {
            assert(terms.subrange(0, terms.len() as int) =~= terms);
        }
        Ok(total)
    }
}

/// Whether the user is free of debt in every market.
pub fn check_debt_free(markets: &Vec<Market>, acct: &Account, now: u64) -> (r: Result<(), Error>)
    ensures
        r == debt_free(markets@, *acct, now),
{
    let mut first_err: Option<Error> = None;
    let mut i: usize = 0;
    while i < markets.len()
        invariant
            i <= markets.len(),
            forall|j: int| 0 <= j < i ==> !#[trigger] has_debt_in(markets@, *acct, j, now),
            first_err == first_debt_error(markets@, *acct, now, i as int),
        decreases markets.len() - i,
    {
        let pos = acct.get_position(i);
        match get_user_borrow_amount_with_interest(&markets[i], &pos, now) {
            Ok(v) => {
                if v > 0 {
                    proof {
                        assert(has_debt_in(markets@, *acct, i as int, now));
                    }
                    return Err(Error::MustNotHaveBorrow);
                }
            },
            Err(e) => {
                if first_err.is_none() {
                    first_err = Some(e);
                }
            },
        }
        i = i + 1;
    }
    match first_err {
        Some(e) => Err(e),
        None => Ok(()),
    }
}

proof fn lemma_update_keeps_wf(markets: Seq<Market>, i: int, m: Market)
    requires
        markets_wf(markets),
        0 <= i < markets.len(),
        m.wf(),
    ensures
        markets_wf(markets.update(i, m)),
{
    assert forall|j: int| 0 <= j < markets.len() implies #[trigger] markets.update(i, m)[j].wf() by {
        if j != i {
            assert(markets[j].wf());
        }
    }
}

proof fn lemma_index_in_range(markets: Seq<Market>, denom: u64, k: int)
    requires
        0 <= k,
    ensures
        index_from(markets, denom, k) matches Some(i) ==> k <= i < markets.len()
            && markets[i].denom == denom,
    decreases markets.len() - k,
{
    if k < markets.len() && markets[k].denom != denom {
        lemma_index_in_range(markets, denom, k + 1);
    }
}


} // verus!
