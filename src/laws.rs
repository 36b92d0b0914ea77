//! Properties that relate several functions of the pool, proved from their
//! contracts.

use vstd::prelude::*;
use vstd::arithmetic::div_mod::{lemma_fundamental_div_mod, lemma_div_pos_is_pos};
use vstd::arithmetic::mul::lemma_mul_nonnegative;

use crate::fixed::{
    lemma_cancel, lemma_pow10_add, lemma_pow10_positive, pow10,
};
use crate::interest::{
    borrow_amount_with_interest, borrow_with_interest, current_liquidity_index_ln,
    elapsed, growth_base, mm_token_price, refreshed,
};
use crate::pool::{
    deposit_outcome, first_debt_error, has_debt_in, liquidate_market, liquidation_allowed, market_borrow_outcome, redeem_outcome,
    repay_outcome,
};
use crate::risk::{liquidation_threshold, user_utilization_rate};
use crate::types::{
    Account, Error, Market, UserPosition, INTEREST_RATE_MULTIPLIER,
    YEAR_IN_SECONDS,
};

verus! {

/// The liquidity index never falls: at any time it is at least the stored
/// checkpoint, and refreshing the checkpoint never lowers it.
pub proof fn lemma_liquidity_index_non_decreasing(m: Market, now: u64)
    ensures
        current_liquidity_index_ln(m, now) matches Ok(idx) ==> idx
            >= m.liquidity_index_data.liquidity_index_ln,
        refreshed(m, now) matches Ok(n) ==> n.liquidity_index_data.liquidity_index_ln
            >= m.liquidity_index_data.liquidity_index_ln && n.liquidity_index_data.timestamp == now,
{
    if let Ok(idx) = current_liquidity_index_ln(m, now) {
        let e = elapsed(now, m.liquidity_index_data.timestamp) as int;
        let rate = crate::interest::liquidity_rate(m, now)->Ok_0;
        let l = crate::interest::ln_growth(rate)->Ok_0 as int;
        lemma_mul_nonnegative(e, l);
        lemma_div_pos_is_pos(e * l, YEAR_IN_SECONDS as int);
    }
}

proof fn lemma_round_trip_arith(x: int, p: int, d: int)
    requires
        x >= 0,
        p >= 1,
        d >= 1,
    ensures
        (x * d / p) * p / d <= x,
        (x - (x * d / p) * p / d) * d < p + d,
        p <= d + 1 ==> x - (x * d / p) * p / d <= 1,
{
    let s = x * d / p;
    let b = s * p / d;
    lemma_fundamental_div_mod(x * d, p);
    lemma_mul_nonnegative(x, d);
    lemma_div_pos_is_pos(x * d, p);
    lemma_mul_nonnegative(s, p);
    lemma_fundamental_div_mod(s * p, d);
    assert(p * s <= x * d && x * d < p * s + p) by (nonlinear_arith)
        requires
            x * d == p * s + (x * d) % p,
            0 <= (x * d) % p < p,
    ;
    assert(d * b <= s * p && s * p < d * b + d) by (nonlinear_arith)
        requires
            s * p == d * b + (s * p) % d,
            0 <= (s * p) % d < d,
    ;
    assert(b <= x) by (nonlinear_arith)
        requires
            d * b <= s * p,
            p * s <= x * d,
            d >= 1,
    ;
    assert((x - b) * d < p + d) by (nonlinear_arith)
        requires
            x * d < p * s + p,
            s * p < d * b + d,
    ;
    assert(p <= d + 1 ==> x - b <= 1) by (nonlinear_arith)
        requires
            x * d <= p * s + p - 1,
            s * p <= d * b + d - 1,
            d >= 1,
    ;
}

/// Depositing `x` tokens into an empty position and at once redeeming the
/// whole balance, at the same time, gives back `x` tokens less the truncation
/// of the two share conversions: at most `x`, and short of it by less than
/// the share price plus one token unit. When one share is worth at most one
/// token plus one unit, as it is while the index is zero, the shortfall is at
/// most one unit.
pub proof fn lemma_deposit_redeem_round_trip(m: Market, pos: UserPosition, x: u128, now: u64)
    requires
        m.wf(),
        pos.mm_token_balance == 0,
        deposit_outcome(m, pos, x, now) is Ok,
        redeem_outcome(deposit_outcome(m, pos, x, now)->Ok_0.0, deposit_outcome(m, pos, x, now)->Ok_0.1, 0, now) is Ok,
    ensures
        ({
            let dep = deposit_outcome(m, pos, x, now)->Ok_0;
            let out = redeem_outcome(dep.0, dep.1, 0, now)->Ok_0.2;
            let price = mm_token_price(dep.0, now)->Ok_0;
            &&& mm_token_price(dep.0, now) is Ok
            &&& out <= x
            &&& (x - out) * pow10(m.decimals as nat) < price + pow10(m.decimals as nat)
            &&& price <= pow10(m.decimals as nat) + 1 ==> x - out <= 1
        }),
{
    let dep = deposit_outcome(m, pos, x, now)->Ok_0;
    let m1 = dep.0;
    let d = m.decimals as nat;
    let big_d = pow10(d) as int;
    let price = mm_token_price(m1, now)->Ok_0;
    let shares = dep.2;
    lemma_pow10_positive(d);
    lemma_pow10_add(d, d);
    // the refresh inside the redemption finds the checkpoint already taken at `now`
    assert(m1.liquidity_index_data.timestamp == now);
    assert(refreshed(m1, now) is Ok);
    let rate = crate::interest::liquidity_rate(m1, now)->Ok_0;
    let l = crate::interest::ln_growth(rate)->Ok_0 as int;
    assert(elapsed(now, now) == 0);
    assert(0 * l / (YEAR_IN_SECONDS as int) == 0) by (nonlinear_arith);
    assert(current_liquidity_index_ln(m1, now) == Ok::<u128, Error>(
        m1.liquidity_index_data.liquidity_index_ln,
    ));
    assert(refreshed(m1, now)->Ok_0 == m1);
    // shares = x * D / price
    lemma_cancel(x as int * big_d, big_d, price as int);
    assert(x as int * pow10(d + d) == (x as int * big_d) * big_d) by (nonlinear_arith)
        requires
            pow10(d + d) == big_d * big_d,
    ;
    assert(price as int * big_d == big_d * price as int) by (nonlinear_arith);
    assert(shares == x as int * big_d / price as int);
    // out = shares * price / D
    lemma_cancel(shares as int * price as int, big_d, big_d);
    assert(shares as int * price as int * big_d / (pow10(d + d) as int) == (shares as int * price
        as int) / big_d);
    let pos1 = dep.1;
    assert(pos1.mm_token_balance == shares);
    let red = redeem_outcome(m1, pos1, 0, now)->Ok_0;
    let bal = crate::interest::deposit_amount(m1, pos1, now)->Ok_0;
    assert(red.2 == bal);
    assert(bal == shares as int * price as int * big_d / (pow10(d + d) as int));
    lemma_round_trip_arith(x as int, price as int, big_d);
}

/// Borrow interest never lowers the principal where `rust_decimal`'s power is
/// fixed by its source: after no time at all, where the debt is unchanged,
/// and after exactly one modelled year, where it grows by the rate.
pub proof fn lemma_interest_not_below_principal(borrowed: u128, rate: u128, interval: u128)
    requires
        borrow_amount_with_interest(borrowed, rate, interval) is Ok,
        interval == 0 || interval == YEAR_IN_SECONDS,
    ensures
        borrow_amount_with_interest(borrowed, rate, interval)->Ok_0 >= borrowed,
        interval == 0 ==> borrow_amount_with_interest(borrowed, rate, interval) == Ok::<u128, Error>(borrowed),
{
    let base = growth_base(rate);
    let exponent = interval * INTEREST_RATE_MULTIPLIER / YEAR_IN_SECONDS as int;
    assert(pow10(18) == INTEREST_RATE_MULTIPLIER) by {
        reveal_with_fuel(pow10, 19);
    }
    assert(pow10(0) == 1);
    if interval == 0 {
        assert(exponent == 0);
        assert(borrowed as int * 1 / 1 == borrowed as int);
    } else {
        assert(exponent == INTEREST_RATE_MULTIPLIER);
        if base == INTEREST_RATE_MULTIPLIER {
            assert(borrowed as int * 1 / 1 == borrowed as int);
        } else {
            assert(base > INTEREST_RATE_MULTIPLIER);
            let bm = base;
            let b = borrowed as int;
            assert(b * bm >= b * (INTEREST_RATE_MULTIPLIER as int)) by (nonlinear_arith)
                requires
                    bm > INTEREST_RATE_MULTIPLIER,
                    b >= 0,
            ;
            vstd::arithmetic::div_mod::lemma_div_is_ordered(
                b * (INTEREST_RATE_MULTIPLIER as int),
                b * bm,
                INTEREST_RATE_MULTIPLIER as int,
            );
            vstd::arithmetic::div_mod::lemma_div_by_multiple(b, INTEREST_RATE_MULTIPLIER as int);
        }
    }
}

/// Repaying a position without principal is a no-op: nothing is repaid, the
/// whole payment is refunded, and the market and the position stay as they
/// were.
pub proof fn lemma_repay_without_debt(m: Market, pos: UserPosition, amount: u128, now: u64)
    requires
        pos.borrowing.borrowed_amount == 0,
        repay_outcome(m, pos, amount, now) is Ok,
    ensures
        repay_outcome(m, pos, amount, now) == Ok::<(Market, UserPosition, u128, u128), Error>(
            (m, pos, 0u128, amount),
        ),
{
}

/// A repayment grows the market's liquidity by exactly what it repaid, also
/// when a zero amount repays everything owed.
pub proof fn lemma_repay_liquidity(m: Market, pos: UserPosition, amount: u128, now: u64)
    requires
        repay_outcome(m, pos, amount, now) is Ok,
    ensures
        repay_outcome(m, pos, amount, now)->Ok_0.0.liquidity == m.liquidity + repay_outcome(
            m,
            pos,
            amount,
            now,
        )->Ok_0.2,
{
}

proof fn lemma_no_debt_error(markets: Seq<Market>, acct: Account, now: u64, n: int)
    requires
        0 <= n <= markets.len(),
        forall|j: int|
            0 <= j < markets.len() ==> #[trigger] borrow_with_interest(markets[j], acct.position(j), now)
                == Ok::<u128, Error>(0),
    ensures
        first_debt_error(markets, acct, now, n) is None,
    decreases n,
{
    if n > 0 {
        lemma_no_debt_error(markets, acct, now, n - 1);
        assert(borrow_with_interest(markets[n - 1], acct.position(n - 1), now) == Ok::<u128, Error>(0));
    }
}

/// A liquidation is refused with `MustNotHaveBorrow` when the liquidator owes
/// a non-zero amount in any market, whatever the target's health. When the
/// liquidator owes nothing anywhere, it is refused with
/// `NotOverLiquidationThreshold` when the target's utilisation is below its
/// liquidation threshold.
pub proof fn lemma_liquidation_precondition(
    markets: Seq<Market>,
    target: Account,
    liquidator: Account,
    now: u64,
)
    ensures
        (exists|j: int| 0 <= j < markets.len() && #[trigger] has_debt_in(markets, liquidator, j, now))
            ==> liquidation_allowed(markets, target, liquidator, now) == Err::<(), Error>(
            Error::MustNotHaveBorrow,
        ),
        (forall|j: int|
            0 <= j < markets.len() ==> #[trigger] borrow_with_interest(markets[j], liquidator.position(j), now)
                == Ok::<u128, Error>(0)) && (user_utilization_rate(markets, target, now) matches Ok(u)
            && liquidation_threshold(markets, target, now) matches Ok(lt) && u < lt)
            ==> liquidation_allowed(markets, target, liquidator, now) == Err::<(), Error>(
            Error::NotOverLiquidationThreshold,
        ),
{
    if forall|j: int|
        0 <= j < markets.len() ==> #[trigger] borrow_with_interest(markets[j], liquidator.position(j), now)
            == Ok::<u128, Error>(0) {
        lemma_no_debt_error(markets, liquidator, now, markets.len() as int);
        assert forall|j: int| 0 <= j < markets.len() implies !#[trigger] has_debt_in(markets, liquidator, j, now) by {
            assert(borrow_with_interest(markets[j], liquidator.position(j), now) == Ok::<u128, Error>(0));
        }
    }
}

/// No operation lowers the liquidity index of the market it works in: a
/// deposit, a redemption, a borrow, a repayment and a liquidation each leave
/// the index at least where it was.
pub proof fn lemma_operations_keep_index(
    m: Market,
    pos: UserPosition,
    other: UserPosition,
    amount: u128,
    now: u64,
)
    ensures
        deposit_outcome(m, pos, amount, now) matches Ok(o) ==> o.0.liquidity_index_data.liquidity_index_ln
            >= m.liquidity_index_data.liquidity_index_ln,
        redeem_outcome(m, pos, amount, now) matches Ok(o) ==> o.0.liquidity_index_data.liquidity_index_ln
            >= m.liquidity_index_data.liquidity_index_ln,
        market_borrow_outcome(m, pos, amount, now) matches Ok(o) ==> o.0.liquidity_index_data.liquidity_index_ln
            >= m.liquidity_index_data.liquidity_index_ln,
        repay_outcome(m, pos, amount, now) matches Ok(o) ==> o.0.liquidity_index_data.liquidity_index_ln
            >= m.liquidity_index_data.liquidity_index_ln,
        liquidate_market(m, pos, other, now) matches Ok(o) ==> o.0.liquidity_index_data.liquidity_index_ln
            >= m.liquidity_index_data.liquidity_index_ln,
{
    reveal(liquidate_market);
    lemma_liquidity_index_non_decreasing(m, now);
    lemma_liquidity_index_non_decreasing(Market { liquidity: (m.liquidity + amount) as u128, ..m }, now);
}

} // verus!
