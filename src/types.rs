use vstd::prelude::*;

verus! {

/// Decimal places of a percentage (loan-to-value, liquidation threshold, utilisation).
pub const PERCENT_DECIMALS: u32 = 5;

/// One hundred percent at `PERCENT_DECIMALS` places.
pub const HUNDRED_PERCENT: u128 = 10_000_000;

/// Decimal places of an interest rate.
pub const INTEREST_RATE_DECIMALS: u32 = 18;

/// One at `INTEREST_RATE_DECIMALS` places.
pub const INTEREST_RATE_MULTIPLIER: u128 = 1_000_000_000_000_000_000;

/// Rates are stored as percents; dividing by this gives a fraction.
pub const HUNDRED: u128 = 100;

/// Length of the modelled year: 365 days.
pub const YEAR_IN_SECONDS: u128 = 31_536_000;

/// Decimal places of a USD amount.
pub const USD_DECIMALS: u32 = 8;

/// Largest number of decimal places a token may have.
pub const MAX_TOKEN_DECIMALS: u32 = 28;

/// Average rate left on a position once it has been repaid in full.
pub const REPAID_POSITION_RATE: u128 = 9;

/// Every way an operation of the pool can fail. A failed operation changes nothing.
#[derive(Debug, Clone, Copy, PartialEq, Eq, Structural)]
pub enum Error {
    AlreadyInitialized,
    Uninitialized,
    Paused,
    UnsupportedToken,
    AlreadySupportedToken,
    NotEnoughBalance,
    NotEnoughCollateral,
    NotEnoughLiquidity,
    NotOverLiquidationThreshold,
    MustNotHaveBorrow,
    RemainingCollateralNotEnough,
    NoCollateral,
    DivisionByZero,
    Overflow,
}

/// Risk parameters of a market, as percentages at `PERCENT_DECIMALS` places.
#[derive(Debug, Clone, Copy, PartialEq, Eq, Structural)]
pub struct ReserveConfiguration {
    /// Share of a collateral deposit's value that may be borrowed against.
    pub loan_to_value_ratio: u128,
    /// Share of a collateral deposit's value at which a position may be liquidated.
    pub liquidation_threshold: u128,
}

/// Parameters of a market's piecewise-linear borrow-rate curve. Rates are
/// percents at `INTEREST_RATE_DECIMALS` places; the optimal utilisation is a
/// percentage at `PERCENT_DECIMALS` places.
#[derive(Debug, Clone, Copy, PartialEq, Eq, Structural)]
pub struct TokenInterestRateModelParams {
    pub min_interest_rate: u128,
    pub safe_borrow_max_rate: u128,
    pub rate_growth_factor: u128,
    pub optimal_utilization_ratio: u128,
}

/// Checkpoint of everything borrowed from a market.
#[derive(Debug, Clone, Copy, PartialEq, Eq, Structural)]
pub struct TotalBorrowData {
    /// Principal owed to the market, in token units.
    pub total_borrowed_amount: u128,
    /// Interest the outstanding principal earns in a year, at `INTEREST_RATE_DECIMALS` places.
    pub expected_annual_interest_income: u128,
    /// Average rate of the outstanding principal, a percent at `INTEREST_RATE_DECIMALS` places.
    pub average_interest_rate: u128,
    pub timestamp: u64,
}

/// Checkpoint of a market's liquidity index: the logarithm of the share price,
/// at `INTEREST_RATE_DECIMALS` places.
#[derive(Debug, Clone, Copy, PartialEq, Eq, Structural)]
pub struct LiquidityIndexData {
    pub liquidity_index_ln: u128,
    pub timestamp: u64,
}

/// Checkpoint of one user's borrow in one market: principal, average rate and
/// the time from which interest compounds.
#[derive(Debug, Clone, Copy, PartialEq, Eq, Structural)]
pub struct UserBorrowingInfo {
    pub borrowed_amount: u128,
    pub average_interest_rate: u128,
    pub timestamp: u64,
}

impl Default for UserBorrowingInfo {
    fn default() -> (r: Self)
        ensures
            r == (UserBorrowingInfo { borrowed_amount: 0, average_interest_rate: 0, timestamp: 0 }),
    {
        UserBorrowingInfo { borrowed_amount: 0, average_interest_rate: 0, timestamp: 0 }
    }
}

/// One supported asset and everything the pool keeps about it.
#[derive(Debug, Clone, Copy, PartialEq, Eq, Structural)]
pub struct Market {
    /// Identifier of the asset.
    pub denom: u64,
    /// Decimal places of the token.
    pub decimals: u32,
    pub reserve_configuration: ReserveConfiguration,
    pub interest_rate_params: TokenInterestRateModelParams,
    pub total_borrow_data: TotalBorrowData,
    pub liquidity_index_data: LiquidityIndexData,
    /// USD price of one token, at `USD_DECIMALS` places.
    pub price: u128,
    /// Tokens the pool holds and can lend out.
    pub liquidity: u128,
}

impl Market {
    pub open spec fn wf(&self) -> bool {
        self.decimals <= MAX_TOKEN_DECIMALS
    }
}

/// One user's standing in one market. The deposit is held as pool shares
/// (mm tokens), whose token value grows with the liquidity index.
#[derive(Debug, Clone, Copy, PartialEq, Eq, Structural)]
pub struct UserPosition {
    pub mm_token_balance: u128,
    pub deposit_as_collateral: bool,
    pub borrowing: UserBorrowingInfo,
}

/// The position of a user who never touched a market.
pub open spec fn empty_position() -> UserPosition {
    UserPosition {
        mm_token_balance: 0,
        deposit_as_collateral: false,
        borrowing: UserBorrowingInfo { borrowed_amount: 0, average_interest_rate: 0, timestamp: 0 },
    }
}

/// Builds the position of a user who never touched a market.
pub fn new_position() -> (r: UserPosition)
    ensures
        r == empty_position(),
{
    UserPosition {
        mm_token_balance: 0,
        deposit_as_collateral: false,
        borrowing: UserBorrowingInfo::default(),
    }
}

/// Everything one user holds in the pool: one position per market, in the
/// order the markets were added. Markets past the end hold an empty position.
pub struct Account {
    pub positions: Vec<UserPosition>,
}

impl Account {
    /// The user's position in market `i`.
    pub open spec fn position(&self, i: int) -> UserPosition {
        if 0 <= i < self.positions.len() {
            self.positions[i]
        } else {
            empty_position()
        }
    }

    /// An account with no position anywhere.
    pub fn new() -> (r: Account)
        ensures
            forall|i: int| r.position(i) == empty_position(),
    {
        Account { positions: Vec::new() }
    }

    /// The user's position in market `i`.
    pub fn get_position(&self, i: usize) -> (r: UserPosition)
        ensures
            r == self.position(i as int),
    {
        if i < self.positions.len() {
            self.positions[i]
        } else {
            new_position()
        }
    }

    /// Puts `p` in market `i`, leaving every other position as it was.
    pub fn set_position(&mut self, i: usize, p: UserPosition)
        ensures
            forall|j: int| #[trigger]
                final(self).position(j) == if j == i as int {
                    p
                } else {
                    old(self).position(j)
                },
    {
        while self.positions.len() <= i
            invariant
                forall|j: int| #[trigger] self.position(j) == old(self).position(j),
            decreases i + 1 - self.positions.len(),
        {
            let ghost prev = *self;
            self.positions.push(new_position());
            assert forall|j: int| #[trigger] self.position(j) == old(self).position(j) by {
                assert(prev.position(j) == old(self).position(j));
                if 0 <= j < prev.positions.len() {
                    assert(self.positions@[j] == prev.positions@[j]);
                }
            }
        }
        let ghost prev = *self;
        self.positions.set(i, p);
        assert forall|j: int| #[trigger]
            self.position(j) == if j == i as int {
                p
            } else {
                old(self).position(j)
            } by {
            assert(prev.position(j) == old(self).position(j));
        }
    }

    /// Puts `ps[j]` in market `j` for every `j < ps.len()`, leaving the other
    /// positions as they were.
    pub fn set_positions(&mut self, ps: &Vec<UserPosition>)
        ensures
            forall|j: int| #[trigger]
                final(self).position(j) == if 0 <= j < ps.len() {
                    ps@[j]
                } else {
                    old(self).position(j)
                },
    {
        let mut k: usize = 0;
        while k < ps.len()
            invariant
                k <= ps.len(),
                forall|j: int| #[trigger]
                    self.position(j) == if 0 <= j < k {
                        ps@[j]
                    } else {
                        old(self).position(j)
                    },
            decreases ps.len() - k,
        {
            self.set_position(k, ps[k]);
            k = k + 1;
        }
    }
}

} // verus!
