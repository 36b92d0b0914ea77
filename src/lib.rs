//! Accounting core of an over-collateralised lending pool: fixed-point
//! arithmetic, the liquidity index, borrow-interest accrual, the risk engine
//! and the five state-changing operations, all proved against their contracts.

pub mod types;
pub mod fixed;
pub mod maths;
pub mod interest;
pub mod risk;
pub mod pool;
pub mod laws;
