//! Logarithm, exponential and power of decimals, computed by `rust_decimal`.
//!
//! A decimal crosses this boundary as a mantissa and a scale (its value is
//! `mantissa / 10^scale`). What `rust_decimal` returns is given a name; beside
//! each name stand only the few results that its source fixes exactly.

use vstd::prelude::*;
use rust_decimal::Decimal;
use rust_decimal::MathematicalOps;

use crate::fixed::pow10;

verus! {

/// Largest mantissa a `Decimal` holds, `2^96 - 1`.
pub const MAX_MANTISSA: i128 = 79_228_162_514_264_337_593_543_950_335;

/// Largest scale a `Decimal` holds.
pub const MAX_SCALE: u32 = 28;

/// What `Decimal::checked_ln` returns for `mantissa / 10^scale`, as a mantissa and a scale.
pub uninterp spec fn decimal_ln(mantissa: i128, scale: u32) -> Option<(i128, u32)>;

/// What `Decimal::checked_exp` returns for `mantissa / 10^scale`, as a mantissa and a scale.
pub uninterp spec fn decimal_exp(mantissa: i128, scale: u32) -> Option<(i128, u32)>;

/// What `Decimal::checked_powd` returns for the base `base_mantissa / 10^base_scale`
/// and the exponent `exp_mantissa / 10^exp_scale`, as a mantissa and a scale.
pub uninterp spec fn decimal_powd(
    base_mantissa: i128,
    base_scale: u32,
    exp_mantissa: i128,
    exp_scale: u32,
) -> Option<(i128, u32)>;

/// What `checked_ln` returns, with the case its source fixes written out.
pub open spec fn ln_result(mantissa: i128, scale: u32) -> Option<(i128, u32)> {
    if mantissa as int == pow10(scale as nat) {
        Some((0i128, 0u32))
    } else {
        decimal_ln(mantissa, scale)
    }
}

/// What `checked_exp` returns, with the case its source fixes written out.
pub open spec fn exp_result(mantissa: i128, scale: u32) -> Option<(i128, u32)> {
    if mantissa == 0 {
        Some((1i128, 0u32))
    } else {
        decimal_exp(mantissa, scale)
    }
}

/// What `checked_powd` returns, with the cases its source fixes written out.
pub open spec fn powd_result(base_mantissa: i128, base_scale: u32, exp_mantissa: i128, exp_scale: u32) -> Option<(i128, u32)> {
    if exp_mantissa == 0 {
        Some((1i128, 0u32))
    } else if base_mantissa as int == pow10(base_scale as nat) {
        Some((1i128, 0u32))
    } else if base_mantissa != 0 && exp_mantissa as int == pow10(exp_scale as nat) {
        Some((base_mantissa, base_scale))
    } else {
        decimal_powd(base_mantissa, base_scale, exp_mantissa, exp_scale)
    }
}

/// Natural logarithm by `rust_decimal`'s `Decimal::checked_ln`. The argument is
/// built with `Decimal::from_i128_with_scale`, which panics outside the bounds
/// in `requires`, and the result is read with `mantissa` and `scale`.
/// `checked_ln` returns `Decimal::ZERO` for a value equal to one.
#[verifier::external_body]
pub(crate) fn ln(mantissa: i128, scale: u32) -> (r: Option<(i128, u32)>)
    requires
        -MAX_MANTISSA <= mantissa <= MAX_MANTISSA,
        scale <= MAX_SCALE,
    ensures
        r == decimal_ln(mantissa, scale),
        mantissa as int == pow10(scale as nat) ==> r == Some((0i128, 0u32)),
{
    Decimal::from_i128_with_scale(mantissa, scale).checked_ln().map(|d| (d.mantissa(), d.scale()))
}

/// Exponential by `rust_decimal`'s `Decimal::checked_exp`, with the argument
/// built and the result read as for `ln`. `checked_exp` returns `Decimal::ONE`
/// for zero.
#[verifier::external_body]
pub(crate) fn exp(mantissa: i128, scale: u32) -> (r: Option<(i128, u32)>)
    requires
        -MAX_MANTISSA <= mantissa <= MAX_MANTISSA,
        scale <= MAX_SCALE,
    ensures
        r == decimal_exp(mantissa, scale),
        mantissa == 0 ==> r == Some((1i128, 0u32)),
{
    Decimal::from_i128_with_scale(mantissa, scale).checked_exp().map(|d| (d.mantissa(), d.scale()))
}

/// Power with a decimal exponent by `rust_decimal`'s `Decimal::checked_powd`,
/// with both arguments built and the result read as for `ln`. `checked_powd`
/// returns `Decimal::ONE` for a zero exponent or a base equal to one, and the
/// base itself for an exponent equal to one.
#[verifier::external_body]
pub(crate) fn powd(base_mantissa: i128, base_scale: u32, exp_mantissa: i128, exp_scale: u32) -> (r:
    Option<(i128, u32)>)
    requires
        -MAX_MANTISSA <= base_mantissa <= MAX_MANTISSA,
        base_scale <= MAX_SCALE,
        -MAX_MANTISSA <= exp_mantissa <= MAX_MANTISSA,
        exp_scale <= MAX_SCALE,
    ensures
        r == decimal_powd(base_mantissa, base_scale, exp_mantissa, exp_scale),
        exp_mantissa == 0 ==> r == Some((1i128, 0u32)),
        exp_mantissa != 0 && base_mantissa as int == pow10(base_scale as nat) ==> r == Some(
            (1i128, 0u32),
        ),
        exp_mantissa != 0 && base_mantissa != 0 && base_mantissa as int != pow10(base_scale as nat)
            && exp_mantissa as int == pow10(exp_scale as nat) ==> r == Some(
            (base_mantissa, base_scale),
        ),
{
    let base = Decimal::from_i128_with_scale(base_mantissa, base_scale);
    base.checked_powd(Decimal::from_i128_with_scale(exp_mantissa, exp_scale)).map(
        |d| (d.mantissa(), d.scale()),
    )
}

} // verus!
