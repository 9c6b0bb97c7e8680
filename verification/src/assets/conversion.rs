//! The asset-to-asset conversion primitive: `amount × rate`, rounded to the
//! target currency's minor units with an explicit rounding mode. Nothing is
//! looked up or inferred; the caller supplies every input.

use vstd::prelude::*;

use crate::decimal::{lemma_round_at_keeps_sign, mul_round_spec, mul_with_scale_round, Decimal, Rounding};

verus! {

/// Why a conversion could not be performed; the message is safe to show a user.
#[derive(Debug, Clone, Copy, PartialEq, Eq)]
pub enum ConversionError {
    InvalidInput(&'static str),
}

impl ConversionError {
    /// The user-facing message for this error.
    pub fn message(&self) -> (r: &'static str)
        ensures
            r@ == (match *self {
                ConversionError::InvalidInput(message) => message@,
            }),
    {
        match self {
            ConversionError::InvalidInput(message) => message,
        }
    }
}

/// A completed conversion together with the inputs that determined it.
#[derive(Debug, Clone)]
pub struct Conversion {
    /// `amount × rate`, rounded to `minor_units` fractional digits with
    /// `rounding_mode`.
    pub converted_amount: Decimal,
    pub source_asset_id: u128,
    pub target_asset_id: u128,
    /// Target units per source unit, as supplied by the caller.
    pub rate: Decimal,
    /// Microseconds since the Unix epoch.
    pub valuation_timestamp: i64,
    /// Fractional digits the result was rounded to.
    pub minor_units: i16,
    pub rounding_mode: Rounding,
}

/// The converted amount [`convert`] produces, or the error it reports: the
/// exact product rounded to the target's minor units whenever the assets
/// differ, the rate is positive and the minor units are in `0..=18`; the
/// only other refusal is for scales whose sum (or its distance to the
/// minor units) leaves the `i64` range, where `bigdecimal`'s own product
/// would overflow.
pub open spec fn converted_spec(
    amount: Decimal,
    rate: Decimal,
    source_asset_id: u128,
    target_asset_id: u128,
    target_minor_units: i16,
    rounding_mode: Rounding,
) -> Result<Decimal, ConversionError> {
    if source_asset_id == target_asset_id {
        Err(ConversionError::InvalidInput("source and target assets must be different"))
    } else if rate.m() <= 0 {
        Err(ConversionError::InvalidInput("exchange rate must be greater than zero"))
    } else if !(0 <= target_minor_units <= 18) {
        Err(ConversionError::InvalidInput("target minor units must be between 0 and 18"))
    } else {
        match mul_round_spec(amount, rate, target_minor_units as int, rounding_mode) {
            Some(d) => Ok(d),
            None => Err(ConversionError::InvalidInput("the scales are too far apart to convert")),
        }
    }
}

/// Convert `amount`, in the source asset, into the target asset at `rate`
/// (target units per source unit). A zero or negative amount is valid and
/// keeps its sign.
pub fn convert(
    amount: &Decimal,
    rate: Decimal,
    source_asset_id: u128,
    target_asset_id: u128,
    valuation_timestamp: i64,
    target_minor_units: i16,
    rounding_mode: Rounding,
) -> (r: Result<Conversion, ConversionError>)
    ensures
        r is Ok <==> converted_spec(
            *amount,
            rate,
            source_asset_id,
            target_asset_id,
            target_minor_units,
            rounding_mode,
        ) is Ok,
        r matches Err(e) ==> converted_spec(
            *amount,
            rate,
            source_asset_id,
            target_asset_id,
            target_minor_units,
            rounding_mode,
        ) == Err::<Decimal, ConversionError>(e),
        r matches Ok(c) ==> {
            &&& converted_spec(
                *amount,
                rate,
                source_asset_id,
                target_asset_id,
                target_minor_units,
                rounding_mode,
            ) == Ok::<Decimal, ConversionError>(c.converted_amount)
            &&& c.source_asset_id == source_asset_id
            &&& c.target_asset_id == target_asset_id
            &&& c.rate == rate
            &&& c.valuation_timestamp == valuation_timestamp
            &&& c.minor_units == target_minor_units
            &&& c.rounding_mode == rounding_mode
        },
{
    if source_asset_id == target_asset_id {
        return Err(ConversionError::InvalidInput("source and target assets must be different"));
    }
    if !rate.is_positive() {
        return Err(ConversionError::InvalidInput("exchange rate must be greater than zero"));
    }
    if target_minor_units < 0 || target_minor_units > 18 {
        return Err(ConversionError::InvalidInput("target minor units must be between 0 and 18"));
    }
    match mul_with_scale_round(amount, &rate, target_minor_units as i64, rounding_mode) {
        Some(converted_amount) => Ok(
            Conversion {
                converted_amount,
                source_asset_id,
                target_asset_id,
                rate,
                valuation_timestamp,
                minor_units: target_minor_units,
                rounding_mode,
            },
        ),
        None => Err(ConversionError::InvalidInput("the scales are too far apart to convert")),
    }
}

/// A conversion keeps the sign of the amount: a positive rate, rounding in
/// any mode, never turns money going out into money coming in or back.
pub proof fn lemma_conversion_keeps_sign(
    amount: Decimal,
    rate: Decimal,
    source_asset_id: u128,
    target_asset_id: u128,
    target_minor_units: i16,
    rounding_mode: Rounding,
)
    ensures
        converted_spec(
            amount,
            rate,
            source_asset_id,
            target_asset_id,
            target_minor_units,
            rounding_mode,
        ) matches Ok(c) ==> (amount.m() >= 0 ==> c.m() >= 0) && (amount.m() <= 0
            ==> c.m() <= 0),
{
    if rate.m() > 0 {
        let n = amount.m() * rate.m();
        assert(amount.m() >= 0 ==> n >= 0) by (nonlinear_arith)
            requires
                rate.m() > 0,
                n == amount.m() * rate.m(),
        ;
        assert(amount.m() <= 0 ==> n <= 0) by (nonlinear_arith)
            requires
                rate.m() > 0,
                n == amount.m() * rate.m(),
        ;
        lemma_round_at_keeps_sign(
            n,
            amount.scale + rate.scale,
            target_minor_units as int,
            rounding_mode,
        );
    }
}

} // verus!
