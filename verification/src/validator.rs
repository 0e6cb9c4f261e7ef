use crate::constants::SCALAR_7;
use crate::errors::PoolError;
use crate::fixed_math::{floor_div, lemma_div_exact, lemma_floor_div_bounds};
use crate::health_factor::PositionData;
use vstd::prelude::*;

verus! {

/// Require that an incoming amount is not negative
///
/// ### Errors
/// If the number is negative
pub fn require_nonnegative(amount: i128) -> (r: Result<(), PoolError>)
    ensures
        r == (if amount < 0 {
            Err::<(), PoolError>(PoolError::NegativeAmount)
        } else {
            Ok(())
        }),
{
    if amount < 0 {
        Err(PoolError::NegativeAmount)
    } else {
        Ok(())
    }
}

/// Whether positions are healthy: there is no liability, or the effective collateral
/// covers the effective liability, which is a health factor of at least one.
pub open spec fn spec_validate_hf(data: PositionData) -> bool {
    data.liability_base == 0 || data.collateral_base >= data.liability_base
}

/// Validate if a user is currently healthy given their valued positions.
pub fn validate_hf(data: &PositionData) -> (r: bool)
    ensures
        r == spec_validate_hf(*data),
{
    data.liability_base == 0 || data.collateral_base >= data.liability_base
}

/// With a positive liability and a positive scalar, positions are valid exactly when their
/// health factor is not under one.
pub proof fn lemma_valid_is_health_of_one(data: PositionData)
    requires
        data.liability_base > 0,
        data.scalar > 0,
    ensures
        spec_validate_hf(data) == !data.spec_is_hf_under(SCALAR_7),
{
    let scalar = data.scalar as int;
    let owed = data.liability_base as int;
    let held = data.collateral_base as int;
    lemma_div_exact(scalar, SCALAR_7 as int);
    lemma_floor_div_bounds(held * scalar, owed);
    let factor = floor_div(held * scalar, owed);
    assert((factor < scalar) == (held < owed)) by (nonlinear_arith)
        requires
            scalar > 0,
            owed > 0,
            factor * owed <= held * scalar < factor * owed + owed,
    ;
}

} // verus!
