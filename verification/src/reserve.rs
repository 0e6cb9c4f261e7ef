use crate::constants::{MAX_RESERVE_INDEX, SCALAR_7, SCALAR_9};
use crate::errors::PoolError;
use crate::fixed_math::{
    ceil_div, checked_mul_div_ceil, checked_mul_div_floor, div_ceil, div_floor, floor_div,
    lemma_ceil_div_bounds, lemma_floor_div_bounds, mul_ceil, mul_floor,
};
use vstd::prelude::*;

verus! {

/// Utilization above which the steepest slope of the rate model applies.
pub const UTIL_KINK: i128 = 9_500_000;

/// Width of the utilization band above the kink.
pub const UTIL_TAIL: i128 = 500_000;

/// Smallest value the interest-rate modifier can take.
pub const IR_MOD_MIN: i128 = 1_000_000;

/// One asset class of a pool: its configuration and its running totals.
#[derive(Clone, Copy, Debug, PartialEq, Eq, Structural)]
pub struct Reserve {
    /// Dense index of the reserve in the pool.
    pub index: u32,
    /// Decimals of the underlying token.
    pub decimals: u32,
    /// Ten to the power of `decimals`.
    pub scalar: i128,
    /// Collateral haircut, seven decimals.
    pub c_factor: i128,
    /// Liability haircut, seven decimals.
    pub l_factor: i128,
    /// Target utilization, seven decimals.
    pub util: i128,
    /// Utilization cap, seven decimals.
    pub max_util: i128,
    /// Slope of the rate model below the target utilization.
    pub r_one: i128,
    /// Slope of the rate model between the target and the kink.
    pub r_two: i128,
    /// Slope of the rate model above the kink.
    pub r_three: i128,
    /// Reactivity of the interest-rate modifier.
    pub reactivity: u32,
    /// Assets per collateral share, nine decimals.
    pub b_rate: i128,
    /// Assets owed per debt share, nine decimals.
    pub d_rate: i128,
    /// Collateral shares outstanding.
    pub b_supply: i128,
    /// Debt shares outstanding.
    pub d_supply: i128,
    /// Assets accrued to the backstop and not yet collected.
    pub backstop_credit: i128,
    /// Interest-rate modifier, seven decimals.
    pub ir_mod: i128,
    /// Time of the last accrual.
    pub last_time: u64,
}

impl Reserve {
    /// The ranges in which a reserve's configuration and totals lie.
    pub open spec fn wf(&self) -> bool {
        &&& self.index <= MAX_RESERVE_INDEX
        &&& self.scalar > 0
        &&& 0 <= self.c_factor <= SCALAR_7
        &&& 0 <= self.l_factor <= SCALAR_7
        &&& 0 <= self.util <= SCALAR_7
        &&& 0 <= self.max_util <= SCALAR_7
        &&& self.r_one >= 0
        &&& self.r_two >= 0
        &&& self.r_three >= 0
        &&& self.b_rate >= 0
        &&& self.d_rate >= 0
        &&& self.b_supply >= 0
        &&& self.d_supply >= 0
        &&& self.backstop_credit >= 0
        &&& self.ir_mod >= 0
    }

    /// Assets that `b_tokens` collateral shares redeem, rounded down.
    pub open spec fn spec_to_asset_from_b_token(&self, b_tokens: i128) -> Option<i128> {
        checked_mul_div_floor(b_tokens as int, self.b_rate as int, SCALAR_9 as int)
    }

    /// Assets that `d_tokens` debt shares owe, rounded up.
    pub open spec fn spec_to_asset_from_d_token(&self, d_tokens: i128) -> Option<i128> {
        checked_mul_div_ceil(d_tokens as int, self.d_rate as int, SCALAR_9 as int)
    }

    /// Assets that `b_tokens` count for as collateral: the redeemable assets times the
    /// collateral factor, rounded down.
    pub open spec fn spec_to_effective_asset_from_b_token(&self, b_tokens: i128) -> Option<i128> {
        match self.spec_to_asset_from_b_token(b_tokens) {
            Some(assets) => checked_mul_div_floor(
                assets as int,
                self.c_factor as int,
                SCALAR_7 as int,
            ),
            None => None,
        }
    }

    /// Assets that `d_tokens` count for as liability: the owed assets divided by the
    /// liability factor, rounded up.
    pub open spec fn spec_to_effective_asset_from_d_token(&self, d_tokens: i128) -> Option<i128> {
        match self.spec_to_asset_from_d_token(d_tokens) {
            Some(assets) => checked_mul_div_ceil(
                assets as int,
                SCALAR_7 as int,
                self.l_factor as int,
            ),
            None => None,
        }
    }

    /// Collateral shares worth `amount` assets, rounded down.
    pub open spec fn spec_to_b_token_down(&self, amount: i128) -> Option<i128> {
        checked_mul_div_floor(amount as int, SCALAR_9 as int, self.b_rate as int)
    }

    /// Collateral shares worth `amount` assets, rounded up.
    pub open spec fn spec_to_b_token_up(&self, amount: i128) -> Option<i128> {
        checked_mul_div_ceil(amount as int, SCALAR_9 as int, self.b_rate as int)
    }

    /// Debt shares worth `amount` assets, rounded down.
    pub open spec fn spec_to_d_token_down(&self, amount: i128) -> Option<i128> {
        checked_mul_div_floor(amount as int, SCALAR_9 as int, self.d_rate as int)
    }

    /// Debt shares worth `amount` assets, rounded up.
    pub open spec fn spec_to_d_token_up(&self, amount: i128) -> Option<i128> {
        checked_mul_div_ceil(amount as int, SCALAR_9 as int, self.d_rate as int)
    }

    /// Assets redeemable by all collateral shares.
    pub open spec fn spec_total_supply(&self) -> Option<i128> {
        self.spec_to_asset_from_b_token(self.b_supply)
    }

    /// Assets owed by all debt shares.
    pub open spec fn spec_total_liabilities(&self) -> Option<i128> {
        self.spec_to_asset_from_d_token(self.d_supply)
    }

    /// Owed assets over redeemable assets, seven decimals, rounded up; zero when no debt
    /// share exists.
    pub open spec fn spec_utilization(&self) -> Option<i128> {
        if self.d_supply == 0 {
            Some(0)
        } else {
            match (self.spec_total_liabilities(), self.spec_total_supply()) {
                (Some(l), Some(s)) => checked_mul_div_ceil(l as int, SCALAR_7 as int, s as int),
                _ => None,
            }
        }
    }

    /// The redeemable assets together with the backstop's credit cover the owed assets.
    pub open spec fn solvent(&self) -> bool {
        floor_div(self.b_supply * self.b_rate, SCALAR_9 as int) + self.backstop_credit >= ceil_div(
            self.d_supply * self.d_rate,
            SCALAR_9 as int,
        )
    }

    /// Whether the utilization is within the cap: an error when it is not or cannot be
    /// computed.
    pub open spec fn spec_check_utilization(&self) -> Result<(), PoolError> {
        match self.spec_utilization() {
            Some(u) => if u > self.max_util {
                Err(PoolError::InvalidUtilRate)
            } else {
                Ok(())
            },
            None => Err(PoolError::MathOverflow),
        }
    }

    /// Converts collateral shares to assets, rounding down; nothing on overflow.
    pub fn to_asset_from_b_token(&self, b_tokens: i128) -> (r: Option<i128>)
        ensures
            r == self.spec_to_asset_from_b_token(b_tokens),
    {
        mul_floor(b_tokens, self.b_rate, SCALAR_9)
    }

    /// Converts debt shares to assets, rounding up; nothing on overflow.
    pub fn to_asset_from_d_token(&self, d_tokens: i128) -> (r: Option<i128>)
        ensures
            r == self.spec_to_asset_from_d_token(d_tokens),
    {
        mul_ceil(d_tokens, self.d_rate, SCALAR_9)
    }

    /// Converts collateral shares to the assets they count for as collateral.
    pub fn to_effective_asset_from_b_token(&self, b_tokens: i128) -> (r: Option<i128>)
        ensures
            r == self.spec_to_effective_asset_from_b_token(b_tokens),
    {
        let assets = self.to_asset_from_b_token(b_tokens)?;
        mul_floor(assets, self.c_factor, SCALAR_7)
    }

    /// Converts debt shares to the assets they count for as liability.
    pub fn to_effective_asset_from_d_token(&self, d_tokens: i128) -> (r: Option<i128>)
        ensures
            r == self.spec_to_effective_asset_from_d_token(d_tokens),
    {
        let assets = self.to_asset_from_d_token(d_tokens)?;
        div_ceil(assets, self.l_factor, SCALAR_7)
    }

    /// Converts assets to collateral shares, rounding down.
    pub fn to_b_token_down(&self, amount: i128) -> (r: Option<i128>)
        ensures
            r == self.spec_to_b_token_down(amount),
    {
        div_floor(amount, self.b_rate, SCALAR_9)
    }

    /// Converts assets to collateral shares, rounding up.
    pub fn to_b_token_up(&self, amount: i128) -> (r: Option<i128>)
        ensures
            r == self.spec_to_b_token_up(amount),
    {
        div_ceil(amount, self.b_rate, SCALAR_9)
    }

    /// Converts assets to debt shares, rounding down.
    pub fn to_d_token_down(&self, amount: i128) -> (r: Option<i128>)
        ensures
            r == self.spec_to_d_token_down(amount),
    {
        div_floor(amount, self.d_rate, SCALAR_9)
    }

    /// Converts assets to debt shares, rounding up.
    pub fn to_d_token_up(&self, amount: i128) -> (r: Option<i128>)
        ensures
            r == self.spec_to_d_token_up(amount),
    {
        div_ceil(amount, self.d_rate, SCALAR_9)
    }

    /// Assets redeemable by all collateral shares.
    pub fn total_supply(&self) -> (r: Option<i128>)
        ensures
            r == self.spec_total_supply(),
    {
        self.to_asset_from_b_token(self.b_supply)
    }

    /// Assets owed by all debt shares.
    pub fn total_liabilities(&self) -> (r: Option<i128>)
        ensures
            r == self.spec_total_liabilities(),
    {
        self.to_asset_from_d_token(self.d_supply)
    }

    /// The utilization of the reserve; nothing when nothing is redeemable or on overflow.
    pub fn utilization(&self) -> (r: Option<i128>)
        ensures
            r == self.spec_utilization(),
    {
        if self.d_supply == 0 {
            return Some(0);
        }
        let l = self.total_liabilities()?;
        let s = self.total_supply()?;
        div_ceil(l, s, SCALAR_7)
    }

    /// Accepts the reserve only while its utilization does not exceed the cap.
    pub fn require_utilization_below_max(&self) -> (r: Result<(), PoolError>)
        ensures
            r == self.spec_check_utilization(),
    {
        match self.utilization() {
            Some(u) => {
                if u > self.max_util {
                    Err(PoolError::InvalidUtilRate)
                } else {
                    Ok(())
                }
            },
            None => Err(PoolError::MathOverflow),
        }
    }
}

/// Shares turned into assets and back never gain: at a collateral rate of at least one,
/// converting `n` shares to assets and the assets back to shares gives `n` or `n - 1` when
/// the way back rounds down, and `n` when it rounds up.
pub proof fn lemma_b_token_round_trip(reserve: Reserve, n: i128)
    requires
        reserve.b_rate >= SCALAR_9,
        reserve.spec_to_asset_from_b_token(n) is Some,
        reserve.spec_to_b_token_down(reserve.spec_to_asset_from_b_token(n).unwrap()) is Some,
        reserve.spec_to_b_token_up(reserve.spec_to_asset_from_b_token(n).unwrap()) is Some,
    ensures
        n - 1 <= reserve.spec_to_b_token_down(
            reserve.spec_to_asset_from_b_token(n).unwrap(),
        ).unwrap() <= n,
        reserve.spec_to_b_token_up(reserve.spec_to_asset_from_b_token(n).unwrap()).unwrap() == n,
{
    let rate = reserve.b_rate as int;
    let one = SCALAR_9 as int;
    let assets = floor_div(n * rate, one);
    lemma_floor_div_bounds(n * rate, one);
    let down = floor_div(assets * one, rate);
    let up = ceil_div(assets * one, rate);
    lemma_floor_div_bounds(assets * one, rate);
    lemma_ceil_div_bounds(assets * one, rate);
    assert(n - 1 <= down <= n && up == n) by (nonlinear_arith)
        requires
            rate >= one,
            one > 0,
            assets * one <= n * rate < assets * one + one,
            down * rate <= assets * one < down * rate + rate,
            up * rate - rate < assets * one <= up * rate,
    ;
}

/// A reserve in its ranges whose utilization is within a cap of at most one redeems at
/// least what it is owed.
pub proof fn lemma_capped_utilization_is_solvent(reserve: Reserve)
    requires
        reserve.wf(),
        reserve.spec_check_utilization() is Ok,
    ensures
        reserve.solvent(),
{
    let one = SCALAR_9 as int;
    crate::fixed_math::lemma_mul_div_nonnegative(reserve.b_supply as int, reserve.b_rate as int, one);
    if reserve.d_supply == 0 {
        assert(reserve.d_supply * reserve.d_rate == 0) by (nonlinear_arith)
            requires
                reserve.d_supply == 0,
        ;
        crate::fixed_math::lemma_div_rounding_gap(0, one);
    } else {
        let l = reserve.spec_total_liabilities().unwrap() as int;
        let s = reserve.spec_total_supply().unwrap() as int;
        let u = reserve.spec_utilization().unwrap() as int;
        let seven = SCALAR_7 as int;
        lemma_ceil_div_bounds(l * seven, s);
        assert(l <= s) by (nonlinear_arith)
            requires
                s > 0,
                u <= seven,
                seven > 0,
                l * seven <= u * s,
        ;
    }
}

} // verus!
