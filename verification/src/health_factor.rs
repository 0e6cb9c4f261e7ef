use crate::constants::SCALAR_7;
use crate::fixed_math::{
    checked_mul_div_ceil, checked_mul_div_floor, div_floor, fits_i128, lemma_div_fits, mul_ceil,
    mul_floor,
};
use crate::positions::{Positions, POSITION_SLOTS};
use crate::reserve::Reserve;
use vstd::prelude::*;

verus! {

/// A user's positions valued in the oracle's base asset.
#[derive(Clone, Copy, Debug, PartialEq, Eq, Structural)]
pub struct PositionData {
    /// The effective collateral balance denominated in the base asset
    pub collateral_base: i128,
    /// The raw collateral balance denominated in the base asset
    pub collateral_raw: i128,
    /// The effective liability balance denominated in the base asset
    pub liability_base: i128,
    /// The raw liability balance denominated in the base asset
    pub liability_raw: i128,
    /// The scalar for the base asset
    pub scalar: i128,
}

/// Ten to the power of `n`.
pub open spec fn pow10(n: nat) -> int
    decreases n,
{
    if n == 0 {
        1
    } else {
        10 * pow10((n - 1) as nat)
    }
}

/// Powers of ten are positive and grow with the exponent.
pub proof fn lemma_pow10_grows(a: nat, b: nat)
    requires
        a <= b,
    ensures
        0 < pow10(a) <= pow10(b),
    decreases b,
{
    if b > a {
        lemma_pow10_grows(a, (b - 1) as nat);
    } else if a > 0 {
        lemma_pow10_grows((a - 1) as nat, (b - 1) as nat);
    }
}

/// Ten to the power of `decimals`, or nothing when it leaves the 128-bit range.
pub fn checked_pow10(decimals: u32) -> (r: Option<i128>)
    ensures
        r == (if fits_i128(pow10(decimals as nat)) {
            Some(pow10(decimals as nat) as i128)
        } else {
            None
        }),
{
    let mut acc: i128 = 1;
    let mut i: u32 = 0;
    while i < decimals
        invariant
            i <= decimals,
            acc == pow10(i as nat),
            acc > 0,
        decreases decimals - i,
    {
        match acc.checked_mul(10) {
            Some(next) => {
                acc = next;
            },
            None => {
                proof {
                    lemma_pow10_grows((i + 1) as nat, decimals as nat);
                }
                return None;
            },
        }
        i += 1;
    }
    Some(acc)
}

/// The totals after the positions in one reserve have been added to `acc`: collateral
/// values rounded down, liability values rounded up, each taken only from a positive balance.
pub open spec fn spec_add_reserve(
    acc: PositionData,
    reserve: Reserve,
    price: i128,
    b_tokens: i128,
    d_tokens: i128,
) -> Option<PositionData> {
    let with_collateral = if b_tokens > 0 {
        match (
            reserve.spec_to_effective_asset_from_b_token(b_tokens),
            reserve.spec_to_asset_from_b_token(b_tokens),
        ) {
            (Some(eff), Some(raw)) => match (
                checked_mul_div_floor(price as int, eff as int, reserve.scalar as int),
                checked_mul_div_floor(price as int, raw as int, reserve.scalar as int),
            ) {
                (Some(eff_base), Some(raw_base)) => match (
                    acc.collateral_base.checked_add(eff_base),
                    acc.collateral_raw.checked_add(raw_base),
                ) {
                    (Some(cb), Some(cr)) => Some(
                        PositionData { collateral_base: cb, collateral_raw: cr, ..acc },
                    ),
                    _ => None,
                },
                _ => None,
            },
            _ => None,
        }
    } else {
        Some(acc)
    };
    match with_collateral {
        Some(mid) => if d_tokens > 0 {
            match (
                reserve.spec_to_effective_asset_from_d_token(d_tokens),
                reserve.spec_to_asset_from_d_token(d_tokens),
            ) {
                (Some(eff), Some(raw)) => match (
                    checked_mul_div_ceil(price as int, eff as int, reserve.scalar as int),
                    checked_mul_div_ceil(price as int, raw as int, reserve.scalar as int),
                ) {
                    (Some(eff_base), Some(raw_base)) => match (
                        mid.liability_base.checked_add(eff_base),
                        mid.liability_raw.checked_add(raw_base),
                    ) {
                        (Some(lb), Some(lr)) => Some(
                            PositionData { liability_base: lb, liability_raw: lr, ..mid },
                        ),
                        _ => None,
                    },
                    _ => None,
                },
                _ => None,
            }
        } else {
            Some(mid)
        },
        None => None,
    }
}

/// The totals over the first `n` reserves, or nothing as soon as one step overflows.
pub open spec fn spec_position_totals(
    reserves: Seq<Reserve>,
    prices: Seq<i128>,
    collateral: Seq<i128>,
    liabilities: Seq<i128>,
    scalar: i128,
    n: int,
) -> Option<PositionData>
    decreases n,
{
    if n <= 0 {
        Some(
            PositionData {
                collateral_base: 0,
                collateral_raw: 0,
                liability_base: 0,
                liability_raw: 0,
                scalar,
            },
        )
    } else {
        match spec_position_totals(reserves, prices, collateral, liabilities, scalar, n - 1) {
            Some(acc) => spec_add_reserve(
                acc,
                reserves[n - 1],
                prices[n - 1],
                collateral[n - 1],
                liabilities[n - 1],
            ),
            None => None,
        }
    }
}

/// The value of a user's collateral and liabilities over all reserves, in a base asset of
/// `oracle_decimals` decimals; nothing when the scalar or a step overflows.
pub open spec fn spec_position_data(
    reserves: Seq<Reserve>,
    prices: Seq<i128>,
    oracle_decimals: u32,
    collateral: Seq<i128>,
    liabilities: Seq<i128>,
) -> Option<PositionData> {
    if fits_i128(pow10(oracle_decimals as nat)) {
        spec_position_totals(
            reserves,
            prices,
            collateral,
            liabilities,
            pow10(oracle_decimals as nat) as i128,
            reserves.len() as int,
        )
    } else {
        None
    }
}

fn add_reserve(
    acc: PositionData,
    reserve: &Reserve,
    price: i128,
    b_tokens: i128,
    d_tokens: i128,
) -> (r: Option<PositionData>)
    ensures
        r == spec_add_reserve(acc, *reserve, price, b_tokens, d_tokens),
{
    let mut out = acc;
    if b_tokens > 0 {
        let eff = reserve.to_effective_asset_from_b_token(b_tokens)?;
        let raw = reserve.to_asset_from_b_token(b_tokens)?;
        let eff_base = mul_floor(price, eff, reserve.scalar)?;
        let raw_base = mul_floor(price, raw, reserve.scalar)?;
        let cb = out.collateral_base.checked_add(eff_base)?;
        let cr = out.collateral_raw.checked_add(raw_base)?;
        out.collateral_base = cb;
        out.collateral_raw = cr;
    }
    if d_tokens > 0 {
        let eff = reserve.to_effective_asset_from_d_token(d_tokens)?;
        let raw = reserve.to_asset_from_d_token(d_tokens)?;
        let eff_base = mul_ceil(price, eff, reserve.scalar)?;
        let raw_base = mul_ceil(price, raw, reserve.scalar)?;
        let lb = out.liability_base.checked_add(eff_base)?;
        let lr = out.liability_raw.checked_add(raw_base)?;
        out.liability_base = lb;
        out.liability_raw = lr;
    }
    Some(out)
}

impl PositionData {
    /// The health factor: effective collateral over effective liability, scaled by the base
    /// asset's scalar and rounded down; zero when there is no liability.
    pub open spec fn spec_health_factor(&self) -> int {
        if self.liability_base == 0 {
            0
        } else {
            crate::fixed_math::floor_div(
                self.collateral_base * self.scalar,
                self.liability_base as int,
            )
        }
    }

    /// Whether the health factor can be computed in 128 bits: there is no liability, or
    /// neither the scaled collateral nor the quotient leaves the range.
    pub open spec fn spec_health_factor_fits(&self) -> bool {
        self.liability_base == 0 || (fits_i128(self.collateral_base * self.scalar) && fits_i128(
            self.spec_health_factor(),
        ))
    }

    /// Whether there is liability and the health factor is below `min`, a ratio of seven
    /// decimals that is first brought to the base asset's scalar, rounding down.
    pub open spec fn spec_is_hf_under(&self, min: i128) -> bool {
        self.liability_base != 0 && self.spec_health_factor() < crate::fixed_math::floor_div(
            self.scalar * min,
            SCALAR_7 as int,
        )
    }

    /// Whether there is no liability or the health factor is above `max`, a ratio of seven
    /// decimals that is first brought to the base asset's scalar, rounding up.
    pub open spec fn spec_is_hf_over(&self, max: i128) -> bool {
        self.liability_base == 0 || self.spec_health_factor() > crate::fixed_math::ceil_div(
            self.scalar * max,
            SCALAR_7 as int,
        )
    }

    /// Values the positions of a user. `reserves` is the pool's reserve list in index order
    /// and `prices` holds the price of each reserve's asset at `oracle_decimals` decimals.
    ///
    /// Nothing is returned when a step of the valuation leaves the 128-bit range.
    pub fn calculate_from_positions(
        reserves: &Vec<Reserve>,
        prices: &Vec<i128>,
        oracle_decimals: u32,
        positions: &Positions,
    ) -> (r: Option<PositionData>)
        requires
            reserves@.len() <= POSITION_SLOTS,
            prices@.len() == reserves@.len(),
            positions.collateral@.len() == POSITION_SLOTS,
            positions.liabilities@.len() == POSITION_SLOTS,
        ensures
            r == spec_position_data(
                reserves@,
                prices@,
                oracle_decimals,
                positions.collateral@,
                positions.liabilities@,
            ),
    {
        let scalar = checked_pow10(oracle_decimals)?;
        let mut acc = PositionData {
            collateral_base: 0,
            collateral_raw: 0,
            liability_base: 0,
            liability_raw: 0,
            scalar,
        };
        let mut i: usize = 0;
        while i < reserves.len()
            invariant
                i <= reserves@.len(),
                fits_i128(pow10(oracle_decimals as nat)),
                scalar == pow10(oracle_decimals as nat),
                reserves@.len() <= POSITION_SLOTS,
                prices@.len() == reserves@.len(),
                positions.collateral@.len() == POSITION_SLOTS,
                positions.liabilities@.len() == POSITION_SLOTS,
                spec_position_totals(
                    reserves@,
                    prices@,
                    positions.collateral@,
                    positions.liabilities@,
                    scalar,
                    i as int,
                ) == Some(acc),
            decreases reserves@.len() - i,
        {
            let b_tokens = positions.collateral[i];
            let d_tokens = positions.liabilities[i];
            match add_reserve(acc, &reserves[i], prices[i], b_tokens, d_tokens) {
                Some(next) => {
                    acc = next;
                },
                None => {
                    proof {
                        assert(spec_position_totals(
                            reserves@,
                            prices@,
                            positions.collateral@,
                            positions.liabilities@,
                            scalar,
                            i as int + 1,
                        ) is None);
                        lemma_totals_stay_none(
                            reserves@,
                            prices@,
                            positions.collateral@,
                            positions.liabilities@,
                            scalar,
                            i as int + 1,
                            reserves@.len() as int,
                        );
                    }
                    return None;
                },
            }
            i += 1;
        }
        Some(acc)
    }

    /// The health factor as a ratio, or nothing when it cannot be computed in 128 bits.
    pub fn checked_health_factor(&self) -> (r: Option<i128>)
        ensures
            r == (if self.spec_health_factor_fits() {
                Some(self.spec_health_factor() as i128)
            } else {
                None
            }),
    {
        if self.liability_base == 0 {
            Some(0)
        } else {
            div_floor(self.collateral_base, self.liability_base, self.scalar)
        }
    }

    /// Return the health factor as a ratio
    pub fn as_health_factor(&self) -> (r: i128)
        requires
            self.spec_health_factor_fits(),
        ensures
            r == self.spec_health_factor(),
    {
        if self.liability_base == 0 {
            0
        } else {
            div_floor(self.collateral_base, self.liability_base, self.scalar).unwrap()
        }
    }

    /// Check if the position data is over a maximum health factor
    /// Note: max must be 7 decimals
    pub fn is_hf_over(&self, max: i128) -> (r: bool)
        requires
            self.liability_base != 0 ==> fits_i128(self.scalar * max),
            self.spec_health_factor_fits(),
        ensures
            r == self.spec_is_hf_over(max),
    {
        if self.liability_base == 0 {
            return true;
        }
        proof {
            lemma_div_fits(self.scalar * max, SCALAR_7 as int);
        }
        let min_health_factor = mul_ceil(self.scalar, max, SCALAR_7).unwrap();
        self.as_health_factor() > min_health_factor
    }

    /// Check if the position data is under a minimum health factor
    /// Note: min must be 7 decimals
    pub fn is_hf_under(&self, min: i128) -> (r: bool)
        requires
            self.liability_base != 0 ==> fits_i128(self.scalar * min),
            self.spec_health_factor_fits(),
        ensures
            r == self.spec_is_hf_under(min),
    {
        if self.liability_base == 0 {
            return false;
        }
        proof {
            lemma_div_fits(self.scalar * min, SCALAR_7 as int);
        }
        let min_health_factor = mul_floor(self.scalar, min, SCALAR_7).unwrap();
        self.as_health_factor() < min_health_factor
    }
}

/// Once a step of the valuation has overflowed, every longer valuation has too.
pub proof fn lemma_totals_stay_none(
    reserves: Seq<Reserve>,
    prices: Seq<i128>,
    collateral: Seq<i128>,
    liabilities: Seq<i128>,
    scalar: i128,
    n: int,
    m: int,
)
    requires
        0 <= n <= m,
        spec_position_totals(reserves, prices, collateral, liabilities, scalar, n) is None,
    ensures
        spec_position_totals(reserves, prices, collateral, liabilities, scalar, m) is None,
    decreases m - n,
{
    if n < m {
        lemma_totals_stay_none(reserves, prices, collateral, liabilities, scalar, n, m - 1);
    }
}

} // verus!
