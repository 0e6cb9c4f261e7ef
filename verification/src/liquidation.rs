use crate::auctions::{AuctionData, AuctionEntry, PERCENT};
use crate::constants::SCALAR_7;
use crate::errors::PoolError;
use crate::fixed_math::{checked_mul_div_ceil, checked_mul_div_floor, mul_ceil, mul_floor};
use crate::health_factor::{spec_position_data, PositionData};
use crate::positions::{copy_table, Positions, POSITION_SLOTS};
use crate::reserve::Reserve;
use vstd::prelude::*;

verus! {

/// The health factor above which a liquidation would take more than it needs to, seven
/// decimals.
pub const MAX_PROJECTED_HEALTH: i128 = 11_000_000;

/// The share of `percent` percent of a balance, rounded up or down.
pub open spec fn spec_share(balance: i128, percent: u64, round_up: bool) -> Option<i128> {
    if round_up {
        checked_mul_div_ceil(balance as int, percent * PERCENT, SCALAR_7 as int)
    } else {
        checked_mul_div_floor(balance as int, percent * PERCENT, SCALAR_7 as int)
    }
}

/// Whether `entries` holds the share of every balance and `left` what stays of it.
pub open spec fn shares_taken(
    balances: Seq<i128>,
    entries: Seq<AuctionEntry>,
    left: Seq<i128>,
    percent: u64,
    round_up: bool,
) -> bool {
    &&& entries.len() == balances.len()
    &&& left.len() == balances.len()
    &&& forall|i: int|
        0 <= i < balances.len() ==> {
            &&& (#[trigger] entries[i]).asset == i
            &&& spec_share(balances[i], percent, round_up) == Some(entries[i].amount)
            &&& left[i] == balances[i] - entries[i].amount
        }
}

/// What stays of every balance after its share has been taken.
pub open spec fn spec_left(balances: Seq<i128>, percent: u64, round_up: bool) -> Seq<i128> {
    Seq::new(
        balances.len(),
        |i: int| (balances[i] - spec_share(balances[i], percent, round_up).unwrap()) as i128,
    )
}

/// Whether the share of some balance, or what stays of it, leaves the 128-bit range.
pub open spec fn shares_overflow(balances: Seq<i128>, percent: u64, round_up: bool) -> bool {
    exists|i: int|
        0 <= i < balances.len() && (match spec_share(#[trigger] balances[i], percent, round_up) {
            Some(share) => balances[i].checked_sub(share) is None,
            None => true,
        })
}

/// Takes `percent` percent of every balance of a table: returns the shares as the entries
/// of one side of an auction, by reserve index, and what stays.
pub fn take_shares(balances: &Vec<i128>, percent: u64, round_up: bool) -> (r: Option<
    (Vec<AuctionEntry>, Vec<i128>),
>)
    requires
        balances@.len() == POSITION_SLOTS,
        percent <= 100,
    ensures
        match r {
            Some(out) => shares_taken(balances@, out.0@, out.1@, percent, round_up),
            None => shares_overflow(balances@, percent, round_up),
        },
{
    let mut entries: Vec<AuctionEntry> = Vec::new();
    let mut left: Vec<i128> = Vec::new();
    let percent_7 = (percent as i128) * PERCENT;
    let mut i: usize = 0;
    while i < POSITION_SLOTS
        invariant
            i <= POSITION_SLOTS,
            balances@.len() == POSITION_SLOTS,
            percent <= 100,
            percent_7 == percent * PERCENT,
            shares_taken(balances@.subrange(0, i as int), entries@, left@, percent, round_up),
        decreases POSITION_SLOTS - i,
    {
        let balance = balances[i];
        let share = if round_up {
            mul_ceil(balance, percent_7, SCALAR_7)
        } else {
            mul_floor(balance, percent_7, SCALAR_7)
        };
        let rest = match share {
            Some(share) => balance.checked_sub(share),
            None => None,
        };
        match (share, rest) {
            (Some(share), Some(rest)) => {
                entries.push(AuctionEntry { asset: i as u32, amount: share });
                left.push(rest);
            },
            _ => {
                assert(match spec_share(balances@[i as int], percent, round_up) {
                    Some(share) => balances@[i as int].checked_sub(share) is None,
                    None => true,
                });
                return None;
            },
        }
        i += 1;
    }
    assert(balances@.subrange(0, i as int) =~= balances@);
    Some((entries, left))
}

/// What is to be said of positions that a liquidation would leave behind.
#[derive(Clone, Copy, Debug, PartialEq, Eq, Structural)]
pub enum Projection {
    /// Their value cannot be computed in 128 bits.
    Overflow,
    /// They are still unhealthy.
    Under,
    /// They are healthier than a liquidation may leave them.
    Over,
    /// They are healthy, and not more than a liquidation may leave them.
    Accepted,
}

/// The verdict on the positions that a liquidation would leave behind.
pub open spec fn spec_projection(
    reserves: Seq<Reserve>,
    prices: Seq<i128>,
    oracle_decimals: u32,
    collateral: Seq<i128>,
    liabilities: Seq<i128>,
) -> Projection {
    match spec_position_data(reserves, prices, oracle_decimals, collateral, liabilities) {
        None => Projection::Overflow,
        Some(data) => if data.scalar.checked_mul(MAX_PROJECTED_HEALTH) is None
            || !data.spec_health_factor_fits() {
            Projection::Overflow
        } else if data.spec_is_hf_under(SCALAR_7) {
            Projection::Under
        } else if data.spec_is_hf_over(MAX_PROJECTED_HEALTH) {
            Projection::Over
        } else {
            Projection::Accepted
        },
    }
}

/// Judges the positions that a liquidation would leave behind.
pub fn project(
    reserves: &Vec<Reserve>,
    prices: &Vec<i128>,
    oracle_decimals: u32,
    positions: &Positions,
) -> (r: Projection)
    requires
        reserves@.len() <= POSITION_SLOTS,
        prices@.len() == reserves@.len(),
        positions.collateral@.len() == POSITION_SLOTS,
        positions.liabilities@.len() == POSITION_SLOTS,
    ensures
        r == spec_projection(
            reserves@,
            prices@,
            oracle_decimals,
            positions.collateral@,
            positions.liabilities@,
        ),
{
    match PositionData::calculate_from_positions(reserves, prices, oracle_decimals, positions) {
        None => Projection::Overflow,
        Some(data) => {
            if data.scalar.checked_mul(MAX_PROJECTED_HEALTH).is_none()
                || data.checked_health_factor().is_none() {
                return Projection::Overflow;
            }
            assert(crate::fixed_math::fits_i128(data.scalar * SCALAR_7)) by (nonlinear_arith)
                requires
                    crate::fixed_math::fits_i128(data.scalar * 11_000_000),
                    SCALAR_7 == 10_000_000,
            ;
            if data.is_hf_under(SCALAR_7) {
                Projection::Under
            } else if data.is_hf_over(MAX_PROJECTED_HEALTH) {
                Projection::Over
            } else {
                Projection::Accepted
            }
        },
    }
}

/// The verdict on what a liquidation of `percent` percent of the collateral and
/// `bid_percent` percent of the debt would leave behind.
pub open spec fn spec_bid_verdict(
    reserves: Seq<Reserve>,
    prices: Seq<i128>,
    oracle_decimals: u32,
    collateral_left: Seq<i128>,
    liabilities: Seq<i128>,
    bid_percent: u64,
) -> Projection {
    if shares_overflow(liabilities, bid_percent, true) {
        Projection::Overflow
    } else {
        spec_projection(
            reserves,
            prices,
            oracle_decimals,
            collateral_left,
            spec_left(liabilities, bid_percent, true),
        )
    }
}

/// The first verdict other than that the user is still unhealthy, and the percentage of
/// the debt at which it falls, trying every whole percentage from `from` to a hundred in
/// turn; the verdict that the user is still unhealthy when there is no other.
pub open spec fn spec_first_verdict(
    reserves: Seq<Reserve>,
    prices: Seq<i128>,
    oracle_decimals: u32,
    collateral_left: Seq<i128>,
    liabilities: Seq<i128>,
    from: u64,
) -> (Projection, u64)
    decreases 101 - from,
{
    if from > 100 {
        (Projection::Under, from)
    } else {
        let verdict = spec_bid_verdict(
            reserves,
            prices,
            oracle_decimals,
            collateral_left,
            liabilities,
            from,
        );
        if verdict != Projection::Under {
            (verdict, from)
        } else {
            spec_first_verdict(
                reserves,
                prices,
                oracle_decimals,
                collateral_left,
                liabilities,
                (from + 1) as u64,
            )
        }
    }
}

/// What the creation of a liquidation comes to: the percentage of the debt that the
/// liquidation bids, or the reason why there is none.
pub open spec fn spec_liquidation(
    reserves: Seq<Reserve>,
    prices: Seq<i128>,
    oracle_decimals: u32,
    collateral: Seq<i128>,
    liabilities: Seq<i128>,
    being_liquidated: bool,
    percent: u64,
) -> Result<u64, PoolError> {
    if being_liquidated {
        Err(PoolError::AuctionInProgress)
    } else if percent == 0 || percent > 100 {
        Err(PoolError::InvalidLiquidation)
    } else {
        match spec_projection(reserves, prices, oracle_decimals, collateral, liabilities) {
            Projection::Overflow => Err(PoolError::MathOverflow),
            Projection::Over => Err(PoolError::InvalidLiquidation),
            Projection::Accepted => Err(PoolError::InvalidLiquidation),
            Projection::Under => if shares_overflow(collateral, percent, false) {
                Err(PoolError::MathOverflow)
            } else {
                let found = spec_first_verdict(
                    reserves,
                    prices,
                    oracle_decimals,
                    spec_left(collateral, percent, false),
                    liabilities,
                    1,
                );
                match found.0 {
                    Projection::Accepted => Ok(found.1),
                    Projection::Overflow => Err(PoolError::MathOverflow),
                    _ => Err(PoolError::InvalidLiquidation),
                }
            },
        }
    }
}

/// A liquidation as it is created, with the percentage of the debt that it bids.
pub struct Liquidation {
    pub auction: AuctionData,
    pub bid_percent: u64,
}

/// Creates the liquidation of a user at block `block`. The lot is `percent` percent of
/// every collateral balance, rounded down. The bid is the smallest whole percentage of
/// every debt balance, rounded up, that leaves the user healthy.
///
/// ### Errors
/// If the user is being liquidated already; if the percentage is zero or above a hundred,
/// the user is healthy, no bid leaves the user healthy, or the smallest that does leaves
/// the user with a health factor above one and a tenth
pub fn new_liquidation_auction(
    reserves: &Vec<Reserve>,
    prices: &Vec<i128>,
    oracle_decimals: u32,
    positions: &Positions,
    being_liquidated: bool,
    percent: u64,
    block: u32,
) -> (r: Result<Liquidation, PoolError>)
    requires
        reserves@.len() <= POSITION_SLOTS,
        prices@.len() == reserves@.len(),
        positions.collateral@.len() == POSITION_SLOTS,
        positions.liabilities@.len() == POSITION_SLOTS,
    ensures
        match spec_liquidation(
            reserves@,
            prices@,
            oracle_decimals,
            positions.collateral@,
            positions.liabilities@,
            being_liquidated,
            percent,
        ) {
            Ok(bid_percent) => r is Ok && ({
                let made = r.unwrap();
                &&& made.bid_percent == bid_percent
                &&& made.auction.block == block
                &&& shares_taken(
                    positions.collateral@,
                    made.auction.lot@,
                    spec_left(positions.collateral@, percent, false),
                    percent,
                    false,
                )
                &&& shares_taken(
                    positions.liabilities@,
                    made.auction.bid@,
                    spec_left(positions.liabilities@, bid_percent, true),
                    bid_percent,
                    true,
                )
            }),
            Err(e) => r is Err && r->Err_0 == e,
        },
{
    if being_liquidated {
        return Err(PoolError::AuctionInProgress);
    }
    if percent == 0 || percent > 100 {
        return Err(PoolError::InvalidLiquidation);
    }
    match project(reserves, prices, oracle_decimals, positions) {
        Projection::Under => {},
        Projection::Overflow => {
            return Err(PoolError::MathOverflow);
        },
        _ => {
            return Err(PoolError::InvalidLiquidation);
        },
    }
    let (lot, collateral_left) = match take_shares(&positions.collateral, percent, false) {
        Some(taken) => taken,
        None => {
            return Err(PoolError::MathOverflow);
        },
    };
    proof {
        lemma_taken_is_determined(positions.collateral@, lot@, collateral_left@, percent, false);
    }
    let ghost found = spec_first_verdict(
        reserves@,
        prices@,
        oracle_decimals,
        collateral_left@,
        positions.liabilities@,
        1,
    );
    let mut q: u64 = 1;
    while q <= 100
        invariant
            1 <= q <= 101,
            0 < percent <= 100,
            !being_liquidated,
            reserves@.len() <= POSITION_SLOTS,
            prices@.len() == reserves@.len(),
            positions.collateral@.len() == POSITION_SLOTS,
            positions.liabilities@.len() == POSITION_SLOTS,
            shares_taken(positions.collateral@, lot@, collateral_left@, percent, false),
            !shares_overflow(positions.collateral@, percent, false),
            collateral_left@ == spec_left(positions.collateral@, percent, false),
            spec_projection(
                reserves@,
                prices@,
                oracle_decimals,
                positions.collateral@,
                positions.liabilities@,
            ) == Projection::Under,
            found == spec_first_verdict(
                reserves@,
                prices@,
                oracle_decimals,
                collateral_left@,
                positions.liabilities@,
                1,
            ),
            found == spec_first_verdict(
                reserves@,
                prices@,
                oracle_decimals,
                collateral_left@,
                positions.liabilities@,
                q,
            ),
        decreases 101 - q,
    {
        let (bid, liabilities_left) = match take_shares(&positions.liabilities, q, true) {
            Some(taken) => taken,
            None => {
                return Err(PoolError::MathOverflow);
            },
        };
        let ghost rest = liabilities_left@;
        proof {
            lemma_taken_is_determined(positions.liabilities@, bid@, rest, q, true);
        }
        let after = Positions {
            liabilities: liabilities_left,
            collateral: copy_table(&collateral_left),
            supply: Vec::new(),
        };
        match project(reserves, prices, oracle_decimals, &after) {
            Projection::Under => {},
            Projection::Accepted => {
                return Ok(
                    Liquidation { auction: AuctionData { bid, lot, block }, bid_percent: q },
                );
            },
            Projection::Over => {
                return Err(PoolError::InvalidLiquidation);
            },
            Projection::Overflow => {
                return Err(PoolError::MathOverflow);
            },
        }
        q += 1;
    }
    Err(PoolError::InvalidLiquidation)
}

/// What stays of the balances after their shares have been taken is determined by them,
/// and shares that were taken did not overflow.
pub proof fn lemma_taken_is_determined(
    balances: Seq<i128>,
    entries: Seq<AuctionEntry>,
    left: Seq<i128>,
    percent: u64,
    round_up: bool,
)
    requires
        shares_taken(balances, entries, left, percent, round_up),
    ensures
        !shares_overflow(balances, percent, round_up),
        left == spec_left(balances, percent, round_up),
{
    let expected = spec_left(balances, percent, round_up);
    assert forall|i: int| 0 <= i < balances.len() implies left[i] == expected[i] by {
        assert(entries[i].asset == i);
    }
    assert(left =~= expected);
    assert forall|i: int| 0 <= i < balances.len() implies !(match spec_share(
        #[trigger] balances[i],
        percent,
        round_up,
    ) {
        Some(share) => balances[i].checked_sub(share) is None,
        None => true,
    }) by {
        assert(entries[i].asset == i);
    }
}

} // verus!
