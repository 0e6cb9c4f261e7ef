use crate::auctions::{AuctionData, AuctionEntry, BACKSTOP_TOKEN};
use crate::errors::PoolError;
use crate::fixed_math::{checked_mul_div_ceil, checked_mul_div_floor, fits_i128, mul_ceil, mul_floor};
use crate::health_factor::{checked_pow10, pow10, spec_position_data, PositionData};
use crate::positions::{Positions, POSITION_SLOTS};
use crate::reserve::Reserve;
use vstd::prelude::*;

verus! {

/// The value that the backstop's credit must exceed for an auction, in whole units of the
/// base asset.
pub const MIN_INTEREST_VALUE: i128 = 200;

/// The value of the backstop's credit in the first `n` reserves, in the base asset, each
/// reserve's credit rounded down.
pub open spec fn spec_credit_value(reserves: Seq<Reserve>, prices: Seq<i128>, n: int) -> Option<
    i128,
>
    decreases n,
{
    if n <= 0 {
        Some(0)
    } else {
        match (
            spec_credit_value(reserves, prices, n - 1),
            checked_mul_div_floor(
                prices[n - 1] as int,
                reserves[n - 1].backstop_credit as int,
                reserves[n - 1].scalar as int,
            ),
        ) {
            (Some(before), Some(value)) => before.checked_add(value),
            _ => None,
        }
    }
}

/// Whether `lot` holds the backstop's credit of every reserve, by reserve index.
pub open spec fn lot_is_credit(reserves: Seq<Reserve>, lot: Seq<AuctionEntry>) -> bool {
    &&& lot.len() == reserves.len()
    &&& forall|i: int|
        0 <= i < reserves.len() ==> (#[trigger] lot[i]).asset == i && lot[i].amount
            == reserves[i].backstop_credit
}

/// What an interest auction asks for the credit: its value in backstop tokens at
/// `token_price`, rounded up, given the value and the scalar of the base asset.
pub open spec fn spec_interest_bid(value: i128, token_price: i128, scalar: i128) -> Option<i128> {
    checked_mul_div_ceil(value as int, scalar as int, token_price as int)
}

/// The auction of the interest that has accrued to the backstop, or the reason why there
/// is none.
pub open spec fn spec_interest_auction(
    reserves: Seq<Reserve>,
    prices: Seq<i128>,
    oracle_decimals: u32,
    token_price: i128,
    in_progress: bool,
) -> Result<(i128, i128), PoolError> {
    if in_progress {
        Err(PoolError::AuctionInProgress)
    } else if !fits_i128(pow10(oracle_decimals as nat)) {
        Err(PoolError::MathOverflow)
    } else {
        let scalar = pow10(oracle_decimals as nat) as i128;
        match (
            spec_credit_value(reserves, prices, reserves.len() as int),
            scalar.checked_mul(MIN_INTEREST_VALUE),
        ) {
            (Some(value), Some(least)) => if value <= least {
                Err(PoolError::InterestTooSmall)
            } else {
                match spec_interest_bid(value, token_price, scalar) {
                    Some(bid) => Ok((value, bid)),
                    None => Err(PoolError::MathOverflow),
                }
            },
            _ => Err(PoolError::MathOverflow),
        }
    }
}

/// Once the value of the credit has overflowed, it has for every longer list of reserves.
pub proof fn lemma_credit_value_stays_none(
    reserves: Seq<Reserve>,
    prices: Seq<i128>,
    n: int,
    m: int,
)
    requires
        0 <= n <= m,
        spec_credit_value(reserves, prices, n) is None,
    ensures
        spec_credit_value(reserves, prices, m) is None,
    decreases m - n,
{
    if n < m {
        lemma_credit_value_stays_none(reserves, prices, n, m - 1);
    }
}

/// Creates the auction of the interest that has accrued to the backstop at block `block`:
/// the lot is the credit of every reserve, the bid is its value in backstop tokens at
/// `token_price`, a price in the base asset at the oracle's decimals.
///
/// ### Errors
/// If an interest auction is in progress, or the credit is worth no more than two hundred
/// units of the base asset
pub fn new_interest_auction(
    reserves: &Vec<Reserve>,
    prices: &Vec<i128>,
    oracle_decimals: u32,
    token_price: i128,
    in_progress: bool,
    block: u32,
) -> (r: Result<AuctionData, PoolError>)
    requires
        reserves@.len() <= POSITION_SLOTS,
        prices@.len() == reserves@.len(),
    ensures
        match spec_interest_auction(reserves@, prices@, oracle_decimals, token_price, in_progress) {
            Ok(made) => r is Ok && ({
                let auction = r.unwrap();
                &&& auction.block == block
                &&& lot_is_credit(reserves@, auction.lot@)
                &&& auction.bid@ == seq![AuctionEntry { asset: BACKSTOP_TOKEN, amount: made.1 }]
            }),
            Err(e) => r is Err && r->Err_0 == e,
        },
{
    if in_progress {
        return Err(PoolError::AuctionInProgress);
    }
    let scalar = match checked_pow10(oracle_decimals) {
        Some(scalar) => scalar,
        None => {
            return Err(PoolError::MathOverflow);
        },
    };
    let mut lot: Vec<AuctionEntry> = Vec::new();
    let mut value: i128 = 0;
    let mut i: usize = 0;
    while i < reserves.len()
        invariant
            i <= reserves@.len(),
            reserves@.len() <= POSITION_SLOTS,
            prices@.len() == reserves@.len(),
            !in_progress,
            fits_i128(pow10(oracle_decimals as nat)),
            scalar == pow10(oracle_decimals as nat),
            spec_credit_value(reserves@, prices@, i as int) == Some(value),
            lot_is_credit(reserves@.subrange(0, i as int), lot@),
        decreases reserves@.len() - i,
    {
        let credit = reserves[i].backstop_credit;
        let next = match mul_floor(prices[i], credit, reserves[i].scalar) {
            Some(worth) => value.checked_add(worth),
            None => None,
        };
        match next {
            Some(sum) => {
                value = sum;
            },
            None => {
                proof {
                    assert(spec_credit_value(reserves@, prices@, i as int + 1) is None);
                    lemma_credit_value_stays_none(
                        reserves@,
                        prices@,
                        i as int + 1,
                        reserves@.len() as int,
                    );
                }
                return Err(PoolError::MathOverflow);
            },
        }
        lot.push(AuctionEntry { asset: i as u32, amount: credit });
        i += 1;
    }
    assert(reserves@.subrange(0, i as int) =~= reserves@);
    let least = match scalar.checked_mul(MIN_INTEREST_VALUE) {
        Some(least) => least,
        None => {
            return Err(PoolError::MathOverflow);
        },
    };
    if value <= least {
        return Err(PoolError::InterestTooSmall);
    }
    let amount = match mul_ceil(value, scalar, token_price) {
        Some(amount) => amount,
        None => {
            return Err(PoolError::MathOverflow);
        },
    };
    let mut bid: Vec<AuctionEntry> = Vec::new();
    bid.push(AuctionEntry { asset: BACKSTOP_TOKEN, amount });
    assert(bid@ =~= seq![AuctionEntry { asset: BACKSTOP_TOKEN, amount }]);
    Ok(AuctionData { bid, lot, block })
}

/// Whether `bid` holds the debt shares of every reserve, by reserve index.
pub open spec fn bid_is_debt(liabilities: Seq<i128>, bid: Seq<AuctionEntry>) -> bool {
    &&& bid.len() == liabilities.len()
    &&& forall|i: int|
        0 <= i < liabilities.len() ==> (#[trigger] bid[i]).asset == i && bid[i].amount
            == liabilities[i]
}

/// The backstop tokens that a bad-debt auction offers for the backstop's debt: the value
/// of the debt in backstop tokens at `token_price`, rounded down; or the reason why there
/// is no auction.
pub open spec fn spec_bad_debt_lot(
    reserves: Seq<Reserve>,
    prices: Seq<i128>,
    oracle_decimals: u32,
    backstop: Positions,
    token_price: i128,
    in_progress: bool,
) -> Result<i128, PoolError> {
    if in_progress {
        Err(PoolError::AuctionInProgress)
    } else {
        match spec_position_data(
            reserves,
            prices,
            oracle_decimals,
            backstop.collateral@,
            backstop.liabilities@,
        ) {
            None => Err(PoolError::MathOverflow),
            Some(data) => if data.liability_raw <= 0 {
                Err(PoolError::BadRequest)
            } else {
                match checked_mul_div_floor(
                    data.liability_raw as int,
                    data.scalar as int,
                    token_price as int,
                ) {
                    Some(lot) => Ok(lot),
                    None => Err(PoolError::MathOverflow),
                }
            },
        }
    }
}

/// Creates the auction of the bad debt that the backstop has taken over, at block `block`:
/// the bid is every debt share of the backstop, the lot is the value of that debt in
/// backstop tokens at `token_price`, a price in the base asset at the oracle's decimals.
///
/// ### Errors
/// If a bad-debt auction is in progress, or the backstop's debt is worth nothing
pub fn new_bad_debt_auction(
    reserves: &Vec<Reserve>,
    prices: &Vec<i128>,
    oracle_decimals: u32,
    backstop: &Positions,
    token_price: i128,
    in_progress: bool,
    block: u32,
) -> (r: Result<AuctionData, PoolError>)
    requires
        reserves@.len() <= POSITION_SLOTS,
        prices@.len() == reserves@.len(),
        backstop.collateral@.len() == POSITION_SLOTS,
        backstop.liabilities@.len() == POSITION_SLOTS,
    ensures
        match spec_bad_debt_lot(
            reserves@,
            prices@,
            oracle_decimals,
            *backstop,
            token_price,
            in_progress,
        ) {
            Ok(lot) => r is Ok && ({
                let auction = r.unwrap();
                &&& auction.block == block
                &&& bid_is_debt(backstop.liabilities@, auction.bid@)
                &&& auction.lot@ == seq![AuctionEntry { asset: BACKSTOP_TOKEN, amount: lot }]
            }),
            Err(e) => r is Err && r->Err_0 == e,
        },
{
    if in_progress {
        return Err(PoolError::AuctionInProgress);
    }
    let data = match PositionData::calculate_from_positions(
        reserves,
        prices,
        oracle_decimals,
        backstop,
    ) {
        Some(data) => data,
        None => {
            return Err(PoolError::MathOverflow);
        },
    };
    if data.liability_raw <= 0 {
        return Err(PoolError::BadRequest);
    }
    let amount = match mul_floor(data.liability_raw, data.scalar, token_price) {
        Some(amount) => amount,
        None => {
            return Err(PoolError::MathOverflow);
        },
    };
    let mut bid: Vec<AuctionEntry> = Vec::new();
    let mut i: usize = 0;
    while i < POSITION_SLOTS
        invariant
            i <= POSITION_SLOTS,
            backstop.liabilities@.len() == POSITION_SLOTS,
            bid_is_debt(backstop.liabilities@.subrange(0, i as int), bid@),
        decreases POSITION_SLOTS - i,
    {
        bid.push(AuctionEntry { asset: i as u32, amount: backstop.liabilities[i] });
        i += 1;
    }
    assert(backstop.liabilities@.subrange(0, i as int) =~= backstop.liabilities@);
    let mut lot: Vec<AuctionEntry> = Vec::new();
    lot.push(AuctionEntry { asset: BACKSTOP_TOKEN, amount });
    assert(lot@ =~= seq![AuctionEntry { asset: BACKSTOP_TOKEN, amount }]);
    Ok(AuctionData { bid, lot, block })
}

} // verus!
