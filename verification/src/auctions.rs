use crate::constants::{AUCTION_BLOCKS, AUCTION_HALF_BLOCKS, SCALAR_7};
use crate::errors::PoolError;
use crate::fixed_math::{
    checked_mul_div_ceil, checked_mul_div_floor, fits_i128, lemma_ceil_div_bounds,
    lemma_floor_div_bounds, mul_ceil, mul_floor,
};
use crate::positions::{Positions, POSITION_SLOTS};
use vstd::prelude::*;

verus! {

/// What a modifier moves by in one block: half a percent.
pub const BLOCK_STEP: i128 = 50_000;

/// One percent, seven decimals.
pub const PERCENT: i128 = 100_000;

/// The kind of an auction.
#[derive(Clone, Copy, Debug, PartialEq, Eq, Structural)]
pub enum AuctionType {
    UserLiquidation,
    BadDebtAuction,
    InterestAuction,
}

impl AuctionType {
    /// The kind that a number stands for, if any.
    pub fn from_u32(value: u32) -> (r: Option<AuctionType>)
        ensures
            r == (if value == 0 {
                Some(AuctionType::UserLiquidation)
            } else if value == 1 {
                Some(AuctionType::BadDebtAuction)
            } else if value == 2 {
                Some(AuctionType::InterestAuction)
            } else {
                None
            }),
    {
        if value == 0 {
            Some(AuctionType::UserLiquidation)
        } else if value == 1 {
            Some(AuctionType::BadDebtAuction)
        } else if value == 2 {
            Some(AuctionType::InterestAuction)
        } else {
            None
        }
    }
}

/// The number that stands for the backstop token where an auction names an asset.
pub const BACKSTOP_TOKEN: u32 = 0xffff_ffff;

/// An amount of one asset on one side of an auction: shares of the reserve with index
/// `asset`, or backstop tokens. An amount of zero stands for an asset that is not on that
/// side.
#[derive(Clone, Copy, Debug, PartialEq, Eq, Structural)]
pub struct AuctionEntry {
    pub asset: u32,
    pub amount: i128,
}

/// An auction: what the filler pays, what the filler receives, and the block it started at.
#[derive(Debug)]
pub struct AuctionData {
    pub bid: Vec<AuctionEntry>,
    pub lot: Vec<AuctionEntry>,
    pub block: u32,
}

/// The share of the lot that a filler receives at block `now`, seven decimals: it rises by
/// half a percent a block and is whole from the middle of the auction on.
pub open spec fn spec_lot_modifier(start: u32, now: u32) -> i128 {
    if now <= start {
        0
    } else if now - start <= AUCTION_HALF_BLOCKS {
        ((now - start) * BLOCK_STEP) as i128
    } else {
        SCALAR_7
    }
}

/// The share of the bid that a filler pays at block `now`, seven decimals: it is whole up
/// to the middle of the auction, then falls by half a percent a block to nothing.
pub open spec fn spec_bid_modifier(start: u32, now: u32) -> i128 {
    if now <= start || now - start <= AUCTION_HALF_BLOCKS {
        SCALAR_7
    } else if now - start < AUCTION_BLOCKS {
        (SCALAR_7 - (now - start - AUCTION_HALF_BLOCKS) * BLOCK_STEP) as i128
    } else {
        0
    }
}

/// Computes the shares of the bid and of the lot that apply at block `now`.
pub fn auction_modifiers(start: u32, now: u32) -> (r: (i128, i128))
    ensures
        r.0 == spec_bid_modifier(start, now),
        r.1 == spec_lot_modifier(start, now),
        0 <= r.0 <= SCALAR_7,
        0 <= r.1 <= SCALAR_7,
{
    if now <= start {
        return (SCALAR_7, 0);
    }
    let elapsed = now - start;
    if elapsed <= AUCTION_HALF_BLOCKS {
        (SCALAR_7, (elapsed as i128) * BLOCK_STEP)
    } else if elapsed < AUCTION_BLOCKS {
        (SCALAR_7 - ((elapsed - AUCTION_HALF_BLOCKS) as i128) * BLOCK_STEP, SCALAR_7)
    } else {
        (0, SCALAR_7)
    }
}

/// What a fill of `percent` percent does to one amount at a modifier: the part consumed is
/// the percentage of the amount, the rest stays, and the filler's part is the modifier's
/// share of what is consumed. Bids round up, lots round down. The result is the filler's
/// part and the rest.
pub open spec fn spec_fill_amount(amount: i128, percent: u64, modifier: i128, round_up: bool) -> Option<
    (i128, i128),
> {
    let consumed = if round_up {
        checked_mul_div_ceil(amount as int, percent * PERCENT, SCALAR_7 as int)
    } else {
        checked_mul_div_floor(amount as int, percent * PERCENT, SCALAR_7 as int)
    };
    match consumed {
        Some(base) => {
            let scaled = if round_up {
                checked_mul_div_ceil(base as int, modifier as int, SCALAR_7 as int)
            } else {
                checked_mul_div_floor(base as int, modifier as int, SCALAR_7 as int)
            };
            match (scaled, amount.checked_sub(base)) {
                (Some(part), Some(rest)) => Some((part, rest)),
                _ => None,
            }
        },
        None => None,
    }
}

fn fill_amount(amount: i128, percent: u64, modifier: i128, round_up: bool) -> (r: Option<
    (i128, i128),
>)
    requires
        percent <= 100,
    ensures
        r == spec_fill_amount(amount, percent, modifier, round_up),
{
    let percent_7 = (percent as i128) * PERCENT;
    let base = if round_up {
        mul_ceil(amount, percent_7, SCALAR_7)?
    } else {
        mul_floor(amount, percent_7, SCALAR_7)?
    };
    let part = if round_up {
        mul_ceil(base, modifier, SCALAR_7)?
    } else {
        mul_floor(base, modifier, SCALAR_7)?
    };
    let rest = amount.checked_sub(base)?;
    Some((part, rest))
}

/// Whether `fill` and `rest` are what a fill leaves of every entry of `entries`.
pub open spec fn entries_filled(
    entries: Seq<AuctionEntry>,
    fill: Seq<AuctionEntry>,
    rest: Seq<AuctionEntry>,
    percent: u64,
    modifier: i128,
    round_up: bool,
) -> bool {
    &&& fill.len() == entries.len()
    &&& rest.len() == entries.len()
    &&& forall|i: int|
        0 <= i < entries.len() ==> {
            &&& (#[trigger] fill[i]).asset == entries[i].asset
            &&& rest[i].asset == entries[i].asset
            &&& spec_fill_amount(entries[i].amount, percent, modifier, round_up) == Some(
                (fill[i].amount, rest[i].amount),
            )
        }
}

/// The filler's part of every entry of `entries`.
pub open spec fn spec_filled_entries(
    entries: Seq<AuctionEntry>,
    percent: u64,
    modifier: i128,
    round_up: bool,
) -> Seq<AuctionEntry> {
    Seq::new(
        entries.len(),
        |i: int|
            AuctionEntry {
                asset: entries[i].asset,
                amount: spec_fill_amount(entries[i].amount, percent, modifier, round_up).unwrap().0,
            },
    )
}

/// What a fill leaves of the entries is determined by them, and a fill that is had did not
/// overflow.
pub proof fn lemma_filled_entries_unique(
    entries: Seq<AuctionEntry>,
    fill: Seq<AuctionEntry>,
    rest: Seq<AuctionEntry>,
    percent: u64,
    modifier: i128,
    round_up: bool,
)
    requires
        entries_filled(entries, fill, rest, percent, modifier, round_up),
    ensures
        fill == spec_filled_entries(entries, percent, modifier, round_up),
        !entries_overflow(entries, percent, modifier, round_up),
{
    let expected = spec_filled_entries(entries, percent, modifier, round_up);
    assert forall|i: int| 0 <= i < entries.len() implies fill[i] == expected[i] by {
        assert(fill[i].asset == entries[i].asset);
    }
    assert(fill =~= expected);
    assert forall|i: int| 0 <= i < entries.len() implies spec_fill_amount(
        (#[trigger] entries[i]).amount,
        percent,
        modifier,
        round_up,
    ) is Some by {
        assert(fill[i].asset == entries[i].asset);
    }
}

/// Whether the fill of some entry overflows.
pub open spec fn entries_overflow(
    entries: Seq<AuctionEntry>,
    percent: u64,
    modifier: i128,
    round_up: bool,
) -> bool {
    exists|i: int|
        0 <= i < entries.len() && spec_fill_amount(
            (#[trigger] entries[i]).amount,
            percent,
            modifier,
            round_up,
        ) is None
}

fn scale_entries(entries: &Vec<AuctionEntry>, percent: u64, modifier: i128, round_up: bool) -> (r:
    Option<(Vec<AuctionEntry>, Vec<AuctionEntry>)>)
    requires
        percent <= 100,
    ensures
        match r {
            Some(out) => entries_filled(entries@, out.0@, out.1@, percent, modifier, round_up),
            None => entries_overflow(entries@, percent, modifier, round_up),
        },
{
    let mut fill: Vec<AuctionEntry> = Vec::new();
    let mut rest: Vec<AuctionEntry> = Vec::new();
    let mut i: usize = 0;
    while i < entries.len()
        invariant
            i <= entries@.len(),
            percent <= 100,
            entries_filled(
                entries@.subrange(0, i as int),
                fill@,
                rest@,
                percent,
                modifier,
                round_up,
            ),
        decreases entries@.len() - i,
    {
        let entry = entries[i];
        match fill_amount(entry.amount, percent, modifier, round_up) {
            Some((part, left)) => {
                fill.push(AuctionEntry { asset: entry.asset, amount: part });
                rest.push(AuctionEntry { asset: entry.asset, amount: left });
            },
            None => {
                assert(spec_fill_amount(entries@[i as int].amount, percent, modifier, round_up)
                    is None);
                return None;
            },
        }
        i += 1;
    }
    assert(entries@.subrange(0, i as int) =~= entries@);
    Some((fill, rest))
}

/// Splits an auction at block `now` into what a fill of `percent` percent pays and
/// receives, and what stays in the auction, with its block unchanged.
///
/// ### Errors
/// A percentage of zero or above a hundred is a bad request.
pub fn scale_auction(auction: &AuctionData, now: u32, percent: u64) -> (r: Result<
    (AuctionData, AuctionData),
    PoolError,
>)
    ensures
        percent == 0 || percent > 100 ==> r is Err && r->Err_0 == PoolError::BadRequest,
        0 < percent <= 100 ==> {
            let bid_mod = spec_bid_modifier(auction.block, now);
            let lot_mod = spec_lot_modifier(auction.block, now);
            match r {
                Ok(out) => {
                    &&& out.0.block == auction.block
                    &&& out.1.block == auction.block
                    &&& entries_filled(auction.bid@, out.0.bid@, out.1.bid@, percent, bid_mod, true)
                    &&& entries_filled(
                        auction.lot@,
                        out.0.lot@,
                        out.1.lot@,
                        percent,
                        lot_mod,
                        false,
                    )
                },
                Err(e) => e == PoolError::MathOverflow && (entries_overflow(
                    auction.bid@,
                    percent,
                    bid_mod,
                    true,
                ) || entries_overflow(auction.lot@, percent, lot_mod, false)),
            }
        },
{
    if percent == 0 || percent > 100 {
        return Err(PoolError::BadRequest);
    }
    let (bid_mod, lot_mod) = auction_modifiers(auction.block, now);
    let bid = match scale_entries(&auction.bid, percent, bid_mod, true) {
        Some(bid) => bid,
        None => {
            return Err(PoolError::MathOverflow);
        },
    };
    let lot = match scale_entries(&auction.lot, percent, lot_mod, false) {
        Some(lot) => lot,
        None => {
            return Err(PoolError::MathOverflow);
        },
    };
    Ok(
        (
            AuctionData { bid: bid.0, lot: lot.0, block: auction.block },
            AuctionData { bid: bid.1, lot: lot.1, block: auction.block },
        ),
    )
}

/// The balances of the giver and the taker after the shares of the first `n` entries have
/// moved from one to the other; nothing when an entry names no reserve, is negative, asks
/// for more than the giver has, or takes the taker's balance out of range.
pub open spec fn spec_move_shares(
    from: Seq<i128>,
    to: Seq<i128>,
    entries: Seq<AuctionEntry>,
    n: int,
) -> Option<(Seq<i128>, Seq<i128>)>
    decreases n,
{
    if n <= 0 {
        Some((from, to))
    } else {
        match spec_move_shares(from, to, entries, n - 1) {
            None => None,
            Some(moved) => {
                let asset = entries[n - 1].asset as int;
                let amount = entries[n - 1].amount;
                if asset >= POSITION_SLOTS || amount < 0 || moved.0[asset] < amount || !fits_i128(
                    moved.1[asset] + amount,
                ) {
                    None
                } else {
                    Some(
                        (
                            moved.0.update(asset, (moved.0[asset] - amount) as i128),
                            moved.1.update(asset, (moved.1[asset] + amount) as i128),
                        ),
                    )
                }
            },
        }
    }
}

/// Moving shares creates and destroys none: in every reserve the giver and the taker hold
/// together what they held before, and a giver without a negative balance keeps none.
pub proof fn lemma_move_conserves_shares(
    from: Seq<i128>,
    to: Seq<i128>,
    entries: Seq<AuctionEntry>,
    n: int,
)
    requires
        from.len() == POSITION_SLOTS,
        to.len() == POSITION_SLOTS,
        0 <= n <= entries.len(),
        spec_move_shares(from, to, entries, n) is Some,
    ensures
        ({
            let moved = spec_move_shares(from, to, entries, n).unwrap();
            &&& moved.0.len() == POSITION_SLOTS
            &&& moved.1.len() == POSITION_SLOTS
            &&& forall|i: int|
                0 <= i < POSITION_SLOTS ==> moved.0[i] + moved.1[i] == from[i] + to[i]
            &&& forall|i: int| 0 <= i < POSITION_SLOTS && from[i] >= 0 ==> moved.0[i] >= 0
            &&& forall|i: int| 0 <= i < POSITION_SLOTS ==> moved.0[i] <= from[i]
        }),
    decreases n,
{
    if n > 0 {
        lemma_move_conserves_shares(from, to, entries, n - 1);
    }
}

/// Once an entry cannot be moved, no longer list of entries can.
pub proof fn lemma_move_stays_none(
    from: Seq<i128>,
    to: Seq<i128>,
    entries: Seq<AuctionEntry>,
    n: int,
    m: int,
)
    requires
        0 <= n <= m,
        spec_move_shares(from, to, entries, n) is None,
    ensures
        spec_move_shares(from, to, entries, m) is None,
    decreases m - n,
{
    if n < m {
        lemma_move_stays_none(from, to, entries, n, m - 1);
    }
}

pub(crate) fn move_shares(from: Vec<i128>, to: Vec<i128>, entries: &Vec<AuctionEntry>) -> (r: Option<
    (Vec<i128>, Vec<i128>),
>)
    requires
        from@.len() == POSITION_SLOTS,
        to@.len() == POSITION_SLOTS,
    ensures
        match spec_move_shares(from@, to@, entries@, entries@.len() as int) {
            Some(moved) => r is Some && r.unwrap().0@ == moved.0 && r.unwrap().1@ == moved.1,
            None => r is None,
        },
{
    let mut giver = from;
    let mut taker = to;
    let mut k: usize = 0;
    while k < entries.len()
        invariant
            k <= entries@.len(),
            giver@.len() == POSITION_SLOTS,
            taker@.len() == POSITION_SLOTS,
            spec_move_shares(from@, to@, entries@, k as int) == Some((giver@, taker@)),
        decreases entries@.len() - k,
    {
        let entry = entries[k];
        let ghost next = spec_move_shares(from@, to@, entries@, k as int + 1);
        proof {
            if next is None {
                lemma_move_stays_none(from@, to@, entries@, k as int + 1, entries@.len() as int);
            }
        }
        if entry.asset as usize >= POSITION_SLOTS || entry.amount < 0 {
            return None;
        }
        let i = entry.asset as usize;
        if giver[i] < entry.amount {
            return None;
        }
        match taker[i].checked_add(entry.amount) {
            Some(sum) => {
                let left = giver[i] - entry.amount;
                giver.set(i, left);
                taker.set(i, sum);
            },
            None => {
                return None;
            },
        }
        k += 1;
    }
    Some((giver, taker))
}

/// What the fill of a liquidation leaves behind.
pub struct LiquidationFill {
    /// What the filler took over: debt shares as the bid, collateral shares as the lot.
    pub filled: AuctionData,
    /// What stays in the auction.
    pub remaining: AuctionData,
    /// The positions of the user who is liquidated.
    pub user: Positions,
    /// The positions of the filler.
    pub filler: Positions,
}

/// Fills `percent` percent of the liquidation of a user at block `now`: the filler takes
/// over the scaled lot of the user's collateral shares and the scaled bid of the user's
/// debt shares. The reserves' totals do not change.
///
/// ### Errors
/// A percentage out of range is a bad request; a lot that the user's collateral does not
/// cover is an invalid lot; a bid that the user's debt does not cover is an invalid bid.
pub fn fill_user_liquidation(
    auction: &AuctionData,
    user: Positions,
    filler: Positions,
    now: u32,
    percent: u64,
) -> (r: Result<LiquidationFill, PoolError>)
    requires
        user.collateral@.len() == POSITION_SLOTS,
        user.liabilities@.len() == POSITION_SLOTS,
        filler.collateral@.len() == POSITION_SLOTS,
        filler.liabilities@.len() == POSITION_SLOTS,
    ensures
        percent == 0 || percent > 100 ==> r is Err && r->Err_0 == PoolError::BadRequest,
        0 < percent <= 100 ==> {
            let bid_mod = spec_bid_modifier(auction.block, now);
            let lot_mod = spec_lot_modifier(auction.block, now);
            match r {
                Ok(out) => {
                    &&& out.filled.block == auction.block
                    &&& out.remaining.block == auction.block
                    &&& entries_filled(
                        auction.bid@,
                        out.filled.bid@,
                        out.remaining.bid@,
                        percent,
                        bid_mod,
                        true,
                    )
                    &&& entries_filled(
                        auction.lot@,
                        out.filled.lot@,
                        out.remaining.lot@,
                        percent,
                        lot_mod,
                        false,
                    )
                    &&& spec_move_shares(
                        user.collateral@,
                        filler.collateral@,
                        out.filled.lot@,
                        out.filled.lot@.len() as int,
                    ) == Some((out.user.collateral@, out.filler.collateral@))
                    &&& spec_move_shares(
                        user.liabilities@,
                        filler.liabilities@,
                        out.filled.bid@,
                        out.filled.bid@.len() as int,
                    ) == Some((out.user.liabilities@, out.filler.liabilities@))
                    &&& out.user.supply@ == user.supply@
                    &&& out.filler.supply@ == filler.supply@
                },
                Err(e) => if entries_overflow(auction.bid@, percent, bid_mod, true)
                    || entries_overflow(auction.lot@, percent, lot_mod, false) {
                    e == PoolError::MathOverflow
                } else if spec_move_shares(
                    user.collateral@,
                    filler.collateral@,
                    spec_filled_entries(auction.lot@, percent, lot_mod, false),
                    auction.lot@.len() as int,
                ) is None {
                    e == PoolError::InvalidLot
                } else {
                    e == PoolError::InvalidBid && spec_move_shares(
                        user.liabilities@,
                        filler.liabilities@,
                        spec_filled_entries(auction.bid@, percent, bid_mod, true),
                        auction.bid@.len() as int,
                    ) is None
                },
            }
        },
{
    let (filled, remaining) = match scale_auction(auction, now, percent) {
        Ok(scaled) => scaled,
        Err(e) => {
            return Err(e);
        },
    };
    proof {
        lemma_filled_entries_unique(
            auction.bid@,
            filled.bid@,
            remaining.bid@,
            percent,
            spec_bid_modifier(auction.block, now),
            true,
        );
        lemma_filled_entries_unique(
            auction.lot@,
            filled.lot@,
            remaining.lot@,
            percent,
            spec_lot_modifier(auction.block, now),
            false,
        );
    }
    let collateral = match move_shares(user.collateral, filler.collateral, &filled.lot) {
        Some(moved) => moved,
        None => {
            return Err(PoolError::InvalidLot);
        },
    };
    let liabilities = match move_shares(user.liabilities, filler.liabilities, &filled.bid) {
        Some(moved) => moved,
        None => {
            return Err(PoolError::InvalidBid);
        },
    };
    Ok(
        LiquidationFill {
            filled,
            remaining,
            user: Positions {
                liabilities: liabilities.0,
                collateral: collateral.0,
                supply: user.supply,
            },
            filler: Positions {
                liabilities: liabilities.1,
                collateral: collateral.1,
                supply: filler.supply,
            },
        },
    )
}

impl AuctionData {
    /// Whether nothing is left on either side.
    pub open spec fn spec_is_spent(&self) -> bool {
        &&& forall|i: int| 0 <= i < self.bid@.len() ==> (#[trigger] self.bid@[i]).amount == 0
        &&& forall|i: int| 0 <= i < self.lot@.len() ==> (#[trigger] self.lot@[i]).amount == 0
    }

    /// Whether nothing is left on either side, so that the auction can be deleted.
    pub fn is_spent(&self) -> (r: bool)
        ensures
            r == self.spec_is_spent(),
    {
        let mut i: usize = 0;
        while i < self.bid.len()
            invariant
                i <= self.bid@.len(),
                forall|j: int| 0 <= j < i ==> (#[trigger] self.bid@[j]).amount == 0,
            decreases self.bid@.len() - i,
        {
            if self.bid[i].amount != 0 {
                return false;
            }
            i += 1;
        }
        let mut k: usize = 0;
        while k < self.lot.len()
            invariant
                k <= self.lot@.len(),
                forall|j: int| 0 <= j < self.bid@.len() ==> (#[trigger] self.bid@[j]).amount == 0,
                forall|j: int| 0 <= j < k ==> (#[trigger] self.lot@[j]).amount == 0,
            decreases self.lot@.len() - k,
        {
            if self.lot[k].amount != 0 {
                return false;
            }
            k += 1;
        }
        true
    }
}

/// A fill on the ramp pays and receives the scaled amounts to within one unit: of an amount
/// that is not negative, the part consumed is the percentage of the amount and the filler's
/// part is the modifier's share of what is consumed, each off by less than one unit, up for
/// a bid and down for a lot; and the filler's part never exceeds what is consumed, nor that
/// the amount.
pub proof fn lemma_fill_within_one_unit(
    amount: i128,
    percent: u64,
    start: u32,
    now: u32,
    round_up: bool,
)
    requires
        amount >= 0,
        0 < percent <= 100,
        start <= now <= start + AUCTION_BLOCKS,
        spec_fill_amount(
            amount,
            percent,
            if round_up {
                spec_bid_modifier(start, now)
            } else {
                spec_lot_modifier(start, now)
            },
            round_up,
        ) is Some,
    ensures
        ({
            let modifier = if round_up {
                spec_bid_modifier(start, now)
            } else {
                spec_lot_modifier(start, now)
            };
            let filled = spec_fill_amount(amount, percent, modifier, round_up).unwrap();
            let part = filled.0 as int;
            let base = amount - filled.1;
            &&& 0 <= part <= base <= amount
            &&& round_up ==> amount * percent <= base * 100 < amount * percent + 100
            &&& round_up ==> base * modifier <= part * SCALAR_7 < base * modifier + SCALAR_7
            &&& !round_up ==> base * 100 <= amount * percent < base * 100 + 100
            &&& !round_up ==> part * SCALAR_7 <= base * modifier < part * SCALAR_7 + SCALAR_7
        }),
{
    let modifier = if round_up {
        spec_bid_modifier(start, now)
    } else {
        spec_lot_modifier(start, now)
    };
    assert(0 <= modifier <= SCALAR_7);
    let filled = spec_fill_amount(amount, percent, modifier, round_up).unwrap();
    let part = filled.0 as int;
    let base = amount - filled.1;
    let one = SCALAR_7 as int;
    let percent_7 = percent * PERCENT;
    if round_up {
        lemma_ceil_div_bounds(amount * percent_7, one);
        lemma_ceil_div_bounds(base * modifier, one);
        assert(amount * percent <= base * 100 < amount * percent + 100 && 0 <= base <= amount)
            by (nonlinear_arith)
            requires
                base * 10_000_000 - 10_000_000 < amount * (percent * 100_000) <= base * 10_000_000,
                amount >= 0,
                0 < percent <= 100,
        ;
        assert(0 <= part <= base) by (nonlinear_arith)
            requires
                part * 10_000_000 - 10_000_000 < base * modifier <= part * 10_000_000,
                base >= 0,
                0 <= modifier <= 10_000_000,
        ;
    } else {
        lemma_floor_div_bounds(amount * percent_7, one);
        lemma_floor_div_bounds(base * modifier, one);
        assert(base * 100 <= amount * percent < base * 100 + 100 && 0 <= base <= amount)
            by (nonlinear_arith)
            requires
                base * 10_000_000 <= amount * (percent * 100_000) < base * 10_000_000 + 10_000_000,
                amount >= 0,
                0 < percent <= 100,
        ;
        assert(0 <= part <= base) by (nonlinear_arith)
            requires
                part * 10_000_000 <= base * modifier < part * 10_000_000 + 10_000_000,
                base >= 0,
                0 <= modifier <= 10_000_000,
        ;
    }
}

/// A fill on the ramp stays within two units of the unrounded product of the amount, the
/// percentage and the modifier: a bid is that product or up to two units more, a lot that
/// product or up to two units less. So each is within one unit of the product rounded once.
pub proof fn lemma_fill_close_to_exact(
    amount: i128,
    percent: u64,
    start: u32,
    now: u32,
    round_up: bool,
)
    requires
        amount >= 0,
        0 < percent <= 100,
        start <= now <= start + AUCTION_BLOCKS,
        spec_fill_amount(
            amount,
            percent,
            if round_up {
                spec_bid_modifier(start, now)
            } else {
                spec_lot_modifier(start, now)
            },
            round_up,
        ) is Some,
    ensures
        ({
            let modifier = if round_up {
                spec_bid_modifier(start, now)
            } else {
                spec_lot_modifier(start, now)
            };
            let part = spec_fill_amount(amount, percent, modifier, round_up).unwrap().0 as int;
            let exact = amount * percent * modifier;
            &&& round_up ==> exact <= part * 1_000_000_000 < exact + 2_000_000_000
            &&& !round_up ==> part * 1_000_000_000 <= exact < part * 1_000_000_000
                + 2_000_000_000
        }),
{
    lemma_fill_within_one_unit(amount, percent, start, now, round_up);
    let modifier = if round_up {
        spec_bid_modifier(start, now)
    } else {
        spec_lot_modifier(start, now)
    };
    let filled = spec_fill_amount(amount, percent, modifier, round_up).unwrap();
    let part = filled.0 as int;
    let base = amount - filled.1;
    let scaled = amount * percent;
    let exact = scaled * modifier;
    if round_up {
        assert(exact <= part * 1_000_000_000 < exact + 2_000_000_000) by (nonlinear_arith)
            requires
                scaled <= base * 100 < scaled + 100,
                base * modifier <= part * 10_000_000 < base * modifier + 10_000_000,
                0 <= modifier <= 10_000_000,
                exact == scaled * modifier,
        ;
    } else {
        assert(part * 1_000_000_000 <= exact < part * 1_000_000_000 + 2_000_000_000)
            by (nonlinear_arith)
            requires
                base * 100 <= scaled < base * 100 + 100,
                part * 10_000_000 <= base * modifier < part * 10_000_000 + 10_000_000,
                0 <= modifier <= 10_000_000,
                exact == scaled * modifier,
        ;
    }
}

} // verus!
