use crate::auctions::{
    entries_filled, entries_overflow, lemma_filled_entries_unique, move_shares, scale_auction,
    spec_bid_modifier, spec_filled_entries, spec_lot_modifier, spec_move_shares, AuctionData,
    AuctionEntry, BACKSTOP_TOKEN,
};
use crate::backstop::PoolBalance;
use crate::errors::PoolError;
use crate::positions::{Positions, POSITION_SLOTS};
use crate::reserve::Reserve;
use vstd::prelude::*;

verus! {

/// The backstop tokens on a side of an auction that holds nothing else; nothing when the
/// side holds another asset, several entries or a negative amount.
pub open spec fn spec_backstop_amount(entries: Seq<AuctionEntry>) -> Option<i128> {
    if entries.len() == 1 && entries[0].asset == BACKSTOP_TOKEN && entries[0].amount >= 0 {
        Some(entries[0].amount)
    } else {
        None
    }
}

/// Reads the backstop tokens on a side of an auction that holds nothing else.
pub fn backstop_amount(entries: &Vec<AuctionEntry>) -> (r: Option<i128>)
    ensures
        r == spec_backstop_amount(entries@),
{
    if entries.len() == 1 && entries[0].asset == BACKSTOP_TOKEN && entries[0].amount >= 0 {
        Some(entries[0].amount)
    } else {
        None
    }
}

/// The reserves after the credit named by the first `n` entries has been paid out of them;
/// nothing when an entry names no reserve, is negative, or asks for more than the credit.
pub open spec fn spec_pay_credit(reserves: Seq<Reserve>, entries: Seq<AuctionEntry>, n: int) -> Option<
    Seq<Reserve>,
>
    decreases n,
{
    if n <= 0 {
        Some(reserves)
    } else {
        match spec_pay_credit(reserves, entries, n - 1) {
            None => None,
            Some(paid) => {
                let asset = entries[n - 1].asset as int;
                let amount = entries[n - 1].amount;
                if asset >= paid.len() || amount < 0 || paid[asset].backstop_credit < amount {
                    None
                } else {
                    Some(
                        paid.update(
                            asset,
                            Reserve {
                                backstop_credit: (paid[asset].backstop_credit - amount) as i128,
                                ..paid[asset]
                            },
                        ),
                    )
                }
            },
        }
    }
}

/// Once an entry cannot be paid, no longer list of entries can.
pub proof fn lemma_pay_stays_none(
    reserves: Seq<Reserve>,
    entries: Seq<AuctionEntry>,
    n: int,
    m: int,
)
    requires
        0 <= n <= m,
        spec_pay_credit(reserves, entries, n) is None,
    ensures
        spec_pay_credit(reserves, entries, m) is None,
    decreases m - n,
{
    if n < m {
        lemma_pay_stays_none(reserves, entries, n, m - 1);
    }
}

fn pay_credit(reserves: Vec<Reserve>, entries: &Vec<AuctionEntry>) -> (r: Option<Vec<Reserve>>)
    ensures
        match spec_pay_credit(reserves@, entries@, entries@.len() as int) {
            Some(paid) => r is Some && r.unwrap()@ == paid,
            None => r is None,
        },
{
    let mut cur = reserves;
    let mut k: usize = 0;
    while k < entries.len()
        invariant
            k <= entries@.len(),
            spec_pay_credit(reserves@, entries@, k as int) == Some(cur@),
        decreases entries@.len() - k,
    {
        let entry = entries[k];
        proof {
            if spec_pay_credit(reserves@, entries@, k as int + 1) is None {
                lemma_pay_stays_none(reserves@, entries@, k as int + 1, entries@.len() as int);
            }
        }
        if entry.asset as usize >= cur.len() || entry.amount < 0 {
            return None;
        }
        let i = entry.asset as usize;
        let mut reserve = cur[i];
        if reserve.backstop_credit < entry.amount {
            return None;
        }
        reserve.backstop_credit = reserve.backstop_credit - entry.amount;
        cur.set(i, reserve);
        k += 1;
    }
    Some(cur)
}

/// What the fill of a bad-debt auction leaves behind.
pub struct BadDebtFill {
    /// What the filler took over: debt shares as the bid, backstop tokens as the lot.
    pub filled: AuctionData,
    /// What stays in the auction.
    pub remaining: AuctionData,
    /// The positions of the backstop.
    pub backstop: Positions,
    /// The positions of the filler.
    pub filler: Positions,
    /// The backstop of the pool after the lot has been drawn.
    pub pool: PoolBalance,
    /// The backstop tokens that go to the filler.
    pub tokens_out: i128,
}

/// Fills `percent` percent of a bad-debt auction at block `now`: the filler takes over the
/// scaled bid of the backstop's debt shares and receives the scaled lot of backstop tokens,
/// which are drawn from the backstop of the pool.
///
/// ### Errors
/// A percentage out of range is a bad request; a lot that is not an amount of backstop
/// tokens that the backstop holds is an invalid lot; a bid that the backstop's debt does
/// not cover is an invalid bid.
pub fn fill_bad_debt_auction(
    auction: &AuctionData,
    backstop: Positions,
    filler: Positions,
    pool: PoolBalance,
    now: u32,
    percent: u64,
) -> (r: Result<BadDebtFill, PoolError>)
    requires
        backstop.liabilities@.len() == POSITION_SLOTS,
        filler.liabilities@.len() == POSITION_SLOTS,
    ensures
        percent == 0 || percent > 100 ==> r is Err && r->Err_0 == PoolError::BadRequest,
        0 < percent <= 100 ==> {
            let bid_mod = spec_bid_modifier(auction.block, now);
            let lot_mod = spec_lot_modifier(auction.block, now);
            match r {
                Ok(out) => {
                    &&& out.filled.block == auction.block
                    &&& out.remaining.block == auction.block
                    &&& entries_filled(
                        auction.bid@,
                        out.filled.bid@,
                        out.remaining.bid@,
                        percent,
                        bid_mod,
                        true,
                    )
                    &&& entries_filled(
                        auction.lot@,
                        out.filled.lot@,
                        out.remaining.lot@,
                        percent,
                        lot_mod,
                        false,
                    )
                    &&& spec_backstop_amount(out.filled.lot@) == Some(out.tokens_out)
                    &&& out.tokens_out <= pool.tokens
                    &&& out.pool == (PoolBalance {
                        tokens: (pool.tokens - out.tokens_out) as i128,
                        ..pool
                    })
                    &&& spec_move_shares(
                        backstop.liabilities@,
                        filler.liabilities@,
                        out.filled.bid@,
                        out.filled.bid@.len() as int,
                    ) == Some((out.backstop.liabilities@, out.filler.liabilities@))
                    &&& out.backstop.collateral@ == backstop.collateral@
                    &&& out.backstop.supply@ == backstop.supply@
                    &&& out.filler.collateral@ == filler.collateral@
                    &&& out.filler.supply@ == filler.supply@
                },
                Err(e) => if entries_overflow(auction.bid@, percent, bid_mod, true)
                    || entries_overflow(auction.lot@, percent, lot_mod, false) {
                    e == PoolError::MathOverflow
                } else {
                    let lot = spec_backstop_amount(
                        spec_filled_entries(auction.lot@, percent, lot_mod, false),
                    );
                    if lot is None || lot.unwrap() > pool.tokens {
                        e == PoolError::InvalidLot
                    } else {
                        e == PoolError::InvalidBid && spec_move_shares(
                            backstop.liabilities@,
                            filler.liabilities@,
                            spec_filled_entries(auction.bid@, percent, bid_mod, true),
                            auction.bid@.len() as int,
                        ) is None
                    }
                },
            }
        },
{
    let (filled, remaining) = match scale_auction(auction, now, percent) {
        Ok(scaled) => scaled,
        Err(e) => {
            return Err(e);
        },
    };
    proof {
        lemma_filled_entries_unique(
            auction.bid@,
            filled.bid@,
            remaining.bid@,
            percent,
            spec_bid_modifier(auction.block, now),
            true,
        );
        lemma_filled_entries_unique(
            auction.lot@,
            filled.lot@,
            remaining.lot@,
            percent,
            spec_lot_modifier(auction.block, now),
            false,
        );
    }
    let tokens_out = match backstop_amount(&filled.lot) {
        Some(amount) => amount,
        None => {
            return Err(PoolError::InvalidLot);
        },
    };
    if tokens_out > pool.tokens {
        return Err(PoolError::InvalidLot);
    }
    let liabilities = match move_shares(backstop.liabilities, filler.liabilities, &filled.bid) {
        Some(moved) => moved,
        None => {
            return Err(PoolError::InvalidBid);
        },
    };
    Ok(
        BadDebtFill {
            filled,
            remaining,
            backstop: Positions {
                liabilities: liabilities.0,
                collateral: backstop.collateral,
                supply: backstop.supply,
            },
            filler: Positions {
                liabilities: liabilities.1,
                collateral: filler.collateral,
                supply: filler.supply,
            },
            pool: PoolBalance {
                tokens: pool.tokens - tokens_out,
                shares: pool.shares,
                q4w: pool.q4w,
            },
            tokens_out,
        },
    )
}

/// What the fill of an interest auction leaves behind.
pub struct InterestFill {
    /// What the filler took over: backstop tokens as the bid, credit as the lot.
    pub filled: AuctionData,
    /// What stays in the auction.
    pub remaining: AuctionData,
    /// The reserves after the lot has been paid out of the backstop's credit.
    pub reserves: Vec<Reserve>,
    /// The backstop tokens that the filler pays and the backstop receives as a donation.
    pub donation: i128,
}

/// Fills `percent` percent of an interest auction at block `now`: the filler pays the
/// scaled bid in backstop tokens, which go to the backstop, and receives the scaled lot out
/// of the credit that the reserves hold for the backstop.
///
/// ### Errors
/// A percentage out of range is a bad request; a bid that is not an amount of backstop
/// tokens is an invalid bid; a lot that the credit does not cover is an invalid lot.
pub fn fill_interest_auction(
    auction: &AuctionData,
    reserves: Vec<Reserve>,
    now: u32,
    percent: u64,
) -> (r: Result<InterestFill, PoolError>)
    ensures
        percent == 0 || percent > 100 ==> r is Err && r->Err_0 == PoolError::BadRequest,
        0 < percent <= 100 ==> {
            let bid_mod = spec_bid_modifier(auction.block, now);
            let lot_mod = spec_lot_modifier(auction.block, now);
            match r {
                Ok(out) => {
                    &&& out.filled.block == auction.block
                    &&& out.remaining.block == auction.block
                    &&& entries_filled(
                        auction.bid@,
                        out.filled.bid@,
                        out.remaining.bid@,
                        percent,
                        bid_mod,
                        true,
                    )
                    &&& entries_filled(
                        auction.lot@,
                        out.filled.lot@,
                        out.remaining.lot@,
                        percent,
                        lot_mod,
                        false,
                    )
                    &&& spec_backstop_amount(out.filled.bid@) == Some(out.donation)
                    &&& spec_pay_credit(
                        reserves@,
                        out.filled.lot@,
                        out.filled.lot@.len() as int,
                    ) == Some(out.reserves@)
                },
                Err(e) => if entries_overflow(auction.bid@, percent, bid_mod, true)
                    || entries_overflow(auction.lot@, percent, lot_mod, false) {
                    e == PoolError::MathOverflow
                } else if spec_backstop_amount(
                    spec_filled_entries(auction.bid@, percent, bid_mod, true),
                ) is None {
                    e == PoolError::InvalidBid
                } else {
                    e == PoolError::InvalidLot && spec_pay_credit(
                        reserves@,
                        spec_filled_entries(auction.lot@, percent, lot_mod, false),
                        auction.lot@.len() as int,
                    ) is None
                },
            }
        },
{
    let (filled, remaining) = match scale_auction(auction, now, percent) {
        Ok(scaled) => scaled,
        Err(e) => {
            return Err(e);
        },
    };
    proof {
        lemma_filled_entries_unique(
            auction.bid@,
            filled.bid@,
            remaining.bid@,
            percent,
            spec_bid_modifier(auction.block, now),
            true,
        );
        lemma_filled_entries_unique(
            auction.lot@,
            filled.lot@,
            remaining.lot@,
            percent,
            spec_lot_modifier(auction.block, now),
            false,
        );
    }
    let donation = match backstop_amount(&filled.bid) {
        Some(amount) => amount,
        None => {
            return Err(PoolError::InvalidBid);
        },
    };
    let paid = match pay_credit(reserves, &filled.lot) {
        Some(paid) => paid,
        None => {
            return Err(PoolError::InvalidLot);
        },
    };
    Ok(InterestFill { filled, remaining, reserves: paid, donation })
}

} // verus!
