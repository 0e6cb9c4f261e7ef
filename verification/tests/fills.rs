use lending_pool::auctions::{AuctionData, AuctionEntry, BACKSTOP_TOKEN};
use lending_pool::backstop::PoolBalance;
use lending_pool::errors::PoolError;
use lending_pool::fills::{backstop_amount, fill_bad_debt_auction, fill_interest_auction};
use lending_pool::positions::Positions;
use lending_pool::reserve::Reserve;

fn reserve(index: u32, backstop_credit: i128) -> Reserve {
    Reserve {
        index,
        decimals: 7,
        scalar: 1_0000000,
        c_factor: 0_7500000,
        l_factor: 0_7500000,
        util: 0_5000000,
        max_util: 0_9500000,
        r_one: 0_0500000,
        r_two: 0_5000000,
        r_three: 1_5000000,
        reactivity: 100,
        b_rate: 1_000_000_000,
        d_rate: 1_000_000_000,
        b_supply: 600_0000000,
        d_supply: 50_0000000,
        backstop_credit,
        ir_mod: 1_0000000,
        last_time: 0,
    }
}

fn entry(asset: u32, amount: i128) -> AuctionEntry {
    AuctionEntry { asset, amount }
}

fn bad_debt_auction() -> AuctionData {
    AuctionData {
        bid: vec![entry(0, 10_0000000), entry(1, 2_5000000)],
        lot: vec![entry(BACKSTOP_TOKEN, 95_2000000)],
        block: 51,
    }
}

fn indebted_backstop() -> Positions {
    let mut backstop = Positions::new();
    backstop.set_liabilities(0, 10_0000000);
    backstop.set_liabilities(1, 2_5000000);
    backstop
}

#[test]
fn bad_debt_fill_moves_debt_and_draws_the_lot() {
    let pool = PoolBalance { tokens: 200_0000000, shares: 150_0000000, q4w: 10 };
    // block 51 + 100: full bid, half of the lot
    let done =
        fill_bad_debt_auction(&bad_debt_auction(), indebted_backstop(), Positions::new(), pool, 151, 100)
            .unwrap();
    assert_eq!(done.tokens_out, 47_6000000);
    assert_eq!(done.pool, PoolBalance { tokens: 152_4000000, shares: 150_0000000, q4w: 10 });
    assert_eq!(done.backstop.get_liabilities(0), 0);
    assert_eq!(done.backstop.get_liabilities(1), 0);
    assert_eq!(done.filler.get_liabilities(0), 10_0000000);
    assert_eq!(done.filler.get_liabilities(1), 2_5000000);
    assert!(done.remaining.is_spent());
}

#[test]
fn bad_debt_fill_in_part() {
    let pool = PoolBalance { tokens: 200_0000000, shares: 150_0000000, q4w: 10 };
    // block 51 + 300: half of the bid, full lot; a fifth of the auction
    let done =
        fill_bad_debt_auction(&bad_debt_auction(), indebted_backstop(), Positions::new(), pool, 351, 20)
            .unwrap();
    assert_eq!(done.filled.bid, vec![entry(0, 1_0000000), entry(1, 2500000)]);
    assert_eq!(done.remaining.bid, vec![entry(0, 8_0000000), entry(1, 2_0000000)]);
    assert_eq!(done.tokens_out, 19_0400000);
    assert_eq!(done.remaining.lot, vec![entry(BACKSTOP_TOKEN, 76_1600000)]);
    assert_eq!(done.backstop.get_liabilities(0), 9_0000000);
    assert_eq!(done.filler.get_liabilities(1), 2500000);
}

#[test]
fn bad_debt_fill_needs_tokens_and_debt() {
    let poor = PoolBalance { tokens: 95_1999999, shares: 1, q4w: 0 };
    let result =
        fill_bad_debt_auction(&bad_debt_auction(), indebted_backstop(), Positions::new(), poor, 251, 100);
    assert_eq!(result.err(), Some(PoolError::InvalidLot));
    let rich = PoolBalance { tokens: 95_2000000, shares: 1, q4w: 0 };
    let result =
        fill_bad_debt_auction(&bad_debt_auction(), Positions::new(), Positions::new(), rich, 251, 100);
    assert_eq!(result.err(), Some(PoolError::InvalidBid));
    let result =
        fill_bad_debt_auction(&bad_debt_auction(), indebted_backstop(), Positions::new(), rich, 251, 101);
    assert_eq!(result.err(), Some(PoolError::BadRequest));
    let odd_lot = AuctionData { bid: Vec::new(), lot: vec![entry(3, 1)], block: 0 };
    let result =
        fill_bad_debt_auction(&odd_lot, indebted_backstop(), Positions::new(), rich, 251, 100);
    assert_eq!(result.err(), Some(PoolError::InvalidLot));
}

#[test]
fn interest_fill_pays_the_credit_out() {
    let reserves = vec![reserve(0, 100_0000000), reserve(1, 25_0000000)];
    let auction = AuctionData {
        bid: vec![entry(BACKSTOP_TOKEN, 336_0000000)],
        lot: vec![entry(0, 100_0000000), entry(1, 25_0000000)],
        block: 51,
    };
    // block 51 + 250: three quarters of the bid, full lot
    let done = fill_interest_auction(&auction, reserves.clone(), 301, 100).unwrap();
    assert_eq!(done.donation, 252_0000000);
    assert_eq!(done.reserves[0].backstop_credit, 0);
    assert_eq!(done.reserves[1].backstop_credit, 0);
    assert_eq!(done.reserves[0].b_supply, 600_0000000);
    assert!(done.remaining.is_spent());

    // block 51 + 50: full bid, a quarter of the lot
    let early = fill_interest_auction(&auction, reserves, 101, 100).unwrap();
    assert_eq!(early.donation, 336_0000000);
    assert_eq!(early.filled.lot, vec![entry(0, 25_0000000), entry(1, 6_2500000)]);
    assert_eq!(early.reserves[0].backstop_credit, 75_0000000);
    assert_eq!(early.reserves[1].backstop_credit, 18_7500000);
}

#[test]
fn interest_fill_needs_credit_and_a_token_bid() {
    let auction = AuctionData {
        bid: vec![entry(BACKSTOP_TOKEN, 10)],
        lot: vec![entry(0, 100_0000000)],
        block: 0,
    };
    let result = fill_interest_auction(&auction, vec![reserve(0, 99_9999999)], 200, 100);
    assert_eq!(result.err(), Some(PoolError::InvalidLot));
    let result = fill_interest_auction(&auction, Vec::new(), 200, 100);
    assert_eq!(result.err(), Some(PoolError::InvalidLot));
    let odd_bid = AuctionData { bid: vec![entry(0, 10)], lot: Vec::new(), block: 0 };
    let result = fill_interest_auction(&odd_bid, vec![reserve(0, 5)], 200, 100);
    assert_eq!(result.err(), Some(PoolError::InvalidBid));
    let result = fill_interest_auction(&auction, vec![reserve(0, 100_0000000)], 200, 0);
    assert_eq!(result.err(), Some(PoolError::BadRequest));
}

#[test]
fn backstop_amount_of_a_side() {
    assert_eq!(backstop_amount(&vec![entry(BACKSTOP_TOKEN, 7)]), Some(7));
    assert_eq!(backstop_amount(&vec![entry(BACKSTOP_TOKEN, -7)]), None);
    assert_eq!(backstop_amount(&vec![entry(1, 7)]), None);
    assert_eq!(backstop_amount(&Vec::new()), None);
    assert_eq!(backstop_amount(&vec![entry(BACKSTOP_TOKEN, 7), entry(BACKSTOP_TOKEN, 7)]), None);
}
