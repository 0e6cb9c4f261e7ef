use lending_pool::address::Address;
use lending_pool::auctions::{
    auction_modifiers, fill_user_liquidation, scale_auction, AuctionData, AuctionEntry,
    AuctionType,
};
use lending_pool::pool::PoolConfig;
use lending_pool::positions::Positions;
use lending_pool::reserve::Reserve;
use lending_pool::submit::{absorb_fill, check_health, finish_submit, liquidation_ends, Submission};
use lending_pool::actions::{RequestType, UserReserve};
use lending_pool::emissions::{
    accrue_emissions, claim, side_of, update_index, update_user, ReserveEmissionsData, Side,
    UserEmissionData,
};
use lending_pool::errors::PoolError;
use lending_pool::oracle::{
    get_token_amount_in_usdc_value, oracle_query, price_is_fresh, OracleQuery, PriceData,
};

fn entry(asset: u32, amount: i128) -> AuctionEntry {
    AuctionEntry { asset, amount }
}

fn reserve(index: u32) -> Reserve {
    Reserve {
        index,
        decimals: 7,
        scalar: 1_0000000,
        c_factor: 0_7500000,
        l_factor: 0_7500000,
        util: 0_5000000,
        max_util: 0_9500000,
        r_one: 0_0500000,
        r_two: 0_5000000,
        r_three: 1_5000000,
        reactivity: 100,
        b_rate: 1_000_000_000,
        d_rate: 1_000_000_000,
        b_supply: 600_0000000,
        d_supply: 50_0000000,
        backstop_credit: 0,
        ir_mod: 1_0000000,
        last_time: 0,
    }
}

#[test]
fn underwater_liquidation() {
    // 100 of asset 0 as collateral, 50 of asset 1 borrowed, and the price of asset 1 doubled
    let reserves = vec![reserve(0), reserve(1)];
    let prices: Vec<i128> = vec![1_0000000, 2_0000000];
    let mut user = Positions::new();
    user.set_collateral(0, 100_0000000);
    user.set_liabilities(1, 50_0000000);
    assert_eq!(check_health(&reserves, &prices, 7, &user), Err(PoolError::InvalidHf));
    assert!(!liquidation_ends(true, &reserves, &prices, 7, &user));

    let liquidation =
        AuctionData { bid: vec![entry(1, 40_0000000)], lot: vec![entry(0, 50_0000000)], block: 500 };
    let mut filler = Positions::new();
    filler.set_collateral(1, 400_0000000);

    let done = fill_user_liquidation(&liquidation, user, filler, 700, 100).unwrap();
    assert_eq!(done.filled.bid, vec![entry(1, 40_0000000)]);
    assert_eq!(done.filled.lot, vec![entry(0, 50_0000000)]);
    assert!(done.remaining.is_spent());
    assert_eq!(done.user.get_collateral(0), 50_0000000);
    assert_eq!(done.user.get_liabilities(1), 10_0000000);
    assert_eq!(done.filler.get_collateral(0), 50_0000000);
    assert_eq!(done.filler.get_collateral(1), 400_0000000);
    assert_eq!(done.filler.get_liabilities(1), 40_0000000);
    assert_eq!(check_health(&reserves, &prices, 7, &done.user), Ok(()));
    assert!(liquidation_ends(true, &reserves, &prices, 7, &done.user));
    assert!(!liquidation_ends(false, &reserves, &prices, 7, &done.user));

    // the filler took on debt and must be healthy
    let config = PoolConfig { oracle: Address { id: 1 }, bstop_rate: 0, status: 2, max_positions: 4 };
    let state = absorb_fill(Submission::start(reserves, Positions::new()), done.filler);
    assert!(state.check_health);
    assert_eq!(finish_submit(&config, &state, &prices, 7), Ok(()));
}

#[test]
fn early_partial_liquidation() {
    let mut user = Positions::new();
    user.set_collateral(0, 100_0000000);
    user.set_liabilities(1, 50_0000000);
    let liquidation =
        AuctionData { bid: vec![entry(1, 40_0000000)], lot: vec![entry(0, 50_0000000)], block: 500 };
    // block 550: a quarter of the lot for the full bid, and half of the auction filled
    let done = fill_user_liquidation(&liquidation, user, Positions::new(), 550, 50).unwrap();
    assert_eq!(done.filled.bid, vec![entry(1, 20_0000000)]);
    assert_eq!(done.filled.lot, vec![entry(0, 6_2500000)]);
    assert_eq!(done.remaining.bid, vec![entry(1, 20_0000000)]);
    assert_eq!(done.remaining.lot, vec![entry(0, 25_0000000)]);
    assert_eq!(done.remaining.block, 500);
    assert!(!done.remaining.is_spent());
    assert_eq!(done.user.get_collateral(0), 93_7500000);
    assert_eq!(done.user.get_liabilities(1), 30_0000000);
    assert_eq!(done.filler.get_collateral(0), 6_2500000);
    assert_eq!(done.filler.get_liabilities(1), 20_0000000);
}

#[test]
fn liquidation_beyond_the_positions_is_refused() {
    let mut user = Positions::new();
    user.set_collateral(0, 10);
    user.set_liabilities(1, 10);
    let big_lot = AuctionData { bid: vec![entry(1, 5)], lot: vec![entry(0, 11)], block: 0 };
    let result = fill_user_liquidation(&big_lot, user.duplicate(), Positions::new(), 200, 100);
    assert_eq!(result.err(), Some(PoolError::InvalidLot));
    let big_bid = AuctionData { bid: vec![entry(1, 11)], lot: vec![entry(0, 5)], block: 0 };
    let result = fill_user_liquidation(&big_bid, user.duplicate(), Positions::new(), 200, 100);
    assert_eq!(result.err(), Some(PoolError::InvalidBid));
    let no_reserve = AuctionData { bid: Vec::new(), lot: vec![entry(64, 0)], block: 0 };
    let result = fill_user_liquidation(&no_reserve, user.duplicate(), Positions::new(), 200, 100);
    assert_eq!(result.err(), Some(PoolError::InvalidLot));
    let result = fill_user_liquidation(&big_bid, user, Positions::new(), 200, 0);
    assert_eq!(result.err(), Some(PoolError::BadRequest));
}

fn auction() -> AuctionData {
    AuctionData {
        bid: vec![entry(1, 100_0000000), entry(2, 1)],
        lot: vec![entry(3, 30_0000000), entry(4, 3)],
        block: 1000,
    }
}

#[test]
fn auction_type_numbers() {
    assert_eq!(AuctionType::from_u32(0), Some(AuctionType::UserLiquidation));
    assert_eq!(AuctionType::from_u32(1), Some(AuctionType::BadDebtAuction));
    assert_eq!(AuctionType::from_u32(2), Some(AuctionType::InterestAuction));
    assert_eq!(AuctionType::from_u32(3), None);
}

#[test]
fn modifiers_ramp_over_four_hundred_blocks() {
    assert_eq!(auction_modifiers(1000, 1000), (1_0000000, 0));
    assert_eq!(auction_modifiers(1000, 1001), (1_0000000, 0_0050000));
    assert_eq!(auction_modifiers(1000, 1100), (1_0000000, 0_5000000));
    assert_eq!(auction_modifiers(1000, 1200), (1_0000000, 1_0000000));
    assert_eq!(auction_modifiers(1000, 1201), (0_9950000, 1_0000000));
    assert_eq!(auction_modifiers(1000, 1300), (0_5000000, 1_0000000));
    assert_eq!(auction_modifiers(1000, 1399), (0_0050000, 1_0000000));
    assert_eq!(auction_modifiers(1000, 1400), (0, 1_0000000));
    assert_eq!(auction_modifiers(1000, 5000), (0, 1_0000000));
    assert_eq!(auction_modifiers(1000, 999), (1_0000000, 0));
}

#[test]
fn full_fill_at_the_middle_takes_everything() {
    let (fill, rest) = scale_auction(&auction(), 1200, 100).unwrap();
    assert_eq!(fill.bid, auction().bid);
    assert_eq!(fill.lot, auction().lot);
    assert_eq!(fill.block, 1000);
    assert_eq!(rest.bid, vec![entry(1, 0), entry(2, 0)]);
    assert_eq!(rest.lot, vec![entry(3, 0), entry(4, 0)]);
    assert_eq!(rest.block, 1000);
}

#[test]
fn partial_fill_leaves_the_rest_in_the_auction() {
    // block 1100: full bid, half of the lot
    let (fill, rest) = scale_auction(&auction(), 1100, 25).unwrap();
    // the bid rounds up, the lot rounds down
    assert_eq!(fill.bid, vec![entry(1, 25_0000000), entry(2, 1)]);
    assert_eq!(rest.bid, vec![entry(1, 75_0000000), entry(2, 0)]);
    assert_eq!(fill.lot, vec![entry(3, 3_7500000), entry(4, 0)]);
    assert_eq!(rest.lot, vec![entry(3, 22_5000000), entry(4, 3)]);
    assert_eq!(rest.block, 1000);
}

#[test]
fn late_fill_pays_less() {
    // block 1300: half of the bid, full lot
    let (fill, rest) = scale_auction(&auction(), 1300, 50).unwrap();
    assert_eq!(fill.bid, vec![entry(1, 25_0000000), entry(2, 1)]);
    assert_eq!(rest.bid, vec![entry(1, 50_0000000), entry(2, 0)]);
    assert_eq!(fill.lot, vec![entry(3, 15_0000000), entry(4, 1)]);
    assert_eq!(rest.lot, vec![entry(3, 15_0000000), entry(4, 2)]);
}

#[test]
fn fill_is_within_one_unit_of_the_scaled_amounts() {
    let data = AuctionData { bid: vec![entry(1, 1_234_567)], lot: vec![entry(2, 7_654_321)], block: 0 };
    let mut block = 0;
    while block <= 400 {
        let (bid_mod, lot_mod) = auction_modifiers(0, block);
        let mut percent = 1;
        while percent <= 100 {
            let (fill, rest) = scale_auction(&data, block, percent).unwrap();
            let bid_base = 1_234_567 - rest.bid[0].amount;
            let lot_base = 7_654_321 - rest.lot[0].amount;
            assert!(bid_base * 100 >= 1_234_567 * (percent as i128));
            assert!(bid_base * 100 < 1_234_567 * (percent as i128) + 100);
            assert!(lot_base * 100 <= 7_654_321 * (percent as i128));
            assert!(lot_base * 100 > 7_654_321 * (percent as i128) - 100);
            let paid = fill.bid[0].amount;
            let received = fill.lot[0].amount;
            assert!(paid * 1_0000000 >= bid_base * bid_mod);
            assert!(paid * 1_0000000 < bid_base * bid_mod + 1_0000000);
            assert!(received * 1_0000000 <= lot_base * lot_mod);
            assert!(received * 1_0000000 > lot_base * lot_mod - 1_0000000);
            percent += 9;
        }
        block += 25;
    }
}

#[test]
fn fill_percent_must_be_in_range() {
    assert_eq!(scale_auction(&auction(), 1100, 0).err(), Some(PoolError::BadRequest));
    assert_eq!(scale_auction(&auction(), 1100, 101).err(), Some(PoolError::BadRequest));
}

#[test]
fn fill_overflow_is_an_error() {
    let data = AuctionData { bid: vec![entry(1, i128::MAX)], lot: Vec::new(), block: 0 };
    assert_eq!(scale_auction(&data, 100, 50).err(), Some(PoolError::MathOverflow));
}

#[test]
fn emission_index_accrues_per_share() {
    let data = ReserveEmissionsData { index: 100, last_time: 1000, eps: 0_1000000 };
    // 0.1 per second over 500 seconds on 200 shares: 50 / 200 = 0.25 a share
    let next = update_index(&data, 200_0000000, 1500).unwrap();
    assert_eq!(next, ReserveEmissionsData { index: 100 + 0_2500000, last_time: 1500, eps: 0_1000000 });
    // rounds down
    let odd = update_index(&data, 3, 1001).unwrap();
    assert_eq!(odd.index, 100 + 3_333_333_333_333);
    assert_eq!(update_index(&data, 200_0000000, 1000), Some(data));
    assert_eq!(update_index(&data, 200_0000000, 900), Some(data));
    let idle = update_index(&data, 0, 1500).unwrap();
    assert_eq!(idle, ReserveEmissionsData { index: 100, last_time: 1500, eps: 0_1000000 });
    let huge = ReserveEmissionsData { index: 0, last_time: 0, eps: i128::MAX };
    assert_eq!(update_index(&huge, 1, 2), None);
}

#[test]
fn user_emissions_accrue_on_the_shares_held_before() {
    let user = UserEmissionData { accrued: 7, index: 1_0000000 };
    // 30 shares earn the growth of the index: 30 * 0.25
    let next = update_user(&user, 1_2500000, 30).unwrap();
    assert_eq!(next, UserEmissionData { accrued: 7 + 7, index: 1_2500000 });
    let (claimed, left) = claim(&next);
    assert_eq!(claimed, 14);
    assert_eq!(left, UserEmissionData { accrued: 0, index: 1_2500000 });
    let far = UserEmissionData { accrued: 0, index: i128::MIN };
    assert_eq!(update_user(&far, 1, 1), None);
}

#[test]
fn emissions_accrue_on_the_side_a_request_touches() {
    assert_eq!(side_of(RequestType::Supply), Some(Side::Supply));
    assert_eq!(side_of(RequestType::WithdrawCollateral), Some(Side::Supply));
    assert_eq!(side_of(RequestType::Borrow), Some(Side::Borrow));
    assert_eq!(side_of(RequestType::Repay), Some(Side::Borrow));
    assert_eq!(side_of(RequestType::FillBadDebtAuction), None);

    // 600 collateral shares and 50 debt shares in the reserve
    let pool = reserve(0);
    let user = UserReserve { supply: 20_0000000, collateral: 40_0000000, liabilities: 5_0000000 };
    let data = ReserveEmissionsData { index: 0, last_time: 0, eps: 0_3000000 };
    let earned = UserEmissionData { accrued: 1, index: 0 };
    // 0.3 a second over 1000 seconds: 300 over 600 shares is 0.5 a share
    let (next, after) = accrue_emissions(Side::Supply, &pool, user, &data, &earned, 1000).unwrap();
    assert_eq!(next, ReserveEmissionsData { index: 0_5000000, last_time: 1000, eps: 0_3000000 });
    assert_eq!(after, UserEmissionData { accrued: 1 + 30_0000000, index: 0_5000000 });
    // 300 over 50 shares is 6 a share
    let (next, after) = accrue_emissions(Side::Borrow, &pool, user, &data, &earned, 1000).unwrap();
    assert_eq!(next.index, 6_0000000);
    assert_eq!(after, UserEmissionData { accrued: 1 + 30_0000000, index: 6_0000000 });
}

#[test]
fn oracle_query_by_symbol_or_address() {
    let address = Address { id: 42 };
    let symbols = [
        "BTC", "ETH", "USDT", "XRP", "SOL", "USDC", "ADA", "AVAX", "DOT", "MATIC", "LINK", "DAI",
        "ATOM", "UNI", "EURC",
    ];
    for symbol in symbols {
        match oracle_query(&symbol.to_string(), address) {
            OracleQuery::OffChain(found) => assert_eq!(found, symbol),
            OracleQuery::PubNet(_) => panic!("quoted off chain"),
        }
    }
    match oracle_query(&"native".to_string(), address) {
        OracleQuery::OffChain(found) => assert_eq!(found, "XLM"),
        OracleQuery::PubNet(_) => panic!("quoted off chain"),
    }
    for symbol in ["XLM", "btc", "", "BLND"] {
        match oracle_query(&symbol.to_string(), address) {
            OracleQuery::OffChain(_) => panic!("not quoted off chain"),
            OracleQuery::PubNet(found) => assert_eq!(found, address),
        }
    }
}

#[test]
fn price_goes_stale() {
    let price = PriceData { price: 1, timestamp: 1000 };
    assert!(price_is_fresh(&price, 1000, 0));
    assert!(price_is_fresh(&price, 1300, 300));
    assert!(!price_is_fresh(&price, 1301, 300));
    assert!(price_is_fresh(&price, 999, 0));
    assert!(price_is_fresh(&price, u64::MAX, u64::MAX));
}

#[test]
fn token_value_rounds_up() {
    let price = PriceData { price: 123_456_789_012_345, timestamp: 5 };
    // 1.23456789012345 * 3 = 3.70370367037035
    assert_eq!(get_token_amount_in_usdc_value(Some(price), 3), Some(4));
    assert_eq!(
        get_token_amount_in_usdc_value(Some(price), 100_000_000_000_000),
        Some(123_456_789_012_345)
    );
    assert_eq!(get_token_amount_in_usdc_value(None, 1_0000000), Some(0));
    assert_eq!(get_token_amount_in_usdc_value(Some(price), i128::MAX), None);
}
