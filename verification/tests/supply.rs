use lending_pool::actions::Request;
use lending_pool::address::Address;
use lending_pool::bad_debt::transfer_bad_debt_to_backstop;
use lending_pool::errors::PoolError;
use lending_pool::health_factor::PositionData;
use lending_pool::pool::PoolConfig;
use lending_pool::positions::Positions;
use lending_pool::reserve::Reserve;
use lending_pool::submit::{submit_step, Submission};
use lending_pool::supply::{execute_supply, execute_update_collateral};
use lending_pool::validator::{require_nonnegative, validate_hf};

fn create_reserve(index: u32) -> Reserve {
    Reserve {
        index,
        decimals: 7,
        scalar: 1_0000000,
        c_factor: 0_7500000,
        l_factor: 0_7500000,
        util: 0_5000000,
        max_util: 0_9500000,
        r_one: 0_0500000,
        r_two: 0_5000000,
        r_three: 1_5000000,
        reactivity: 100,
        b_rate: 1_000_000_000,
        d_rate: 1_000_000_000,
        b_supply: 0,
        d_supply: 0,
        backstop_credit: 0,
        ir_mod: 1_0000000,
        last_time: 0,
    }
}

fn pool_config(status: u32) -> PoolConfig {
    PoolConfig { oracle: Address { id: 1 }, bstop_rate: 0, status, max_positions: 6 }
}

fn borrow(state: Submission, asset: u32, amount: i128) -> Submission {
    submit_step(state, 0, Request { request_type: 4, asset, amount }).unwrap()
}

// frodo supplies 500 of asset 1, samwise supplies 100 of asset 0 and borrows 50 of asset 1
fn samwise_borrows() -> (Vec<Reserve>, Positions) {
    let config = pool_config(0);
    let prices: Vec<i128> = vec![1_0000000, 1_0000000];
    let reserves = vec![create_reserve(0), create_reserve(1)];
    let frodo = execute_supply(&config, reserves, Positions::new(), 1, 500_0000000, false, &prices, 7)
        .unwrap();
    let samwise = execute_supply(
        &config,
        frodo.state.reserves,
        Positions::new(),
        0,
        100_0000000,
        false,
        &prices,
        7,
    )
    .unwrap();
    let borrowed = borrow(samwise.state, 1, 50_0000000);
    assert_eq!(borrowed.tokens_in[0], 100_0000000);
    assert_eq!(borrowed.tokens_out[1], 50_0000000);
    (borrowed.reserves, borrowed.positions)
}

#[test]
fn test_supply() {
    let config = pool_config(0);
    let prices: Vec<i128> = vec![1_0000000, 1_0000000];
    let reserves = vec![create_reserve(0), create_reserve(1)];

    let samwise =
        execute_supply(&config, reserves, Positions::new(), 0, 100_0000000, false, &prices, 7)
            .unwrap();
    let frodo = execute_supply(
        &config,
        samwise.state.reserves.clone(),
        Positions::new(),
        1,
        500_0000000,
        false,
        &prices,
        7,
    )
    .unwrap();
    // what the users pay is what the pool receives
    assert_eq!(400_0000000, 500_0000000 - samwise.state.tokens_in[0]);
    assert_eq!(0, 500_0000000 - frodo.state.tokens_in[1]);
    assert_eq!(100_0000000, frodo.state.reserves[0].b_supply);
    assert_eq!(500_0000000, frodo.state.reserves[1].b_supply);
    assert!(samwise.state.positions.get_collateral(0) != 0);
}

#[test]
fn test_supply_rounds_b_tokens_down() {
    let config = pool_config(0);
    let prices: Vec<i128> = vec![1_0000000];
    let mut reserve_0 = create_reserve(0);
    reserve_0.d_supply = 1_0000000;
    reserve_0.b_supply = 8_0000000;
    reserve_0.d_rate = 2_500000000;
    reserve_0.b_rate = 1_875000000;
    let mut samwise = Positions::new();
    samwise.set_collateral(0, 8_0000000);
    samwise.set_liabilities(0, 1_0000000);

    // supply - unrounded
    let first =
        execute_supply(&config, vec![reserve_0], samwise, 0, 1_0000000, false, &prices, 7).unwrap();
    assert_eq!(first.minted, 5333333);
    assert_eq!(first.state.tokens_in[0], 1_0000000);
    assert_eq!(first.minted + 8_0000000, first.state.positions.get_collateral(0));

    // supply - rounded
    let second =
        execute_supply(&config, first.state.reserves, Positions::new(), 0, 2, false, &prices, 7)
            .unwrap();
    assert_eq!(second.minted, 1);
    assert_eq!(second.state.tokens_in[0], 2);
    assert_eq!(1, second.state.positions.get_collateral(0));
}

#[test]
fn test_supply_user_being_liquidated() {
    let config = pool_config(0);
    let (reserves, samwise) = samwise_borrows();
    assert_eq!(100_0000000, reserves[0].b_supply);
    assert_eq!(500_0000000, reserves[1].b_supply);
    assert_eq!(50_0000000, reserves[1].d_supply);

    // adjust prices to put samwise underwater
    let prices: Vec<i128> = vec![1_0000000, 2_0000000];

    // a supply that does not restore health stands, and leaves the liquidation in place
    let short = execute_supply(
        &config,
        reserves.clone(),
        samwise.duplicate(),
        0,
        50_0000000,
        true,
        &prices,
        7,
    )
    .unwrap();
    assert_eq!(short.minted, 50_0000000);
    assert_eq!(150_0000000, short.state.positions.get_collateral(0));
    assert_eq!(150_0000000, short.state.reserves[0].b_supply);
    assert_eq!(false, short.auction_deleted);

    let done =
        execute_supply(&config, reserves, samwise, 0, 100_0000000, true, &prices, 7).unwrap();
    assert_eq!(300_0000000, 400_0000000 - done.state.tokens_in[0]);
    assert_eq!(200_0000000, done.state.reserves[0].b_supply);
    assert_eq!(500_0000000, done.state.reserves[1].b_supply);
    assert_eq!(200_0000000, done.state.positions.get_collateral(0));
    assert_eq!(true, done.auction_deleted);
}

#[test]
fn test_supply_user_negative_amount() {
    let config = pool_config(0);
    let (reserves, samwise) = samwise_borrows();
    let prices: Vec<i128> = vec![1_0000000, 2_0000000];

    let result = execute_supply(&config, reserves, samwise, 0, -50_0000000, true, &prices, 7);
    assert_eq!(result.err(), Some(PoolError::NegativeAmount));
}

#[test]
fn test_pool_supply_checks_status() {
    let prices: Vec<i128> = vec![1_0000000];

    // can supply on ice
    let done = execute_supply(
        &pool_config(1),
        vec![create_reserve(0)],
        Positions::new(),
        0,
        100_0000000,
        false,
        &prices,
        7,
    )
    .unwrap();
    assert_eq!(400_0000000, 500_0000000 - done.state.tokens_in[0]);
    assert_eq!(100_0000000, done.state.reserves[0].b_supply);

    // can't supply if frozen
    let result = execute_supply(
        &pool_config(2),
        done.state.reserves,
        done.state.positions,
        0,
        100_0000000,
        false,
        &prices,
        7,
    );
    assert_eq!(result.err(), Some(PoolError::InvalidPoolStatus));
}

#[test]
fn supply_into_an_unknown_reserve_is_refused() {
    let prices: Vec<i128> = vec![1_0000000];
    let result = execute_supply(
        &pool_config(0),
        vec![create_reserve(0)],
        Positions::new(),
        1,
        1,
        false,
        &prices,
        7,
    );
    assert_eq!(result.err(), Some(PoolError::BadRequest));
}

#[test]
fn test_execute_update_reserve_not_active_collateral() {
    let config = pool_config(0);
    let prices: Vec<i128> = vec![1_0000000, 1_0000000];
    let reserves = vec![create_reserve(0), create_reserve(1)];
    let first =
        execute_supply(&config, reserves, Positions::new(), 0, 100_0000000, false, &prices, 7)
            .unwrap();
    let second = execute_supply(
        &config,
        first.state.reserves,
        first.state.positions,
        1,
        200_0000000,
        false,
        &prices,
        7,
    )
    .unwrap();
    let reserves = second.state.reserves;

    // disable
    let disabled =
        execute_update_collateral(&reserves, second.state.positions, 1, false, &prices, 7).unwrap();
    assert_eq!(disabled.get_collateral(1), 0);
    assert_eq!(disabled.get_supply(1), 200_0000000);

    // enable
    let enabled = execute_update_collateral(&reserves, disabled, 1, true, &prices, 7).unwrap();
    assert_eq!(enabled.get_supply(1), 0);
    assert_eq!(enabled.get_collateral(1), 200_0000000);
    assert_eq!(enabled.get_collateral(0), 100_0000000);
}

#[test]
fn test_execute_update_reserve_active_collateral() {
    let config = pool_config(0);
    let prices: Vec<i128> = vec![1_0000000, 1_0000000];
    let reserves = vec![create_reserve(0), create_reserve(1)];
    let frodo = execute_supply(&config, reserves, Positions::new(), 1, 500_0000000, false, &prices, 7)
        .unwrap();
    let first = execute_supply(
        &config,
        frodo.state.reserves,
        Positions::new(),
        0,
        100_0000000,
        false,
        &prices,
        7,
    )
    .unwrap();
    let second = execute_supply(
        &config,
        first.state.reserves,
        first.state.positions,
        1,
        100_0000000,
        false,
        &prices,
        7,
    )
    .unwrap();
    let borrowed = borrow(second.state, 1, 50_0000000);
    let reserves = borrowed.reserves;

    // samwise can meet the collateral requirement with a single supply
    // disable
    let disabled =
        execute_update_collateral(&reserves, borrowed.positions, 0, false, &prices, 7).unwrap();
    assert_eq!(disabled.get_collateral(0), 0);
    assert_eq!(disabled.get_supply(0), 100_0000000);

    // enable
    let enabled = execute_update_collateral(&reserves, disabled, 0, true, &prices, 7).unwrap();
    assert_eq!(enabled.get_supply(0), 0);
    assert_eq!(enabled.get_collateral(0), 100_0000000);

    // borrow more tokens so a single supply is not sufficient collateral
    let more = borrow(Submission::start(reserves, enabled), 1, 10_0000000);

    // disable
    let result = execute_update_collateral(&more.reserves, more.positions, 0, false, &prices, 7);
    assert_eq!(result.err(), Some(PoolError::InvalidHf));
}

#[test]
fn test_execute_update_reserve_not_supplied() {
    let prices: Vec<i128> = vec![1_0000000, 1_0000000];
    let reserves = vec![create_reserve(0), create_reserve(1)];
    let result = execute_update_collateral(&reserves, Positions::new(), 0, false, &prices, 7);
    assert_eq!(result.err(), Some(PoolError::BadRequest));
}

#[test]
fn update_collateral_leaves_a_matching_state_alone() {
    let prices: Vec<i128> = vec![1_0000000];
    let reserves = vec![create_reserve(0)];
    let mut positions = Positions::new();
    positions.set_collateral(0, 5);
    let same = execute_update_collateral(&reserves, positions, 0, true, &prices, 7).unwrap();
    assert_eq!(same.get_collateral(0), 5);
    assert_eq!(same.get_supply(0), 0);
}

fn lent_reserve(index: u32) -> Reserve {
    let mut reserve = create_reserve(index);
    reserve.b_supply = 100_0000000;
    reserve.d_supply = 75_0000000;
    reserve
}

#[test]
fn test_transfer_bad_debt_happy_path() {
    let now = 1500000000;
    let bstop_rate = 0_1000000;
    let reserves = vec![lent_reserve(0), lent_reserve(1)];

    let liability_amount_0 = 24_0000000;
    let liability_amount_1 = 25_0000000;
    let mut samwise = Positions::new();
    samwise.set_liabilities(0, liability_amount_0);
    samwise.set_liabilities(1, liability_amount_1);

    let done =
        transfer_bad_debt_to_backstop(samwise, Positions::new(), &reserves, bstop_rate, now)
            .unwrap();

    assert_eq!(done.user.get_liabilities(0), 0);
    assert_eq!(done.backstop.get_liabilities(0), liability_amount_0);
    assert_eq!(done.user.get_liabilities(1), 0);
    assert_eq!(done.backstop.get_liabilities(1), liability_amount_1);

    assert_eq!(done.reserves[0].last_time, now);
    assert_eq!(done.reserves[1].last_time, now);
    assert!(done.reserves[0].d_rate > reserves[0].d_rate);
    assert_eq!(done.reserves[0].d_supply, reserves[0].d_supply);
    assert_eq!(done.reserves[1].d_supply, reserves[1].d_supply);
}

#[test]
fn test_transfer_bad_debt_with_collateral_errors() {
    let reserves = vec![lent_reserve(0), lent_reserve(1)];
    let mut samwise = Positions::new();
    samwise.set_liabilities(0, 1);
    samwise.set_liabilities(1, 1);
    samwise.set_collateral(1, 1);

    let result = transfer_bad_debt_to_backstop(samwise, Positions::new(), &reserves, 0_1000000, 5);

    match result {
        Ok(_) => assert!(false),
        Err(error) => assert_eq!(error, PoolError::BadRequest),
    }
}

#[test]
fn test_transfer_bad_debt_without_liability_errors() {
    let reserves = vec![lent_reserve(0), lent_reserve(1)];
    let result =
        transfer_bad_debt_to_backstop(Positions::new(), Positions::new(), &reserves, 0_1000000, 5);

    match result {
        Ok(_) => assert!(false),
        Err(error) => assert_eq!(error, PoolError::BadRequest),
    }
}

#[test]
fn transfer_bad_debt_with_supply_errors() {
    let mut samwise = Positions::new();
    samwise.set_liabilities(0, 1);
    samwise.set_supply(1, 1);
    let result = transfer_bad_debt_to_backstop(samwise, Positions::new(), &Vec::new(), 0, 0);
    assert_eq!(result.err(), Some(PoolError::BadRequest));
}

#[test]
fn transfer_bad_debt_adds_to_what_the_backstop_owes() {
    let mut samwise = Positions::new();
    samwise.set_liabilities(3, 7);
    let mut backstop = Positions::new();
    backstop.set_liabilities(3, 5);
    backstop.set_liabilities(4, 2);
    let done = transfer_bad_debt_to_backstop(samwise, backstop, &Vec::new(), 0, 0).unwrap();
    assert_eq!(done.user.get_liabilities(3), 0);
    assert_eq!(done.backstop.get_liabilities(3), 12);
    assert_eq!(done.backstop.get_liabilities(4), 2);
    assert!(done.reserves.is_empty());
}

#[test]
fn transfer_bad_debt_accrues_only_where_debt_is_owed() {
    let reserves = vec![lent_reserve(0), lent_reserve(1), lent_reserve(2)];
    let mut samwise = Positions::new();
    samwise.set_liabilities(1, 7);
    let done =
        transfer_bad_debt_to_backstop(samwise, Positions::new(), &reserves, 0_1000000, 1000)
            .unwrap();
    assert_eq!(done.reserves[0], reserves[0]);
    assert_eq!(done.reserves[2], reserves[2]);
    assert_eq!(done.reserves[1].last_time, 1000);
    assert!(done.reserves[1].b_rate > reserves[1].b_rate);
}

#[test]
fn transfer_bad_debt_overflow_is_an_error() {
    let mut samwise = Positions::new();
    samwise.set_liabilities(0, i128::MAX);
    let mut backstop = Positions::new();
    backstop.set_liabilities(0, 1);
    let result = transfer_bad_debt_to_backstop(samwise, backstop, &Vec::new(), 0, 0);
    assert_eq!(result.err(), Some(PoolError::MathOverflow));

    let mut broken = lent_reserve(0);
    broken.d_rate = i128::MAX / 2;
    let mut frodo = Positions::new();
    frodo.set_liabilities(0, 1);
    let result = transfer_bad_debt_to_backstop(frodo, Positions::new(), &vec![broken], 0, 1000);
    assert_eq!(result.err(), Some(PoolError::MathOverflow));
}

#[test]
fn positions_count_collateral_and_debt() {
    let mut positions = Positions::new();
    assert_eq!(positions.effective_count(), 0);
    assert!(!positions.is_bad_debt());
    positions.set_liabilities(2, 1);
    assert!(positions.is_bad_debt());
    positions.set_collateral(2, 1);
    positions.set_supply(5, 1);
    assert_eq!(positions.effective_count(), 2);
    assert!(!positions.is_bad_debt());
}

#[test]
fn validate_hf_asks_for_a_health_factor_of_one() {
    let mut data = PositionData {
        collateral_base: 100,
        collateral_raw: 0,
        liability_base: 100,
        liability_raw: 0,
        scalar: 1_0000000,
    };
    assert!(validate_hf(&data));
    data.collateral_base = 99;
    assert!(!validate_hf(&data));
    data.collateral_base = 10_5000000;
    data.liability_base = 10_0000000;
    assert!(validate_hf(&data));
    data.liability_base = 0;
    data.collateral_base = 0;
    assert!(validate_hf(&data));
    data.liability_base = i128::MAX;
    data.collateral_base = i128::MAX;
    assert!(validate_hf(&data));
    data.collateral_base = i128::MAX - 1;
    assert!(!validate_hf(&data));
}

#[test]
fn require_nonnegative_refuses_negative_amounts() {
    assert_eq!(require_nonnegative(0), Ok(()));
    assert_eq!(require_nonnegative(5), Ok(()));
    assert_eq!(require_nonnegative(-1), Err(PoolError::NegativeAmount));
}
