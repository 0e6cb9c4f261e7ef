use lending_pool::errors::PoolError;
use lending_pool::interest::{accrual_factor, accrue, next_ir_mod, target_rate};
use lending_pool::pool::load_reserves;
use lending_pool::reserve::Reserve;

fn fresh_reserve() -> Reserve {
    Reserve {
        index: 0,
        decimals: 7,
        scalar: 1_0000000,
        c_factor: 0_7500000,
        l_factor: 0_7500000,
        util: 0_5000000,
        max_util: 0_9500000,
        r_one: 0_0500000,
        r_two: 0_5000000,
        r_three: 1_5000000,
        reactivity: 0,
        b_rate: 1_000_000_000,
        d_rate: 1_000_000_000,
        b_supply: 0,
        d_supply: 0,
        backstop_credit: 0,
        ir_mod: 1_0000000,
        last_time: 0,
    }
}

fn accruing_reserve() -> Reserve {
    let mut reserve = fresh_reserve();
    reserve.b_supply = 8_0000000;
    reserve.d_supply = 1_0000000;
    reserve.d_rate = 2_500_000_000;
    reserve
}

#[test]
fn conversions_round_for_the_pool() {
    let mut reserve = fresh_reserve();
    reserve.b_rate = 1_321_834_961;
    reserve.d_rate = 1_823_912_692;
    assert_eq!(reserve.to_asset_from_b_token(1_1234567), Some(1_4850243));
    assert_eq!(reserve.to_asset_from_d_token(1_1234567), Some(2_0490870));
    assert_eq!(reserve.to_b_token_down(1_4850243), Some(1_1234566));
    assert_eq!(reserve.to_b_token_up(1_4850243), Some(1_1234567));
    assert_eq!(reserve.to_d_token_down(2_0490870), Some(1_1234567));
    assert_eq!(reserve.to_d_token_up(2_0490870), Some(1_1234568));
}

#[test]
fn effective_conversions_apply_the_factors() {
    let mut reserve = fresh_reserve();
    reserve.c_factor = 0_8500000;
    reserve.l_factor = 0_8000000;
    reserve.b_rate = 1_100_000_000;
    reserve.d_rate = 1_150_000_000;
    // 100 shares -> 110 assets -> 93.5 effective
    assert_eq!(reserve.to_effective_asset_from_b_token(100_0000000), Some(93_5000000));
    // 100 shares -> 115 assets -> 143.75 effective
    assert_eq!(reserve.to_effective_asset_from_d_token(100_0000000), Some(143_7500000));
}

#[test]
fn effective_liability_fails_without_a_factor() {
    let mut reserve = fresh_reserve();
    reserve.l_factor = 0;
    assert_eq!(reserve.to_effective_asset_from_d_token(1_0000000), None);
}

#[test]
fn round_trip_never_gains_a_share() {
    let mut reserve = fresh_reserve();
    reserve.b_rate = 1_321_834_961;
    let mut n: i128 = 0;
    while n < 2000 {
        let assets = reserve.to_asset_from_b_token(n).unwrap();
        let back = reserve.to_b_token_down(assets).unwrap();
        assert!(back == n || back == n - 1);
        assert_eq!(reserve.to_b_token_up(assets), Some(n));
        n += 1;
    }
}

#[test]
fn utilization_rounds_up() {
    let reserve = accruing_reserve();
    assert_eq!(reserve.total_supply(), Some(8_0000000));
    assert_eq!(reserve.total_liabilities(), Some(2_5000000));
    assert_eq!(reserve.utilization(), Some(0_3125000));
    let mut odd = accruing_reserve();
    odd.b_supply = 3_0000000;
    odd.d_supply = 1_0000000;
    odd.d_rate = 1_000_000_000;
    assert_eq!(odd.utilization(), Some(0_3333334));
}

#[test]
fn utilization_without_debt_is_zero() {
    let reserve = fresh_reserve();
    assert_eq!(reserve.utilization(), Some(0));
    assert_eq!(reserve.require_utilization_below_max(), Ok(()));
}

#[test]
fn utilization_above_the_cap_is_refused() {
    let mut reserve = accruing_reserve();
    reserve.d_supply = 3_1000000;
    // 7.75 owed of 8 supplied: 0.96875 > 0.95
    assert_eq!(reserve.require_utilization_below_max(), Err(PoolError::InvalidUtilRate));
}

#[test]
fn target_rate_follows_the_three_slopes() {
    let reserve = fresh_reserve();
    // below the target: 0.05 * 0.3125 / 0.5
    assert_eq!(target_rate(&reserve, 0_3125000), Some(0_0312500));
    assert_eq!(target_rate(&reserve, 0_5000000), Some(0_0500000));
    // between target and kink: 0.05 + 0.5 * (0.8 - 0.5) / 0.45
    assert_eq!(target_rate(&reserve, 0_8000000), Some(0_3833334));
    assert_eq!(target_rate(&reserve, 0_9500000), Some(0_5500000));
    // above the kink: 0.55 + 1.5 * (0.97 - 0.95) / 0.05
    assert_eq!(target_rate(&reserve, 0_9700000), Some(1_1500000));
}

#[test]
fn ir_mod_is_clamped_at_a_tenth() {
    let mut reserve = fresh_reserve();
    reserve.reactivity = 100;
    // error -0.1875 over a year at reactivity 100 would take the modifier below zero
    assert_eq!(next_ir_mod(&reserve, 0_3125000, 31_536_000), Some(0_1000000));
    // error +0.1 over 5 seconds: 5 * 1_000_000 * 100 / 1e7 = 50
    assert_eq!(next_ir_mod(&reserve, 0_6000000, 5), Some(1_0000050));
}

#[test]
fn accrual_factor_rounds_up() {
    // 3.125% over a full year
    assert_eq!(accrual_factor(1_0000000, 0_0312500, 31_536_000), Some(1_031_250_000));
    // 5% over one second: 50_000_000 / 31_536_000 = 1.58...
    assert_eq!(accrual_factor(1_0000000, 0_0500000, 1), Some(1_000_000_002));
}

#[test]
fn accrual_over_a_year_credits_the_backstop() {
    let reserve = accruing_reserve();
    let next = accrue(&reserve, 0_1000000, 31_536_000).unwrap();
    assert_eq!(next.d_rate, 2_578_125_000);
    assert_eq!(next.backstop_credit, 78_125);
    assert_eq!(next.b_rate, 1_008_789_062);
    assert_eq!(next.ir_mod, 1_0000000);
    assert_eq!(next.last_time, 31_536_000);
    assert_eq!(next.b_supply, 8_0000000);
    assert_eq!(next.d_supply, 1_0000000);
}

#[test]
fn accrual_uses_the_updated_modifier() {
    let mut reserve = accruing_reserve();
    reserve.reactivity = 100;
    let next = accrue(&reserve, 0_1000000, 31_536_000).unwrap();
    assert_eq!(next.ir_mod, 0_1000000);
    assert_eq!(next.d_rate, 2_507_812_500);
}

#[test]
fn accrual_is_idempotent() {
    let reserve = accruing_reserve();
    let once = accrue(&reserve, 0_1000000, 5000).unwrap();
    let twice = accrue(&once, 0_1000000, 5000).unwrap();
    assert_eq!(once, twice);
}

#[test]
fn accrual_without_elapsed_time_changes_nothing() {
    let mut reserve = accruing_reserve();
    reserve.last_time = 100;
    assert_eq!(accrue(&reserve, 0_1000000, 100), Some(reserve));
    assert_eq!(accrue(&reserve, 0_1000000, 50), Some(reserve));
}

#[test]
fn accrual_without_supply_changes_nothing() {
    let reserve = fresh_reserve();
    assert_eq!(accrue(&reserve, 0_1000000, 1000), Some(reserve));
}

#[test]
fn rates_never_fall() {
    let mut reserve = accruing_reserve();
    reserve.reactivity = 100;
    let mut now: u64 = 0;
    while now < 100_000 {
        now += 7919;
        let next = accrue(&reserve, 0_2000000, now).unwrap();
        assert!(next.b_rate >= reserve.b_rate);
        assert!(next.d_rate >= reserve.d_rate);
        reserve = next;
    }
}

#[test]
fn accrual_rounding_costs_at_most_a_unit() {
    // every asset supplied is lent out
    let mut reserve = accruing_reserve();
    reserve.d_supply = 3_2000000;
    assert_eq!(reserve.total_supply(), reserve.total_liabilities());
    let next = accrue(&reserve, 0_1000000, 3).unwrap();
    assert_eq!(next.d_rate, 2_500_000_490);
    assert_eq!(next.b_rate, 1_000_000_187);
    assert_eq!(next.backstop_credit, 1);
    assert_eq!(next.total_supply(), Some(8_0000014));
    assert_eq!(next.total_liabilities(), Some(8_0000016));
    let mut now: u64 = 0;
    while now < 50_000 {
        now += 13;
        let next = accrue(&reserve, 0_1000000, now).unwrap();
        let supplied = next.total_supply().unwrap();
        let owed = next.total_liabilities().unwrap();
        assert!(supplied + next.backstop_credit + 1 >= owed);
    }
}

#[test]
fn accrual_overflow_gives_nothing() {
    let mut reserve = accruing_reserve();
    reserve.d_rate = i128::MAX / 2;
    assert_eq!(accrue(&reserve, 0_1000000, 1000), None);
}

#[test]
fn load_reserves_accrues_each() {
    let reserves = vec![accruing_reserve(), fresh_reserve()];
    let loaded = load_reserves(&reserves, 0_1000000, 31_536_000).unwrap();
    assert_eq!(loaded.len(), 2);
    assert_eq!(loaded[0].d_rate, 2_578_125_000);
    assert_eq!(loaded[1], fresh_reserve());
}
