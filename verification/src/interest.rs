use crate::constants::{SCALAR_7, SCALAR_9, SECONDS_PER_YEAR};
use crate::fixed_math::{
    ceil_div, checked_mul_div_ceil, checked_mul_div_floor, floor_div, lemma_div_exact,
    lemma_floor_div_bounds, lemma_mul_div_monotonic, lemma_mul_div_nonnegative, mul_ceil,
    mul_floor,
};
use crate::reserve::{Reserve, IR_MOD_MIN, UTIL_KINK, UTIL_TAIL};
use vstd::prelude::*;

verus! {

/// The yearly borrow rate that the three-slope model asks for at utilization `u`, seven
/// decimals: the first slope up to the target utilization, the second from there to the
/// kink, the third above it.
pub open spec fn spec_target_rate(reserve: Reserve, u: i128) -> Option<i128> {
    if u <= reserve.util {
        checked_mul_div_ceil(reserve.r_one as int, u as int, reserve.util as int)
    } else if u <= UTIL_KINK {
        match (u.checked_sub(reserve.util), UTIL_KINK.checked_sub(reserve.util)) {
            (Some(over), Some(band)) => match checked_mul_div_ceil(
                reserve.r_two as int,
                over as int,
                band as int,
            ) {
                Some(extra) => reserve.r_one.checked_add(extra),
                None => None,
            },
            _ => None,
        }
    } else {
        match (
            checked_mul_div_ceil(reserve.r_three as int, u - UTIL_KINK, UTIL_TAIL as int),
            reserve.r_one.checked_add(reserve.r_two),
        ) {
            (Some(extra), Some(base)) => base.checked_add(extra),
            _ => None,
        }
    }
}

/// The interest-rate modifier after `delta` seconds at utilization `u`: it moves by the
/// utilization error times the elapsed time times the reactivity, and never falls below
/// one tenth.
pub open spec fn spec_next_ir_mod(reserve: Reserve, u: i128, delta: i128) -> Option<i128> {
    match u.checked_sub(reserve.util) {
        Some(error) => match delta.checked_mul(error) {
            Some(weighted) => match checked_mul_div_floor(
                weighted as int,
                reserve.reactivity as int,
                SCALAR_7 as int,
            ) {
                Some(change) => match reserve.ir_mod.checked_add(change) {
                    Some(next) => Some(
                        if next < IR_MOD_MIN {
                            IR_MOD_MIN
                        } else {
                            next
                        },
                    ),
                    None => None,
                },
                None => None,
            },
            None => None,
        },
        None => None,
    }
}

/// The factor by which debt grows over `delta` seconds, nine decimals: one plus the
/// modified yearly rate times the elapsed share of a year, rounded up.
pub open spec fn spec_accrual_factor(ir_mod: i128, rate: i128, delta: i128) -> Option<i128> {
    match checked_mul_div_ceil(ir_mod as int, rate as int, SCALAR_7 as int) {
        Some(yearly) => match yearly.checked_mul(100) {
            Some(yearly_9) => match checked_mul_div_ceil(
                yearly_9 as int,
                delta as int,
                SECONDS_PER_YEAR as int,
            ) {
                Some(growth) => SCALAR_9.checked_add(growth),
                None => None,
            },
            None => None,
        },
        None => None,
    }
}

/// The reserve after the debt rate has risen to `d_rate`: the interest is the growth of
/// the owed assets, the backstop is credited its share rounded down, and the rest is spread
/// over the collateral shares, rounded down.
pub open spec fn spec_distribute_interest(reserve: Reserve, d_rate: i128, bstop_rate: i128) -> Option<
    Reserve,
> {
    let raised = Reserve { d_rate, ..reserve };
    match (reserve.spec_total_liabilities(), raised.spec_total_liabilities()) {
        (Some(before), Some(after)) => match after.checked_sub(before) {
            Some(interest) => match checked_mul_div_floor(
                interest as int,
                bstop_rate as int,
                SCALAR_7 as int,
            ) {
                Some(credit) => match (
                    reserve.backstop_credit.checked_add(credit),
                    interest.checked_sub(credit),
                ) {
                    (Some(backstop_credit), Some(rest)) => match checked_mul_div_floor(
                        rest as int,
                        SCALAR_9 as int,
                        reserve.b_supply as int,
                    ) {
                        Some(gain) => match reserve.b_rate.checked_add(gain) {
                            Some(b_rate) => Some(
                                Reserve { b_rate, backstop_credit, ..raised },
                            ),
                            None => None,
                        },
                        None => None,
                    },
                    _ => None,
                },
                None => None,
            },
            None => None,
        },
        _ => None,
    }
}

/// The reserve as it stands at time `now`. Nothing changes when no time has passed or no
/// collateral share exists; otherwise the modifier, both rates, the backstop credit and the
/// time of accrual move on. Nothing is returned when a step overflows or divides by zero.
pub open spec fn spec_accrue(reserve: Reserve, bstop_rate: i128, now: u64) -> Option<Reserve> {
    if now <= reserve.last_time || reserve.b_supply == 0 {
        Some(reserve)
    } else {
        let delta = (now - reserve.last_time) as i128;
        match reserve.spec_utilization() {
            Some(u) => match (spec_target_rate(reserve, u), spec_next_ir_mod(reserve, u, delta)) {
                (Some(rate), Some(ir_mod)) => match spec_accrual_factor(ir_mod, rate, delta) {
                    Some(factor) => match checked_mul_div_ceil(
                        reserve.d_rate as int,
                        factor as int,
                        SCALAR_9 as int,
                    ) {
                        Some(d_rate) => match spec_distribute_interest(
                            reserve,
                            d_rate,
                            bstop_rate,
                        ) {
                            Some(paid) => Some(Reserve { ir_mod, last_time: now, ..paid }),
                            None => None,
                        },
                        None => None,
                    },
                    None => None,
                },
                _ => None,
            },
            None => None,
        }
    }
}

/// Computes the yearly borrow rate at utilization `u`.
pub fn target_rate(reserve: &Reserve, u: i128) -> (r: Option<i128>)
    ensures
        r == spec_target_rate(*reserve, u),
{
    if u <= reserve.util {
        mul_ceil(reserve.r_one, u, reserve.util)
    } else if u <= UTIL_KINK {
        let over = u.checked_sub(reserve.util)?;
        let band = UTIL_KINK.checked_sub(reserve.util)?;
        let extra = mul_ceil(reserve.r_two, over, band)?;
        reserve.r_one.checked_add(extra)
    } else {
        let extra = mul_ceil(reserve.r_three, u - UTIL_KINK, UTIL_TAIL)?;
        let base = reserve.r_one.checked_add(reserve.r_two)?;
        base.checked_add(extra)
    }
}

/// Moves the interest-rate modifier on by `delta` seconds at utilization `u`.
pub fn next_ir_mod(reserve: &Reserve, u: i128, delta: i128) -> (r: Option<i128>)
    ensures
        r == spec_next_ir_mod(*reserve, u, delta),
{
    let error = u.checked_sub(reserve.util)?;
    let weighted = delta.checked_mul(error)?;
    let change = mul_floor(weighted, reserve.reactivity as i128, SCALAR_7)?;
    let next = reserve.ir_mod.checked_add(change)?;
    if next < IR_MOD_MIN {
        Some(IR_MOD_MIN)
    } else {
        Some(next)
    }
}

/// Computes the factor by which debt grows over `delta` seconds.
pub fn accrual_factor(ir_mod: i128, rate: i128, delta: i128) -> (r: Option<i128>)
    ensures
        r == spec_accrual_factor(ir_mod, rate, delta),
{
    let yearly = mul_ceil(ir_mod, rate, SCALAR_7)?;
    let yearly_9 = yearly.checked_mul(100)?;
    let growth = mul_ceil(yearly_9, delta, SECONDS_PER_YEAR)?;
    SCALAR_9.checked_add(growth)
}

/// Raises the debt rate to `d_rate` and shares the interest out between the backstop and
/// the collateral shares.
pub fn distribute_interest(reserve: &Reserve, d_rate: i128, bstop_rate: i128) -> (r: Option<
    Reserve,
>)
    ensures
        r == spec_distribute_interest(*reserve, d_rate, bstop_rate),
{
    let mut next = *reserve;
    next.d_rate = d_rate;
    let before = reserve.total_liabilities()?;
    let after = next.total_liabilities()?;
    let interest = after.checked_sub(before)?;
    let credit = mul_floor(interest, bstop_rate, SCALAR_7)?;
    let backstop_credit = reserve.backstop_credit.checked_add(credit)?;
    let rest = interest.checked_sub(credit)?;
    let gain = mul_floor(rest, SCALAR_9, reserve.b_supply)?;
    let b_rate = reserve.b_rate.checked_add(gain)?;
    next.b_rate = b_rate;
    next.backstop_credit = backstop_credit;
    Some(next)
}

/// Brings a reserve up to time `now`, paying the share `bstop_rate` of the interest to the
/// backstop. On a reserve in its ranges and a backstop share between zero and one, neither
/// rate ever falls and the result is in its ranges again.
pub fn accrue(reserve: &Reserve, bstop_rate: i128, now: u64) -> (r: Option<Reserve>)
    ensures
        r == spec_accrue(*reserve, bstop_rate, now),
        reserve.wf() && 0 <= bstop_rate <= SCALAR_7 ==> match r {
            Some(next) => next.wf() && next.b_rate >= reserve.b_rate && next.d_rate
                >= reserve.d_rate,
            None => true,
        },
{
    proof {
        if reserve.wf() && 0 <= bstop_rate <= SCALAR_7 {
            lemma_rates_never_fall(*reserve, bstop_rate, now);
        }
    }
    if now <= reserve.last_time || reserve.b_supply == 0 {
        return Some(*reserve);
    }
    let delta = (now - reserve.last_time) as i128;
    let u = reserve.utilization()?;
    let rate = target_rate(reserve, u)?;
    let ir_mod = next_ir_mod(reserve, u, delta)?;
    let factor = accrual_factor(ir_mod, rate, delta)?;
    let d_rate = mul_ceil(reserve.d_rate, factor, SCALAR_9)?;
    let mut next = distribute_interest(reserve, d_rate, bstop_rate)?;
    next.ir_mod = ir_mod;
    next.last_time = now;
    Some(next)
}

/// The target rate of a reserve in its ranges is not negative at a non-negative utilization.
pub proof fn lemma_target_rate_nonnegative(reserve: Reserve, u: i128)
    requires
        reserve.wf(),
        u >= 0,
        spec_target_rate(reserve, u) is Some,
    ensures
        spec_target_rate(reserve, u).unwrap() >= 0,
{
    if u <= reserve.util {
        lemma_mul_div_nonnegative(reserve.r_one as int, u as int, reserve.util as int);
    } else if u <= UTIL_KINK {
        lemma_mul_div_nonnegative(
            reserve.r_two as int,
            u - reserve.util,
            UTIL_KINK - reserve.util,
        );
    } else {
        lemma_mul_div_nonnegative(reserve.r_three as int, u - UTIL_KINK, UTIL_TAIL as int);
    }
}

/// The accrual factor is at least one when the modifier and the rate are not negative and
/// time has passed.
pub proof fn lemma_accrual_factor_at_least_one(ir_mod: i128, rate: i128, delta: i128)
    requires
        ir_mod >= 0,
        rate >= 0,
        delta >= 0,
        spec_accrual_factor(ir_mod, rate, delta) is Some,
    ensures
        spec_accrual_factor(ir_mod, rate, delta).unwrap() >= SCALAR_9,
{
    lemma_mul_div_nonnegative(ir_mod as int, rate as int, SCALAR_7 as int);
    let yearly = checked_mul_div_ceil(ir_mod as int, rate as int, SCALAR_7 as int).unwrap();
    lemma_mul_div_nonnegative(yearly * 100, delta as int, SECONDS_PER_YEAR as int);
}

/// Sharing out interest at a debt rate that did not fall leaves neither rate lower and the
/// reserve in its ranges.
pub proof fn lemma_distribute_keeps_rates(reserve: Reserve, d_rate: i128, bstop_rate: i128)
    requires
        reserve.wf(),
        reserve.b_supply > 0,
        d_rate >= reserve.d_rate,
        0 <= bstop_rate <= SCALAR_7,
        spec_distribute_interest(reserve, d_rate, bstop_rate) is Some,
    ensures
        spec_distribute_interest(reserve, d_rate, bstop_rate).unwrap().wf(),
        spec_distribute_interest(reserve, d_rate, bstop_rate).unwrap().b_rate >= reserve.b_rate,
        spec_distribute_interest(reserve, d_rate, bstop_rate).unwrap().d_rate == d_rate,
{
    let raised = Reserve { d_rate, ..reserve };
    let before = reserve.spec_total_liabilities().unwrap();
    let after = raised.spec_total_liabilities().unwrap();
    lemma_mul_div_monotonic(
        reserve.d_supply as int,
        reserve.d_rate as int,
        d_rate as int,
        SCALAR_9 as int,
    );
    let interest = (after - before) as i128;
    assert(interest >= 0);
    lemma_mul_div_nonnegative(interest as int, bstop_rate as int, SCALAR_7 as int);
    lemma_mul_div_monotonic(interest as int, bstop_rate as int, SCALAR_7 as int, SCALAR_7 as int);
    lemma_div_exact(interest as int, SCALAR_7 as int);
    let credit = checked_mul_div_floor(interest as int, bstop_rate as int, SCALAR_7 as int).unwrap();
    assert(0 <= credit <= interest);
    lemma_mul_div_nonnegative(interest - credit, SCALAR_9 as int, reserve.b_supply as int);
}

/// Accrual never lowers the collateral rate or the debt rate of a reserve in its ranges,
/// and leaves the reserve in its ranges.
pub proof fn lemma_rates_never_fall(reserve: Reserve, bstop_rate: i128, now: u64)
    requires
        reserve.wf(),
        0 <= bstop_rate <= SCALAR_7,
    ensures
        match spec_accrue(reserve, bstop_rate, now) {
            Some(next) => next.wf() && next.b_rate >= reserve.b_rate && next.d_rate
                >= reserve.d_rate,
            None => true,
        },
{
    if now <= reserve.last_time || reserve.b_supply == 0 {
    } else if spec_accrue(reserve, bstop_rate, now) is Some {
        let delta = (now - reserve.last_time) as i128;
        lemma_mul_div_nonnegative(reserve.d_supply as int, reserve.d_rate as int, SCALAR_9 as int);
        lemma_mul_div_nonnegative(reserve.b_supply as int, reserve.b_rate as int, SCALAR_9 as int);
        if reserve.d_supply != 0 {
            let l = reserve.spec_total_liabilities().unwrap();
            let s = reserve.spec_total_supply().unwrap();
            lemma_mul_div_nonnegative(l as int, SCALAR_7 as int, s as int);
        }
        let u = reserve.spec_utilization().unwrap();
        lemma_target_rate_nonnegative(reserve, u);
        let rate = spec_target_rate(reserve, u).unwrap();
        let ir_mod = spec_next_ir_mod(reserve, u, delta).unwrap();
        lemma_accrual_factor_at_least_one(ir_mod, rate, delta);
        let factor = spec_accrual_factor(ir_mod, rate, delta).unwrap();
        lemma_mul_div_monotonic(
            reserve.d_rate as int,
            SCALAR_9 as int,
            factor as int,
            SCALAR_9 as int,
        );
        lemma_div_exact(reserve.d_rate as int, SCALAR_9 as int);
        let d_rate = checked_mul_div_ceil(
            reserve.d_rate as int,
            factor as int,
            SCALAR_9 as int,
        ).unwrap();
        lemma_distribute_keeps_rates(reserve, d_rate, bstop_rate);
    }
}

/// Accrual keeps a solvent reserve solvent up to what its roundings lose: afterwards the
/// redeemable assets and the backstop's credit fall short of the owed assets by no more
/// than one unit for every billion collateral shares, and one more.
pub proof fn lemma_accrual_solvency_gap(reserve: Reserve, bstop_rate: i128, now: u64)
    requires
        reserve.wf(),
        0 <= bstop_rate <= SCALAR_7,
        reserve.solvent(),
        spec_accrue(reserve, bstop_rate, now) is Some,
    ensures
        ({
            let next = spec_accrue(reserve, bstop_rate, now).unwrap();
            floor_div(next.b_supply * next.b_rate, SCALAR_9 as int) + next.backstop_credit
                + floor_div(reserve.b_supply as int, SCALAR_9 as int) + 1 >= ceil_div(
                next.d_supply * next.d_rate,
                SCALAR_9 as int,
            )
        }),
{
    let next = spec_accrue(reserve, bstop_rate, now).unwrap();
    let n = SCALAR_9 as int;
    let bs = reserve.b_supply as int;
    if now <= reserve.last_time || reserve.b_supply == 0 {
        lemma_floor_div_bounds(bs, n);
    } else {
        lemma_rates_never_fall(reserve, bstop_rate, now);
        let raised = Reserve { d_rate: next.d_rate, ..reserve };
        let owed = reserve.spec_total_liabilities().unwrap() as int;
        let owed_after = raised.spec_total_liabilities().unwrap() as int;
        lemma_mul_div_monotonic(
            reserve.d_supply as int,
            reserve.d_rate as int,
            next.d_rate as int,
            n,
        );
        let interest = owed_after - owed;
        lemma_mul_div_nonnegative(interest, bstop_rate as int, SCALAR_7 as int);
        lemma_mul_div_monotonic(interest, bstop_rate as int, SCALAR_7 as int, SCALAR_7 as int);
        lemma_div_exact(interest, SCALAR_7 as int);
        let credit = next.backstop_credit - reserve.backstop_credit;
        let rest = interest - credit;
        let gain = next.b_rate - reserve.b_rate;
        lemma_floor_div_bounds(rest * n, bs);
        let before = floor_div(bs * reserve.b_rate, n);
        let after = floor_div(bs * next.b_rate, n);
        lemma_floor_div_bounds(bs * reserve.b_rate, n);
        lemma_floor_div_bounds(bs * next.b_rate, n);
        let q = floor_div(bs, n);
        lemma_floor_div_bounds(bs, n);
        assert(bs < (q + 1) * n) by (nonlinear_arith)
            requires
                bs < q * n + n,
        ;
        assert(after + q + 1 >= before + rest) by (nonlinear_arith)
            requires
                n > 0,
                bs > 0,
                gain * bs <= rest * n < gain * bs + bs,
                before * n <= bs * reserve.b_rate < before * n + n,
                after * n <= bs * (reserve.b_rate + gain) < after * n + n,
                bs < (q + 1) * n,
        ;
    }
}

/// Accrual is idempotent: bringing a reserve up to the same time twice changes nothing
/// the second time.
pub proof fn lemma_accrue_idempotent(reserve: Reserve, bstop_rate: i128, now: u64)
    requires
        spec_accrue(reserve, bstop_rate, now) is Some,
    ensures
        spec_accrue(spec_accrue(reserve, bstop_rate, now).unwrap(), bstop_rate, now)
            == spec_accrue(reserve, bstop_rate, now),
{
}

} // verus!
