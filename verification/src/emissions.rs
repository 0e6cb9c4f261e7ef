use crate::actions::{RequestType, UserReserve};
use crate::constants::SCALAR_7;
use crate::reserve::Reserve;
use crate::fixed_math::{checked_mul_div_floor, lemma_mul_div_nonnegative, mul_floor};
use vstd::prelude::*;

verus! {

/// The emissions of one side of a reserve: the emissions that one share has earned since
/// the start, when that was last brought up to date, and what is emitted per second.
#[derive(Clone, Copy, Debug, PartialEq, Eq, Structural)]
pub struct ReserveEmissionsData {
    pub index: i128,
    pub last_time: u64,
    pub eps: i128,
}

/// The emissions of one user on one side of a reserve: what has accrued and not been
/// claimed, and the index up to which it has.
#[derive(Clone, Copy, Debug, PartialEq, Eq, Structural)]
pub struct UserEmissionData {
    pub accrued: i128,
    pub index: i128,
}

/// The emissions data at time `now`: the index grows by what was emitted since the last
/// update, per share, rounded down. While no share exists only the time moves on.
pub open spec fn spec_update_index(data: ReserveEmissionsData, supply: i128, now: u64) -> Option<
    ReserveEmissionsData,
> {
    if now <= data.last_time {
        Some(data)
    } else if supply == 0 {
        Some(ReserveEmissionsData { last_time: now, ..data })
    } else {
        match data.eps.checked_mul((now - data.last_time) as i128) {
            Some(emitted) => match checked_mul_div_floor(
                emitted as int,
                SCALAR_7 as int,
                supply as int,
            ) {
                Some(gain) => match data.index.checked_add(gain) {
                    Some(index) => Some(ReserveEmissionsData { index, last_time: now, ..data }),
                    None => None,
                },
                None => None,
            },
            None => None,
        }
    }
}

/// Brings the emissions index of one side of a reserve up to time `now`. With emissions
/// and shares that are not negative the index never falls.
pub fn update_index(data: &ReserveEmissionsData, supply: i128, now: u64) -> (r: Option<
    ReserveEmissionsData,
>)
    ensures
        r == spec_update_index(*data, supply, now),
        data.eps >= 0 && supply >= 0 && r is Some ==> r.unwrap().index >= data.index,
{
    if now <= data.last_time {
        return Some(*data);
    }
    if supply == 0 {
        return Some(ReserveEmissionsData { index: data.index, last_time: now, eps: data.eps });
    }
    let emitted = data.eps.checked_mul((now - data.last_time) as i128)?;
    let gain = mul_floor(emitted, SCALAR_7, supply)?;
    proof {
        if data.eps >= 0 && supply > 0 {
            assert(emitted >= 0) by (nonlinear_arith)
                requires
                    emitted == data.eps * ((now - data.last_time) as i128),
                    data.eps >= 0,
                    now > data.last_time,
            ;
            lemma_mul_div_nonnegative(emitted as int, SCALAR_7 as int, supply as int);
        }
    }
    let index = data.index.checked_add(gain)?;
    Some(ReserveEmissionsData { index, last_time: now, eps: data.eps })
}

/// A user's emissions after the index has moved to `index`: the shares held before earn
/// the growth of the index, rounded down.
pub open spec fn spec_update_user(user: UserEmissionData, index: i128, shares_before: i128) -> Option<
    UserEmissionData,
> {
    match index.checked_sub(user.index) {
        Some(growth) => match checked_mul_div_floor(
            shares_before as int,
            growth as int,
            SCALAR_7 as int,
        ) {
            Some(earned) => match user.accrued.checked_add(earned) {
                Some(accrued) => Some(UserEmissionData { accrued, index }),
                None => None,
            },
            None => None,
        },
        None => None,
    }
}

/// Accrues a user's emissions before the user's share balance changes.
pub fn update_user(user: &UserEmissionData, index: i128, shares_before: i128) -> (r: Option<
    UserEmissionData,
>)
    ensures
        r == spec_update_user(*user, index, shares_before),
{
    let growth = index.checked_sub(user.index)?;
    let earned = mul_floor(shares_before, growth, SCALAR_7)?;
    let accrued = user.accrued.checked_add(earned)?;
    Some(UserEmissionData { accrued, index })
}

/// The side of a reserve whose shares a request changes: the supply side for supplies and
/// withdrawals, the borrow side for borrows and repayments, none for the other kinds.
#[derive(Clone, Copy, Debug, PartialEq, Eq, Structural)]
pub enum Side {
    Supply,
    Borrow,
}

/// The side of a reserve whose shares a request of the kind changes.
pub open spec fn spec_side_of(kind: RequestType) -> Option<Side> {
    match kind {
        RequestType::Supply => Some(Side::Supply),
        RequestType::Withdraw => Some(Side::Supply),
        RequestType::SupplyCollateral => Some(Side::Supply),
        RequestType::WithdrawCollateral => Some(Side::Supply),
        RequestType::Borrow => Some(Side::Borrow),
        RequestType::Repay => Some(Side::Borrow),
        _ => None,
    }
}

/// The side of a reserve whose shares a request of the kind changes.
pub fn side_of(kind: RequestType) -> (r: Option<Side>)
    ensures
        r == spec_side_of(kind),
{
    match kind {
        RequestType::Supply => Some(Side::Supply),
        RequestType::Withdraw => Some(Side::Supply),
        RequestType::SupplyCollateral => Some(Side::Supply),
        RequestType::WithdrawCollateral => Some(Side::Supply),
        RequestType::Borrow => Some(Side::Borrow),
        RequestType::Repay => Some(Side::Borrow),
        _ => None,
    }
}

/// The emissions of a side of a reserve and of a user on it, brought up to time `now`
/// before the user's shares change: the shares of the side are the reserve's collateral or
/// debt shares, and the user's are all the collateral shares held, pledged or not, or the
/// debt shares.
pub open spec fn spec_accrue_emissions(
    side: Side,
    reserve: Reserve,
    user: UserReserve,
    data: ReserveEmissionsData,
    earned: UserEmissionData,
    now: u64,
) -> Option<(ReserveEmissionsData, UserEmissionData)> {
    let supply = match side {
        Side::Supply => reserve.b_supply,
        Side::Borrow => reserve.d_supply,
    };
    let held = match side {
        Side::Supply => user.supply.checked_add(user.collateral),
        Side::Borrow => Some(user.liabilities),
    };
    match (held, spec_update_index(data, supply, now)) {
        (Some(shares), Some(next)) => match spec_update_user(earned, next.index, shares) {
            Some(after) => Some((next, after)),
            None => None,
        },
        _ => None,
    }
}

/// Accrues the emissions of a side of a reserve and of a user on it, as a request that
/// changes the user's shares of that side asks for before it is applied.
pub fn accrue_emissions(
    side: Side,
    reserve: &Reserve,
    user: UserReserve,
    data: &ReserveEmissionsData,
    earned: &UserEmissionData,
    now: u64,
) -> (r: Option<(ReserveEmissionsData, UserEmissionData)>)
    ensures
        r == spec_accrue_emissions(side, *reserve, user, *data, *earned, now),
{
    let supply = match side {
        Side::Supply => reserve.b_supply,
        Side::Borrow => reserve.d_supply,
    };
    let held = match side {
        Side::Supply => user.supply.checked_add(user.collateral),
        Side::Borrow => Some(user.liabilities),
    };
    let shares = held?;
    let next = update_index(data, supply, now)?;
    let after = update_user(earned, next.index, shares)?;
    Some((next, after))
}

/// Claims what has accrued to a user: returns it and leaves nothing accrued.
pub fn claim(user: &UserEmissionData) -> (r: (i128, UserEmissionData))
    ensures
        r.0 == user.accrued,
        r.1 == (UserEmissionData { accrued: 0, index: user.index }),
{
    (user.accrued, UserEmissionData { accrued: 0, index: user.index })
}

} // verus!
