use crate::constants::SCALAR_9;
use crate::errors::PoolError;
use crate::fixed_math::{checked_mul_div_floor, div_floor, fits_i128};
use crate::interest::{accrue, spec_accrue};
use crate::positions::{Positions, POSITION_SLOTS};
use crate::reserve::Reserve;
use vstd::prelude::*;

verus! {

/// Whether the debt of `user` can be added to that of `backstop` in every reserve before
/// `n` without leaving the 128-bit range.
pub open spec fn debt_fits(user: Seq<i128>, backstop: Seq<i128>, n: int) -> bool {
    forall|i: int| 0 <= i < n ==> fits_i128(#[trigger] backstop[i] + user[i])
}

/// Whether the debt shares of every reserve have moved from `user` to `backstop` and
/// nothing else of the two has changed.
pub open spec fn debt_reassigned(
    user: Positions,
    backstop: Positions,
    user_after: Positions,
    backstop_after: Positions,
) -> bool {
    &&& user_after.collateral@ == user.collateral@
    &&& user_after.supply@ == user.supply@
    &&& backstop_after.collateral@ == backstop.collateral@
    &&& backstop_after.supply@ == backstop.supply@
    &&& user_after.liabilities@.len() == POSITION_SLOTS
    &&& backstop_after.liabilities@.len() == POSITION_SLOTS
    &&& forall|i: int|
        0 <= i < POSITION_SLOTS ==> user_after.liabilities@[i] == 0
            && backstop_after.liabilities@[i] == backstop.liabilities@[i] + user.liabilities@[i]
}

/// Whether `out` holds the reserves of `reserves` with every reserve in which debt is owed
/// brought up to time `now`, and the others as they were.
pub open spec fn owed_accrued(
    reserves: Seq<Reserve>,
    liabilities: Seq<i128>,
    out: Seq<Reserve>,
    bstop_rate: i128,
    now: u64,
) -> bool {
    &&& out.len() == reserves.len()
    &&& forall|i: int|
        0 <= i < reserves.len() ==> (if liabilities[i] != 0 {
            spec_accrue(#[trigger] reserves[i], bstop_rate, now) == Some(out[i])
        } else {
            out[i] == reserves[i]
        })
}

/// Whether the accrual of some reserve in which debt is owed overflows.
pub open spec fn owed_accrual_fails(
    reserves: Seq<Reserve>,
    liabilities: Seq<i128>,
    bstop_rate: i128,
    now: u64,
) -> bool {
    exists|i: int|
        0 <= i < reserves.len() && liabilities[i] != 0 && spec_accrue(
            #[trigger] reserves[i],
            bstop_rate,
            now,
        ) is None
}

fn reassign_debt(user: Positions, backstop: Positions) -> (r: Option<(Positions, Positions)>)
    requires
        user.liabilities@.len() == POSITION_SLOTS,
        backstop.liabilities@.len() == POSITION_SLOTS,
    ensures
        match r {
            Some(after) => debt_fits(
                user.liabilities@,
                backstop.liabilities@,
                POSITION_SLOTS as int,
            ) && debt_reassigned(user, backstop, after.0, after.1),
            None => !debt_fits(user.liabilities@, backstop.liabilities@, POSITION_SLOTS as int),
        },
{
    let mut from = user;
    let mut to = backstop;
    let mut i: usize = 0;
    while i < POSITION_SLOTS
        invariant
            i <= POSITION_SLOTS,
            from.liabilities@.len() == POSITION_SLOTS,
            to.liabilities@.len() == POSITION_SLOTS,
            user.liabilities@.len() == POSITION_SLOTS,
            backstop.liabilities@.len() == POSITION_SLOTS,
            from.collateral@ == user.collateral@,
            from.supply@ == user.supply@,
            to.collateral@ == backstop.collateral@,
            to.supply@ == backstop.supply@,
            debt_fits(user.liabilities@, backstop.liabilities@, i as int),
            forall|j: int|
                0 <= j < i ==> from.liabilities@[j] == 0 && to.liabilities@[j]
                    == backstop.liabilities@[j] + user.liabilities@[j],
            forall|j: int|
                i <= j < POSITION_SLOTS ==> from.liabilities@[j] == user.liabilities@[j]
                    && to.liabilities@[j] == backstop.liabilities@[j],
        decreases POSITION_SLOTS - i,
    {
        let owed = from.liabilities[i];
        match to.liabilities[i].checked_add(owed) {
            Some(sum) => {
                to.set_liabilities(i as u32, sum);
                from.set_liabilities(i as u32, 0);
            },
            None => {
                assert(!fits_i128(backstop.liabilities@[i as int] + user.liabilities@[i as int]));
                return None;
            },
        }
        i += 1;
    }
    Some((from, to))
}

fn accrue_owed(reserves: &Vec<Reserve>, liabilities: &Vec<i128>, bstop_rate: i128, now: u64) -> (r:
    Option<Vec<Reserve>>)
    requires
        reserves@.len() <= POSITION_SLOTS,
        liabilities@.len() == POSITION_SLOTS,
    ensures
        match r {
            Some(out) => owed_accrued(reserves@, liabilities@, out@, bstop_rate, now),
            None => owed_accrual_fails(reserves@, liabilities@, bstop_rate, now),
        },
{
    let mut out: Vec<Reserve> = Vec::new();
    let mut i: usize = 0;
    while i < reserves.len()
        invariant
            i <= reserves@.len(),
            reserves@.len() <= POSITION_SLOTS,
            liabilities@.len() == POSITION_SLOTS,
            owed_accrued(reserves@.subrange(0, i as int), liabilities@, out@, bstop_rate, now),
        decreases reserves@.len() - i,
    {
        if liabilities[i] != 0 {
            match accrue(&reserves[i], bstop_rate, now) {
                Some(next) => {
                    out.push(next);
                },
                None => {
                    assert(spec_accrue(reserves@[i as int], bstop_rate, now) is None);
                    return None;
                },
            }
        } else {
            out.push(reserves[i]);
        }
        proof {
            let grown = reserves@.subrange(0, i as int + 1);
            assert forall|j: int| 0 <= j < grown.len() implies (if liabilities@[j] != 0 {
                spec_accrue(#[trigger] grown[j], bstop_rate, now) == Some(out@[j])
            } else {
                out@[j] == grown[j]
            }) by {
                if j < i {
                    assert(reserves@.subrange(0, i as int)[j] == grown[j]);
                }
            }
        }
        i += 1;
    }
    assert(reserves@.subrange(0, i as int) =~= reserves@);
    Some(out)
}

/// What a transfer of bad debt leaves behind.
pub struct BadDebtTransfer {
    /// The positions of the user, who owes nothing any more.
    pub user: Positions,
    /// The positions of the backstop, which owes what the user owed.
    pub backstop: Positions,
    /// The pool's reserves, those in which the user owed brought up to date.
    pub reserves: Vec<Reserve>,
}

/// Transfer bad debt from a user to the backstop. Validates that the user does hold bad
/// debt, brings every reserve in which the user owes up to time `now`, and transfers all
/// held debt shares to the backstop.
///
/// Returns the positions of the user and of the backstop after the transfer, and the
/// reserves. The debt shares of every reserve stay what they were in sum.
///
/// ### Errors
/// If the user does not have bad debt
pub fn transfer_bad_debt_to_backstop(
    user: Positions,
    backstop: Positions,
    reserves: &Vec<Reserve>,
    bstop_rate: i128,
    now: u64,
) -> (r: Result<BadDebtTransfer, PoolError>)
    requires
        user.collateral@.len() == POSITION_SLOTS,
        user.liabilities@.len() == POSITION_SLOTS,
        user.supply@.len() == POSITION_SLOTS,
        backstop.liabilities@.len() == POSITION_SLOTS,
        reserves@.len() <= POSITION_SLOTS,
    ensures
        !user.spec_is_bad_debt() ==> r is Err && r->Err_0 == PoolError::BadRequest,
        user.spec_is_bad_debt() && (owed_accrual_fails(
            reserves@,
            user.liabilities@,
            bstop_rate,
            now,
        ) || !debt_fits(user.liabilities@, backstop.liabilities@, POSITION_SLOTS as int)) ==> r
            is Err && r->Err_0 == PoolError::MathOverflow,
        user.spec_is_bad_debt() && !owed_accrual_fails(
            reserves@,
            user.liabilities@,
            bstop_rate,
            now,
        ) && debt_fits(user.liabilities@, backstop.liabilities@, POSITION_SLOTS as int) ==> r
            is Ok && debt_reassigned(user, backstop, r.unwrap().user, r.unwrap().backstop)
            && owed_accrued(reserves@, user.liabilities@, r.unwrap().reserves@, bstop_rate, now),
{
    if !user.is_bad_debt() {
        return Err(PoolError::BadRequest);
    }
    let accrued = match accrue_owed(reserves, &user.liabilities, bstop_rate, now) {
        Some(accrued) => accrued,
        None => {
            return Err(PoolError::MathOverflow);
        },
    };
    match reassign_debt(user, backstop) {
        Some(moved) => Ok(BadDebtTransfer { user: moved.0, backstop: moved.1, reserves: accrued }),
        None => Err(PoolError::MathOverflow),
    }
}

/// Whether a backstop is too empty to auction bad debt off: it holds less than a hundredth
/// of the threshold.
pub fn backstop_is_drained(backstop_tokens: i128, threshold: i128) -> (r: bool)
    ensures
        r == (backstop_tokens * 100 < threshold),
{
    match backstop_tokens.checked_mul(100) {
        Some(scaled) => scaled < threshold,
        None => backstop_tokens < 0,
    }
}

/// The reserve after `d_tokens` of bad debt have been written off: the debt shares leave
/// the reserve, and what they owed is taken off what the collateral shares redeem, so that
/// every supplier bears the loss in proportion.
pub open spec fn spec_burn_bad_debt(reserve: Reserve, d_tokens: i128) -> Option<Reserve> {
    if d_tokens < 0 || d_tokens > reserve.d_supply {
        None
    } else {
        match (reserve.spec_to_asset_from_d_token(d_tokens), reserve.spec_total_supply()) {
            (Some(lost), Some(supplied)) => {
                let d_supply = (reserve.d_supply - d_tokens) as i128;
                if reserve.b_supply == 0 {
                    Some(Reserve { d_supply, ..reserve })
                } else {
                    match supplied.checked_sub(lost) {
                        Some(left) => match checked_mul_div_floor(
                            left as int,
                            SCALAR_9 as int,
                            reserve.b_supply as int,
                        ) {
                            Some(b_rate) => Some(Reserve { d_supply, b_rate, ..reserve }),
                            None => None,
                        },
                        None => None,
                    }
                }
            },
            _ => None,
        }
    }
}

/// Writes bad debt that the backstop cannot cover off against the suppliers of a reserve.
/// Nothing is returned when more is written off than is owed, or on overflow.
pub fn burn_backstop_bad_debt(reserve: &Reserve, d_tokens: i128) -> (r: Option<Reserve>)
    ensures
        r == spec_burn_bad_debt(*reserve, d_tokens),
{
    if d_tokens < 0 || d_tokens > reserve.d_supply {
        return None;
    }
    let lost = reserve.to_asset_from_d_token(d_tokens)?;
    let supplied = reserve.total_supply()?;
    let mut next = *reserve;
    next.d_supply = reserve.d_supply - d_tokens;
    if reserve.b_supply == 0 {
        return Some(next);
    }
    let left = supplied.checked_sub(lost)?;
    let b_rate = div_floor(left, reserve.b_supply, SCALAR_9)?;
    next.b_rate = b_rate;
    Some(next)
}

} // verus!
