use crate::errors::PoolError;
use crate::reserve::Reserve;
use vstd::prelude::*;

verus! {

/// What a request asks the pool to do.
#[derive(Clone, Copy, Debug, PartialEq, Eq, Structural)]
pub enum RequestType {
    Supply,
    Withdraw,
    SupplyCollateral,
    WithdrawCollateral,
    Borrow,
    Repay,
    FillUserLiquidationAuction,
    FillBadDebtAuction,
    FillInterestAuction,
    DeleteLiquidationAuction,
}

impl RequestType {
    /// The kind that a number stands for, if any.
    pub open spec fn spec_from_u32(value: u32) -> Option<RequestType> {
        if value == 0 {
            Some(RequestType::Supply)
        } else if value == 1 {
            Some(RequestType::Withdraw)
        } else if value == 2 {
            Some(RequestType::SupplyCollateral)
        } else if value == 3 {
            Some(RequestType::WithdrawCollateral)
        } else if value == 4 {
            Some(RequestType::Borrow)
        } else if value == 5 {
            Some(RequestType::Repay)
        } else if value == 6 {
            Some(RequestType::FillUserLiquidationAuction)
        } else if value == 7 {
            Some(RequestType::FillBadDebtAuction)
        } else if value == 8 {
            Some(RequestType::FillInterestAuction)
        } else if value == 9 {
            Some(RequestType::DeleteLiquidationAuction)
        } else {
            None
        }
    }

    /// The kind that a number stands for, if any.
    pub fn from_u32(value: u32) -> (r: Option<RequestType>)
        ensures
            r == Self::spec_from_u32(value),
    {
        if value == 0 {
            Some(RequestType::Supply)
        } else if value == 1 {
            Some(RequestType::Withdraw)
        } else if value == 2 {
            Some(RequestType::SupplyCollateral)
        } else if value == 3 {
            Some(RequestType::WithdrawCollateral)
        } else if value == 4 {
            Some(RequestType::Borrow)
        } else if value == 5 {
            Some(RequestType::Repay)
        } else if value == 6 {
            Some(RequestType::FillUserLiquidationAuction)
        } else if value == 7 {
            Some(RequestType::FillBadDebtAuction)
        } else if value == 8 {
            Some(RequestType::FillInterestAuction)
        } else if value == 9 {
            Some(RequestType::DeleteLiquidationAuction)
        } else {
            None
        }
    }

    /// Whether a pool in `status` turns the kind away: a frozen pool takes no supply,
    /// withdrawal or borrow, and a pool on ice takes no borrow.
    pub open spec fn spec_rejected_in(self, status: u32) -> bool {
        match self {
            RequestType::Borrow => status > 0,
            RequestType::Supply => status == 2,
            RequestType::Withdraw => status == 2,
            RequestType::SupplyCollateral => status == 2,
            RequestType::WithdrawCollateral => status == 2,
            _ => false,
        }
    }

    /// Whether a pool in `status` turns the kind away.
    pub fn rejected_in(self, status: u32) -> (r: bool)
        ensures
            r == self.spec_rejected_in(status),
    {
        match self {
            RequestType::Borrow => status > 0,
            RequestType::Supply => status == 2,
            RequestType::Withdraw => status == 2,
            RequestType::SupplyCollateral => status == 2,
            RequestType::WithdrawCollateral => status == 2,
            _ => false,
        }
    }
}

/// One request of a submission.
#[derive(Clone, Copy, Debug, PartialEq, Eq, Structural)]
pub struct Request {
    /// The number of the kind of request.
    pub request_type: u32,
    /// The index of the reserve that holds the asset.
    pub asset: u32,
    /// The amount of the asset.
    pub amount: i128,
}

/// Where a request goes: to the shares of a reserve, or to an auction, which it fills by
/// the percentage that its amount gives, or deletes.
#[derive(Clone, Copy, Debug, PartialEq, Eq, Structural)]
pub enum Route {
    Shares(RequestType),
    FillUserLiquidation,
    FillBadDebt,
    FillInterest,
    DeleteLiquidation,
}

/// Where a request goes. A negative amount is turned away first, then an unknown kind.
pub open spec fn spec_route(request: Request) -> Result<Route, PoolError> {
    if request.amount < 0 {
        Err(PoolError::NegativeAmount)
    } else {
        match RequestType::spec_from_u32(request.request_type) {
            None => Err(PoolError::BadRequest),
            Some(RequestType::FillUserLiquidationAuction) => Ok(Route::FillUserLiquidation),
            Some(RequestType::FillBadDebtAuction) => Ok(Route::FillBadDebt),
            Some(RequestType::FillInterestAuction) => Ok(Route::FillInterest),
            Some(RequestType::DeleteLiquidationAuction) => Ok(Route::DeleteLiquidation),
            Some(kind) => Ok(Route::Shares(kind)),
        }
    }
}

/// Decides where a request goes.
pub fn route(request: &Request) -> (r: Result<Route, PoolError>)
    ensures
        r == spec_route(*request),
{
    if request.amount < 0 {
        return Err(PoolError::NegativeAmount);
    }
    match RequestType::from_u32(request.request_type) {
        None => Err(PoolError::BadRequest),
        Some(RequestType::FillUserLiquidationAuction) => Ok(Route::FillUserLiquidation),
        Some(RequestType::FillBadDebtAuction) => Ok(Route::FillBadDebt),
        Some(RequestType::FillInterestAuction) => Ok(Route::FillInterest),
        Some(RequestType::DeleteLiquidationAuction) => Ok(Route::DeleteLiquidation),
        Some(kind) => Ok(Route::Shares(kind)),
    }
}

/// The share balances of one user in one reserve.
#[derive(Clone, Copy, Debug, PartialEq, Eq, Structural)]
pub struct UserReserve {
    /// Collateral shares held but not pledged.
    pub supply: i128,
    /// Collateral shares pledged.
    pub collateral: i128,
    /// Debt shares owed.
    pub liabilities: i128,
}

/// What one request did to a reserve and to the user's balances in it.
#[derive(Clone, Copy, Debug, PartialEq, Eq, Structural)]
pub struct ActionResult {
    /// The reserve after the request.
    pub reserve: Reserve,
    /// The user's balances after the request.
    pub user: UserReserve,
    /// Assets the payer owes the pool.
    pub tokens_in: i128,
    /// Assets the pool owes the recipient.
    pub tokens_out: i128,
    /// Whether the request took collateral away or added debt.
    pub check_health: bool,
}

/// Supplying `amount` assets mints the shares they are worth, rounded down, to the
/// unpledged or the pledged balance.
pub open spec fn spec_mint_shares(
    reserve: Reserve,
    user: UserReserve,
    amount: i128,
    pledged: bool,
) -> Result<ActionResult, PoolError> {
    let held = if pledged {
        user.collateral
    } else {
        user.supply
    };
    match reserve.spec_to_b_token_down(amount) {
        Some(minted) => match (reserve.b_supply.checked_add(minted), held.checked_add(minted)) {
            (Some(b_supply), Some(balance)) => Ok(
                ActionResult {
                    reserve: Reserve { b_supply, ..reserve },
                    user: if pledged {
                        UserReserve { collateral: balance, ..user }
                    } else {
                        UserReserve { supply: balance, ..user }
                    },
                    tokens_in: amount,
                    tokens_out: 0,
                    check_health: false,
                },
            ),
            _ => Err(PoolError::MathOverflow),
        },
        None => Err(PoolError::MathOverflow),
    }
}

/// Withdrawing `amount` assets burns the shares they are worth, rounded up, and at most
/// the shares held, which then pay out what they redeem. The reserve must stay within its
/// utilization cap.
pub open spec fn spec_burn_shares(
    reserve: Reserve,
    user: UserReserve,
    amount: i128,
    pledged: bool,
) -> Result<ActionResult, PoolError> {
    let held = if pledged {
        user.collateral
    } else {
        user.supply
    };
    match reserve.spec_to_b_token_up(amount) {
        Some(wanted) => {
            let burn = if wanted > held {
                held
            } else {
                wanted
            };
            let paid = if wanted > held {
                reserve.spec_to_asset_from_b_token(held)
            } else {
                Some(amount)
            };
            match paid {
                Some(tokens_out) => if 0 <= burn <= reserve.b_supply {
                    let next = Reserve { b_supply: (reserve.b_supply - burn) as i128, ..reserve };
                    match next.spec_check_utilization() {
                        Ok(_) => Ok(
                            ActionResult {
                                reserve: next,
                                user: if pledged {
                                    UserReserve { collateral: (held - burn) as i128, ..user }
                                } else {
                                    UserReserve { supply: (held - burn) as i128, ..user }
                                },
                                tokens_in: 0,
                                tokens_out,
                                check_health: pledged,
                            },
                        ),
                        Err(e) => Err(e),
                    }
                } else {
                    Err(PoolError::MathOverflow)
                },
                None => Err(PoolError::MathOverflow),
            }
        },
        None => Err(PoolError::MathOverflow),
    }
}

/// Borrowing `amount` assets mints the debt shares they are worth, rounded up. The reserve
/// must stay within its utilization cap.
pub open spec fn spec_borrow(reserve: Reserve, user: UserReserve, amount: i128) -> Result<
    ActionResult,
    PoolError,
> {
    match reserve.spec_to_d_token_up(amount) {
        Some(minted) => match (
            reserve.d_supply.checked_add(minted),
            user.liabilities.checked_add(minted),
        ) {
            (Some(d_supply), Some(liabilities)) => {
                let next = Reserve { d_supply, ..reserve };
                match next.spec_check_utilization() {
                    Ok(_) => Ok(
                        ActionResult {
                            reserve: next,
                            user: UserReserve { liabilities, ..user },
                            tokens_in: 0,
                            tokens_out: amount,
                            check_health: true,
                        },
                    ),
                    Err(e) => Err(e),
                }
            },
            _ => Err(PoolError::MathOverflow),
        },
        None => Err(PoolError::MathOverflow),
    }
}

/// Repaying `amount` assets burns the debt shares they are worth, rounded down, and at
/// most the shares owed, which then cost what they owe.
pub open spec fn spec_repay(reserve: Reserve, user: UserReserve, amount: i128) -> Result<
    ActionResult,
    PoolError,
> {
    match reserve.spec_to_d_token_down(amount) {
        Some(wanted) => {
            let burn = if wanted > user.liabilities {
                user.liabilities
            } else {
                wanted
            };
            let paid = if wanted > user.liabilities {
                reserve.spec_to_asset_from_d_token(user.liabilities)
            } else {
                Some(amount)
            };
            match paid {
                Some(tokens_in) => if 0 <= burn <= reserve.d_supply {
                    Ok(
                        ActionResult {
                            reserve: Reserve {
                                d_supply: (reserve.d_supply - burn) as i128,
                                ..reserve
                            },
                            user: UserReserve {
                                liabilities: (user.liabilities - burn) as i128,
                                ..user
                            },
                            tokens_in,
                            tokens_out: 0,
                            check_health: false,
                        },
                    )
                } else {
                    Err(PoolError::MathOverflow)
                },
                None => Err(PoolError::MathOverflow),
            }
        },
        None => Err(PoolError::MathOverflow),
    }
}

/// What a share request does: a negative amount is turned away first, then a kind that the
/// pool's status does not admit; a kind that touches an auction is no share request.
pub open spec fn spec_apply_request(
    kind: RequestType,
    reserve: Reserve,
    status: u32,
    user: UserReserve,
    amount: i128,
) -> Result<ActionResult, PoolError> {
    if amount < 0 {
        Err(PoolError::NegativeAmount)
    } else if kind.spec_rejected_in(status) {
        Err(PoolError::InvalidPoolStatus)
    } else {
        match kind {
            RequestType::Supply => spec_mint_shares(reserve, user, amount, false),
            RequestType::SupplyCollateral => spec_mint_shares(reserve, user, amount, true),
            RequestType::Withdraw => spec_burn_shares(reserve, user, amount, false),
            RequestType::WithdrawCollateral => spec_burn_shares(reserve, user, amount, true),
            RequestType::Borrow => spec_borrow(reserve, user, amount),
            RequestType::Repay => spec_repay(reserve, user, amount),
            _ => Err(PoolError::BadRequest),
        }
    }
}

fn mint_shares(reserve: &Reserve, user: UserReserve, amount: i128, pledged: bool) -> (r: Result<
    ActionResult,
    PoolError,
>)
    ensures
        r == spec_mint_shares(*reserve, user, amount, pledged),
{
    let held = if pledged {
        user.collateral
    } else {
        user.supply
    };
    let minted = match reserve.to_b_token_down(amount) {
        Some(v) => v,
        None => {
            return Err(PoolError::MathOverflow);
        },
    };
    match (reserve.b_supply.checked_add(minted), held.checked_add(minted)) {
        (Some(b_supply), Some(balance)) => {
            let mut next = *reserve;
            next.b_supply = b_supply;
            let mut after = user;
            if pledged {
                after.collateral = balance;
            } else {
                after.supply = balance;
            }
            Ok(
                ActionResult {
                    reserve: next,
                    user: after,
                    tokens_in: amount,
                    tokens_out: 0,
                    check_health: false,
                },
            )
        },
        _ => Err(PoolError::MathOverflow),
    }
}

fn burn_shares(reserve: &Reserve, user: UserReserve, amount: i128, pledged: bool) -> (r: Result<
    ActionResult,
    PoolError,
>)
    ensures
        r == spec_burn_shares(*reserve, user, amount, pledged),
{
    let held = if pledged {
        user.collateral
    } else {
        user.supply
    };
    let wanted = match reserve.to_b_token_up(amount) {
        Some(v) => v,
        None => {
            return Err(PoolError::MathOverflow);
        },
    };
    let burn = if wanted > held {
        held
    } else {
        wanted
    };
    let paid = if wanted > held {
        reserve.to_asset_from_b_token(held)
    } else {
        Some(amount)
    };
    let tokens_out = match paid {
        Some(v) => v,
        None => {
            return Err(PoolError::MathOverflow);
        },
    };
    if !(0 <= burn && burn <= reserve.b_supply) {
        return Err(PoolError::MathOverflow);
    }
    let mut next = *reserve;
    next.b_supply = reserve.b_supply - burn;
    match next.require_utilization_below_max() {
        Ok(_) => {},
        Err(e) => {
            return Err(e);
        },
    }
    let mut after = user;
    if pledged {
        after.collateral = held - burn;
    } else {
        after.supply = held - burn;
    }
    Ok(
        ActionResult {
            reserve: next,
            user: after,
            tokens_in: 0,
            tokens_out,
            check_health: pledged,
        },
    )
}

fn borrow(reserve: &Reserve, user: UserReserve, amount: i128) -> (r: Result<
    ActionResult,
    PoolError,
>)
    ensures
        r == spec_borrow(*reserve, user, amount),
{
    let minted = match reserve.to_d_token_up(amount) {
        Some(v) => v,
        None => {
            return Err(PoolError::MathOverflow);
        },
    };
    match (reserve.d_supply.checked_add(minted), user.liabilities.checked_add(minted)) {
        (Some(d_supply), Some(liabilities)) => {
            let mut next = *reserve;
            next.d_supply = d_supply;
            match next.require_utilization_below_max() {
                Ok(_) => {},
                Err(e) => {
                    return Err(e);
                },
            }
            let mut after = user;
            after.liabilities = liabilities;
            Ok(
                ActionResult {
                    reserve: next,
                    user: after,
                    tokens_in: 0,
                    tokens_out: amount,
                    check_health: true,
                },
            )
        },
        _ => Err(PoolError::MathOverflow),
    }
}

fn repay(reserve: &Reserve, user: UserReserve, amount: i128) -> (r: Result<
    ActionResult,
    PoolError,
>)
    ensures
        r == spec_repay(*reserve, user, amount),
{
    let wanted = match reserve.to_d_token_down(amount) {
        Some(v) => v,
        None => {
            return Err(PoolError::MathOverflow);
        },
    };
    let burn = if wanted > user.liabilities {
        user.liabilities
    } else {
        wanted
    };
    let paid = if wanted > user.liabilities {
        reserve.to_asset_from_d_token(user.liabilities)
    } else {
        Some(amount)
    };
    let tokens_in = match paid {
        Some(v) => v,
        None => {
            return Err(PoolError::MathOverflow);
        },
    };
    if !(0 <= burn && burn <= reserve.d_supply) {
        return Err(PoolError::MathOverflow);
    }
    let mut next = *reserve;
    next.d_supply = reserve.d_supply - burn;
    let mut after = user;
    after.liabilities = user.liabilities - burn;
    Ok(ActionResult { reserve: next, user: after, tokens_in, tokens_out: 0, check_health: false })
}

/// Applies one share request to a reserve that has been brought up to date and to the
/// user's balances in it.
pub fn apply_request(
    kind: RequestType,
    reserve: &Reserve,
    status: u32,
    user: UserReserve,
    amount: i128,
) -> (r: Result<ActionResult, PoolError>)
    ensures
        r == spec_apply_request(kind, *reserve, status, user, amount),
{
    if amount < 0 {
        return Err(PoolError::NegativeAmount);
    }
    if kind.rejected_in(status) {
        return Err(PoolError::InvalidPoolStatus);
    }
    match kind {
        RequestType::Supply => mint_shares(reserve, user, amount, false),
        RequestType::SupplyCollateral => mint_shares(reserve, user, amount, true),
        RequestType::Withdraw => burn_shares(reserve, user, amount, false),
        RequestType::WithdrawCollateral => burn_shares(reserve, user, amount, true),
        RequestType::Borrow => borrow(reserve, user, amount),
        RequestType::Repay => repay(reserve, user, amount),
        _ => Err(PoolError::BadRequest),
    }
}

/// Every request changes the reserve's share totals by exactly what it changes the user's
/// balances, and changes nothing else of the reserve.
pub proof fn lemma_request_conserves_shares(
    kind: RequestType,
    reserve: Reserve,
    status: u32,
    user: UserReserve,
    amount: i128,
)
    requires
        spec_apply_request(kind, reserve, status, user, amount) is Ok,
    ensures
        ({
            let done = spec_apply_request(kind, reserve, status, user, amount).unwrap();
            &&& done.reserve.b_supply - reserve.b_supply == (done.user.supply
                + done.user.collateral) - (user.supply + user.collateral)
            &&& done.reserve.d_supply - reserve.d_supply == done.user.liabilities
                - user.liabilities
            &&& done.reserve == Reserve {
                b_supply: done.reserve.b_supply,
                d_supply: done.reserve.d_supply,
                ..reserve
            }
        }),
{
}

/// The shares that all users hold in a reserve add up to the reserve's totals after a
/// request if they did before: `b_holdings` and `d_holdings` give each user's collateral
/// and debt shares in the reserve, and `who` is the user that the request is for.
pub proof fn lemma_request_keeps_share_totals(
    b_holdings: Seq<int>,
    d_holdings: Seq<int>,
    who: int,
    kind: RequestType,
    reserve: Reserve,
    status: u32,
    user: UserReserve,
    amount: i128,
)
    requires
        0 <= who < b_holdings.len(),
        0 <= who < d_holdings.len(),
        crate::ledger::total(b_holdings) == reserve.b_supply,
        crate::ledger::total(d_holdings) == reserve.d_supply,
        b_holdings[who] == user.supply + user.collateral,
        d_holdings[who] == user.liabilities,
        spec_apply_request(kind, reserve, status, user, amount) is Ok,
    ensures
        ({
            let done = spec_apply_request(kind, reserve, status, user, amount).unwrap();
            &&& crate::ledger::total(b_holdings.update(who, done.user.supply + done.user.collateral))
                == done.reserve.b_supply
            &&& crate::ledger::total(d_holdings.update(who, done.user.liabilities as int))
                == done.reserve.d_supply
        }),
{
    let done = spec_apply_request(kind, reserve, status, user, amount).unwrap();
    lemma_request_conserves_shares(kind, reserve, status, user, amount);
    crate::ledger::lemma_total_follows_supply(
        b_holdings,
        who,
        done.user.supply + done.user.collateral,
        reserve.b_supply as int,
        done.reserve.b_supply as int,
    );
    crate::ledger::lemma_total_follows_supply(
        d_holdings,
        who,
        done.user.liabilities as int,
        reserve.d_supply as int,
        done.reserve.d_supply as int,
    );
}

/// A request leaves a reserve in its ranges. One that does not ask for a health check takes
/// no collateral away and adds no debt; on a user whose balances are not negative it leaves
/// none negative.
pub proof fn lemma_request_without_check_is_harmless(
    kind: RequestType,
    reserve: Reserve,
    status: u32,
    user: UserReserve,
    amount: i128,
)
    requires
        reserve.wf(),
        spec_apply_request(kind, reserve, status, user, amount) is Ok,
    ensures
        ({
            let done = spec_apply_request(kind, reserve, status, user, amount).unwrap();
            &&& done.reserve.wf()
            &&& !done.check_health ==> done.user.collateral >= user.collateral
                && done.user.liabilities <= user.liabilities
            &&& user.supply >= 0 && user.collateral >= 0 && user.liabilities >= 0
                ==> done.user.supply >= 0 && done.user.collateral >= 0 && done.user.liabilities
                >= 0
        }),
{
    let one = crate::constants::SCALAR_9 as int;
    if reserve.b_rate > 0 {
        crate::fixed_math::lemma_mul_div_nonnegative(amount as int, one, reserve.b_rate as int);
    }
    if reserve.d_rate > 0 {
        crate::fixed_math::lemma_mul_div_nonnegative(amount as int, one, reserve.d_rate as int);
    }
}

/// A request leaves a solvent reserve solvent and a reserve in its ranges in its ranges.
pub proof fn lemma_request_keeps_solvency(
    kind: RequestType,
    reserve: Reserve,
    status: u32,
    user: UserReserve,
    amount: i128,
)
    requires
        reserve.wf(),
        reserve.solvent(),
        spec_apply_request(kind, reserve, status, user, amount) is Ok,
    ensures
        spec_apply_request(kind, reserve, status, user, amount).unwrap().reserve.wf(),
        spec_apply_request(kind, reserve, status, user, amount).unwrap().reserve.solvent(),
{
    let done = spec_apply_request(kind, reserve, status, user, amount).unwrap();
    let one = crate::constants::SCALAR_9 as int;
    match kind {
        RequestType::Supply | RequestType::SupplyCollateral => {
            crate::fixed_math::lemma_mul_div_nonnegative(amount as int, one, reserve.b_rate as int);
            crate::fixed_math::lemma_mul_div_monotonic(
                reserve.b_rate as int,
                reserve.b_supply as int,
                done.reserve.b_supply as int,
                one,
            );
        },
        RequestType::Withdraw | RequestType::WithdrawCollateral => {
            crate::reserve::lemma_capped_utilization_is_solvent(done.reserve);
        },
        RequestType::Borrow => {
            crate::fixed_math::lemma_mul_div_nonnegative(amount as int, one, reserve.d_rate as int);
            crate::reserve::lemma_capped_utilization_is_solvent(done.reserve);
        },
        RequestType::Repay => {
            crate::fixed_math::lemma_mul_div_monotonic(
                reserve.d_rate as int,
                done.reserve.d_supply as int,
                reserve.d_supply as int,
                one,
            );
        },
        _ => {},
    }
}

} // verus!
