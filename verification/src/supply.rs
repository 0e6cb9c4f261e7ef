use crate::actions::Request;
use crate::errors::PoolError;
use crate::pool::PoolConfig;
use crate::positions::{Positions, POSITION_SLOTS};
use crate::reserve::Reserve;
use crate::submit::{
    check_health, liquidation_ends, spec_health_check, spec_initial_state, spec_submit_step,
    submit_step, SubmitState, Submission,
};
use vstd::prelude::*;

verus! {

/// The number that stands for a supply of collateral in a request.
pub const SUPPLY_COLLATERAL: u32 = 2;

/// What a supply leaves behind.
pub struct SupplyOutcome {
    /// The collateral shares minted.
    pub minted: i128,
    /// The pool and the user after the supply.
    pub state: Submission,
    /// Whether the supply ended a liquidation of the user.
    pub auction_deleted: bool,
}

/// What a supply of `amount` of the asset of reserve `asset` commits: the shares are
/// minted as collateral. A supply takes no collateral away and adds no debt, so it stands
/// whatever the user's health is.
pub open spec fn spec_supply(config: PoolConfig, init: SubmitState, asset: u32, amount: i128) -> Result<
    SubmitState,
    PoolError,
> {
    spec_submit_step(
        init,
        config.status,
        Request { request_type: SUPPLY_COLLATERAL, asset, amount },
    )
}

/// Whether a supply that leaves `state` behind ends the liquidation of its user: the user
/// is under liquidation and comes out healthy. Otherwise the liquidation is left as it is.
pub open spec fn spec_supply_ends_liquidation(
    state: SubmitState,
    being_liquidated: bool,
    prices: Seq<i128>,
    oracle_decimals: u32,
) -> bool {
    being_liquidated && spec_health_check(
        state.reserves,
        prices,
        oracle_decimals,
        state.collateral,
        state.liabilities,
    ) is Ok
}

/// Perform a supply of `amount` of the asset of reserve `asset` into the pool.
///
/// Returns the number of collateral shares minted, the state after the supply, and
/// whether the supply ended a liquidation of the user.
pub fn execute_supply(
    config: &PoolConfig,
    reserves: Vec<Reserve>,
    positions: Positions,
    asset: u32,
    amount: i128,
    being_liquidated: bool,
    prices: &Vec<i128>,
    oracle_decimals: u32,
) -> (r: Result<SupplyOutcome, PoolError>)
    requires
        reserves@.len() <= POSITION_SLOTS,
        prices@.len() == reserves@.len(),
        positions.collateral@.len() == POSITION_SLOTS,
        positions.liabilities@.len() == POSITION_SLOTS,
        positions.supply@.len() == POSITION_SLOTS,
    ensures
        match spec_supply(*config, spec_initial_state(reserves@, positions), asset, amount) {
            Ok(state) => r is Ok && r.unwrap().state@ == state && r.unwrap().auction_deleted
                == spec_supply_ends_liquidation(state, being_liquidated, prices@, oracle_decimals)
                && r.unwrap().minted == state.collateral[asset as int]
                - positions.collateral@[asset as int],
            Err(e) => r is Err && r->Err_0 == e,
        },
{
    let before = if (asset as usize) < POSITION_SLOTS {
        positions.collateral[asset as usize]
    } else {
        0
    };
    let request = Request { request_type: SUPPLY_COLLATERAL, asset, amount };
    let state = match submit_step(Submission::start(reserves, positions), config.status, request) {
        Ok(state) => state,
        Err(e) => {
            return Err(e);
        },
    };
    let auction_deleted = liquidation_ends(
        being_liquidated,
        &state.reserves,
        prices,
        oracle_decimals,
        &state.positions,
    );
    proof {
        let user = crate::actions::UserReserve {
            supply: positions.supply@[asset as int],
            collateral: positions.collateral@[asset as int],
            liabilities: positions.liabilities@[asset as int],
        };
        crate::actions::lemma_request_conserves_shares(
            crate::actions::RequestType::SupplyCollateral,
            reserves@[asset as int],
            config.status,
            user,
            amount,
        );
    }
    let minted = state.positions.collateral[asset as usize] - before;
    Ok(SupplyOutcome { minted, state, auction_deleted })
}

/// The pledged and unpledged balances of reserve `asset` after collateral has been
/// switched on or off: switching off moves what is pledged to the unpledged balance,
/// switching on moves the unpledged balance to the pledged one when nothing is pledged.
/// Nothing held in the reserve is a bad request.
pub open spec fn spec_update_collateral(collateral: i128, supply: i128, enable: bool) -> Result<
    (i128, i128),
    PoolError,
> {
    if collateral == 0 && supply == 0 {
        Err(PoolError::BadRequest)
    } else if collateral != 0 && !enable {
        match supply.checked_add(collateral) {
            Some(moved) => Ok((0i128, moved)),
            None => Err(PoolError::MathOverflow),
        }
    } else if collateral == 0 && enable {
        Ok((supply, 0i128))
    } else {
        Ok((collateral, supply))
    }
}

/// What switching the collateral of reserve `asset` on or off commits: the pledged and the
/// unpledged balances of the user, by reserve index. Switching pledged collateral off is
/// committed only if the user is healthy without it.
pub open spec fn spec_execute_update_collateral(
    reserves: Seq<Reserve>,
    prices: Seq<i128>,
    oracle_decimals: u32,
    collateral: Seq<i128>,
    supply: Seq<i128>,
    liabilities: Seq<i128>,
    asset: u32,
    enable: bool,
) -> Result<(Seq<i128>, Seq<i128>), PoolError> {
    if asset >= reserves.len() {
        Err(PoolError::BadRequest)
    } else {
        match spec_update_collateral(collateral[asset as int], supply[asset as int], enable) {
            Err(e) => Err(e),
            Ok(moved) => {
                let pledged = collateral.update(asset as int, moved.0);
                let unpledged = supply.update(asset as int, moved.1);
                if collateral[asset as int] != 0 && !enable {
                    match spec_health_check(
                        reserves,
                        prices,
                        oracle_decimals,
                        pledged,
                        liabilities,
                    ) {
                        Err(e) => Err(e),
                        Ok(_) => Ok((pledged, unpledged)),
                    }
                } else {
                    Ok((pledged, unpledged))
                }
            },
        }
    }
}

/// A switch of collateral that commits leaves the user healthy, unless it took no
/// collateral away; and it leaves the shares that the user holds in every reserve, pledged
/// and unpledged together, what they were.
pub proof fn lemma_update_collateral_is_healthy_or_harmless(
    reserves: Seq<Reserve>,
    prices: Seq<i128>,
    oracle_decimals: u32,
    collateral: Seq<i128>,
    supply: Seq<i128>,
    liabilities: Seq<i128>,
    asset: u32,
    enable: bool,
)
    requires
        reserves.len() <= POSITION_SLOTS,
        collateral.len() == POSITION_SLOTS,
        supply.len() == POSITION_SLOTS,
        forall|i: int| 0 <= i < POSITION_SLOTS ==> supply[i] >= 0,
        spec_execute_update_collateral(
            reserves,
            prices,
            oracle_decimals,
            collateral,
            supply,
            liabilities,
            asset,
            enable,
        ) is Ok,
    ensures
        ({
            let after = spec_execute_update_collateral(
                reserves,
                prices,
                oracle_decimals,
                collateral,
                supply,
                liabilities,
                asset,
                enable,
            ).unwrap();
            &&& spec_health_check(reserves, prices, oracle_decimals, after.0, liabilities) is Ok
                || forall|i: int| 0 <= i < POSITION_SLOTS ==> after.0[i] >= collateral[i]
            &&& forall|i: int|
                0 <= i < POSITION_SLOTS ==> after.0[i] + after.1[i] == collateral[i] + supply[i]
        }),
{
}

/// Perform an update of the collateral status of the user's shares in reserve `asset`.
///
/// Returns the user's positions after the update. Switching pledged collateral off is
/// committed only if the user is healthy without it.
pub fn execute_update_collateral(
    reserves: &Vec<Reserve>,
    positions: Positions,
    asset: u32,
    enable: bool,
    prices: &Vec<i128>,
    oracle_decimals: u32,
) -> (r: Result<Positions, PoolError>)
    requires
        reserves@.len() <= POSITION_SLOTS,
        prices@.len() == reserves@.len(),
        positions.collateral@.len() == POSITION_SLOTS,
        positions.liabilities@.len() == POSITION_SLOTS,
        positions.supply@.len() == POSITION_SLOTS,
    ensures
        match spec_execute_update_collateral(
            reserves@,
            prices@,
            oracle_decimals,
            positions.collateral@,
            positions.supply@,
            positions.liabilities@,
            asset,
            enable,
        ) {
            Ok(after) => r is Ok && r.unwrap().collateral@ == after.0 && r.unwrap().supply@
                == after.1 && r.unwrap().liabilities@ == positions.liabilities@,
            Err(e) => r is Err && r->Err_0 == e,
        },
{
    if asset as usize >= reserves.len() {
        return Err(PoolError::BadRequest);
    }
    let mut positions = positions;
    let collateral = positions.get_collateral(asset);
    let supply = positions.get_supply(asset);
    if collateral == 0 && supply == 0 {
        return Err(PoolError::BadRequest);
    }
    if collateral != 0 && !enable {
        let moved = match supply.checked_add(collateral) {
            Some(v) => v,
            None => {
                return Err(PoolError::MathOverflow);
            },
        };
        positions.set_collateral(asset, 0);
        positions.set_supply(asset, moved);
        match check_health(reserves, prices, oracle_decimals, &positions) {
            Ok(_) => {},
            Err(e) => {
                return Err(e);
            },
        }
    } else if collateral == 0 && enable {
        positions.set_collateral(asset, supply);
        positions.set_supply(asset, 0);
    } else {
        assert(positions.collateral@.update(asset as int, collateral) =~= positions.collateral@);
        assert(positions.supply@.update(asset as int, supply) =~= positions.supply@);
    }
    Ok(positions)
}

} // verus!
