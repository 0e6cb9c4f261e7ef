use crate::actions::{
    apply_request, lemma_request_without_check_is_harmless, spec_apply_request, Request,
    RequestType, UserReserve,
};
use crate::constants::SCALAR_7;
use crate::errors::PoolError;
use crate::health_factor::{spec_position_data, PositionData};
use crate::pool::PoolConfig;
use crate::positions::{count_nonzero, Positions, POSITION_SLOTS};
use crate::reserve::Reserve;
use vstd::prelude::*;

verus! {

/// The state that a submission works on: the pool's reserves, the user's balances by
/// reserve index, and the assets owed to and by the pool so far.
pub struct SubmitState {
    pub reserves: Seq<Reserve>,
    pub liabilities: Seq<i128>,
    pub collateral: Seq<i128>,
    pub supply: Seq<i128>,
    pub tokens_in: Seq<i128>,
    pub tokens_out: Seq<i128>,
    pub check_health: bool,
}

/// What a submission leaves behind when it commits.
pub struct Submission {
    /// The pool's reserves after the requests.
    pub reserves: Vec<Reserve>,
    /// The user's positions after the requests.
    pub positions: Positions,
    /// Assets the payer owes the pool, by reserve index.
    pub tokens_in: Vec<i128>,
    /// Assets the pool owes the recipient, by reserve index.
    pub tokens_out: Vec<i128>,
    /// Whether a request took collateral away or added debt.
    pub check_health: bool,
}

impl Submission {
    /// The state as a mathematical value.
    pub open spec fn view(&self) -> SubmitState {
        SubmitState {
            reserves: self.reserves@,
            liabilities: self.positions.liabilities@,
            collateral: self.positions.collateral@,
            supply: self.positions.supply@,
            tokens_in: self.tokens_in@,
            tokens_out: self.tokens_out@,
            check_health: self.check_health,
        }
    }
}

/// The state before the first request: nothing owed either way and no health check due.
pub open spec fn spec_initial_state(reserves: Seq<Reserve>, positions: Positions) -> SubmitState {
    SubmitState {
        reserves,
        liabilities: positions.liabilities@,
        collateral: positions.collateral@,
        supply: positions.supply@,
        tokens_in: Seq::new(reserves.len(), |i: int| 0i128),
        tokens_out: Seq::new(reserves.len(), |i: int| 0i128),
        check_health: false,
    }
}

/// The state after one request. A negative amount is turned away first, then an unknown
/// kind or reserve; after the request has been applied, what it owes is added up.
pub open spec fn spec_submit_step(state: SubmitState, status: u32, request: Request) -> Result<
    SubmitState,
    PoolError,
> {
    if request.amount < 0 {
        Err(PoolError::NegativeAmount)
    } else {
        match RequestType::spec_from_u32(request.request_type) {
            None => Err(PoolError::BadRequest),
            Some(kind) => if request.asset >= state.reserves.len() {
                Err(PoolError::BadRequest)
            } else {
                let i = request.asset as int;
                let user = UserReserve {
                    supply: state.supply[i],
                    collateral: state.collateral[i],
                    liabilities: state.liabilities[i],
                };
                match spec_apply_request(kind, state.reserves[i], status, user, request.amount) {
                    Err(e) => Err(e),
                    Ok(done) => match (
                        state.tokens_in[i].checked_add(done.tokens_in),
                        state.tokens_out[i].checked_add(done.tokens_out),
                    ) {
                        (Some(tokens_in), Some(tokens_out)) => Ok(
                            SubmitState {
                                reserves: state.reserves.update(i, done.reserve),
                                liabilities: state.liabilities.update(i, done.user.liabilities),
                                collateral: state.collateral.update(i, done.user.collateral),
                                supply: state.supply.update(i, done.user.supply),
                                tokens_in: state.tokens_in.update(i, tokens_in),
                                tokens_out: state.tokens_out.update(i, tokens_out),
                                check_health: state.check_health || done.check_health,
                            },
                        ),
                        _ => Err(PoolError::MathOverflow),
                    },
                }
            },
        }
    }
}

/// The state after the first `n` requests, or the first failure among them.
pub open spec fn spec_submit_fold(
    init: SubmitState,
    status: u32,
    requests: Seq<Request>,
    n: int,
) -> Result<SubmitState, PoolError>
    decreases n,
{
    if n <= 0 {
        Ok(init)
    } else {
        match spec_submit_fold(init, status, requests, n - 1) {
            Ok(state) => spec_submit_step(state, status, requests[n - 1]),
            Err(e) => Err(e),
        }
    }
}

/// Whether positions are healthy at the given prices: their value can be computed and the
/// health factor is not under one.
pub open spec fn spec_health_check(
    reserves: Seq<Reserve>,
    prices: Seq<i128>,
    oracle_decimals: u32,
    collateral: Seq<i128>,
    liabilities: Seq<i128>,
) -> Result<(), PoolError> {
    match spec_position_data(reserves, prices, oracle_decimals, collateral, liabilities) {
        None => Err(PoolError::MathOverflow),
        Some(data) => if data.liability_base == 0 {
            Ok(())
        } else if data.scalar.checked_mul(SCALAR_7) is None || !data.spec_health_factor_fits() {
            Err(PoolError::MathOverflow)
        } else if data.spec_is_hf_under(SCALAR_7) {
            Err(PoolError::InvalidHf)
        } else {
            Ok(())
        },
    }
}

/// The checks that close a submission, on the state after its requests.
pub open spec fn spec_finish(
    config: PoolConfig,
    state: SubmitState,
    prices: Seq<i128>,
    oracle_decimals: u32,
) -> Result<(), PoolError> {
    let health = if state.check_health {
        spec_health_check(
            state.reserves,
            prices,
            oracle_decimals,
            state.collateral,
            state.liabilities,
        )
    } else {
        Ok(())
    };
    match health {
        Err(e) => Err(e),
        Ok(_) => if count_nonzero(state.collateral, POSITION_SLOTS as int) + count_nonzero(
            state.liabilities,
            POSITION_SLOTS as int,
        ) > config.max_positions {
            Err(PoolError::MaxPositionsExceeded)
        } else {
            Ok(())
        },
    }
}

/// What a submission commits: the state after all requests, provided that the user is
/// healthy if a request took collateral away or added debt, and holds no more positions
/// than the pool allows. Otherwise the first failure.
pub open spec fn spec_submit(
    config: PoolConfig,
    init: SubmitState,
    requests: Seq<Request>,
    prices: Seq<i128>,
    oracle_decimals: u32,
) -> Result<SubmitState, PoolError> {
    match spec_submit_fold(init, config.status, requests, requests.len() as int) {
        Err(e) => Err(e),
        Ok(state) => match spec_finish(config, state, prices, oracle_decimals) {
            Err(e) => Err(e),
            Ok(_) => Ok(state),
        },
    }
}

/// Once a request has failed, the failure stands whatever follows.
pub proof fn lemma_fold_keeps_failure(
    init: SubmitState,
    status: u32,
    requests: Seq<Request>,
    n: int,
    m: int,
)
    requires
        0 <= n <= m,
        spec_submit_fold(init, status, requests, n) is Err,
    ensures
        spec_submit_fold(init, status, requests, m) == spec_submit_fold(init, status, requests, n),
    decreases m - n,
{
    if n < m {
        lemma_fold_keeps_failure(init, status, requests, n, m - 1);
    }
}

/// The shape that the requests keep: one balance slot per reserve index, one tally per
/// reserve, and every reserve in its ranges.
pub open spec fn spec_state_wf(state: SubmitState) -> bool {
    &&& state.reserves.len() <= POSITION_SLOTS
    &&& state.liabilities.len() == POSITION_SLOTS
    &&& state.collateral.len() == POSITION_SLOTS
    &&& state.supply.len() == POSITION_SLOTS
    &&& state.tokens_in.len() == state.reserves.len()
    &&& state.tokens_out.len() == state.reserves.len()
    &&& forall|i: int| 0 <= i < state.reserves.len() ==> (#[trigger] state.reserves[i]).wf()
}

/// As long as no request has asked for a health check, no collateral balance has shrunk and
/// no debt balance has grown.
pub proof fn lemma_fold_without_check_is_harmless(
    init: SubmitState,
    status: u32,
    requests: Seq<Request>,
    n: int,
)
    requires
        spec_state_wf(init),
        !init.check_health,
        0 <= n <= requests.len(),
        spec_submit_fold(init, status, requests, n) is Ok,
    ensures
        spec_state_wf(spec_submit_fold(init, status, requests, n).unwrap()),
        !spec_submit_fold(init, status, requests, n).unwrap().check_health ==> forall|i: int|
            0 <= i < POSITION_SLOTS ==> spec_submit_fold(
                init,
                status,
                requests,
                n,
            ).unwrap().collateral[i] >= init.collateral[i] && spec_submit_fold(
                init,
                status,
                requests,
                n,
            ).unwrap().liabilities[i] <= init.liabilities[i],
    decreases n,
{
    if n > 0 {
        lemma_fold_without_check_is_harmless(init, status, requests, n - 1);
        let before = spec_submit_fold(init, status, requests, n - 1).unwrap();
        let request = requests[n - 1];
        let kind = RequestType::spec_from_u32(request.request_type).unwrap();
        let i = request.asset as int;
        let user = UserReserve {
            supply: before.supply[i],
            collateral: before.collateral[i],
            liabilities: before.liabilities[i],
        };
        assert(before.reserves[i].wf());
        lemma_request_without_check_is_harmless(
            kind,
            before.reserves[i],
            status,
            user,
            request.amount,
        );
    }
}

/// A submission that commits leaves the user healthy, unless none of its requests took
/// collateral away or added debt: then no collateral balance is smaller and no debt balance
/// larger than before.
pub proof fn lemma_commit_is_healthy_or_harmless(
    config: PoolConfig,
    init: SubmitState,
    requests: Seq<Request>,
    prices: Seq<i128>,
    oracle_decimals: u32,
)
    requires
        spec_state_wf(init),
        !init.check_health,
        spec_submit(config, init, requests, prices, oracle_decimals) is Ok,
    ensures
        ({
            let state = spec_submit(config, init, requests, prices, oracle_decimals).unwrap();
            ||| spec_health_check(
                state.reserves,
                prices,
                oracle_decimals,
                state.collateral,
                state.liabilities,
            ) is Ok
            ||| forall|i: int|
                0 <= i < POSITION_SLOTS ==> state.collateral[i] >= init.collateral[i]
                    && state.liabilities[i] <= init.liabilities[i]
        }),
{
    lemma_fold_without_check_is_harmless(init, config.status, requests, requests.len() as int);
}

fn zeros(n: usize) -> (v: Vec<i128>)
    ensures
        v@ == Seq::new(n as nat, |i: int| 0i128),
{
    let mut v: Vec<i128> = Vec::new();
    let mut i: usize = 0;
    while i < n
        invariant
            i <= n,
            v@ == Seq::new(i as nat, |j: int| 0i128),
        decreases n - i,
    {
        v.push(0);
        i += 1;
        assert(v@ =~= Seq::new(i as nat, |j: int| 0i128));
    }
    v
}

impl Submission {
    /// One balance slot per reserve index and one tally per reserve.
    pub open spec fn shaped(&self) -> bool {
        &&& self.reserves@.len() <= POSITION_SLOTS
        &&& self.tokens_in@.len() == self.reserves@.len()
        &&& self.tokens_out@.len() == self.reserves@.len()
        &&& self.positions.collateral@.len() == POSITION_SLOTS
        &&& self.positions.liabilities@.len() == POSITION_SLOTS
        &&& self.positions.supply@.len() == POSITION_SLOTS
    }

    /// The state from which a submission starts.
    pub fn start(reserves: Vec<Reserve>, positions: Positions) -> (r: Submission)
        requires
            reserves@.len() <= POSITION_SLOTS,
            positions.collateral@.len() == POSITION_SLOTS,
            positions.liabilities@.len() == POSITION_SLOTS,
            positions.supply@.len() == POSITION_SLOTS,
        ensures
            r@ == spec_initial_state(reserves@, positions),
            r.shaped(),
    {
        let n = reserves.len();
        Submission {
            reserves,
            positions,
            tokens_in: zeros(n),
            tokens_out: zeros(n),
            check_health: false,
        }
    }
}

/// Takes the positions that the fill of an auction left the filler with into the
/// submission. The filler may have taken on debt, so the health check is due.
pub fn absorb_fill(cur: Submission, filler: Positions) -> (r: Submission)
    requires
        cur.shaped(),
        filler.collateral@.len() == POSITION_SLOTS,
        filler.liabilities@.len() == POSITION_SLOTS,
        filler.supply@.len() == POSITION_SLOTS,
    ensures
        r.shaped(),
        r.check_health,
        r.positions.collateral@ == filler.collateral@,
        r.positions.liabilities@ == filler.liabilities@,
        r.positions.supply@ == filler.supply@,
        r.reserves@ == cur.reserves@,
        r.tokens_in@ == cur.tokens_in@,
        r.tokens_out@ == cur.tokens_out@,
{
    Submission {
        reserves: cur.reserves,
        positions: filler,
        tokens_in: cur.tokens_in,
        tokens_out: cur.tokens_out,
        check_health: true,
    }
}

/// Applies one request to the state of a submission.
pub fn submit_step(cur: Submission, status: u32, request: Request) -> (r: Result<
    Submission,
    PoolError,
>)
    requires
        cur.shaped(),
    ensures
        match spec_submit_step(cur@, status, request) {
            Ok(state) => r is Ok && r.unwrap()@ == state && r.unwrap().shaped(),
            Err(e) => r is Err && r->Err_0 == e,
        },
{
    let mut cur = cur;
    if request.amount < 0 {
        return Err(PoolError::NegativeAmount);
    }
    let kind = match RequestType::from_u32(request.request_type) {
        Some(kind) => kind,
        None => {
            return Err(PoolError::BadRequest);
        },
    };
    if request.asset as usize >= cur.reserves.len() {
        return Err(PoolError::BadRequest);
    }
    let i = request.asset as usize;
    let user = UserReserve {
        supply: cur.positions.supply[i],
        collateral: cur.positions.collateral[i],
        liabilities: cur.positions.liabilities[i],
    };
    let done = match apply_request(kind, &cur.reserves[i], status, user, request.amount) {
        Ok(done) => done,
        Err(e) => {
            return Err(e);
        },
    };
    match (
        cur.tokens_in[i].checked_add(done.tokens_in),
        cur.tokens_out[i].checked_add(done.tokens_out),
    ) {
        (Some(tokens_in), Some(tokens_out)) => {
            cur.reserves.set(i, done.reserve);
            cur.positions.set_liabilities(request.asset, done.user.liabilities);
            cur.positions.set_collateral(request.asset, done.user.collateral);
            cur.positions.set_supply(request.asset, done.user.supply);
            cur.tokens_in.set(i, tokens_in);
            cur.tokens_out.set(i, tokens_out);
            cur.check_health = cur.check_health || done.check_health;
            Ok(cur)
        },
        _ => Err(PoolError::MathOverflow),
    }
}

/// Checks that positions are healthy at the given prices.
pub fn check_health(
    reserves: &Vec<Reserve>,
    prices: &Vec<i128>,
    oracle_decimals: u32,
    positions: &Positions,
) -> (r: Result<(), PoolError>)
    requires
        reserves@.len() <= POSITION_SLOTS,
        prices@.len() == reserves@.len(),
        positions.collateral@.len() == POSITION_SLOTS,
        positions.liabilities@.len() == POSITION_SLOTS,
    ensures
        r == spec_health_check(
            reserves@,
            prices@,
            oracle_decimals,
            positions.collateral@,
            positions.liabilities@,
        ),
{
    match PositionData::calculate_from_positions(reserves, prices, oracle_decimals, positions) {
        None => Err(PoolError::MathOverflow),
        Some(data) => {
            if data.liability_base == 0 {
                Ok(())
            } else if data.scalar.checked_mul(SCALAR_7).is_none()
                || data.checked_health_factor().is_none() {
                Err(PoolError::MathOverflow)
            } else if data.is_hf_under(SCALAR_7) {
                Err(PoolError::InvalidHf)
            } else {
                Ok(())
            }
        },
    }
}

/// Whether a submission ends the liquidation of its user: the user is under liquidation and
/// the submission leaves the user healthy.
pub fn liquidation_ends(
    being_liquidated: bool,
    reserves: &Vec<Reserve>,
    prices: &Vec<i128>,
    oracle_decimals: u32,
    positions: &Positions,
) -> (r: bool)
    requires
        reserves@.len() <= POSITION_SLOTS,
        prices@.len() == reserves@.len(),
        positions.collateral@.len() == POSITION_SLOTS,
        positions.liabilities@.len() == POSITION_SLOTS,
    ensures
        r == (being_liquidated && spec_health_check(
            reserves@,
            prices@,
            oracle_decimals,
            positions.collateral@,
            positions.liabilities@,
        ) is Ok),
{
    being_liquidated && check_health(reserves, prices, oracle_decimals, positions).is_ok()
}

/// Deletes the liquidation of a user at the user's request: there must be one, and the user
/// must be healthy.
pub fn delete_liquidation_auction(
    being_liquidated: bool,
    reserves: &Vec<Reserve>,
    prices: &Vec<i128>,
    oracle_decimals: u32,
    positions: &Positions,
) -> (r: Result<(), PoolError>)
    requires
        reserves@.len() <= POSITION_SLOTS,
        prices@.len() == reserves@.len(),
        positions.collateral@.len() == POSITION_SLOTS,
        positions.liabilities@.len() == POSITION_SLOTS,
    ensures
        r == (if being_liquidated {
            spec_health_check(
                reserves@,
                prices@,
                oracle_decimals,
                positions.collateral@,
                positions.liabilities@,
            )
        } else {
            Err(PoolError::BadRequest)
        }),
{
    if !being_liquidated {
        return Err(PoolError::BadRequest);
    }
    check_health(reserves, prices, oracle_decimals, positions)
}

/// The checks that close a submission: a user from whom collateral was taken or to whom debt
/// was added must be healthy, and no user may hold more positions than the pool allows.
pub fn finish_submit(
    config: &PoolConfig,
    cur: &Submission,
    prices: &Vec<i128>,
    oracle_decimals: u32,
) -> (r: Result<(), PoolError>)
    requires
        cur.shaped(),
        prices@.len() == cur.reserves@.len(),
    ensures
        r == spec_finish(*config, cur@, prices@, oracle_decimals),
{
    if cur.check_health {
        match check_health(&cur.reserves, prices, oracle_decimals, &cur.positions) {
            Ok(_) => {},
            Err(e) => {
                return Err(e);
            },
        }
    }
    if cur.positions.effective_count() > config.max_positions as usize {
        return Err(PoolError::MaxPositionsExceeded);
    }
    Ok(())
}

/// Executes the share requests of one user in order, on reserves that have been brought up
/// to date, and commits only if the user ends healthy and within the position limit.
/// Nothing of the input survives a failure.
pub fn execute_submit(
    config: &PoolConfig,
    reserves: Vec<Reserve>,
    positions: Positions,
    requests: &Vec<Request>,
    prices: &Vec<i128>,
    oracle_decimals: u32,
) -> (r: Result<Submission, PoolError>)
    requires
        reserves@.len() <= POSITION_SLOTS,
        prices@.len() == reserves@.len(),
        positions.collateral@.len() == POSITION_SLOTS,
        positions.liabilities@.len() == POSITION_SLOTS,
        positions.supply@.len() == POSITION_SLOTS,
    ensures
        match spec_submit(
            *config,
            spec_initial_state(reserves@, positions),
            requests@,
            prices@,
            oracle_decimals,
        ) {
            Ok(state) => r is Ok && r.unwrap()@ == state,
            Err(e) => r is Err && r->Err_0 == e,
        },
{
    let ghost init = spec_initial_state(reserves@, positions);
    let mut cur = Submission::start(reserves, positions);
    let mut k: usize = 0;
    while k < requests.len()
        invariant
            k <= requests@.len(),
            init == spec_initial_state(reserves@, positions),
            prices@.len() == cur.reserves@.len(),
            cur.shaped(),
            spec_submit_fold(init, config.status, requests@, k as int) == Ok::<
                SubmitState,
                PoolError,
            >(cur@),
        decreases requests@.len() - k,
    {
        let ghost step = spec_submit_step(cur@, config.status, requests@[k as int]);
        proof {
            assert(spec_submit_fold(init, config.status, requests@, k as int + 1) == step);
            if step is Err {
                lemma_fold_keeps_failure(
                    init,
                    config.status,
                    requests@,
                    k as int + 1,
                    requests@.len() as int,
                );
            }
        }
        match submit_step(cur, config.status, requests[k]) {
            Ok(next) => {
                cur = next;
            },
            Err(e) => {
                return Err(e);
            },
        }
        k += 1;
    }
    match finish_submit(config, &cur, prices, oracle_decimals) {
        Ok(_) => {},
        Err(e) => {
            return Err(e);
        },
    }
    Ok(cur)
}

} // verus!
