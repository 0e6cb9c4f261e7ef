use crate::address::Address;
use crate::errors::BackstopError;
use vstd::prelude::*;

verus! {

/// One entry of the list of addresses that receive the initial distribution.
#[derive(Clone, Copy, Debug, PartialEq, Eq, Structural)]
pub struct DropEntry {
    pub to: Address,
    pub amount: i128,
}

/// ### Backstop
///
/// A backstop module for the isolated lending pools: what it is set up with, once.
#[derive(Debug)]
pub struct BackstopContract {
    /// Whether the backstop has been set up.
    pub is_init: bool,
    /// The backstop token: a liquidity-pool token of the reward token and the stable coin.
    pub backstop_token: Address,
    /// The emitter of the reward token.
    pub emitter: Address,
    /// The reward token.
    pub blnd_token: Address,
    /// The stable coin.
    pub usdc_token: Address,
    /// The factory that deploys pools.
    pub pool_factory: Address,
    /// Who receives the initial distribution, and how much.
    pub drop_list: Vec<DropEntry>,
    /// When the emitter last distributed to this backstop.
    pub last_distribution_time: u64,
}

impl BackstopContract {
    /// A backstop that has not been set up.
    pub fn new() -> (r: BackstopContract)
        ensures
            !r.is_init,
            r.backstop_token == (Address { id: 0 }),
            r.emitter == (Address { id: 0 }),
            r.blnd_token == (Address { id: 0 }),
            r.usdc_token == (Address { id: 0 }),
            r.pool_factory == (Address { id: 0 }),
            r.drop_list@ == Seq::<DropEntry>::empty(),
            r.last_distribution_time == 0,
    {
        let zero = Address { id: 0 };
        BackstopContract {
            is_init: false,
            backstop_token: zero,
            emitter: zero,
            blnd_token: zero,
            usdc_token: zero,
            pool_factory: zero,
            drop_list: Vec::new(),
            last_distribution_time: 0,
        }
    }

    /// Initialize the backstop
    ///
    /// ### Arguments
    /// * `backstop_token` - The backstop token
    /// * `emitter` - The emitter
    /// * `blnd_token` - The reward token
    /// * `usdc_token` - The stable coin
    /// * `pool_factory` - The pool factory
    /// * `drop_list` - The list of addresses to distribute the initial reward tokens to
    /// * `last_distribution_time` - The time of the emitter's last distribution
    ///
    /// ### Errors
    /// If initialize has already been called
    pub fn initialize(
        self,
        backstop_token: Address,
        emitter: Address,
        blnd_token: Address,
        usdc_token: Address,
        pool_factory: Address,
        drop_list: Vec<DropEntry>,
        last_distribution_time: u64,
    ) -> (r: Result<BackstopContract, BackstopError>)
        ensures
            self.is_init ==> r is Err && r->Err_0 == BackstopError::AlreadyInitialized,
            !self.is_init ==> r is Ok && ({
                let set = r.unwrap();
                &&& set.is_init
                &&& set.backstop_token == backstop_token
                &&& set.emitter == emitter
                &&& set.blnd_token == blnd_token
                &&& set.usdc_token == usdc_token
                &&& set.pool_factory == pool_factory
                &&& set.drop_list@ == drop_list@
                &&& set.last_distribution_time == last_distribution_time
            }),
    {
        if self.is_init {
            return Err(BackstopError::AlreadyInitialized);
        }
        Ok(
            BackstopContract {
                is_init: true,
                backstop_token,
                emitter,
                blnd_token,
                usdc_token,
                pool_factory,
                drop_list,
                last_distribution_time,
            },
        )
    }
}

} // verus!
