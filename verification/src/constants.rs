use vstd::prelude::*;

verus! {

/// Fixed-point scalar for ratios, which carry seven decimals.
pub const SCALAR_7: i128 = 10_000_000;

/// Fixed-point scalar for the share conversion rates, which carry nine decimals.
pub const SCALAR_9: i128 = 1_000_000_000;

/// Number of seconds in a year, as the interest model counts it.
pub const SECONDS_PER_YEAR: i128 = 31_536_000;

/// Number of ledger blocks over which an auction ramps.
pub const AUCTION_BLOCKS: u32 = 400;

/// Number of ledger blocks after which the lot is handed over in full.
pub const AUCTION_HALF_BLOCKS: u32 = 200;

/// Seconds that a queued withdrawal waits before it matures.
pub const Q4W_LOCK_TIME: u64 = 1_814_400;

/// Seconds after a distribution during which a pool cannot be swapped out of the reward zone.
pub const REWARD_ZONE_COOLDOWN: u64 = 172_800;

/// Largest dense index a reserve can have.
pub const MAX_RESERVE_INDEX: u32 = 63;

} // verus!
