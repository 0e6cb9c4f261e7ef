use crate::address::Address;
use crate::constants::REWARD_ZONE_COOLDOWN;
use crate::errors::BackstopError;
use vstd::prelude::*;

verus! {

/// Smallest size of the reward zone.
pub const MIN_ZONE_SIZE: u64 = 10;

/// Seconds in a day.
pub const SECONDS_PER_DAY: u64 = 86_400;

/// The size of the reward zone after `days` days: ten times the square root of the days,
/// rounded down, and at least ten.
pub open spec fn spec_is_zone_size(days: u64, size: u64) -> bool {
    &&& size >= MIN_ZONE_SIZE
    &&& size * size <= 100 * days || size == MIN_ZONE_SIZE
    &&& (size + 1) * (size + 1) > 100 * days
}

/// Largest size the search for the zone size can reach.
pub const ZONE_SIZE_LIMIT: u64 = 200_000_000;

fn next_square(size: u64) -> (r: u64)
    requires
        size <= ZONE_SIZE_LIMIT,
    ensures
        r == (size + 1) * (size + 1),
        r > size * size,
{
    assert(size * size < (size + 1) * (size + 1) <= 40_000_000_400_000_001) by (nonlinear_arith)
        requires
            0 <= size <= 200_000_000,
    ;
    (size + 1) * (size + 1)
}

/// Computes the size of the reward zone at time `now` for a backstop that started at
/// `genesis`.
pub fn reward_zone_size(genesis: u64, now: u64) -> (size: u64)
    ensures
        spec_is_zone_size(
            if now > genesis {
                ((now - genesis) / SECONDS_PER_DAY as int) as u64
            } else {
                0
            },
            size,
        ),
{
    let days: u64 = if now > genesis {
        (now - genesis) / SECONDS_PER_DAY
    } else {
        0
    };
    assert(days <= 213_503_982_334_601);
    let target: u64 = 100 * days;
    let mut size: u64 = MIN_ZONE_SIZE;
    while next_square(size) <= target
        invariant
            MIN_ZONE_SIZE <= size < ZONE_SIZE_LIMIT,
            size * size <= target || size == MIN_ZONE_SIZE,
            target == 100 * days,
            target <= 21_350_398_233_460_100,
        decreases target - size * size,
    {
        proof {
            assert(size + 1 < 200_000_000) by (nonlinear_arith)
                requires
                    (size + 1) * (size + 1) <= 21_350_398_233_460_100,
                    size >= 0,
            ;
        }
        size = size + 1;
    }
    size
}

/// Whether `pool` is in the zone.
pub open spec fn in_zone(zone: Seq<Address>, pool: Address) -> bool {
    exists|i: int| 0 <= i < zone.len() && #[trigger] zone[i] == pool
}

fn position_of(zone: &Vec<Address>, pool: Address) -> (r: Option<usize>)
    ensures
        match r {
            Some(i) => i < zone@.len() && zone@[i as int] == pool,
            None => !in_zone(zone@, pool),
        },
{
    let mut i: usize = 0;
    while i < zone.len()
        invariant
            i <= zone@.len(),
            forall|j: int| 0 <= j < i ==> zone@[j] != pool,
        decreases zone@.len() - i,
    {
        if zone[i].id == pool.id {
            return Some(i);
        }
        i += 1;
    }
    None
}

/// Whether a pool may take the place of another in a full zone: it holds strictly more
/// backstop tokens, and the other has seen no distribution within the cooldown.
pub open spec fn spec_may_replace(
    to_add_tokens: i128,
    to_remove_tokens: i128,
    last_distribution: u64,
    now: u64,
) -> bool {
    to_add_tokens > to_remove_tokens && now >= last_distribution && now - last_distribution
        >= REWARD_ZONE_COOLDOWN
}

/// Add a pool to the reward zone, and if the reward zone is full, a pool to remove.
///
/// Returns the zone with `to_add` appended while the zone has room, else with `to_add` in
/// the place of `to_remove`.
///
/// ### Errors
/// If the pool to add is in the zone already, or the zone is full and the pool to remove
/// is not in it, has as many tokens or more, or saw a distribution within the cooldown
pub fn add_reward(
    zone: Vec<Address>,
    max_size: u64,
    to_add: Address,
    to_remove: Address,
    to_add_tokens: i128,
    to_remove_tokens: i128,
    last_distribution: u64,
    now: u64,
) -> (r: Result<Vec<Address>, BackstopError>)
    ensures
        in_zone(zone@, to_add) ==> r is Err,
        !in_zone(zone@, to_add) && zone@.len() < max_size ==> r is Ok && r.unwrap()@
            == zone@.push(to_add),
        !in_zone(zone@, to_add) && zone@.len() >= max_size ==> (if in_zone(zone@, to_remove)
            && spec_may_replace(to_add_tokens, to_remove_tokens, last_distribution, now) {
            r is Ok && exists|i: int|
                0 <= i < zone@.len() && zone@[i] == to_remove && r.unwrap()@ == zone@.update(
                    i,
                    to_add,
                )
        } else {
            r is Err
        }),
        r is Err ==> r->Err_0 == BackstopError::BadRequest,
{
    let mut zone = zone;
    if position_of(&zone, to_add).is_some() {
        return Err(BackstopError::BadRequest);
    }
    if (zone.len() as u64) < max_size {
        zone.push(to_add);
        return Ok(zone);
    }
    let at = match position_of(&zone, to_remove) {
        Some(at) => at,
        None => {
            return Err(BackstopError::BadRequest);
        },
    };
    if to_add_tokens > to_remove_tokens && now >= last_distribution && now - last_distribution
        >= REWARD_ZONE_COOLDOWN {
        zone.set(at, to_add);
        Ok(zone)
    } else {
        Err(BackstopError::BadRequest)
    }
}

} // verus!
