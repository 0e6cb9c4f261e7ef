use crate::address::Address;
use crate::interest::{accrue, spec_accrue};
use crate::reserve::Reserve;
use vstd::prelude::*;

verus! {

/// The configuration of a pool.
#[derive(Clone, Copy, Debug, PartialEq, Eq, Structural)]
pub struct PoolConfig {
    /// The price oracle of the pool.
    pub oracle: Address,
    /// The share of interest that goes to the backstop, seven decimals.
    pub bstop_rate: i128,
    /// Zero for active, one for on ice, two for frozen.
    pub status: u32,
    /// The largest number of positions a user may hold.
    pub max_positions: u32,
}

/// Whether every reserve of `out` is the reserve of `reserves` at the same index brought
/// up to time `now`.
pub open spec fn all_accrued(
    reserves: Seq<Reserve>,
    out: Seq<Reserve>,
    bstop_rate: i128,
    now: u64,
) -> bool {
    &&& out.len() == reserves.len()
    &&& forall|i: int|
        0 <= i < reserves.len() ==> spec_accrue(#[trigger] reserves[i], bstop_rate, now) == Some(
            out[i],
        )
}

/// Brings every reserve of a pool up to time `now`. Nothing is returned when the accrual of
/// one of them overflows.
pub fn load_reserves(reserves: &Vec<Reserve>, bstop_rate: i128, now: u64) -> (r: Option<
    Vec<Reserve>,
>)
    ensures
        match r {
            Some(out) => all_accrued(reserves@, out@, bstop_rate, now),
            None => exists|i: int|
                0 <= i < reserves@.len() && spec_accrue(#[trigger] reserves@[i], bstop_rate, now)
                    is None,
        },
{
    let mut out: Vec<Reserve> = Vec::new();
    let mut i: usize = 0;
    while i < reserves.len()
        invariant
            i <= reserves@.len(),
            out@.len() == i,
            forall|j: int|
                0 <= j < i ==> spec_accrue(#[trigger] reserves@[j], bstop_rate, now) == Some(
                    out@[j],
                ),
        decreases reserves@.len() - i,
    {
        match accrue(&reserves[i], bstop_rate, now) {
            Some(next) => {
                out.push(next);
            },
            None => {
                assert(spec_accrue(reserves@[i as int], bstop_rate, now) is None);
                return None;
            },
        }
        i += 1;
    }
    Some(out)
}

} // verus!
