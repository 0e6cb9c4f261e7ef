use vstd::prelude::*;

verus! {

/// The identity of an account or a contract. Two addresses are the same party exactly when
/// their identifiers are equal.
#[derive(Clone, Copy, Debug, PartialEq, Eq, Structural, Hash)]
pub struct Address {
    pub id: u64,
}

/// Finds the dense index of an asset in the pool's reserve list.
pub fn resolve_asset(list: &Vec<Address>, asset: Address) -> (r: Option<u32>)
    requires
        list@.len() <= 64,
    ensures
        match r {
            Some(i) => i < list@.len() && list@[i as int] == asset && forall|j: int|
                0 <= j < i ==> list@[j] != asset,
            None => forall|j: int| 0 <= j < list@.len() ==> list@[j] != asset,
        },
{
    let mut i: usize = 0;
    while i < list.len()
        invariant
            i <= list@.len(),
            list@.len() <= 64,
            forall|j: int| 0 <= j < i ==> list@[j] != asset,
        decreases list@.len() - i,
    {
        if list[i].id == asset.id {
            return Some(i as u32);
        }
        i += 1;
    }
    None
}

} // verus!
