use vstd::prelude::*;

verus! {

/// The sum of the balances that the holders of a ledger have.
pub open spec fn total(balances: Seq<int>) -> int
    decreases balances.len(),
{
    if balances.len() == 0 {
        0
    } else {
        total(balances.drop_last()) + balances.last()
    }
}

/// Changing one holder's balance changes the total by the same amount.
pub proof fn lemma_total_update(balances: Seq<int>, who: int, value: int)
    requires
        0 <= who < balances.len(),
    ensures
        total(balances.update(who, value)) == total(balances) - balances[who] + value,
    decreases balances.len(),
{
    let after = balances.update(who, value);
    if who == balances.len() - 1 {
        assert(after.drop_last() =~= balances.drop_last());
    } else {
        lemma_total_update(balances.drop_last(), who, value);
        assert(after.drop_last() =~= balances.drop_last().update(who, value));
    }
}

/// A ledger whose total equals a supply still does after one holder's balance and the
/// supply have moved by the same amount.
pub proof fn lemma_total_follows_supply(
    balances: Seq<int>,
    who: int,
    value: int,
    supply_before: int,
    supply_after: int,
)
    requires
        0 <= who < balances.len(),
        total(balances) == supply_before,
        supply_after - supply_before == value - balances[who],
    ensures
        total(balances.update(who, value)) == supply_after,
{
    lemma_total_update(balances, who, value);
}

/// A ledger whose balances are nowhere above those of another has no larger total.
pub proof fn lemma_total_dominated(lower: Seq<int>, upper: Seq<int>)
    requires
        lower.len() == upper.len(),
        forall|i: int| 0 <= i < lower.len() ==> lower[i] <= upper[i],
    ensures
        total(lower) <= total(upper),
    decreases lower.len(),
{
    if lower.len() > 0 {
        lemma_total_dominated(lower.drop_last(), upper.drop_last());
    }
}

/// In a ledger without negative balances the total is not negative and no holder has more
/// than the total.
pub proof fn lemma_total_covers_holder(balances: Seq<int>, who: int)
    requires
        0 <= who < balances.len(),
        forall|i: int| 0 <= i < balances.len() ==> balances[i] >= 0,
    ensures
        0 <= balances[who] <= total(balances),
    decreases balances.len(),
{
    let rest = balances.drop_last();
    if who < balances.len() - 1 {
        lemma_total_covers_holder(rest, who);
    } else if rest.len() > 0 {
        lemma_total_covers_holder(rest, 0);
    } else {
        assert(total(rest) == 0);
    }
}

} // verus!
