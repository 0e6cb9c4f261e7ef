use vstd::prelude::*;

verus! {

/// Number of slots in each balance table: one for every reserve index.
pub const POSITION_SLOTS: usize = 64;

/// The share balances of one user in one pool, by reserve index. A balance of zero stands
/// for a reserve that the user does not hold.
#[derive(Debug)]
pub struct Positions {
    /// Debt shares owed.
    pub liabilities: Vec<i128>,
    /// Collateral shares pledged.
    pub collateral: Vec<i128>,
    /// Collateral shares held but not pledged.
    pub supply: Vec<i128>,
}

/// Number of entries of `s` before `n` that are not zero.
pub open spec fn count_nonzero(s: Seq<i128>, n: int) -> int
    decreases n,
{
    if n <= 0 {
        0
    } else {
        count_nonzero(s, n - 1) + if s[n - 1] != 0 {
            1int
        } else {
            0int
        }
    }
}

/// The count of non-zero entries stays between zero and the number of entries looked at.
pub proof fn lemma_count_nonzero_bounds(s: Seq<i128>, n: int)
    requires
        0 <= n,
    ensures
        0 <= count_nonzero(s, n) <= n,
    decreases n,
{
    if n > 0 {
        lemma_count_nonzero_bounds(s, n - 1);
    }
}

fn zero_table() -> (v: Vec<i128>)
    ensures
        v@.len() == POSITION_SLOTS,
        forall|i: int| 0 <= i < POSITION_SLOTS ==> v@[i] == 0,
{
    let mut v: Vec<i128> = Vec::new();
    let mut i: usize = 0;
    while i < POSITION_SLOTS
        invariant
            i <= POSITION_SLOTS,
            v@.len() == i,
            forall|j: int| 0 <= j < i ==> v@[j] == 0,
        decreases POSITION_SLOTS - i,
    {
        v.push(0);
        i += 1;
    }
    v
}

pub(crate) fn copy_table(src: &Vec<i128>) -> (v: Vec<i128>)
    ensures
        v@ == src@,
{
    let mut v: Vec<i128> = Vec::new();
    let mut i: usize = 0;
    while i < src.len()
        invariant
            i <= src@.len(),
            v@ == src@.subrange(0, i as int),
        decreases src@.len() - i,
    {
        v.push(src[i]);
        i += 1;
        assert(v@ =~= src@.subrange(0, i as int));
    }
    assert(src@.subrange(0, src@.len() as int) =~= src@);
    v
}

fn count_table(v: &Vec<i128>) -> (n: usize)
    requires
        v@.len() == POSITION_SLOTS,
    ensures
        n == count_nonzero(v@, POSITION_SLOTS as int),
{
    let mut n: usize = 0;
    let mut i: usize = 0;
    while i < POSITION_SLOTS
        invariant
            i <= POSITION_SLOTS,
            v@.len() == POSITION_SLOTS,
            n == count_nonzero(v@, i as int),
            n <= i,
        decreases POSITION_SLOTS - i,
    {
        if v[i] != 0 {
            n += 1;
        }
        i += 1;
    }
    n
}

impl Positions {
    /// Every table has one slot per reserve index and no balance is negative.
    pub open spec fn wf(&self) -> bool {
        &&& self.liabilities@.len() == POSITION_SLOTS
        &&& self.collateral@.len() == POSITION_SLOTS
        &&& self.supply@.len() == POSITION_SLOTS
        &&& forall|i: int| 0 <= i < POSITION_SLOTS ==> self.liabilities@[i] >= 0
        &&& forall|i: int| 0 <= i < POSITION_SLOTS ==> self.collateral@[i] >= 0
        &&& forall|i: int| 0 <= i < POSITION_SLOTS ==> self.supply@[i] >= 0
    }

    /// Collateral shares of reserve `index`, pledged or not.
    pub open spec fn b_shares(&self, index: int) -> int {
        self.collateral@[index] + self.supply@[index]
    }

    /// Debt shares of reserve `index`.
    pub open spec fn d_shares(&self, index: int) -> int {
        self.liabilities@[index] as int
    }

    /// Number of reserves in which the user holds collateral or debt.
    pub open spec fn spec_effective_count(&self) -> int {
        count_nonzero(self.collateral@, POSITION_SLOTS as int) + count_nonzero(
            self.liabilities@,
            POSITION_SLOTS as int,
        )
    }

    /// No collateral and no unpledged supply, but debt: what a user is left with when a
    /// liquidation could not cover the debt.
    pub open spec fn spec_is_bad_debt(&self) -> bool {
        &&& count_nonzero(self.collateral@, POSITION_SLOTS as int) == 0
        &&& count_nonzero(self.supply@, POSITION_SLOTS as int) == 0
        &&& count_nonzero(self.liabilities@, POSITION_SLOTS as int) != 0
    }

    /// The positions of a user who holds nothing.
    pub fn new() -> (p: Positions)
        ensures
            p.wf(),
            forall|i: int| 0 <= i < POSITION_SLOTS ==> p.liabilities@[i] == 0,
            forall|i: int| 0 <= i < POSITION_SLOTS ==> p.collateral@[i] == 0,
            forall|i: int| 0 <= i < POSITION_SLOTS ==> p.supply@[i] == 0,
    {
        Positions { liabilities: zero_table(), collateral: zero_table(), supply: zero_table() }
    }

    /// A copy with the same balances.
    pub fn duplicate(&self) -> (p: Positions)
        ensures
            p.liabilities@ == self.liabilities@,
            p.collateral@ == self.collateral@,
            p.supply@ == self.supply@,
    {
        Positions {
            liabilities: copy_table(&self.liabilities),
            collateral: copy_table(&self.collateral),
            supply: copy_table(&self.supply),
        }
    }

    /// Debt shares of reserve `index`.
    pub fn get_liabilities(&self, index: u32) -> (r: i128)
        requires
            self.liabilities@.len() == POSITION_SLOTS,
            index < POSITION_SLOTS,
        ensures
            r == self.liabilities@[index as int],
    {
        self.liabilities[index as usize]
    }

    /// Pledged collateral shares of reserve `index`.
    pub fn get_collateral(&self, index: u32) -> (r: i128)
        requires
            self.collateral@.len() == POSITION_SLOTS,
            index < POSITION_SLOTS,
        ensures
            r == self.collateral@[index as int],
    {
        self.collateral[index as usize]
    }

    /// Unpledged collateral shares of reserve `index`.
    pub fn get_supply(&self, index: u32) -> (r: i128)
        requires
            self.supply@.len() == POSITION_SLOTS,
            index < POSITION_SLOTS,
        ensures
            r == self.supply@[index as int],
    {
        self.supply[index as usize]
    }

    /// Sets the debt shares of reserve `index`.
    pub fn set_liabilities(&mut self, index: u32, amount: i128)
        requires
            old(self).liabilities@.len() == POSITION_SLOTS,
            index < POSITION_SLOTS,
        ensures
            final(self).liabilities@ == old(self).liabilities@.update(index as int, amount),
            final(self).collateral@ == old(self).collateral@,
            final(self).supply@ == old(self).supply@,
    {
        self.liabilities.set(index as usize, amount);
    }

    /// Sets the pledged collateral shares of reserve `index`.
    pub fn set_collateral(&mut self, index: u32, amount: i128)
        requires
            old(self).collateral@.len() == POSITION_SLOTS,
            index < POSITION_SLOTS,
        ensures
            final(self).collateral@ == old(self).collateral@.update(index as int, amount),
            final(self).liabilities@ == old(self).liabilities@,
            final(self).supply@ == old(self).supply@,
    {
        self.collateral.set(index as usize, amount);
    }

    /// Sets the unpledged collateral shares of reserve `index`.
    pub fn set_supply(&mut self, index: u32, amount: i128)
        requires
            old(self).supply@.len() == POSITION_SLOTS,
            index < POSITION_SLOTS,
        ensures
            final(self).supply@ == old(self).supply@.update(index as int, amount),
            final(self).liabilities@ == old(self).liabilities@,
            final(self).collateral@ == old(self).collateral@,
    {
        self.supply.set(index as usize, amount);
    }

    /// Number of reserves in which the user holds collateral or debt.
    pub fn effective_count(&self) -> (n: usize)
        requires
            self.collateral@.len() == POSITION_SLOTS,
            self.liabilities@.len() == POSITION_SLOTS,
        ensures
            n == self.spec_effective_count(),
    {
        let c = count_table(&self.collateral);
        let l = count_table(&self.liabilities);
        proof {
            lemma_count_nonzero_bounds(self.collateral@, POSITION_SLOTS as int);
            lemma_count_nonzero_bounds(self.liabilities@, POSITION_SLOTS as int);
        }
        c + l
    }

    /// Whether the user holds debt and nothing to set against it.
    pub fn is_bad_debt(&self) -> (r: bool)
        requires
            self.collateral@.len() == POSITION_SLOTS,
            self.liabilities@.len() == POSITION_SLOTS,
            self.supply@.len() == POSITION_SLOTS,
        ensures
            r == self.spec_is_bad_debt(),
    {
        count_table(&self.collateral) == 0 && count_table(&self.supply) == 0 && count_table(
            &self.liabilities,
        ) != 0
    }
}

} // verus!
