use crate::address::Address;
use crate::constants::Q4W_LOCK_TIME;
use crate::errors::BackstopError;
use crate::fixed_math::{checked_mul_div_floor, mul_floor};
use vstd::prelude::*;

verus! {

/// Largest number of withdrawals a user can have queued at a time.
pub const MAX_Q4W_SIZE: usize = 20;

/// A queued withdrawal: shares that can leave the backstop once `exp` has come.
#[derive(Clone, Copy, Debug, PartialEq, Eq, Structural)]
pub struct Q4W {
    pub amount: i128,
    pub exp: u64,
}

/// The backstop of one pool: the tokens it holds, the shares issued against them, and how
/// many of those shares are queued for withdrawal.
#[derive(Clone, Copy, Debug, PartialEq, Eq, Structural)]
pub struct PoolBalance {
    pub tokens: i128,
    pub shares: i128,
    pub q4w: i128,
}

/// A user's stake in the backstop of one pool: all shares held, queued ones included, and
/// the queue in the order in which the withdrawals were queued.
#[derive(Debug)]
pub struct UserBalance {
    pub shares: i128,
    pub q4w: Vec<Q4W>,
}

/// A user's stake as a mathematical value.
pub struct UserBalanceView {
    pub shares: i128,
    pub q4w: Seq<Q4W>,
}

/// The shares queued in `entries`.
pub open spec fn sum_q4w(entries: Seq<Q4W>) -> int
    decreases entries.len(),
{
    if entries.len() == 0 {
        0
    } else {
        sum_q4w(entries.drop_last()) + entries.last().amount
    }
}

/// Whether every queued amount is positive or zero.
pub open spec fn amounts_nonnegative(entries: Seq<Q4W>) -> bool {
    forall|i: int| 0 <= i < entries.len() ==> (#[trigger] entries[i]).amount >= 0
}

impl PoolBalance {
    /// No total is negative and no more shares are queued than exist.
    pub open spec fn wf(&self) -> bool {
        &&& self.tokens >= 0
        &&& self.shares >= 0
        &&& 0 <= self.q4w <= self.shares
    }

    /// Shares that `tokens` buy: as many as tokens while no share exists, else the tokens'
    /// part of the shares, rounded down.
    pub open spec fn spec_convert_to_shares(&self, tokens: i128) -> Option<i128> {
        if self.shares == 0 {
            Some(tokens)
        } else {
            checked_mul_div_floor(tokens as int, self.shares as int, self.tokens as int)
        }
    }

    /// Tokens that `shares` redeem: their part of the tokens, rounded down.
    pub open spec fn spec_convert_to_tokens(&self, shares: i128) -> Option<i128> {
        checked_mul_div_floor(self.tokens as int, shares as int, self.shares as int)
    }

    /// Converts tokens to the shares they buy.
    pub fn convert_to_shares(&self, tokens: i128) -> (r: Option<i128>)
        ensures
            r == self.spec_convert_to_shares(tokens),
    {
        if self.shares == 0 {
            Some(tokens)
        } else {
            mul_floor(tokens, self.shares, self.tokens)
        }
    }

    /// Converts shares to the tokens they redeem.
    pub fn convert_to_tokens(&self, shares: i128) -> (r: Option<i128>)
        ensures
            r == self.spec_convert_to_tokens(shares),
    {
        mul_floor(self.tokens, shares, self.shares)
    }
}

impl UserBalance {
    /// The stake as a mathematical value.
    pub open spec fn view(&self) -> UserBalanceView {
        UserBalanceView { shares: self.shares, q4w: self.q4w@ }
    }

    /// The queue is within its limit, holds no negative amount, and queues no more shares
    /// than the user holds.
    pub open spec fn wf(&self) -> bool {
        &&& self.q4w@.len() <= MAX_Q4W_SIZE
        &&& amounts_nonnegative(self.q4w@)
        &&& 0 <= sum_q4w(self.q4w@) <= self.shares
    }

    /// A user with no stake.
    pub fn new() -> (u: UserBalance)
        ensures
            u.shares == 0,
            u.q4w@.len() == 0,
            u.wf(),
    {
        UserBalance { shares: 0, q4w: Vec::new() }
    }

    /// Whether the stake is well formed: the queue is within its limit, holds no negative
    /// amount, and queues no more shares than the user holds.
    pub fn is_well_formed(&self) -> (r: bool)
        ensures
            r == self.wf(),
    {
        if self.q4w.len() > MAX_Q4W_SIZE || self.shares < 0 {
            return false;
        }
        let mut total: i128 = 0;
        let mut i: usize = 0;
        while i < self.q4w.len()
            invariant
                i <= self.q4w@.len(),
                self.q4w@.len() <= MAX_Q4W_SIZE,
                amounts_nonnegative(self.q4w@.subrange(0, i as int)),
                total == sum_q4w(self.q4w@.subrange(0, i as int)),
                0 <= total <= self.shares,
            decreases self.q4w@.len() - i,
        {
            let amount = self.q4w[i].amount;
            let ghost next = self.q4w@.subrange(0, i as int + 1);
            proof {
                assert(next.drop_last() =~= self.q4w@.subrange(0, i as int));
                assert(next.last() == self.q4w@[i as int]);
            }
            if amount < 0 {
                assert(!amounts_nonnegative(self.q4w@));
                return false;
            }
            if amount > self.shares - total {
                proof {
                    // what follows only adds to the shares queued so far
                    assert forall|j: int| 0 <= j < next.len() implies (#[trigger] next[j]).amount
                        >= 0 by {
                        if j < i {
                            assert(self.q4w@.subrange(0, i as int)[j] == next[j]);
                        }
                    }
                    if amounts_nonnegative(self.q4w@) {
                        lemma_sum_q4w_prefix(self.q4w@, i as int + 1);
                    }
                }
                return false;
            }
            total = total + amount;
            proof {
                assert forall|j: int| 0 <= j < next.len() implies (#[trigger] next[j]).amount
                    >= 0 by {
                    if j < i {
                        assert(self.q4w@.subrange(0, i as int)[j] == next[j]);
                    }
                }
            }
            i += 1;
        }
        assert(self.q4w@.subrange(0, self.q4w@.len() as int) =~= self.q4w@);
        true
    }

    /// The shares the user has queued.
    pub fn queued(&self) -> (r: i128)
        requires
            self.wf(),
        ensures
            r == sum_q4w(self.q4w@),
    {
        let mut total: i128 = 0;
        let mut i: usize = 0;
        while i < self.q4w.len()
            invariant
                i <= self.q4w@.len(),
                self.wf(),
                total == sum_q4w(self.q4w@.subrange(0, i as int)),
                0 <= total <= sum_q4w(self.q4w@),
            decreases self.q4w@.len() - i,
        {
            proof {
                let next = self.q4w@.subrange(0, i as int + 1);
                assert(next.drop_last() =~= self.q4w@.subrange(0, i as int));
                lemma_sum_q4w_prefix(self.q4w@, i as int + 1);
            }
            total = total + self.q4w[i].amount;
            i += 1;
        }
        assert(self.q4w@.subrange(0, self.q4w@.len() as int) =~= self.q4w@);
        total
    }
}

/// A prefix of a queue without negative amounts queues no more than the whole and nothing
/// negative.
pub proof fn lemma_sum_q4w_prefix(entries: Seq<Q4W>, n: int)
    requires
        amounts_nonnegative(entries),
        0 <= n <= entries.len(),
    ensures
        0 <= sum_q4w(entries.subrange(0, n)) <= sum_q4w(entries),
    decreases entries.len() - n,
{
    if n < entries.len() {
        lemma_sum_q4w_prefix(entries, n + 1);
        assert(entries.subrange(0, n + 1).drop_last() =~= entries.subrange(0, n));
        lemma_sum_q4w_nonnegative(entries.subrange(0, n));
    } else {
        assert(entries.subrange(0, n) =~= entries);
        lemma_sum_q4w_nonnegative(entries);
    }
}

/// A queue without negative amounts queues nothing negative.
pub proof fn lemma_sum_q4w_nonnegative(entries: Seq<Q4W>)
    requires
        amounts_nonnegative(entries),
    ensures
        sum_q4w(entries) >= 0,
    decreases entries.len(),
{
    if entries.len() > 0 {
        lemma_sum_q4w_nonnegative(entries.drop_last());
    }
}

/// The shares queued are those of the first entry and those of the rest.
pub proof fn lemma_sum_q4w_front(entries: Seq<Q4W>)
    requires
        entries.len() > 0,
    ensures
        sum_q4w(entries) == entries[0].amount + sum_q4w(entries.skip(1)),
    decreases entries.len(),
{
    if entries.len() == 1 {
        assert(entries.skip(1) =~= Seq::<Q4W>::empty());
        assert(entries.drop_last() =~= Seq::<Q4W>::empty());
    } else {
        lemma_sum_q4w_front(entries.drop_last());
        assert(entries.drop_last().skip(1) =~= entries.skip(1).drop_last());
        assert(entries.skip(1).last() == entries.last());
    }
}

/// Depositing `amount` tokens mints the shares they buy to the user.
pub open spec fn spec_deposit(pool: PoolBalance, user: UserBalanceView, amount: i128) -> Result<
    (PoolBalance, UserBalanceView, i128),
    BackstopError,
> {
    if amount < 0 {
        Err(BackstopError::NegativeAmount)
    } else {
        match pool.spec_convert_to_shares(amount) {
            Some(minted) => match (
                pool.tokens.checked_add(amount),
                pool.shares.checked_add(minted),
                user.shares.checked_add(minted),
            ) {
                (Some(tokens), Some(shares), Some(held)) => Ok(
                    (
                        PoolBalance { tokens, shares, q4w: pool.q4w },
                        UserBalanceView { shares: held, q4w: user.q4w },
                        minted,
                    ),
                ),
                _ => Err(BackstopError::MathOverflow),
            },
            None => Err(BackstopError::MathOverflow),
        }
    }
}

/// Deposit backstop tokens into the backstop of a pool.
///
/// Returns the pool's and the user's new balances and the number of shares minted.
pub fn execute_deposit(pool: PoolBalance, user: UserBalance, amount: i128) -> (r: Result<
    (PoolBalance, UserBalance, i128),
    BackstopError,
>)
    ensures
        match spec_deposit(pool, user@, amount) {
            Ok(done) => r is Ok && r.unwrap().0 == done.0 && r.unwrap().1@ == done.1
                && r.unwrap().2 == done.2,
            Err(e) => r is Err && r->Err_0 == e,
        },
{
    if amount < 0 {
        return Err(BackstopError::NegativeAmount);
    }
    let minted = match pool.convert_to_shares(amount) {
        Some(v) => v,
        None => {
            return Err(BackstopError::MathOverflow);
        },
    };
    match (
        pool.tokens.checked_add(amount),
        pool.shares.checked_add(minted),
        user.shares.checked_add(minted),
    ) {
        (Some(tokens), Some(shares), Some(held)) => Ok(
            (
                PoolBalance { tokens, shares, q4w: pool.q4w },
                UserBalance { shares: held, q4w: user.q4w },
                minted,
            ),
        ),
        _ => Err(BackstopError::MathOverflow),
    }
}

/// Queueing `amount` shares at time `now` appends a withdrawal that matures after the lock
/// time, provided that the user holds that many shares not yet queued and the queue has
/// room.
pub open spec fn spec_queue_withdrawal(
    pool: PoolBalance,
    user: UserBalanceView,
    amount: i128,
    now: u64,
) -> Result<(PoolBalance, UserBalanceView, Q4W), BackstopError> {
    if amount < 0 {
        Err(BackstopError::NegativeAmount)
    } else if user.shares - sum_q4w(user.q4w) < amount {
        Err(BackstopError::NotEnoughIdleFunds)
    } else if user.q4w.len() >= MAX_Q4W_SIZE {
        Err(BackstopError::BadRequest)
    } else {
        match (now.checked_add(Q4W_LOCK_TIME), pool.q4w.checked_add(amount)) {
            (Some(exp), Some(queued)) => {
                let entry = Q4W { amount, exp };
                Ok(
                    (
                        PoolBalance { q4w: queued, ..pool },
                        UserBalanceView { shares: user.shares, q4w: user.q4w.push(entry) },
                        entry,
                    ),
                )
            },
            _ => Err(BackstopError::MathOverflow),
        }
    }
}

/// Queue deposited pool shares for withdraw from a backstop of a pool.
///
/// Returns the pool's and the user's new balances and the created queue for withdrawal.
pub fn execute_queue_withdrawal(
    pool: PoolBalance,
    user: UserBalance,
    amount: i128,
    now: u64,
) -> (r: Result<(PoolBalance, UserBalance, Q4W), BackstopError>)
    requires
        user.wf(),
    ensures
        match spec_queue_withdrawal(pool, user@, amount, now) {
            Ok(done) => r is Ok && r.unwrap().0 == done.0 && r.unwrap().1@ == done.1
                && r.unwrap().2 == done.2,
            Err(e) => r is Err && r->Err_0 == e,
        },
{
    if amount < 0 {
        return Err(BackstopError::NegativeAmount);
    }
    let queued = user.queued();
    if user.shares - queued < amount {
        return Err(BackstopError::NotEnoughIdleFunds);
    }
    if user.q4w.len() >= MAX_Q4W_SIZE {
        return Err(BackstopError::BadRequest);
    }
    match (now.checked_add(Q4W_LOCK_TIME), pool.q4w.checked_add(amount)) {
        (Some(exp), Some(total)) => {
            let entry = Q4W { amount, exp };
            let mut next = user;
            next.q4w.push(entry);
            Ok((PoolBalance { tokens: pool.tokens, shares: pool.shares, q4w: total }, next, entry))
        },
        _ => Err(BackstopError::MathOverflow),
    }
}

/// The queue after `amount` shares have been taken off it, newest withdrawal first; nothing
/// when fewer are queued.
pub open spec fn spec_dequeue(entries: Seq<Q4W>, amount: int) -> Option<Seq<Q4W>>
    decreases entries.len(),
{
    if amount <= 0 {
        Some(entries)
    } else if entries.len() == 0 {
        None
    } else if entries.last().amount > amount {
        Some(
            entries.drop_last().push(
                Q4W { amount: (entries.last().amount - amount) as i128, exp: entries.last().exp },
            ),
        )
    } else {
        spec_dequeue(entries.drop_last(), amount - entries.last().amount)
    }
}

/// Taking shares off the queue lowers what is queued by exactly that many and keeps the
/// queue free of negative amounts and within its length.
pub proof fn lemma_dequeue_sum(entries: Seq<Q4W>, amount: int)
    requires
        amounts_nonnegative(entries),
        amount >= 0,
        spec_dequeue(entries, amount) is Some,
    ensures
        sum_q4w(spec_dequeue(entries, amount).unwrap()) == sum_q4w(entries) - amount,
        amounts_nonnegative(spec_dequeue(entries, amount).unwrap()),
        spec_dequeue(entries, amount).unwrap().len() <= entries.len(),
    decreases entries.len(),
{
    if amount <= 0 {
    } else if entries.len() == 0 {
    } else if entries.last().amount > amount {
        let left = Q4W {
            amount: (entries.last().amount - amount) as i128,
            exp: entries.last().exp,
        };
        let out = entries.drop_last().push(left);
        assert(out.drop_last() =~= entries.drop_last());
        assert(out.last() == left);
        assert forall|i: int| 0 <= i < out.len() implies (#[trigger] out[i]).amount >= 0 by {
            if i < out.len() - 1 {
                assert(out[i] == entries[i]);
            }
        }
    } else {
        assert forall|i: int| 0 <= i < entries.drop_last().len() implies (
        #[trigger] entries.drop_last()[i]).amount >= 0 by {
            assert(entries.drop_last()[i] == entries[i]);
        }
        lemma_dequeue_sum(entries.drop_last(), amount - entries.last().amount);
    }
}

/// Dequeueing `amount` shares cancels withdrawals newest first.
pub open spec fn spec_dequeue_withdrawal(
    pool: PoolBalance,
    user: UserBalanceView,
    amount: i128,
) -> Result<(PoolBalance, UserBalanceView), BackstopError> {
    if amount < 0 {
        Err(BackstopError::NegativeAmount)
    } else {
        match spec_dequeue(user.q4w, amount as int) {
            Some(q4w) => match pool.q4w.checked_sub(amount) {
                Some(queued) => Ok(
                    (
                        PoolBalance { q4w: queued, ..pool },
                        UserBalanceView { shares: user.shares, q4w },
                    ),
                ),
                None => Err(BackstopError::MathOverflow),
            },
            None => Err(BackstopError::BadRequest),
        }
    }
}

/// Dequeue a currently queued pool share withdraw from the backstop of a pool.
///
/// Returns the pool's and the user's new balances.
pub fn execute_dequeue_withdrawal(pool: PoolBalance, user: UserBalance, amount: i128) -> (r:
    Result<(PoolBalance, UserBalance), BackstopError>)
    requires
        user.wf(),
    ensures
        match spec_dequeue_withdrawal(pool, user@, amount) {
            Ok(done) => r is Ok && r.unwrap().0 == done.0 && r.unwrap().1@ == done.1,
            Err(e) => r is Err && r->Err_0 == e,
        },
{
    if amount < 0 {
        return Err(BackstopError::NegativeAmount);
    }
    let ghost orig = user.q4w@;
    let shares = user.shares;
    let mut queue = user.q4w;
    let mut left = amount;
    while left > 0
        invariant
            0 <= left <= amount,
            orig == user.q4w@,
            amounts_nonnegative(queue@),
            spec_dequeue(orig, amount as int) == spec_dequeue(queue@, left as int),
        decreases queue@.len(), left,
    {
        match queue.pop() {
            None => {
                return Err(BackstopError::BadRequest);
            },
            Some(cur) => {
                if cur.amount > left {
                    queue.push(Q4W { amount: cur.amount - left, exp: cur.exp });
                    left = 0;
                } else {
                    left = left - cur.amount;
                }
            },
        }
    }
    match pool.q4w.checked_sub(amount) {
        Some(queued) => Ok(
            (
                PoolBalance { tokens: pool.tokens, shares: pool.shares, q4w: queued },
                UserBalance { shares, q4w: queue },
            ),
        ),
        None => Err(BackstopError::MathOverflow),
    }
}

/// The shares of a queue that have matured at time `now`.
pub open spec fn matured_sum(entries: Seq<Q4W>, now: u64) -> int
    decreases entries.len(),
{
    if entries.len() == 0 {
        0
    } else {
        matured_sum(entries.skip(1), now) + if entries[0].exp <= now {
            entries[0].amount as int
        } else {
            0
        }
    }
}

/// A queue with `first` in front of what is left of the rest, if anything is.
pub open spec fn spec_kept_in_front(first: Seq<Q4W>, rest: Option<Seq<Q4W>>) -> Option<Seq<Q4W>> {
    match rest {
        Some(rest) => Some(first + rest),
        None => None,
    }
}

/// The queue after `amount` shares have been withdrawn from it at time `now`: they are
/// taken from the withdrawals that have matured, oldest first, and a withdrawal that has
/// not matured stays as it is. Nothing when fewer shares have matured.
pub open spec fn spec_consume_matured(entries: Seq<Q4W>, amount: int, now: u64) -> Option<
    Seq<Q4W>,
>
    decreases entries.len(),
{
    if amount <= 0 {
        Some(entries)
    } else if entries.len() == 0 {
        None
    } else if entries[0].exp > now {
        spec_kept_in_front(seq![entries[0]], spec_consume_matured(entries.skip(1), amount, now))
    } else if entries[0].amount > amount {
        Some(
            entries.update(
                0,
                Q4W { amount: (entries[0].amount - amount) as i128, exp: entries[0].exp },
            ),
        )
    } else {
        spec_consume_matured(entries.skip(1), amount - entries[0].amount, now)
    }
}

/// Withdrawing from the queue lowers what is queued by exactly the shares withdrawn and
/// keeps the queue free of negative amounts and within its length.
pub proof fn lemma_consume_sum(entries: Seq<Q4W>, amount: int, now: u64)
    requires
        amounts_nonnegative(entries),
        amount >= 0,
        spec_consume_matured(entries, amount, now) is Some,
    ensures
        sum_q4w(spec_consume_matured(entries, amount, now).unwrap()) == sum_q4w(entries) - amount,
        amounts_nonnegative(spec_consume_matured(entries, amount, now).unwrap()),
        spec_consume_matured(entries, amount, now).unwrap().len() <= entries.len(),
    decreases entries.len(),
{
    if amount <= 0 {
    } else if entries.len() == 0 {
    } else {
        let out = spec_consume_matured(entries, amount, now).unwrap();
        let tail = entries.skip(1);
        lemma_sum_q4w_front(entries);
        assert forall|i: int| 0 <= i < tail.len() implies (#[trigger] tail[i]).amount >= 0 by {
            assert(tail[i] == entries[i + 1]);
        }
        if entries[0].exp > now {
            lemma_consume_sum(tail, amount, now);
            let rest = spec_consume_matured(tail, amount, now).unwrap();
            assert(out == seq![entries[0]] + rest);
            assert(out.skip(1) =~= rest);
            lemma_sum_q4w_front(out);
            assert forall|i: int| 0 <= i < out.len() implies (#[trigger] out[i]).amount >= 0 by {
                if i > 0 {
                    assert(out[i] == rest[i - 1]);
                }
            }
        } else if entries[0].amount > amount {
            lemma_sum_q4w_front(out);
            assert(out.skip(1) =~= tail);
        } else {
            lemma_consume_sum(tail, amount - entries[0].amount, now);
        }
    }
}

/// A withdrawal from the queue succeeds exactly when at least as many shares have matured.
pub proof fn lemma_consume_succeeds_iff_matured(entries: Seq<Q4W>, amount: int, now: u64)
    requires
        amounts_nonnegative(entries),
        amount >= 0,
    ensures
        matured_sum(entries, now) >= 0,
        spec_consume_matured(entries, amount, now) is Some <==> matured_sum(entries, now)
            >= amount,
    decreases entries.len(),
{
    if entries.len() > 0 {
        let tail = entries.skip(1);
        assert forall|i: int| 0 <= i < tail.len() implies (#[trigger] tail[i]).amount >= 0 by {
            assert(tail[i] == entries[i + 1]);
        }
        lemma_consume_succeeds_iff_matured(tail, amount, now);
        if entries[0].exp <= now && entries[0].amount <= amount {
            lemma_consume_succeeds_iff_matured(tail, amount - entries[0].amount, now);
        }
    }
}

/// Withdrawing `amount` shares at time `now` takes them from matured withdrawals, oldest
/// first, burns them, and pays out the tokens they redeem.
pub open spec fn spec_withdraw(
    pool: PoolBalance,
    user: UserBalanceView,
    amount: i128,
    now: u64,
) -> Result<(PoolBalance, UserBalanceView, i128), BackstopError> {
    if amount < 0 {
        Err(BackstopError::NegativeAmount)
    } else {
        match spec_consume_matured(user.q4w, amount as int, now) {
            None => Err(BackstopError::NotExpired),
            Some(q4w) => match pool.spec_convert_to_tokens(amount) {
                None => Err(BackstopError::MathOverflow),
                Some(paid) => match (
                    pool.tokens.checked_sub(paid),
                    pool.shares.checked_sub(amount),
                    pool.q4w.checked_sub(amount),
                    user.shares.checked_sub(amount),
                ) {
                    (Some(tokens), Some(shares), Some(queued), Some(held)) => Ok(
                        (
                            PoolBalance { tokens, shares, q4w: queued },
                            UserBalanceView { shares: held, q4w },
                            paid,
                        ),
                    ),
                    _ => Err(BackstopError::MathOverflow),
                },
            },
        }
    }
}

fn consume_matured(queue: &Vec<Q4W>, amount: i128, now: u64) -> (r: Option<Vec<Q4W>>)
    requires
        amounts_nonnegative(queue@),
        amount >= 0,
    ensures
        match spec_consume_matured(queue@, amount as int, now) {
            Some(out) => r is Some && r.unwrap()@ == out,
            None => r is None,
        },
{
    let mut left = amount;
    let mut k: usize = 0;
    let mut out: Vec<Q4W> = Vec::new();
    proof {
        assert(queue@.skip(0) =~= queue@);
        match spec_consume_matured(queue@, amount as int, now) {
            Some(all) => {
                assert(out@ + all =~= all);
            },
            None => {},
        }
    }
    while k < queue.len() && left > 0
        invariant
            0 <= left <= amount,
            k <= queue@.len(),
            amounts_nonnegative(queue@),
            spec_consume_matured(queue@, amount as int, now) == spec_kept_in_front(
                out@,
                spec_consume_matured(queue@.skip(k as int), left as int, now),
            ),
        decreases queue@.len() - k,
    {
        let cur = queue[k];
        let ghost here = queue@.skip(k as int);
        let ghost kept = out@;
        proof {
            assert(here[0] == cur);
            assert(here.skip(1) =~= queue@.skip(k as int + 1));
        }
        if cur.exp > now {
            out.push(cur);
            proof {
                match spec_consume_matured(here.skip(1), left as int, now) {
                    Some(rest) => {
                        assert(kept + (seq![cur] + rest) =~= out@ + rest);
                    },
                    None => {},
                }
            }
        } else if cur.amount > left {
            let reduced = Q4W { amount: cur.amount - left, exp: cur.exp };
            out.push(reduced);
            left = 0;
            proof {
                assert(kept + here.update(0, reduced) =~= out@ + here.skip(1));
            }
        } else {
            left = left - cur.amount;
        }
        k += 1;
    }
    if left > 0 {
        assert(queue@.skip(k as int).len() == 0);
        return None;
    }
    let ghost target = out@ + queue@.skip(k as int);
    while k < queue.len()
        invariant
            k <= queue@.len(),
            target =~= out@ + queue@.skip(k as int),
            spec_consume_matured(queue@, amount as int, now) == Some(target),
        decreases queue@.len() - k,
    {
        assert(queue@.skip(k as int)[0] == queue@[k as int]);
        assert(queue@.skip(k as int).skip(1) =~= queue@.skip(k as int + 1));
        out.push(queue[k]);
        k += 1;
    }
    assert(queue@.skip(k as int) =~= Seq::<Q4W>::empty());
    assert(target =~= out@);
    Some(out)
}

/// Withdraw shares from a user's withdraw queue for a backstop of a pool.
///
/// Returns the pool's and the user's new balances and the amount of tokens returned.
pub fn execute_withdraw(pool: PoolBalance, user: UserBalance, amount: i128, now: u64) -> (r:
    Result<(PoolBalance, UserBalance, i128), BackstopError>)
    requires
        user.wf(),
    ensures
        match spec_withdraw(pool, user@, amount, now) {
            Ok(done) => r is Ok && r.unwrap().0 == done.0 && r.unwrap().1@ == done.1
                && r.unwrap().2 == done.2,
            Err(e) => r is Err && r->Err_0 == e,
        },
{
    if amount < 0 {
        return Err(BackstopError::NegativeAmount);
    }
    let queue = match consume_matured(&user.q4w, amount, now) {
        Some(queue) => queue,
        None => {
            return Err(BackstopError::NotExpired);
        },
    };
    let paid = match pool.convert_to_tokens(amount) {
        Some(v) => v,
        None => {
            return Err(BackstopError::MathOverflow);
        },
    };
    match (
        pool.tokens.checked_sub(paid),
        pool.shares.checked_sub(amount),
        pool.q4w.checked_sub(amount),
        user.shares.checked_sub(amount),
    ) {
        (Some(tokens), Some(shares), Some(queued), Some(held)) => Ok(
            (PoolBalance { tokens, shares, q4w: queued }, UserBalance { shares: held, q4w: queue }, paid),
        ),
        _ => Err(BackstopError::MathOverflow),
    }
}

/// Drawing `amount` tokens is open to the pool itself only and cannot take more than the
/// backstop holds.
pub open spec fn spec_draw(
    caller: Address,
    pool_address: Address,
    pool: PoolBalance,
    amount: i128,
) -> Result<PoolBalance, BackstopError> {
    if caller != pool_address {
        Err(BackstopError::NotPool)
    } else if amount < 0 {
        Err(BackstopError::NegativeAmount)
    } else if pool.tokens < amount {
        Err(BackstopError::NotEnoughIdleFunds)
    } else {
        Ok(PoolBalance { tokens: (pool.tokens - amount) as i128, ..pool })
    }
}

/// Take backstop tokens from a pool's backstop.
///
/// Returns the pool's new balance; the tokens go to whom the pool names.
pub fn execute_draw(caller: Address, pool_address: Address, pool: PoolBalance, amount: i128) -> (r:
    Result<PoolBalance, BackstopError>)
    ensures
        r == spec_draw(caller, pool_address, pool, amount),
        r is Ok ==> r.unwrap().tokens >= 0,
{
    if caller.id != pool_address.id {
        return Err(BackstopError::NotPool);
    }
    if amount < 0 {
        return Err(BackstopError::NegativeAmount);
    }
    if pool.tokens < amount {
        return Err(BackstopError::NotEnoughIdleFunds);
    }
    Ok(PoolBalance { tokens: pool.tokens - amount, shares: pool.shares, q4w: pool.q4w })
}

/// Donating `amount` tokens adds them to the backstop and mints nothing.
pub open spec fn spec_donate(pool: PoolBalance, amount: i128) -> Result<
    PoolBalance,
    BackstopError,
> {
    if amount < 0 {
        Err(BackstopError::NegativeAmount)
    } else {
        match pool.tokens.checked_add(amount) {
            Some(tokens) => Ok(PoolBalance { tokens, ..pool }),
            None => Err(BackstopError::MathOverflow),
        }
    }
}

/// Sends backstop tokens to a pool's backstop without minting shares.
pub fn execute_donate(pool: PoolBalance, amount: i128) -> (r: Result<PoolBalance, BackstopError>)
    ensures
        r == spec_donate(pool, amount),
{
    if amount < 0 {
        return Err(BackstopError::NegativeAmount);
    }
    match pool.tokens.checked_add(amount) {
        Some(tokens) => Ok(PoolBalance { tokens, shares: pool.shares, q4w: pool.q4w }),
        None => Err(BackstopError::MathOverflow),
    }
}

/// What the users of a backstop hold and have queued, against the pool's totals:
/// `shares_of` and `queued_of` give each user's shares and queued shares, and `who` is the
/// user whose stake moves from `user` to `after` while the pool moves from `pool` to `next`.
pub open spec fn totals_kept(
    shares_of: Seq<int>,
    queued_of: Seq<int>,
    who: int,
    after: UserBalanceView,
    next: PoolBalance,
) -> bool {
    &&& crate::ledger::total(shares_of.update(who, after.shares as int)) == next.shares
    &&& crate::ledger::total(queued_of.update(who, sum_q4w(after.q4w))) == next.q4w
}

/// Whether the ledgers of a backstop agree with the pool's totals and with the stake of
/// user `who`.
pub open spec fn totals_hold(
    shares_of: Seq<int>,
    queued_of: Seq<int>,
    who: int,
    user: UserBalanceView,
    pool: PoolBalance,
) -> bool {
    &&& 0 <= who < shares_of.len()
    &&& 0 <= who < queued_of.len()
    &&& crate::ledger::total(shares_of) == pool.shares
    &&& crate::ledger::total(queued_of) == pool.q4w
    &&& shares_of[who] == user.shares
    &&& queued_of[who] == sum_q4w(user.q4w)
    &&& amounts_nonnegative(user.q4w)
}

/// Whether every user of a backstop has queued a number of shares that is not negative and
/// not above the shares the user holds.
pub open spec fn ledgers_sound(shares_of: Seq<int>, queued_of: Seq<int>) -> bool {
    &&& shares_of.len() == queued_of.len()
    &&& forall|i: int| 0 <= i < shares_of.len() ==> 0 <= #[trigger] queued_of[i] <= shares_of[i]
}

/// No more shares have matured in a queue without negative amounts than it queues.
pub proof fn lemma_matured_within_queued(entries: Seq<Q4W>, now: u64)
    requires
        amounts_nonnegative(entries),
    ensures
        0 <= matured_sum(entries, now) <= sum_q4w(entries),
    decreases entries.len(),
{
    if entries.len() > 0 {
        let tail = entries.skip(1);
        assert forall|i: int| 0 <= i < tail.len() implies (#[trigger] tail[i]).amount >= 0 by {
            assert(tail[i] == entries[i + 1]);
        }
        lemma_matured_within_queued(tail, now);
        lemma_sum_q4w_front(entries);
    }
}

/// Where the users' shares and queued shares add up to the pool's, a user can queue any
/// number of shares held and not yet queued, as long as the queue has room and the time of
/// maturity can be told: the withdrawal is appended last and matures after the lock time,
/// and only the pool's queued shares grow, by as much.
pub proof fn lemma_queue_withdrawal_succeeds(
    shares_of: Seq<int>,
    queued_of: Seq<int>,
    who: int,
    pool: PoolBalance,
    user: UserBalanceView,
    amount: i128,
    now: u64,
)
    requires
        totals_hold(shares_of, queued_of, who, user, pool),
        ledgers_sound(shares_of, queued_of),
        0 <= amount <= user.shares - sum_q4w(user.q4w),
        user.q4w.len() < MAX_Q4W_SIZE,
        now + Q4W_LOCK_TIME <= u64::MAX,
    ensures
        ({
            let entry = Q4W { amount, exp: (now + Q4W_LOCK_TIME) as u64 };
            spec_queue_withdrawal(pool, user, amount, now) == Ok::<
                (PoolBalance, UserBalanceView, Q4W),
                BackstopError,
            >(
                (
                    PoolBalance { q4w: (pool.q4w + amount) as i128, ..pool },
                    UserBalanceView { shares: user.shares, q4w: user.q4w.push(entry) },
                    entry,
                ),
            )
        }),
        pool.q4w + amount <= pool.shares,
{
    let raised = queued_of.update(who, queued_of[who] + amount);
    crate::ledger::lemma_total_update(queued_of, who, queued_of[who] + amount);
    crate::ledger::lemma_total_dominated(raised, shares_of);
}

/// Where the users' shares and queued shares add up to the pool's, a user can withdraw any
/// number of shares that have matured, as long as the product of the pool's tokens and
/// those shares can be told: the user is paid the tokens' part of the shares, rounded
/// down, and the shares leave the user, the queue and the pool.
pub proof fn lemma_withdraw_succeeds(
    shares_of: Seq<int>,
    queued_of: Seq<int>,
    who: int,
    pool: PoolBalance,
    user: UserBalanceView,
    amount: i128,
    now: u64,
)
    requires
        totals_hold(shares_of, queued_of, who, user, pool),
        ledgers_sound(shares_of, queued_of),
        0 < amount <= matured_sum(user.q4w, now),
        pool.tokens >= 0,
        crate::fixed_math::fits_i128(pool.tokens * amount),
    ensures
        ({
            let paid = crate::fixed_math::floor_div(pool.tokens * amount, pool.shares as int);
            &&& spec_consume_matured(user.q4w, amount as int, now) is Some
            &&& 0 <= paid <= pool.tokens
            &&& spec_withdraw(pool, user, amount, now) == Ok::<
                (PoolBalance, UserBalanceView, i128),
                BackstopError,
            >(
                (
                    PoolBalance {
                        tokens: (pool.tokens - paid) as i128,
                        shares: (pool.shares - amount) as i128,
                        q4w: (pool.q4w - amount) as i128,
                    },
                    UserBalanceView {
                        shares: (user.shares - amount) as i128,
                        q4w: spec_consume_matured(user.q4w, amount as int, now).unwrap(),
                    },
                    paid as i128,
                ),
            )
        }),
{
    lemma_consume_succeeds_iff_matured(user.q4w, amount as int, now);
    lemma_matured_within_queued(user.q4w, now);
    crate::ledger::lemma_total_covers_holder(queued_of, who);
    assert forall|i: int| 0 <= i < shares_of.len() implies shares_of[i] >= 0 by {
        assert(0 <= queued_of[i] <= shares_of[i]);
    }
    crate::ledger::lemma_total_covers_holder(shares_of, who);
    let shares = pool.shares as int;
    let product = pool.tokens * amount;
    crate::fixed_math::lemma_floor_div_bounds(product, shares);
    let paid = crate::fixed_math::floor_div(product, shares);
    assert(0 <= paid <= pool.tokens) by (nonlinear_arith)
        requires
            shares > 0,
            0 < amount <= shares,
            pool.tokens >= 0,
            product == pool.tokens * amount,
            paid * shares <= product < paid * shares + shares,
    ;
}

/// After a deposit the users' shares still add up to the pool's shares and their queued
/// shares to the pool's queued shares.
pub proof fn lemma_deposit_keeps_totals(
    shares_of: Seq<int>,
    queued_of: Seq<int>,
    who: int,
    pool: PoolBalance,
    user: UserBalanceView,
    amount: i128,
)
    requires
        totals_hold(shares_of, queued_of, who, user, pool),
        spec_deposit(pool, user, amount) is Ok,
    ensures
        totals_kept(
            shares_of,
            queued_of,
            who,
            spec_deposit(pool, user, amount).unwrap().1,
            spec_deposit(pool, user, amount).unwrap().0,
        ),
{
    let done = spec_deposit(pool, user, amount).unwrap();
    crate::ledger::lemma_total_update(shares_of, who, done.1.shares as int);
    crate::ledger::lemma_total_update(queued_of, who, sum_q4w(done.1.q4w));
}

/// After a withdrawal has been queued the users' shares still add up to the pool's shares
/// and their queued shares to the pool's queued shares.
pub proof fn lemma_queue_keeps_totals(
    shares_of: Seq<int>,
    queued_of: Seq<int>,
    who: int,
    pool: PoolBalance,
    user: UserBalanceView,
    amount: i128,
    now: u64,
)
    requires
        totals_hold(shares_of, queued_of, who, user, pool),
        spec_queue_withdrawal(pool, user, amount, now) is Ok,
    ensures
        totals_kept(
            shares_of,
            queued_of,
            who,
            spec_queue_withdrawal(pool, user, amount, now).unwrap().1,
            spec_queue_withdrawal(pool, user, amount, now).unwrap().0,
        ),
{
    let done = spec_queue_withdrawal(pool, user, amount, now).unwrap();
    assert(done.1.q4w.drop_last() =~= user.q4w);
    crate::ledger::lemma_total_update(shares_of, who, done.1.shares as int);
    crate::ledger::lemma_total_update(queued_of, who, sum_q4w(done.1.q4w));
}

/// After queued shares have been dequeued the users' shares still add up to the pool's
/// shares and their queued shares to the pool's queued shares.
pub proof fn lemma_dequeue_keeps_totals(
    shares_of: Seq<int>,
    queued_of: Seq<int>,
    who: int,
    pool: PoolBalance,
    user: UserBalanceView,
    amount: i128,
)
    requires
        totals_hold(shares_of, queued_of, who, user, pool),
        spec_dequeue_withdrawal(pool, user, amount) is Ok,
    ensures
        totals_kept(
            shares_of,
            queued_of,
            who,
            spec_dequeue_withdrawal(pool, user, amount).unwrap().1,
            spec_dequeue_withdrawal(pool, user, amount).unwrap().0,
        ),
{
    let done = spec_dequeue_withdrawal(pool, user, amount).unwrap();
    lemma_dequeue_sum(user.q4w, amount as int);
    crate::ledger::lemma_total_update(shares_of, who, done.1.shares as int);
    crate::ledger::lemma_total_update(queued_of, who, sum_q4w(done.1.q4w));
}

/// After a withdrawal the users' shares still add up to the pool's shares and their queued
/// shares to the pool's queued shares.
pub proof fn lemma_withdraw_keeps_totals(
    shares_of: Seq<int>,
    queued_of: Seq<int>,
    who: int,
    pool: PoolBalance,
    user: UserBalanceView,
    amount: i128,
    now: u64,
)
    requires
        totals_hold(shares_of, queued_of, who, user, pool),
        spec_withdraw(pool, user, amount, now) is Ok,
    ensures
        totals_kept(
            shares_of,
            queued_of,
            who,
            spec_withdraw(pool, user, amount, now).unwrap().1,
            spec_withdraw(pool, user, amount, now).unwrap().0,
        ),
{
    let done = spec_withdraw(pool, user, amount, now).unwrap();
    lemma_consume_sum(user.q4w, amount as int, now);
    crate::ledger::lemma_total_update(shares_of, who, done.1.shares as int);
    crate::ledger::lemma_total_update(queued_of, who, sum_q4w(done.1.q4w));
}

/// Require that an incoming amount is not negative
pub fn require_nonnegative(amount: i128) -> (r: Result<(), BackstopError>)
    ensures
        r == (if amount < 0 {
            Err::<(), BackstopError>(BackstopError::NegativeAmount)
        } else {
            Ok(())
        }),
{
    if amount < 0 {
        Err(BackstopError::NegativeAmount)
    } else {
        Ok(())
    }
}

} // verus!
