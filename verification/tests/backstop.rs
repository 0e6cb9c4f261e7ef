use lending_pool::address::Address;
use lending_pool::backstop::{
    execute_deposit, execute_dequeue_withdrawal, execute_donate, execute_draw,
    execute_queue_withdrawal, execute_withdraw, require_nonnegative, PoolBalance, UserBalance, Q4W,
};
use lending_pool::contract::{BackstopContract, DropEntry};
use lending_pool::errors::BackstopError;
use lending_pool::reward_zone::{add_reward, reward_zone_size};

fn empty_pool() -> PoolBalance {
    PoolBalance { tokens: 0, shares: 0, q4w: 0 }
}

fn copy_user(user: &UserBalance) -> UserBalance {
    UserBalance { shares: user.shares, q4w: user.q4w.clone() }
}

#[test]
fn test_draw_happy_path() {
    let pool_2 = Address { id: 2 };

    let (balance_1, samwise_1, _) =
        execute_deposit(empty_pool(), UserBalance::new(), 400_000_0000000).unwrap();
    let (balance_2, samwise_2, _) =
        execute_deposit(empty_pool(), UserBalance::new(), 200_000_0000000).unwrap();

    assert_eq!(balance_1.tokens, 400_000_0000000);
    assert_eq!(balance_1.shares, 400_000_0000000);
    assert_eq!(balance_2.tokens, 200_000_0000000);
    assert_eq!(balance_2.shares, 200_000_0000000);
    assert_eq!(samwise_1.shares, 400_000_0000000);
    assert_eq!(samwise_2.shares, 200_000_0000000);

    // draw
    let post_2 = execute_draw(pool_2, pool_2, balance_2, 100_000_0000000).unwrap();

    assert_eq!(balance_1.tokens, 400_000_0000000);
    assert_eq!(balance_1.shares, 400_000_0000000);
    assert_eq!(post_2.tokens, 200_000_0000000 - 100_000_0000000);
    assert_eq!(post_2.shares, 200_000_0000000);
    assert_eq!(balance_2.tokens - post_2.tokens, 100_000_0000000);
    assert_eq!(balance_1.tokens + post_2.tokens, 500_000_0000000);
}

#[test]
fn test_draw_not_pool() {
    let pool_2 = Address { id: 2 };
    let sauron = Address { id: 66 };

    let (balance_1, _, _) =
        execute_deposit(empty_pool(), UserBalance::new(), 400_000_0000000).unwrap();
    let (balance_2, _, _) =
        execute_deposit(empty_pool(), UserBalance::new(), 200_000_0000000).unwrap();

    assert_eq!(balance_1.tokens, 400_000_0000000);
    assert_eq!(balance_1.shares, 400_000_0000000);
    assert_eq!(balance_2.tokens, 200_000_0000000);
    assert_eq!(balance_2.shares, 200_000_0000000);

    // draw
    let result = execute_draw(sauron, pool_2, balance_2, 100_000_0000000);

    match result {
        Ok(_) => {
            assert!(false);
        },
        Err(error) => assert_eq!(error, BackstopError::NotPool),
    }
}

#[test]
fn draw_cannot_take_more_than_is_held() {
    let pool = Address { id: 2 };
    let balance = PoolBalance { tokens: 10, shares: 10, q4w: 0 };
    assert_eq!(execute_draw(pool, pool, balance, 11), Err(BackstopError::NotEnoughIdleFunds));
    assert_eq!(execute_draw(pool, pool, balance, -1), Err(BackstopError::NegativeAmount));
    assert_eq!(execute_draw(pool, pool, balance, 10).unwrap().tokens, 0);
}

#[test]
fn donate_adds_tokens_without_shares() {
    let balance = PoolBalance { tokens: 10, shares: 7, q4w: 1 };
    assert_eq!(execute_donate(balance, 5), Ok(PoolBalance { tokens: 15, shares: 7, q4w: 1 }));
    assert_eq!(execute_donate(balance, -5), Err(BackstopError::NegativeAmount));
    assert_eq!(execute_donate(balance, i128::MAX), Err(BackstopError::MathOverflow));
}

#[test]
fn deposit_mints_shares_rounded_down() {
    // 150 tokens back 100 shares
    let pool = PoolBalance { tokens: 150_0000000, shares: 100_0000000, q4w: 0 };
    let (next, user, minted) = execute_deposit(pool, UserBalance::new(), 10_0000000).unwrap();
    assert_eq!(minted, 6_6666666);
    assert_eq!(next, PoolBalance { tokens: 160_0000000, shares: 106_6666666, q4w: 0 });
    assert_eq!(user.shares, 6_6666666);
    assert!(user.q4w.is_empty());
}

#[test]
fn deposit_refuses_a_negative_amount() {
    let result = execute_deposit(empty_pool(), UserBalance::new(), -1);
    assert_eq!(result.err(), Some(BackstopError::NegativeAmount));
}

#[test]
fn queued_withdrawal_matures_after_twenty_one_days() {
    let (pool, user, _) = execute_deposit(empty_pool(), UserBalance::new(), 400_000_0000000).unwrap();
    let (pool, user, entry) = execute_queue_withdrawal(pool, user, 100_000_0000000, 0).unwrap();
    assert_eq!(entry, Q4W { amount: 100_000_0000000, exp: 21 * 86_400 });
    assert_eq!(pool.q4w, 100_000_0000000);
    assert_eq!(user.shares, 400_000_0000000);
    assert_eq!(user.q4w, vec![entry]);

    let early = execute_withdraw(pool, copy_user(&user), 100_000_0000000, 21 * 86_400 - 1);
    assert_eq!(early.err(), Some(BackstopError::NotExpired));

    let (pool, user, paid) = execute_withdraw(pool, user, 100_000_0000000, 21 * 86_400).unwrap();
    assert_eq!(paid, 100_000_0000000);
    assert_eq!(pool, PoolBalance { tokens: 300_000_0000000, shares: 300_000_0000000, q4w: 0 });
    assert_eq!(user.shares, 300_000_0000000);
    assert!(user.q4w.is_empty());
}

#[test]
fn withdraw_pays_the_tokens_per_share() {
    let pool = PoolBalance { tokens: 150, shares: 100, q4w: 25 };
    let user = UserBalance { shares: 50, q4w: vec![Q4W { amount: 25, exp: 10 }] };
    let (pool, user, paid) = execute_withdraw(pool, user, 15, 10).unwrap();
    // 150 * 15 / 100 = 22.5
    assert_eq!(paid, 22);
    assert_eq!(pool, PoolBalance { tokens: 128, shares: 85, q4w: 10 });
    assert_eq!(user.shares, 35);
    assert_eq!(user.q4w, vec![Q4W { amount: 10, exp: 10 }]);
}

#[test]
fn withdraw_consumes_oldest_first() {
    let pool = PoolBalance { tokens: 100, shares: 100, q4w: 60 };
    let queue = vec![
        Q4W { amount: 10, exp: 10 },
        Q4W { amount: 20, exp: 20 },
        Q4W { amount: 30, exp: 30 },
    ];
    let user = UserBalance { shares: 80, q4w: queue };
    let (next, after, paid) = execute_withdraw(pool, copy_user(&user), 25, 25).unwrap();
    assert_eq!(paid, 25);
    assert_eq!(next.q4w, 35);
    assert_eq!(after.q4w, vec![Q4W { amount: 5, exp: 20 }, Q4W { amount: 30, exp: 30 }]);
    assert_eq!(after.shares, 55);
    // the third entry has not matured
    let late = execute_withdraw(pool, copy_user(&user), 31, 25);
    assert_eq!(late.err(), Some(BackstopError::NotExpired));
    // nothing more is queued
    let beyond = execute_withdraw(pool, user, 61, 100);
    assert_eq!(beyond.err(), Some(BackstopError::NotExpired));
}

#[test]
fn withdraw_passes_over_what_has_not_matured() {
    let pool = PoolBalance { tokens: 100, shares: 100, q4w: 12 };
    let queue = vec![Q4W { amount: 5, exp: 100 }, Q4W { amount: 7, exp: 10 }];
    let user = UserBalance { shares: 20, q4w: queue };
    let (next, after, paid) = execute_withdraw(pool, copy_user(&user), 6, 50).unwrap();
    assert_eq!(paid, 6);
    assert_eq!(next, PoolBalance { tokens: 94, shares: 94, q4w: 6 });
    assert_eq!(after.shares, 14);
    assert_eq!(after.q4w, vec![Q4W { amount: 5, exp: 100 }, Q4W { amount: 1, exp: 10 }]);
    // all that has matured
    let (_, after, _) = execute_withdraw(pool, copy_user(&user), 7, 50).unwrap();
    assert_eq!(after.q4w, vec![Q4W { amount: 5, exp: 100 }]);
    // more than has matured
    let short = execute_withdraw(pool, user, 8, 50);
    assert_eq!(short.err(), Some(BackstopError::NotExpired));
}

#[test]
fn stake_well_formedness() {
    assert!(UserBalance::new().is_well_formed());
    let entry = |amount| Q4W { amount, exp: 0 };
    assert!(UserBalance { shares: 10, q4w: vec![entry(4), entry(6)] }.is_well_formed());
    assert!(!UserBalance { shares: 10, q4w: vec![entry(4), entry(7)] }.is_well_formed());
    assert!(!UserBalance { shares: 10, q4w: vec![entry(-1), entry(6)] }.is_well_formed());
    assert!(!UserBalance { shares: -1, q4w: Vec::new() }.is_well_formed());
    assert!(!UserBalance { shares: i128::MAX, q4w: vec![entry(i128::MAX), entry(1)] }
        .is_well_formed());
    assert!(UserBalance { shares: 100, q4w: vec![entry(1); 20] }.is_well_formed());
    assert!(!UserBalance { shares: 100, q4w: vec![entry(1); 21] }.is_well_formed());
}

#[test]
fn queue_needs_shares_that_are_not_queued() {
    let pool = PoolBalance { tokens: 100, shares: 100, q4w: 30 };
    let user = UserBalance { shares: 50, q4w: vec![Q4W { amount: 30, exp: 10 }] };
    let result = execute_queue_withdrawal(pool, copy_user(&user), 21, 0);
    assert_eq!(result.err(), Some(BackstopError::NotEnoughIdleFunds));
    let (next, after, entry) = execute_queue_withdrawal(pool, copy_user(&user), 20, 5).unwrap();
    assert_eq!(entry, Q4W { amount: 20, exp: 5 + 1_814_400 });
    assert_eq!(next.q4w, 50);
    assert_eq!(after.q4w.len(), 2);
    let negative = execute_queue_withdrawal(pool, user, -1, 0);
    assert_eq!(negative.err(), Some(BackstopError::NegativeAmount));
}

#[test]
fn queue_has_a_limit() {
    let mut pool = PoolBalance { tokens: 100, shares: 100, q4w: 0 };
    let mut user = UserBalance { shares: 100, q4w: Vec::new() };
    for _ in 0..20 {
        let (next, after, _) = execute_queue_withdrawal(pool, user, 1, 0).unwrap();
        pool = next;
        user = after;
    }
    let result = execute_queue_withdrawal(pool, user, 1, 0);
    assert_eq!(result.err(), Some(BackstopError::BadRequest));
}

#[test]
fn dequeue_cancels_newest_first() {
    let pool = PoolBalance { tokens: 100, shares: 100, q4w: 60 };
    let queue = vec![
        Q4W { amount: 10, exp: 10 },
        Q4W { amount: 20, exp: 20 },
        Q4W { amount: 30, exp: 30 },
    ];
    let user = UserBalance { shares: 80, q4w: queue };
    let (next, after) = execute_dequeue_withdrawal(pool, copy_user(&user), 35).unwrap();
    assert_eq!(next.q4w, 25);
    assert_eq!(after.q4w, vec![Q4W { amount: 10, exp: 10 }, Q4W { amount: 15, exp: 20 }]);
    assert_eq!(after.shares, 80);
    let too_much = execute_dequeue_withdrawal(pool, copy_user(&user), 61);
    assert_eq!(too_much.err(), Some(BackstopError::BadRequest));
    let negative = execute_dequeue_withdrawal(pool, user, -1);
    assert_eq!(negative.err(), Some(BackstopError::NegativeAmount));
}

#[test]
fn shares_and_queue_add_up() {
    let (pool, frodo, _) = execute_deposit(empty_pool(), UserBalance::new(), 1000).unwrap();
    let pool = execute_donate(pool, 500).unwrap();
    let (pool, sam, _) = execute_deposit(pool, UserBalance::new(), 777).unwrap();
    let (pool, frodo, _) = execute_queue_withdrawal(pool, frodo, 300, 0).unwrap();
    let (pool, sam, _) = execute_queue_withdrawal(pool, sam, 100, 5).unwrap();
    let (pool, frodo) = execute_dequeue_withdrawal(pool, frodo, 50).unwrap();
    let (pool, frodo, _) = execute_withdraw(pool, frodo, 200, 2_000_000).unwrap();
    let queued = |user: &UserBalance| user.q4w.iter().map(|entry| entry.amount).sum::<i128>();
    assert_eq!(frodo.shares + sam.shares, pool.shares);
    assert_eq!(queued(&frodo) + queued(&sam), pool.q4w);
    assert_eq!(sam.queued(), 100);
}

#[test]
fn conversions_between_tokens_and_shares() {
    let pool = PoolBalance { tokens: 150, shares: 100, q4w: 0 };
    assert_eq!(pool.convert_to_shares(10), Some(6));
    assert_eq!(pool.convert_to_tokens(15), Some(22));
    assert_eq!(empty_pool().convert_to_shares(10), Some(10));
    assert_eq!(empty_pool().convert_to_tokens(10), None);
}

#[test]
fn backstop_require_nonnegative() {
    assert_eq!(require_nonnegative(0), Ok(()));
    assert_eq!(require_nonnegative(-1), Err(BackstopError::NegativeAmount));
}

#[test]
fn backstop_error_codes() {
    assert_eq!(BackstopError::AlreadyInitialized.code(), 1);
    assert_eq!(BackstopError::NegativeAmount.code(), 2);
    assert_eq!(BackstopError::NotPool.code(), 200);
    assert_eq!(BackstopError::NotExpired.code(), 200);
    assert_eq!(BackstopError::NotEnoughIdleFunds.code(), 200);
}

#[test]
fn new_backstop_is_not_set_up() {
    let fresh = BackstopContract::new();
    assert!(!fresh.is_init);
    assert_eq!(fresh.backstop_token, Address { id: 0 });
    assert_eq!(fresh.emitter, Address { id: 0 });
    assert_eq!(fresh.blnd_token, Address { id: 0 });
    assert_eq!(fresh.usdc_token, Address { id: 0 });
    assert_eq!(fresh.pool_factory, Address { id: 0 });
    assert!(fresh.drop_list.is_empty());
    assert_eq!(fresh.last_distribution_time, 0);
}

#[test]
fn initialize_only_once() {
    let drop_list = vec![DropEntry { to: Address { id: 8 }, amount: 50 }];
    let set = BackstopContract::new()
        .initialize(
            Address { id: 1 },
            Address { id: 2 },
            Address { id: 3 },
            Address { id: 4 },
            Address { id: 5 },
            drop_list.clone(),
            1234,
        )
        .unwrap();
    assert!(set.is_init);
    assert_eq!(set.backstop_token, Address { id: 1 });
    assert_eq!(set.emitter, Address { id: 2 });
    assert_eq!(set.blnd_token, Address { id: 3 });
    assert_eq!(set.usdc_token, Address { id: 4 });
    assert_eq!(set.pool_factory, Address { id: 5 });
    assert_eq!(set.drop_list, drop_list);
    assert_eq!(set.last_distribution_time, 1234);
    let again = set.initialize(
        Address { id: 1 },
        Address { id: 2 },
        Address { id: 3 },
        Address { id: 4 },
        Address { id: 5 },
        Vec::new(),
        0,
    );
    assert_eq!(again.err(), Some(BackstopError::AlreadyInitialized));
}

#[test]
fn reward_zone_grows_with_the_square_root_of_days() {
    assert_eq!(reward_zone_size(0, 0), 10);
    assert_eq!(reward_zone_size(100, 50), 10);
    // one day: sqrt(1) * 10
    assert_eq!(reward_zone_size(0, 86_400), 10);
    // two days: sqrt(2) * 10 = 14.1
    assert_eq!(reward_zone_size(0, 2 * 86_400), 14);
    // a year: sqrt(365) * 10 = 191.04
    assert_eq!(reward_zone_size(0, 365 * 86_400), 191);
    // four years less a second
    assert_eq!(reward_zone_size(5, 5 + 4 * 365 * 86_400 - 1), 381);
}

#[test]
fn reward_zone_admits_while_there_is_room() {
    let zone = vec![Address { id: 1 }];
    let next = add_reward(zone, 2, Address { id: 2 }, Address { id: 9 }, 0, 0, 0, 0).unwrap();
    assert_eq!(next, vec![Address { id: 1 }, Address { id: 2 }]);
    let twice = add_reward(next, 3, Address { id: 2 }, Address { id: 9 }, 0, 0, 0, 0);
    assert_eq!(twice.err(), Some(BackstopError::BadRequest));
}

#[test]
fn reward_zone_swaps_when_full() {
    let zone = vec![Address { id: 1 }, Address { id: 2 }];
    let day = 86_400;
    let swapped =
        add_reward(zone.clone(), 2, Address { id: 3 }, Address { id: 1 }, 11, 10, 0, 2 * day)
            .unwrap();
    assert_eq!(swapped, vec![Address { id: 3 }, Address { id: 2 }]);
    // not strictly more tokens
    let equal = add_reward(zone.clone(), 2, Address { id: 3 }, Address { id: 1 }, 10, 10, 0, 2 * day);
    assert_eq!(equal.err(), Some(BackstopError::BadRequest));
    // a distribution within the last 48 hours
    let recent =
        add_reward(zone.clone(), 2, Address { id: 3 }, Address { id: 1 }, 11, 10, 1, 2 * day);
    assert_eq!(recent.err(), Some(BackstopError::BadRequest));
    // the pool to remove is not in the zone
    let absent = add_reward(zone, 2, Address { id: 3 }, Address { id: 7 }, 11, 10, 0, 2 * day);
    assert_eq!(absent.err(), Some(BackstopError::BadRequest));
}
