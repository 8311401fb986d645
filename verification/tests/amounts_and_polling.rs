use bridge_attestation::amount::Amount;
use bridge_attestation::poll::{
    holds_denom, judge_balance, judge_deposit, Backoff, BalanceVerdict, Coin, DepositVerdict,
    PollAction, RetryPolicy, RetryStep, WaitOutcome,
};

fn coin(denom: &str, amount: u128) -> Coin {
    Coin { denom: denom.to_string(), amount: Amount::from_u128(amount) }
}

#[test]
fn amount_constructors() {
    assert_eq!(Amount::zero(), Amount { hi: 0, lo: 0 });
    assert_eq!(Amount::from_u128(17), Amount { hi: 0, lo: 17 });
    assert!(Amount::zero().is_zero());
    assert!(!Amount::from_u128(1).is_zero());
    assert!(!Amount { hi: 1, lo: 0 }.is_zero());
}

#[test]
fn amount_addition_carries_into_the_high_limb() {
    let a = Amount { hi: 0, lo: u128::MAX };
    let b = Amount { hi: 0, lo: 1 };
    assert_eq!(a.checked_add(&b), Some(Amount { hi: 1, lo: 0 }));
    let c = Amount { hi: 7, lo: u128::MAX - 1 };
    let d = Amount { hi: 2, lo: 5 };
    assert_eq!(c.checked_add(&d), Some(Amount { hi: 10, lo: 3 }));
    assert_eq!(
        Amount::from_u128(100_000_000_000_000_000).checked_add(&Amount::from_u128(
            50_000_000_000_000_000
        )),
        Some(Amount::from_u128(150_000_000_000_000_000))
    );
    assert_eq!(Amount::zero().checked_add(&Amount::zero()), Some(Amount::zero()));
}

#[test]
fn amount_addition_reports_overflow() {
    let top = Amount { hi: u128::MAX, lo: u128::MAX };
    assert_eq!(top.checked_add(&Amount::from_u128(1)), None);
    assert_eq!(top.checked_add(&Amount::zero()), Some(top));
    assert_eq!(Amount { hi: u128::MAX, lo: 0 }.checked_add(&Amount { hi: 1, lo: 0 }), None);
    assert_eq!(
        Amount { hi: u128::MAX - 1, lo: u128::MAX }.checked_add(&Amount { hi: 0, lo: 1 }),
        Some(Amount { hi: u128::MAX, lo: 0 })
    );
    assert_eq!(
        Amount { hi: u128::MAX - 1, lo: u128::MAX }.checked_add(&Amount { hi: 1, lo: 1 }),
        None
    );
}

#[test]
fn amount_downcast() {
    assert_eq!(Amount::from_u128(0).to_u64(), Some(0));
    assert_eq!(Amount::from_u128(u64::MAX as u128).to_u64(), Some(u64::MAX));
    assert_eq!(Amount::from_u128(u64::MAX as u128 + 1).to_u64(), None);
    assert_eq!(Amount { hi: 1, lo: 3 }.to_u64(), None);
}

#[test]
fn balance_verdicts() {
    let expected = Amount::from_u128(1_000_000);
    assert_eq!(judge_balance(None, expected), BalanceVerdict::Transient);
    assert_eq!(judge_balance(Some(Amount::from_u128(1_000_000)), expected), BalanceVerdict::Bridged);
    assert_eq!(judge_balance(Some(Amount::zero()), expected), BalanceVerdict::Pending);
    assert_eq!(
        judge_balance(Some(Amount::from_u128(999_999)), expected),
        BalanceVerdict::Contradiction
    );
    assert_eq!(
        judge_balance(Some(Amount { hi: 1, lo: 1_000_000 }), expected),
        BalanceVerdict::Contradiction
    );
    assert_eq!(judge_balance(Some(Amount::zero()), Amount::zero()), BalanceVerdict::Bridged);
}

#[test]
fn deposit_verdicts() {
    let amount = Amount::from_u128(50);
    assert_eq!(
        judge_deposit(&Some(coin("gravity0x1", 100)), &Some(coin("gravity0x1", 150)), &amount),
        DepositVerdict::Bridged
    );
    assert_eq!(
        judge_deposit(&Some(coin("gravity0x1", 100)), &Some(coin("gravity0x1", 100)), &amount),
        DepositVerdict::Pending
    );
    assert_eq!(
        judge_deposit(&Some(coin("gravity0x1", 100)), &Some(coin("gravity0x2", 150)), &amount),
        DepositVerdict::Pending
    );
    assert_eq!(
        judge_deposit(&None, &Some(coin("gravity0x1", 50)), &amount),
        DepositVerdict::Bridged
    );
    assert_eq!(
        judge_deposit(&None, &Some(coin("gravity0x1", 51)), &amount),
        DepositVerdict::Mismatch
    );
    assert_eq!(judge_deposit(&None, &None, &amount), DepositVerdict::Pending);
    assert_eq!(
        judge_deposit(&Some(coin("gravity0x1", 100)), &None, &amount),
        DepositVerdict::Pending
    );
}

#[test]
fn deposit_that_would_overflow_is_pending() {
    let start = Some(Coin {
        denom: "gravity0x1".to_string(),
        amount: Amount { hi: u128::MAX, lo: u128::MAX },
    });
    let end = Some(coin("gravity0x1", 0));
    assert_eq!(judge_deposit(&start, &end, &Amount::from_u128(1)), DepositVerdict::Pending);
    let wide_start = Some(Coin {
        denom: "gravity0x1".to_string(),
        amount: Amount { hi: 0, lo: u128::MAX },
    });
    let wide_end = Some(Coin { denom: "gravity0x1".to_string(), amount: Amount { hi: 1, lo: 0 } });
    assert_eq!(
        judge_deposit(&wide_start, &wide_end, &Amount::from_u128(1)),
        DepositVerdict::Bridged
    );
}

#[test]
fn balances_hold_a_denom() {
    let balances = vec![coin("stake", 5), coin("footoken", 1_000_100)];
    assert!(holds_denom(&balances, &"footoken".to_string()));
    assert!(holds_denom(&balances, &"stake".to_string()));
    assert!(!holds_denom(&balances, &"foo".to_string()));
    assert!(!holds_denom(&Vec::new(), &"footoken".to_string()));
}

#[test]
fn fixed_policy_waits_until_the_deadline() {
    let policy = RetryPolicy::fixed(600, 10);
    assert_eq!(
        policy,
        RetryPolicy {
            deadline: 600,
            max_attempts: u64::MAX,
            base_delay: 10,
            max_delay: 10,
            backoff: Backoff::Fixed
        }
    );
    assert_eq!(policy.next(1, 0), RetryStep::Wait(10));
    assert_eq!(policy.next(50, 599), RetryStep::Wait(10));
    assert_eq!(policy.next(51, 600), RetryStep::GiveUp);
    assert_eq!(policy.next(51, 601), RetryStep::GiveUp);
}

#[test]
fn fixed_policy_caps_the_delay() {
    let policy = RetryPolicy {
        deadline: 100,
        max_attempts: 3,
        base_delay: 9,
        max_delay: 4,
        backoff: Backoff::Fixed,
    };
    assert_eq!(policy.next(1, 0), RetryStep::Wait(4));
    assert_eq!(policy.next(2, 5), RetryStep::Wait(4));
    assert_eq!(policy.next(3, 5), RetryStep::GiveUp);
}

#[test]
fn exponential_policy_doubles_up_to_the_cap() {
    let policy = RetryPolicy {
        deadline: 1_000,
        max_attempts: 100,
        base_delay: 3,
        max_delay: 40,
        backoff: Backoff::Exponential,
    };
    assert_eq!(policy.next(0, 0), RetryStep::Wait(3));
    assert_eq!(policy.next(1, 0), RetryStep::Wait(3));
    assert_eq!(policy.next(2, 0), RetryStep::Wait(6));
    assert_eq!(policy.next(3, 0), RetryStep::Wait(12));
    assert_eq!(policy.next(4, 0), RetryStep::Wait(24));
    assert_eq!(policy.next(5, 0), RetryStep::Wait(40));
    assert_eq!(policy.next(99, 999), RetryStep::Wait(40));
    assert_eq!(policy.next(100, 0), RetryStep::GiveUp);
    assert_eq!(policy.next(1, 1_000), RetryStep::GiveUp);
}

#[test]
fn exponential_policy_survives_overflow() {
    let policy = RetryPolicy {
        deadline: u64::MAX,
        max_attempts: u64::MAX,
        base_delay: 1 << 62,
        max_delay: u64::MAX,
        backoff: Backoff::Exponential,
    };
    assert_eq!(policy.next(1, 0), RetryStep::Wait(1 << 62));
    assert_eq!(policy.next(2, 0), RetryStep::Wait(1 << 63));
    assert_eq!(policy.next(3, 0), RetryStep::Wait(u64::MAX));
    assert_eq!(policy.next(1_000_000, 0), RetryStep::Wait(u64::MAX));
    let idle = RetryPolicy {
        deadline: 10,
        max_attempts: 10,
        base_delay: 0,
        max_delay: 5,
        backoff: Backoff::Exponential,
    };
    assert_eq!(idle.next(9, 0), RetryStep::Wait(0));
}

#[test]
fn waiting_for_a_condition() {
    let policy = RetryPolicy::fixed(600, 10);
    assert_eq!(policy.await_condition(1, 0, true), PollAction::Finish(WaitOutcome::Reached));
    assert_eq!(policy.await_condition(1, 700, true), PollAction::Finish(WaitOutcome::Reached));
    assert_eq!(policy.await_condition(1, 0, false), PollAction::Sleep(10));
    assert_eq!(policy.await_condition(60, 599, false), PollAction::Sleep(10));
    assert_eq!(policy.await_condition(61, 600, false), PollAction::Finish(WaitOutcome::TimedOut));
}

#[test]
fn waiting_for_a_balance() {
    let policy = RetryPolicy::fixed(300, 1);
    let expected = Amount::from_u128(1_000_000);
    assert_eq!(
        policy.await_balance(1, 0, Some(expected), expected),
        PollAction::Finish(WaitOutcome::Reached)
    );
    assert_eq!(
        policy.await_balance(9, 400, Some(expected), expected),
        PollAction::Finish(WaitOutcome::Reached)
    );
    assert_eq!(
        policy.await_balance(1, 0, Some(Amount::from_u128(5)), expected),
        PollAction::Finish(WaitOutcome::Contradiction)
    );
    assert_eq!(policy.await_balance(1, 0, Some(Amount::zero()), expected), PollAction::Sleep(1));
    assert_eq!(
        policy.await_balance(1, 300, Some(Amount::zero()), expected),
        PollAction::Finish(WaitOutcome::TimedOut)
    );
    assert_eq!(policy.await_balance(1, 299, None, expected), PollAction::RetryNow);
    assert_eq!(
        policy.await_balance(1, 300, None, expected),
        PollAction::Finish(WaitOutcome::TimedOut)
    );
}

#[test]
fn waiting_for_a_deposit() {
    let policy = RetryPolicy::fixed(30, 0);
    let amount = Amount::from_u128(50);
    let start = Some(coin("gravity0x1", 100));
    assert_eq!(
        policy.await_deposit(1, 0, &start, &Some(coin("gravity0x1", 150)), &amount),
        PollAction::Finish(WaitOutcome::Reached)
    );
    assert_eq!(
        policy.await_deposit(1, 0, &start, &Some(coin("gravity0x1", 100)), &amount),
        PollAction::Sleep(0)
    );
    assert_eq!(
        policy.await_deposit(1, 30, &start, &Some(coin("gravity0x1", 100)), &amount),
        PollAction::Finish(WaitOutcome::TimedOut)
    );
    assert_eq!(
        policy.await_deposit(1, 0, &None, &Some(coin("gravity0x1", 7)), &amount),
        PollAction::Finish(WaitOutcome::Contradiction)
    );
    assert_eq!(policy.await_deposit(1, 0, &None, &None, &amount), PollAction::Sleep(0));
}
