//! Decisions of a caller that waits for the bridge: when to try again, when
//! to give up, and what an observed balance means.

use crate::amount::{lemma_value_injective, Amount};
use vstd::prelude::*;

verus! {

/// A balance: an amount of a denomination.
#[derive(Debug)]
pub struct Coin {
    pub denom: String,
    pub amount: Amount,
}

/// The mathematical content of a [`Coin`].
pub struct CoinView {
    pub denom: Seq<char>,
    pub amount: Amount,
}

impl View for Coin {
    type V = CoinView;

    open spec fn view(&self) -> CoinView {
        CoinView { denom: self.denom@, amount: self.amount }
    }
}

/// Whether some coin of `balances` is of `denom`.
pub fn holds_denom(balances: &Vec<Coin>, denom: &String) -> (r: bool)
    ensures
        r == exists|i: int| 0 <= i < balances@.len() && (#[trigger] balances@[i]).denom@ == denom@,
{
    let mut i: usize = 0;
    while i < balances.len()
        invariant
            i <= balances.len(),
            forall|k: int| 0 <= k < i ==> (#[trigger] balances@[k]).denom@ != denom@,
        decreases balances.len() - i,
    {
        if balances[i].denom == *denom {
            return true;
        }
        i = i + 1;
    }
    false
}

/// What a balance seen while waiting for a transfer means.
#[derive(Clone, Copy, Debug, PartialEq, Eq, Structural)]
pub enum BalanceVerdict {
    /// The balance is the expected amount.
    Bridged,
    /// The balance is still zero: wait and look again.
    Pending,
    /// The balance could not be read: look again at once.
    Transient,
    /// The balance is neither zero nor the expected amount.
    Contradiction,
}

/// The verdict that [`judge_balance`] gives.
pub open spec fn balance_verdict(observed: Option<Amount>, expected: Amount) -> BalanceVerdict {
    match observed {
        None => BalanceVerdict::Transient,
        Some(balance) => if balance == expected {
            BalanceVerdict::Bridged
        } else if balance.value() != 0 {
            BalanceVerdict::Contradiction
        } else {
            BalanceVerdict::Pending
        },
    }
}

/// Judges a balance that was read, or `None` where reading failed, against
/// the amount that is expected to arrive.
pub fn judge_balance(observed: Option<Amount>, expected: Amount) -> (r: BalanceVerdict)
    ensures
        r == balance_verdict(observed, expected),
{
    match observed {
        None => BalanceVerdict::Transient,
        Some(balance) => {
            if balance == expected {
                BalanceVerdict::Bridged
            } else if !balance.is_zero() {
                BalanceVerdict::Contradiction
            } else {
                BalanceVerdict::Pending
            }
        },
    }
}

/// What the balances before and after a deposit mean.
#[derive(Clone, Copy, Debug, PartialEq, Eq, Structural)]
pub enum DepositVerdict {
    /// The deposit has arrived.
    Bridged,
    /// A first balance has appeared that is not the deposit.
    Mismatch,
    /// Nothing conclusive yet.
    Pending,
}

/// The verdict that [`judge_deposit`] gives.
pub open spec fn deposit_verdict(
    start: Option<CoinView>,
    end: Option<CoinView>,
    amount: Amount,
) -> DepositVerdict {
    match (start, end) {
        (Some(s), Some(e)) => if s.amount.value() + amount.value() == e.amount.value() && s.denom
            == e.denom {
            DepositVerdict::Bridged
        } else {
            DepositVerdict::Pending
        },
        (None, Some(e)) => if amount == e.amount {
            DepositVerdict::Bridged
        } else {
            DepositVerdict::Mismatch
        },
        _ => DepositVerdict::Pending,
    }
}

/// The view of a balance that may be missing.
pub open spec fn coin_view(coin: Option<Coin>) -> Option<CoinView> {
    match coin {
        Some(c) => Some(c@),
        None => None,
    }
}

/// Judges the balance `end` seen after a deposit of `amount` against the
/// balance `start` seen before it. With a balance before, the deposit has
/// arrived when the balance has grown by exactly `amount` in the same
/// denomination. Without one, the first balance to appear must be `amount`.
pub fn judge_deposit(start: &Option<Coin>, end: &Option<Coin>, amount: &Amount) -> (r:
    DepositVerdict)
    ensures
        r == deposit_verdict(coin_view(*start), coin_view(*end), *amount),
{
    match end {
        None => DepositVerdict::Pending,
        Some(e) => match start {
            Some(s) => {
                let grown = match s.amount.checked_add(amount) {
                    Some(sum) => {
                        proof {
                            lemma_value_injective(sum, e.amount);
                        }
                        sum == e.amount
                    },
                    None => {
                        proof {
                            amount_below_limit(e.amount);
                        }
                        false
                    },
                };
                if grown && s.denom == e.denom {
                    DepositVerdict::Bridged
                } else {
                    DepositVerdict::Pending
                }
            },
            None => {
                if *amount == e.amount {
                    DepositVerdict::Bridged
                } else {
                    DepositVerdict::Mismatch
                }
            },
        },
    }
}

proof fn amount_below_limit(a: Amount)
    ensures
        a.value() < crate::amount::limb_base() * crate::amount::limb_base(),
{
    let base = crate::amount::limb_base() as int;
    assert(a.hi as int * base + (a.lo as int) < base * base) by (nonlinear_arith)
        requires
            0 <= a.hi < base,
            0 <= a.lo < base,
    ;
}

/// How the delay between two tries grows.
#[derive(Clone, Copy, Debug, PartialEq, Eq, Structural)]
pub enum Backoff {
    /// Every delay is the base delay.
    Fixed,
    /// The delay doubles with every try, up to the longest delay.
    Exponential,
}

/// When to try again and when to give up. Times are in one unit throughout,
/// whichever the caller counts in.
#[derive(Clone, Copy, Debug, PartialEq, Eq, Structural)]
pub struct RetryPolicy {
    /// Give up once this much time has passed since the first try.
    pub deadline: u64,
    /// Give up after this many tries.
    pub max_attempts: u64,
    /// The delay after the first try.
    pub base_delay: u64,
    /// The longest delay.
    pub max_delay: u64,
    pub backoff: Backoff,
}

/// What to do after a try that settled nothing.
#[derive(Clone, Copy, Debug, PartialEq, Eq, Structural)]
pub enum RetryStep {
    /// Wait this long, then try again.
    Wait(u64),
    /// Stop: the wait is inconclusive.
    GiveUp,
}

/// `base` doubled `times` times.
pub open spec fn doubled(base: nat, times: nat) -> nat
    decreases times,
{
    if times == 0 {
        base
    } else {
        2 * doubled(base, (times - 1) as nat)
    }
}

/// The smaller of two numbers.
pub open spec fn least(a: nat, b: nat) -> nat {
    if a <= b {
        a
    } else {
        b
    }
}

impl RetryPolicy {
    /// The delay after try number `attempts`, counted from one: the base
    /// delay after the first, capped at the longest delay.
    pub open spec fn delay_after(self, attempts: u64) -> nat {
        match self.backoff {
            Backoff::Fixed => least(self.base_delay as nat, self.max_delay as nat),
            Backoff::Exponential => least(
                doubled(
                    self.base_delay as nat,
                    if attempts == 0 {
                        0nat
                    } else {
                        (attempts - 1) as nat
                    },
                ),
                self.max_delay as nat,
            ),
        }
    }

    /// What the policy says after `attempts` tries, `elapsed` after the first.
    pub open spec fn decide(self, attempts: u64, elapsed: u64) -> RetryStep {
        if elapsed >= self.deadline || attempts >= self.max_attempts {
            RetryStep::GiveUp
        } else {
            RetryStep::Wait(self.delay_after(attempts) as u64)
        }
    }

    /// A policy that tries every `interval` until `deadline` has passed.
    pub fn fixed(deadline: u64, interval: u64) -> (r: RetryPolicy)
        ensures
            r == (RetryPolicy {
                deadline,
                max_attempts: u64::MAX,
                base_delay: interval,
                max_delay: interval,
                backoff: Backoff::Fixed,
            }),
    {
        RetryPolicy {
            deadline,
            max_attempts: u64::MAX,
            base_delay: interval,
            max_delay: interval,
            backoff: Backoff::Fixed,
        }
    }

    /// What to do after `attempts` tries that settled nothing, the last of
    /// them `elapsed` after the first: give up where the deadline has passed
    /// or the tries are used up, else wait for the policy's delay.
    pub fn next(&self, attempts: u64, elapsed: u64) -> (r: RetryStep)
        ensures
            r == self.decide(attempts, elapsed),
    {
        if elapsed >= self.deadline || attempts >= self.max_attempts {
            return RetryStep::GiveUp;
        }
        match self.backoff {
            Backoff::Fixed => {
                if self.base_delay <= self.max_delay {
                    RetryStep::Wait(self.base_delay)
                } else {
                    RetryStep::Wait(self.max_delay)
                }
            },
            Backoff::Exponential => {
                let times: u64 = if attempts == 0 {
                    0
                } else {
                    attempts - 1
                };
                let mut delay: u64 = self.base_delay;
                let mut k: u64 = 0;
                while k < times && delay < self.max_delay
                    invariant
                        k <= times,
                        delay == least(doubled(self.base_delay as nat, k as nat), u64::MAX as nat),
                        delay < self.max_delay ==> delay == doubled(self.base_delay as nat, k as nat),
                    decreases times - k,
                {
                    delay = match delay.checked_mul(2) {
                        Some(d) => d,
                        None => u64::MAX,
                    };
                    k = k + 1;
                }
                proof {
                    if k < times {
                        lemma_doubled_grows(self.base_delay as nat, k as nat, times as nat);
                    }
                }
                if delay <= self.max_delay {
                    RetryStep::Wait(delay)
                } else {
                    RetryStep::Wait(self.max_delay)
                }
            },
        }
    }
}

/// How a wait ended.
#[derive(Clone, Copy, Debug, PartialEq, Eq, Structural)]
pub enum WaitOutcome {
    /// What was waited for was seen.
    Reached,
    /// Time or tries ran out with nothing seen either way: inconclusive.
    TimedOut,
    /// Something was seen that rules out what was waited for.
    Contradiction,
}

/// What a waiting caller does next.
#[derive(Clone, Copy, Debug, PartialEq, Eq, Structural)]
pub enum PollAction {
    /// Stop with this outcome.
    Finish(WaitOutcome),
    /// Wait this long, then look again.
    Sleep(u64),
    /// Look again at once.
    RetryNow,
}

impl RetryPolicy {
    /// The action after a look that settled nothing.
    pub open spec fn keep_waiting(self, attempts: u64, elapsed: u64) -> PollAction {
        match self.decide(attempts, elapsed) {
            RetryStep::Wait(delay) => PollAction::Sleep(delay),
            RetryStep::GiveUp => PollAction::Finish(WaitOutcome::TimedOut),
        }
    }

    /// The action after a look that says only whether the awaited state was
    /// reached.
    pub open spec fn condition_action(self, attempts: u64, elapsed: u64, reached: bool) -> PollAction {
        if reached {
            PollAction::Finish(WaitOutcome::Reached)
        } else {
            self.keep_waiting(attempts, elapsed)
        }
    }

    /// The action after a balance was read, or could not be read.
    pub open spec fn balance_action(
        self,
        attempts: u64,
        elapsed: u64,
        observed: Option<Amount>,
        expected: Amount,
    ) -> PollAction {
        match balance_verdict(observed, expected) {
            BalanceVerdict::Bridged => PollAction::Finish(WaitOutcome::Reached),
            BalanceVerdict::Contradiction => PollAction::Finish(WaitOutcome::Contradiction),
            BalanceVerdict::Transient => if elapsed >= self.deadline {
                PollAction::Finish(WaitOutcome::TimedOut)
            } else {
                PollAction::RetryNow
            },
            BalanceVerdict::Pending => self.keep_waiting(attempts, elapsed),
        }
    }

    /// The action after the balance following a deposit was read.
    pub open spec fn deposit_action(
        self,
        attempts: u64,
        elapsed: u64,
        start: Option<CoinView>,
        end: Option<CoinView>,
        amount: Amount,
    ) -> PollAction {
        match deposit_verdict(start, end, amount) {
            DepositVerdict::Bridged => PollAction::Finish(WaitOutcome::Reached),
            DepositVerdict::Mismatch => PollAction::Finish(WaitOutcome::Contradiction),
            DepositVerdict::Pending => self.keep_waiting(attempts, elapsed),
        }
    }

    /// Decides what to do after look number `attempts`, taken `elapsed` after
    /// the first, where `reached` says whether the awaited state was seen:
    /// stop when it was, else wait or give up as the policy says.
    pub fn await_condition(&self, attempts: u64, elapsed: u64, reached: bool) -> (r: PollAction)
        ensures
            r == self.condition_action(attempts, elapsed, reached),
    {
        if reached {
            PollAction::Finish(WaitOutcome::Reached)
        } else {
            self.after_nothing(attempts, elapsed)
        }
    }

    /// Decides what to do after a balance was read while waiting for
    /// `expected` to arrive. The expected balance ends the wait, a balance
    /// that is neither zero nor expected ends it as a contradiction, a failed
    /// read is tried again at once while the deadline has not passed, and a
    /// zero balance waits as the policy says.
    pub fn await_balance(
        &self,
        attempts: u64,
        elapsed: u64,
        observed: Option<Amount>,
        expected: Amount,
    ) -> (r: PollAction)
        ensures
            r == self.balance_action(attempts, elapsed, observed, expected),
    {
        match judge_balance(observed, expected) {
            BalanceVerdict::Bridged => PollAction::Finish(WaitOutcome::Reached),
            BalanceVerdict::Contradiction => PollAction::Finish(WaitOutcome::Contradiction),
            BalanceVerdict::Transient => {
                if elapsed >= self.deadline {
                    PollAction::Finish(WaitOutcome::TimedOut)
                } else {
                    PollAction::RetryNow
                }
            },
            BalanceVerdict::Pending => self.after_nothing(attempts, elapsed),
        }
    }

    /// Decides what to do after the balance following a deposit of `amount`
    /// was read: the deposit's arrival ends the wait, a first balance that is
    /// not the deposit ends it as a contradiction, anything else waits as the
    /// policy says.
    pub fn await_deposit(
        &self,
        attempts: u64,
        elapsed: u64,
        start: &Option<Coin>,
        end: &Option<Coin>,
        amount: &Amount,
    ) -> (r: PollAction)
        ensures
            r == self.deposit_action(
                attempts,
                elapsed,
                coin_view(*start),
                coin_view(*end),
                *amount,
            ),
    {
        match judge_deposit(start, end, amount) {
            DepositVerdict::Bridged => PollAction::Finish(WaitOutcome::Reached),
            DepositVerdict::Mismatch => PollAction::Finish(WaitOutcome::Contradiction),
            DepositVerdict::Pending => self.after_nothing(attempts, elapsed),
        }
    }

    fn after_nothing(&self, attempts: u64, elapsed: u64) -> (r: PollAction)
        ensures
            r == self.keep_waiting(attempts, elapsed),
    {
        match self.next(attempts, elapsed) {
            RetryStep::Wait(delay) => PollAction::Sleep(delay),
            RetryStep::GiveUp => PollAction::Finish(WaitOutcome::TimedOut),
        }
    }
}

/// Doubling more often never gives less.
pub proof fn lemma_doubled_grows(base: nat, fewer: nat, more: nat)
    requires
        fewer <= more,
    ensures
        doubled(base, fewer) <= doubled(base, more),
    decreases more,
{
    if fewer < more {
        lemma_doubled_grows(base, fewer, (more - 1) as nat);
    }
}

} // verus!
