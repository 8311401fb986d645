//! The halt detector: a monitor that samples the validators' last nonces and
//! says whether the bridge still moves.

use crate::aggregator::AttestationAggregator;
use vstd::prelude::*;

verus! {

/// Whether the bridge makes progress.
#[derive(Clone, Copy, Debug, PartialEq, Eq, Structural)]
pub enum BridgeState {
    Normal,
    Halted,
}

/// For one validator: the nonce it was last seen at, and the time at which it
/// was first seen there.
#[derive(Clone, Copy, Debug, PartialEq, Eq, Structural)]
pub struct StallTimer {
    pub nonce: u64,
    pub since: u64,
}

/// The detector's state.
pub struct DetectorView {
    pub stall_window: u64,
    pub timers: Seq<StallTimer>,
    pub state: BridgeState,
}

/// The timers after a sample: a validator seen at the nonce it was at before
/// keeps its timer, any other starts anew at `now`.
pub open spec fn advance_timers(timers: Seq<StallTimer>, nonces: Seq<u64>, now: u64) -> Seq<
    StallTimer,
> {
    Seq::new(
        nonces.len(),
        |i: int|
            if i < timers.len() && timers[i].nonce == nonces[i] {
                timers[i]
            } else {
                StallTimer { nonce: nonces[i], since: now }
            },
    )
}

/// Whether the timer has stood for longer than the window.
pub open spec fn stalled(timer: StallTimer, now: u64, window: u64) -> bool {
    now - timer.since > window
}

/// Whether some validator has stalled behind another: its nonce has stood for
/// longer than the window, and another validator's nonce is ahead of it.
pub open spec fn stalled_behind(timers: Seq<StallTimer>, now: u64, window: u64) -> bool {
    exists|i: int, j: int|
        0 <= i < timers.len() && 0 <= j < timers.len() && stalled(#[trigger] timers[i], now, window)
            && (#[trigger] timers[j]).nonce > timers[i].nonce
}

/// Whether all nonces are the same.
pub open spec fn all_equal(nonces: Seq<u64>) -> bool {
    forall|i: int, j: int|
        0 <= i < nonces.len() && 0 <= j < nonces.len() ==> #[trigger] nonces[i]
            == #[trigger] nonces[j]
}

impl DetectorView {
    /// The state after a sample of `nonces` taken at `now`, where `conflict`
    /// says whether the claims at the validators' nonce disagree unsettled.
    /// The sample alone decides: Halted where a validator has stalled behind
    /// another, Normal where all nonces agree and nothing is in conflict. In
    /// between the last verdict stands.
    pub open spec fn check(self, nonces: Seq<u64>, conflict: bool, now: u64) -> DetectorView {
        let timers = advance_timers(self.timers, nonces, now);
        DetectorView {
            stall_window: self.stall_window,
            timers,
            state: if stalled_behind(timers, now, self.stall_window) {
                BridgeState::Halted
            } else if all_equal(nonces) && !conflict {
                BridgeState::Normal
            } else {
                self.state
            },
        }
    }

    /// The state with all timers cleared and the verdict back to Normal.
    pub open spec fn clear(self) -> DetectorView {
        DetectorView {
            stall_window: self.stall_window,
            timers: Seq::empty(),
            state: BridgeState::Normal,
        }
    }
}

/// Watches the validators' nonces for a stall.
#[derive(Debug)]
pub struct BridgeHaltDetector {
    stall_window: u64,
    timers: Vec<StallTimer>,
    state: BridgeState,
}

impl View for BridgeHaltDetector {
    type V = DetectorView;

    closed spec fn view(&self) -> DetectorView {
        DetectorView { stall_window: self.stall_window, timers: self.timers@, state: self.state }
    }
}

impl BridgeHaltDetector {
    /// A detector with the given stall window that has seen nothing yet.
    pub fn new(stall_window: u64) -> (r: BridgeHaltDetector)
        ensures
            r@ == (DetectorView {
                stall_window,
                timers: Seq::empty(),
                state: BridgeState::Normal,
            }),
    {
        BridgeHaltDetector { stall_window, timers: Vec::new(), state: BridgeState::Normal }
    }

    /// The last verdict.
    pub fn state(&self) -> (r: BridgeState)
        ensures
            r == self@.state,
    {
        self.state
    }

    /// The configured stall window.
    pub fn stall_window(&self) -> (r: u64)
        ensures
            r == self@.stall_window,
    {
        self.stall_window
    }

    /// Clears the stall timers and sets the verdict back to Normal.
    pub fn clear(&mut self)
        ensures
            final(self)@ == old(self)@.clear(),
    {
        self.timers = Vec::new();
        self.state = BridgeState::Normal;
    }

    /// Takes one sample and gives the verdict for it.
    pub fn check(&mut self, nonces: &Vec<u64>, conflict: bool, now: u64) -> (r: BridgeState)
        ensures
            final(self)@ == old(self)@.check(nonces@, conflict, now),
            r == final(self)@.state,
    {
        let ghost pre = self@;
        let ghost goal = advance_timers(pre.timers, nonces@, now);
        let mut timers: Vec<StallTimer> = Vec::new();
        let mut ahead: u64 = 0;
        let mut same: bool = true;
        let ghost mut top: int = 0;
        let mut i: usize = 0;
        while i < nonces.len()
            invariant
                i <= nonces.len(),
                self@ == pre,
                goal == advance_timers(pre.timers, nonces@, now),
                timers@ == goal.take(i as int),
                forall|k: int| 0 <= k < i ==> (#[trigger] nonces@[k]) <= ahead,
                i > 0 ==> 0 <= top < i && nonces@[top] == ahead,
                same == all_equal(nonces@.take(i as int)),
            decreases nonces.len() - i,
        {
            let nonce = nonces[i];
            let timer = if i < self.timers.len() && self.timers[i].nonce == nonce {
                self.timers[i]
            } else {
                StallTimer { nonce, since: now }
            };
            timers.push(timer);
            proof {
                assert(goal.take(i + 1) =~= goal.take(i as int).push(goal[i as int]));
                let before = nonces@.take(i as int);
                let after = nonces@.take(i + 1);
                if same && nonce == nonces@[0] {
                    assert forall|a: int, b: int|
                        0 <= a < after.len() && 0 <= b < after.len() implies #[trigger] after[a]
                        == #[trigger] after[b] by {
                        if a < i {
                            assert(before[a] == before[0]);
                        }
                        if b < i {
                            assert(before[b] == before[0]);
                        }
                    }
                } else if same {
                    assert(after[i as int] != after[0]);
                } else {
                    let (a, b) = choose|a: int, b: int|
                        0 <= a < before.len() && 0 <= b < before.len() && #[trigger] before[a]
                            != #[trigger] before[b];
                    assert(after[a] != after[b]);
                }
            }
            same = same && nonce == nonces[0];
            if nonce > ahead || i == 0 {
                ahead = nonce;
                proof {
                    top = i as int;
                }
            }
            i = i + 1;
        }
        proof {
            assert(timers@ =~= goal);
            assert(nonces@.take(i as int) =~= nonces@);
            assert forall|k: int| 0 <= k < goal.len() implies (#[trigger] goal[k]).nonce
                == nonces@[k] by {}
        }
        let mut behind: bool = false;
        let mut j: usize = 0;
        while j < timers.len()
            invariant
                j <= timers.len(),
                timers@ == goal,
                goal.len() == nonces@.len(),
                forall|k: int| 0 <= k < goal.len() ==> (#[trigger] goal[k]).nonce <= ahead,
                goal.len() > 0 ==> 0 <= top < goal.len() && goal[top].nonce == ahead,
                behind == exists|k: int|
                    0 <= k < j && stalled(#[trigger] goal[k], now, self.stall_window) && goal[k].nonce
                        < ahead,
            decreases timers.len() - j,
        {
            let t = timers[j];
            if now > t.since && now - t.since > self.stall_window && t.nonce < ahead {
                behind = true;
            }
            j = j + 1;
        }
        proof {
            let window = self.stall_window;
            if behind {
                let a = choose|k: int|
                    0 <= k < goal.len() && stalled(#[trigger] goal[k], now, window) && goal[k].nonce
                        < ahead;
                assert(stalled(goal[a], now, window) && goal[top].nonce > goal[a].nonce);
            } else if stalled_behind(goal, now, window) {
                let (a, b) = choose|a: int, b: int|
                    0 <= a < goal.len() && 0 <= b < goal.len() && stalled(
                        #[trigger] goal[a],
                        now,
                        window,
                    ) && (#[trigger] goal[b]).nonce > goal[a].nonce;
                assert(goal[b].nonce <= ahead);
                assert(stalled(goal[a], now, window) && goal[a].nonce < ahead);
            }
        }
        self.timers = timers;
        if behind {
            self.state = BridgeState::Halted;
        } else if same && !conflict {
            self.state = BridgeState::Normal;
        }
        self.state
    }

    /// Samples the aggregator's nonces at `now` and gives the verdict.
    pub fn observe(&mut self, aggregator: &AttestationAggregator, now: u64) -> (r: BridgeState)
        ensures
            final(self)@ == old(self)@.check(aggregator@.nonces(), aggregator@.unsettled(), now),
            r == final(self)@.state,
    {
        let nonces = aggregator.nonces();
        let conflict = nonces.len() > 0 && aggregator.has_conflict_at(nonces[0]);
        self.check(&nonces, conflict, now)
    }
}

} // verus!
