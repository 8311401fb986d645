//! The attestation aggregator: validators, their last event nonces, and the
//! attestations that their claims build up.

use crate::claim::{event_views, Claim, Event};
use crate::laws::{lemma_reset_preserves_wf, lemma_submit_indices, lemma_submit_preserves_wf};
use crate::model::{
    default_threshold, first_index, lemma_masked_sum_bounded, masked_sum, plain_sum, retain,
    AggregatorView, AttestationView, ClaimError, ValidatorView,
};
use vstd::prelude::*;

verus! {

/// A validator: the address its orchestrator signs with, its voting power, and
/// the nonce of the last event it has claimed.
#[derive(Debug)]
pub struct Validator {
    pub address: String,
    pub power: u64,
    pub last_nonce: u64,
}

impl View for Validator {
    type V = ValidatorView;

    open spec fn view(&self) -> ValidatorView {
        ValidatorView { address: self.address@, power: self.power, last_nonce: self.last_nonce }
    }
}

/// All claims of one event: who made them, and whether they were enough.
#[derive(Debug)]
pub struct Attestation {
    pub event: Event,
    pub votes: Vec<bool>,
    pub finalized: bool,
}

impl View for Attestation {
    type V = AttestationView;

    open spec fn view(&self) -> AttestationView {
        AttestationView { event: self.event@, votes: self.votes@, finalized: self.finalized }
    }
}

/// The views of a sequence of validators.
pub open spec fn validator_views(s: Seq<Validator>) -> Seq<ValidatorView> {
    Seq::new(s.len(), |i: int| s[i]@)
}

/// The views of a sequence of attestations.
pub open spec fn attestation_views(s: Seq<Attestation>) -> Seq<AttestationView> {
    Seq::new(s.len(), |i: int| s[i]@)
}

/// Collects the claims of all validators and finalizes an event once the
/// claims of it carry the threshold of voting power.
#[derive(Debug)]
pub struct AttestationAggregator {
    validators: Vec<Validator>,
    attestations: Vec<Attestation>,
    applied: Vec<Event>,
    threshold: u128,
}

impl View for AttestationAggregator {
    type V = AggregatorView;

    closed spec fn view(&self) -> AggregatorView {
        AggregatorView {
            validators: validator_views(self.validators@),
            attestations: attestation_views(self.attestations@),
            applied: event_views(self.applied@),
            threshold: self.threshold,
        }
    }
}

/// The sum of the voting powers of `validators`.
fn sum_powers(validators: &Vec<Validator>) -> (total: u128)
    ensures
        total == plain_sum(
            Seq::new(validators@.len(), |i: int| validators@[i].power),
            validators@.len() as int,
        ),
{
    let ghost powers = Seq::new(validators@.len(), |i: int| validators@[i].power);
    let mut total: u128 = 0;
    let mut i: usize = 0;
    while i < validators.len()
        invariant
            i <= validators.len(),
            powers == Seq::new(validators@.len(), |i: int| validators@[i].power),
            total == plain_sum(powers, i as int),
            total <= i * (u64::MAX as int),
        decreases validators.len() - i,
    {
        total = total + validators[i].power as u128;
        i = i + 1;
    }
    total
}

impl AttestationAggregator {
    /// Whether the state is one that the model calls well formed.
    pub open spec fn wf(&self) -> bool {
        self@.wf()
    }

    /// An aggregator for these validators, with no attestation yet, that
    /// finalizes at more than two thirds of their total power.
    pub fn new(validators: Vec<Validator>) -> (r: AttestationAggregator)
        ensures
            r.wf(),
            r@.validators == validator_views(validators@),
            r@.attestations == Seq::<AttestationView>::empty(),
            r@.applied == Seq::<crate::claim::EventView>::empty(),
            r@.threshold == default_threshold(r@.total_power()),
    {
        let total = sum_powers(&validators);
        proof {
            let powers = Seq::new(validators@.len(), |i: int| validators@[i].power);
            lemma_masked_sum_bounded(powers, Seq::empty(), validators@.len() as int);
        }
        let third: u128 = total / 3;
        let threshold: u128 = if total % 3 == 2 {
            third + third + 2
        } else {
            third + third + 1
        };
        let r = AttestationAggregator {
            validators,
            attestations: Vec::new(),
            applied: Vec::new(),
            threshold,
        };
        proof {
            assert(r@.attestations =~= Seq::<AttestationView>::empty());
            assert(r@.applied =~= Seq::<crate::claim::EventView>::empty());
            assert(r@.powers() =~= Seq::new(validators@.len(), |i: int| validators@[i].power));
        }
        r
    }

    /// An aggregator for these validators, with no attestation yet, that
    /// finalizes at `threshold`.
    pub fn with_threshold(validators: Vec<Validator>, threshold: u128) -> (r:
        AttestationAggregator)
        ensures
            r.wf(),
            r@.validators == validator_views(validators@),
            r@.attestations == Seq::<AttestationView>::empty(),
            r@.applied == Seq::<crate::claim::EventView>::empty(),
            r@.threshold == threshold,
    {
        let r = AttestationAggregator {
            validators,
            attestations: Vec::new(),
            applied: Vec::new(),
            threshold,
        };
        proof {
            assert(r@.attestations =~= Seq::<AttestationView>::empty());
            assert(r@.applied =~= Seq::<crate::claim::EventView>::empty());
        }
        r
    }

    /// The voting power that finalizes an attestation.
    pub fn threshold(&self) -> (r: u128)
        ensures
            r == self@.threshold,
    {
        self.threshold
    }

    /// The number of validators.
    pub fn validator_count(&self) -> (r: usize)
        ensures
            r == self@.validators.len(),
    {
        self.validators.len()
    }

    /// The number of attestations.
    pub fn attestation_count(&self) -> (r: usize)
        ensures
            r == self@.attestations.len(),
    {
        self.attestations.len()
    }

    /// Validator `i`.
    pub fn validator(&self, i: usize) -> (r: &Validator)
        requires
            i < self@.validators.len(),
        ensures
            r@ == self@.validators[i as int],
    {
        &self.validators[i]
    }

    /// Attestation `j`, in the order in which the attestations were opened.
    pub fn attestation(&self, j: usize) -> (r: &Attestation)
        requires
            j < self@.attestations.len(),
        ensures
            r@ == self@.attestations[j as int],
    {
        &self.attestations[j]
    }

    /// The events whose effect is due on the destination chain, in the order
    /// in which they were finalized. An event enters once, when its
    /// attestation is finalized, and never leaves.
    pub fn applied_events(&self) -> (r: &Vec<Event>)
        ensures
            event_views(r@) == self@.applied,
    {
        &self.applied
    }

    /// The voting power of all validators together.
    pub fn total_power(&self) -> (r: u128)
        ensures
            r == self@.total_power(),
    {
        let r = sum_powers(&self.validators);
        proof {
            assert(self@.powers() =~= Seq::new(
                self.validators@.len(),
                |i: int| self.validators@[i].power,
            ));
        }
        r
    }

    /// The index of the validator with this address.
    pub fn find_validator(&self, address: &String) -> (r: Option<usize>)
        ensures
            match r {
                Some(i) => i == self@.validator_index(address@),
                None => self@.validator_index(address@) == -1,
            },
    {
        let ghost addresses = self@.addresses();
        let mut i: usize = 0;
        while i < self.validators.len()
            invariant
                i <= self.validators.len(),
                addresses == self@.addresses(),
                addresses.len() == self.validators.len(),
                first_index(addresses, address@, 0) == first_index(addresses, address@, i as int),
            decreases self.validators.len() - i,
        {
            assert(addresses[i as int] == self.validators[i as int].address@);
            if self.validators[i].address == *address {
                return Some(i);
            }
            i = i + 1;
        }
        None
    }

    /// The index of the attestation of this event.
    pub fn find_attestation(&self, event: &Event) -> (r: Option<usize>)
        ensures
            match r {
                Some(j) => j == self@.attestation_index(event@),
                None => self@.attestation_index(event@) == -1,
            },
    {
        let ghost events = self@.events();
        let mut j: usize = 0;
        while j < self.attestations.len()
            invariant
                j <= self.attestations.len(),
                events == self@.events(),
                events.len() == self.attestations.len(),
                first_index(events, event@, 0) == first_index(events, event@, j as int),
            decreases self.attestations.len() - j,
        {
            assert(events[j as int] == self.attestations[j as int].event@);
            if self.attestations[j].event.same_content(event) {
                return Some(j);
            }
            j = j + 1;
        }
        None
    }

    /// The voting power that attestation `j` has gathered.
    pub fn power_of(&self, j: usize) -> (r: u128)
        requires
            j < self@.attestations.len(),
        ensures
            r == self@.power_of(j as int),
    {
        let ghost powers = self@.powers();
        let ghost votes = self@.attestations[j as int].votes;
        let mut total: u128 = 0;
        let mut i: usize = 0;
        while i < self.validators.len()
            invariant
                i <= self.validators.len(),
                j < self.attestations.len(),
                powers == self@.powers(),
                powers.len() == self.validators.len(),
                votes == self.attestations[j as int].votes@,
                total == masked_sum(powers, votes, i as int),
                total <= i * (u64::MAX as int),
            decreases self.validators.len() - i,
        {
            assert(powers[i as int] == self.validators[i as int].power);
            if i < self.attestations[j].votes.len() && self.attestations[j].votes[i] {
                total = total + self.validators[i].power as u128;
            }
            i = i + 1;
        }
        total
    }

    /// Whether an attestation of an event with this nonce is finalized.
    pub fn nonce_is_finalized(&self, nonce: u64) -> (r: bool)
        ensures
            r == self@.nonce_finalized(nonce),
    {
        let mut j: usize = 0;
        while j < self.attestations.len()
            invariant
                j <= self.attestations.len(),
                forall|i: int|
                    0 <= i < j ==> !((#[trigger] self@.attestations[i]).finalized
                        && self@.attestations[i].event.nonce == nonce),
            decreases self.attestations.len() - j,
        {
            assert(self@.attestations[j as int] == self.attestations[j as int]@);
            if self.attestations[j].finalized && self.attestations[j].event.nonce == nonce {
                return true;
            }
            j = j + 1;
        }
        false
    }

    /// The last event nonce of the validator with this address: the value
    /// that monitors and other validators ask for.
    pub fn last_event_nonce_for_validator(&self, address: &String) -> (r: Option<u64>)
        ensures
            match r {
                Some(n) => 0 <= self@.validator_index(address@) < self@.validators.len()
                    && n == self@.validators[self@.validator_index(address@)].last_nonce,
                None => self@.validator_index(address@) == -1,
            },
    {
        match self.find_validator(address) {
            Some(i) => {
                proof {
                    crate::model::lemma_first_index(self@.addresses(), address@, 0);
                }
                Some(self.validators[i].last_nonce)
            },
            None => None,
        }
    }

    /// The last event nonce of every validator, in the validators' order.
    pub fn nonces(&self) -> (r: Vec<u64>)
        ensures
            r@ == self@.nonces(),
    {
        let mut r: Vec<u64> = Vec::new();
        let mut i: usize = 0;
        while i < self.validators.len()
            invariant
                i <= self.validators.len(),
                r@.len() == i,
                forall|k: int| 0 <= k < i ==> r@[k] == (#[trigger] self@.validators[k]).last_nonce,
            decreases self.validators.len() - i,
        {
            assert(self@.validators[i as int] == self.validators[i as int]@);
            r.push(self.validators[i].last_nonce);
            i = i + 1;
        }
        assert(r@ =~= self@.nonces());
        r
    }

    /// The places of the attestations of events with this nonce, in rising
    /// order: the claims that compete there.
    pub fn attestations_at(&self, nonce: u64) -> (r: Vec<usize>)
        ensures
            r@.len() == crate::model::places_at(
                self@.attestations,
                nonce,
                self@.attestations.len() as int,
            ).len(),
            forall|i: int|
                0 <= i < r@.len() ==> r@[i] as int == crate::model::places_at(
                    self@.attestations,
                    nonce,
                    self@.attestations.len() as int,
                )[i],
    {
        let ghost all = self@.attestations;
        let mut r: Vec<usize> = Vec::new();
        let mut j: usize = 0;
        while j < self.attestations.len()
            invariant
                j <= self.attestations.len(),
                all == self@.attestations,
                r@.len() == crate::model::places_at(all, nonce, j as int).len(),
                forall|i: int|
                    0 <= i < r@.len() ==> r@[i] as int == crate::model::places_at(
                        all,
                        nonce,
                        j as int,
                    )[i],
            decreases self.attestations.len() - j,
        {
            assert(all[j as int] == self.attestations[j as int]@);
            if self.attestations[j].event.nonce == nonce {
                r.push(j);
            }
            j = j + 1;
        }
        r
    }

    /// Whether two attestations are of events with this nonce, one of them
    /// not finalized.
    pub fn has_conflict_at(&self, nonce: u64) -> (r: bool)
        ensures
            r == self@.conflict_at(nonce),
    {
        let mut seen: u8 = 0;
        let mut open: bool = false;
        let ghost mut first: int = 0;
        let ghost mut second: int = 0;
        let ghost mut unsettled: int = 0;
        let mut j: usize = 0;
        while j < self.attestations.len()
            invariant
                j <= self.attestations.len(),
                seen <= 2,
                seen == 0 ==> forall|k: int|
                    0 <= k < j ==> (#[trigger] self@.attestations[k]).event.nonce != nonce,
                seen == 1 ==> 0 <= first < j && self@.attestations[first].event.nonce == nonce
                    && forall|k: int|
                    0 <= k < j && k != first ==> (#[trigger] self@.attestations[k]).event.nonce
                        != nonce,
                seen == 2 ==> 0 <= first < second < j && self@.attestations[first].event.nonce
                    == nonce && self@.attestations[second].event.nonce == nonce,
                open ==> 0 <= unsettled < j && self@.attestations[unsettled].event.nonce == nonce
                    && !self@.attestations[unsettled].finalized,
                !open ==> forall|k: int|
                    0 <= k < j && (#[trigger] self@.attestations[k]).event.nonce == nonce
                        ==> self@.attestations[k].finalized,
            decreases self.attestations.len() - j,
        {
            assert(self@.attestations[j as int] == self.attestations[j as int]@);
            if self.attestations[j].event.nonce == nonce {
                if seen == 0 {
                    seen = 1;
                    proof {
                        first = j as int;
                    }
                } else if seen == 1 {
                    seen = 2;
                    proof {
                        second = j as int;
                    }
                }
                if !open && !self.attestations[j].finalized {
                    open = true;
                    proof {
                        unsettled = j as int;
                    }
                }
            }
            j = j + 1;
        }
        proof {
            if seen == 2 && open {
                let other = if unsettled == first {
                    second
                } else {
                    first
                };
                assert(self@.attestations[unsettled].event.nonce == nonce
                    && self@.attestations[other].event.nonce == nonce && unsettled != other);
            }
        }
        seen == 2 && open
    }

    /// Whether the attestation of this event is there and finalized.
    pub fn is_finalized(&self, event: &Event) -> (r: bool)
        requires
            self.wf(),
        ensures
            r == self@.is_finalized(event@),
    {
        proof {
            crate::model::lemma_first_index(self@.events(), event@, 0);
        }
        match self.find_attestation(event) {
            Some(j) => {
                proof {
                    assert(self@.events()[j as int] == self@.attestations[j as int].event);
                    assert(self@.attestations[j as int] == self.attestations[j as int]@);
                    if self@.is_finalized(event@) {
                        let i = choose|i: int|
                            0 <= i < self@.attestations.len() && (
                            #[trigger] self@.attestations[i]).event == event@
                                && self@.attestations[i].finalized;
                        if i < j {
                            assert(self@.attestations[i].event != self@.attestations[j as int].event);
                        } else if j < i {
                            assert(self@.attestations[j as int].event != self@.attestations[i].event);
                        }
                    }
                }
                self.attestations[j].finalized
            },
            None => {
                proof {
                    if self@.is_finalized(event@) {
                        let i = choose|i: int|
                            0 <= i < self@.attestations.len() && (
                            #[trigger] self@.attestations[i]).event == event@
                                && self@.attestations[i].finalized;
                        assert(self@.events()[i] == event@);
                    }
                }
                false
            },
        }
    }

    /// The most voting power that claims alone can still gather for this
    /// event: that of its voters and of the validators whose last nonce is
    /// below the event's. Below the threshold, only a reset can help.
    pub fn reachable_power(&self, event: &Event) -> (r: u128)
        requires
            self.wf(),
        ensures
            r == self@.reachable_power(event@),
    {
        let found = self.find_attestation(event);
        let ghost powers = self@.powers();
        let ghost mask = self@.within_reach(event@);
        let ghost votes = self@.votes_for(event@);
        proof {
            crate::model::lemma_first_index(self@.events(), event@, 0);
            if found is Some {
                let j = found->Some_0 as int;
                assert(self@.attestations[j] == self.attestations[j]@);
                assert(self@.attestations[j].votes.len() == self@.validators.len());
            }
        }
        let mut total: u128 = 0;
        let mut i: usize = 0;
        while i < self.validators.len()
            invariant
                i <= self.validators.len(),
                powers == self@.powers(),
                powers.len() == self.validators.len(),
                mask == self@.within_reach(event@),
                votes == self@.votes_for(event@),
                votes.len() == self.validators.len(),
                match found {
                    Some(j) => j < self.attestations.len() && votes == self.attestations[j as int].votes@,
                    None => votes == Seq::new(self@.validators.len(), |i: int| false),
                },
                total == masked_sum(powers, mask, i as int),
                total <= i * (u64::MAX as int),
            decreases self.validators.len() - i,
        {
            assert(powers[i as int] == self.validators[i as int].power);
            assert(self@.validators[i as int] == self.validators[i as int]@);
            let voted = match found {
                Some(j) => self.attestations[j].votes[i],
                None => false,
            };
            assert(voted == votes[i as int]);
            if voted || self.validators[i].last_nonce < event.nonce {
                total = total + self.validators[i].power as u128;
            }
            i = i + 1;
        }
        total
    }

    /// The highest nonce of a finalized event, if any event is finalized.
    pub fn last_finalized_nonce(&self) -> (r: Option<u64>)
        ensures
            r == self@.last_finalized_nonce(),
    {
        let ghost all = self@.attestations;
        let mut best: Option<u64> = None;
        let mut j: usize = 0;
        assert(all.take(0) =~= Seq::<AttestationView>::empty());
        while j < self.attestations.len()
            invariant
                j <= self.attestations.len(),
                all == self@.attestations,
                best == crate::model::highest_finalized(all.take(j as int)),
            decreases self.attestations.len() - j,
        {
            proof {
                assert(all.take(j + 1).drop_last() =~= all.take(j as int));
                assert(all.take(j + 1).last() == self.attestations[j as int]@);
            }
            if self.attestations[j].finalized {
                let nonce = self.attestations[j].event.nonce;
                let higher = match best {
                    None => true,
                    Some(b) => b < nonce,
                };
                if higher {
                    best = Some(nonce);
                }
            }
            j = j + 1;
        }
        proof {
            assert(all.take(j as int) =~= all);
        }
        best
    }

    /// Moves every validator's last nonce to `target` and drops each
    /// attestation that is neither finalized nor below `target`.
    pub(crate) fn reset_to(&mut self, target: u64)
        requires
            old(self).wf(),
        ensures
            final(self).wf(),
            final(self)@ == old(self)@.reset(target),
    {
        let ghost pre = self@;
        let mut v: usize = 0;
        while v < self.validators.len()
            invariant
                v <= self.validators.len(),
                self.validators.len() == pre.validators.len(),
                self@.attestations == pre.attestations,
                self@.applied == pre.applied,
                self@.threshold == pre.threshold,
                forall|i: int|
                    0 <= i < v ==> (#[trigger] self@.validators[i]) == (ValidatorView {
                        last_nonce: target,
                        ..pre.validators[i]
                    }),
                forall|i: int|
                    v <= i < self.validators.len() ==> (#[trigger] self@.validators[i])
                        == pre.validators[i],
            decreases self.validators.len() - v,
        {
            let ghost before = self@;
            self.validators[v].last_nonce = target;
            proof {
                assert(self@.attestations =~= before.attestations);
                assert forall|i: int| 0 <= i < v + 1 implies (#[trigger] self@.validators[i]) == (
                ValidatorView { last_nonce: target, ..pre.validators[i] }) by {
                    assert(self@.validators[i] == self.validators[i]@);
                    if i < v {
                        assert(self@.validators[i] == before.validators[i]);
                    } else {
                        assert(before.validators[i] == pre.validators[i]);
                    }
                }
                assert forall|i: int| v + 1 <= i < self.validators.len() implies (
                #[trigger] self@.validators[i]) == pre.validators[i] by {
                    assert(self@.validators[i] == before.validators[i]);
                }
            }
            v = v + 1;
        }
        let ghost done = pre.reset(target).validators;
        assert(self@.validators =~= done);
        let mut i: usize = 0;
        let ghost mut p: int = 0;
        while i < self.attestations.len()
            invariant
                i <= self.attestations.len(),
                0 <= p <= pre.attestations.len(),
                p - i == pre.attestations.len() - self.attestations.len(),
                self@.validators == done,
                self@.applied == pre.applied,
                self@.threshold == pre.threshold,
                self@.attestations.take(i as int) =~= retain(pre.attestations.take(p), target),
                self@.attestations.skip(i as int) =~= pre.attestations.skip(p),
            decreases self.attestations.len() - i,
        {
            let ghost cur = self@.attestations;
            proof {
                assert(cur[i as int] == cur.skip(i as int)[0]);
                assert(pre.attestations[p] == pre.attestations.skip(p)[0]);
                assert(cur[i as int] == self.attestations[i as int]@);
                assert(pre.attestations.take(p + 1).drop_last() =~= pre.attestations.take(p));
                assert(pre.attestations.take(p + 1).last() == pre.attestations[p]);
            }
            if self.attestations[i].finalized || self.attestations[i].event.nonce < target {
                proof {
                    assert(cur.take(i + 1) =~= cur.take(i as int).push(cur[i as int]));
                    let tail = cur.skip(i + 1);
                    let goal = pre.attestations.skip(p + 1);
                    assert forall|k: int| 0 <= k < tail.len() implies #[trigger] tail[k]
                        == goal[k] by {
                        assert(cur.skip(i as int)[k + 1] == pre.attestations.skip(p)[k + 1]);
                    }
                    assert(tail =~= goal);
                }
                i = i + 1;
            } else {
                self.attestations.remove(i);
                proof {
                    let now = self@.attestations;
                    assert(now =~= cur.remove(i as int));
                    assert(now.take(i as int) =~= cur.take(i as int));
                    let tail = now.skip(i as int);
                    let goal = pre.attestations.skip(p + 1);
                    assert forall|k: int| 0 <= k < tail.len() implies #[trigger] tail[k]
                        == goal[k] by {
                        assert(cur.skip(i as int)[k + 1] == pre.attestations.skip(p)[k + 1]);
                    }
                    assert(tail =~= goal);
                    assert(self@.validators =~= done);
                }
            }
            proof {
                p = p + 1;
            }
        }
        proof {
            assert(self@.attestations.take(i as int) =~= self@.attestations);
            assert(pre.attestations.take(p) =~= pre.attestations);
            lemma_reset_preserves_wf(pre, target);
        }
    }

    /// Takes one claim. It is rejected, and nothing changes, where the
    /// submitter is no validator or the claim's nonce is not the submitter's
    /// last nonce plus one. Else the state moves as the model's `submit` says.
    pub fn submit_claim(&mut self, claim: Claim) -> (r: Result<(), ClaimError>)
        requires
            old(self).wf(),
        ensures
            final(self).wf(),
            r == old(self)@.submit_outcome(claim@),
            final(self)@ == old(self)@.submit(claim@),
    {
        let ghost pre = self@;
        let v = match self.find_validator(&claim.orchestrator) {
            Some(v) => v,
            None => {
                return Err(ClaimError::Unauthorized);
            },
        };
        proof {
            crate::model::lemma_first_index(pre.addresses(), claim@.orchestrator, 0);
        }
        let last = self.validators[v].last_nonce;
        assert(pre.validators[v as int].last_nonce == last);
        if last == u64::MAX || claim.event.nonce != last + 1 {
            return Err(ClaimError::NonceGap);
        }
        proof {
            lemma_submit_indices(pre, claim@);
            lemma_submit_preserves_wf(pre, claim@);
        }
        let nonce = claim.event.nonce;
        let blocked = self.nonce_is_finalized(nonce);
        let found = self.find_attestation(&claim.event);
        self.validators[v].last_nonce = nonce;
        let k = match found {
            Some(j) => j,
            None => {
                let votes = no_votes(self.validators.len());
                self.attestations.push(Attestation { event: claim.event, votes, finalized: false });
                self.attestations.len() - 1
            },
        };
        assert(self.attestations[k as int].votes.len() == self.validators.len()) by {
            if found is Some {
                assert(pre.attestations[k as int].votes.len() == pre.validators.len());
            }
        }
        self.attestations[k].votes[v] = true;
        if !self.attestations[k].finalized && !blocked {
            proof {
                assert(self@.powers() =~= pre.powers());
            }
            if self.power_of(k) >= self.threshold {
                self.attestations[k].finalized = true;
                let event = self.attestations[k].event.duplicate();
                self.applied.push(event);
            }
        }
        proof {
            let post = pre.submit(claim@);
            assert(self@.validators =~= post.validators);
            assert(self@.attestations =~= post.attestations);
            assert(self@.applied =~= post.applied);
        }
        Ok(())
    }
}

/// As many unset votes as there are validators.
fn no_votes(n: usize) -> (votes: Vec<bool>)
    ensures
        votes@ == Seq::new(n as nat, |i: int| false),
{
    let mut votes: Vec<bool> = Vec::new();
    let mut i: usize = 0;
    while i < n
        invariant
            i <= n,
            votes@ == Seq::new(i as nat, |i: int| false),
        decreases n - i,
    {
        votes.push(false);
        i = i + 1;
        assert(votes@ =~= Seq::new(i as nat, |i: int| false));
    }
    votes
}

} // verus!
