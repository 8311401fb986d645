//! The mathematical model of the aggregator: its state as sequences, and the
//! two transitions, submitting a claim and resetting to a nonce, as functions
//! from state to state.

use crate::claim::{ClaimView, EventView};
use vstd::prelude::*;

verus! {

/// Why a claim was rejected.
#[derive(Clone, Copy, Debug, PartialEq, Eq, Structural)]
pub enum ClaimError {
    /// The claim's nonce is not the submitter's last nonce plus one.
    NonceGap,
    /// The submitter is not a validator of this bridge.
    Unauthorized,
}

/// A validator as the model sees it.
pub struct ValidatorView {
    pub address: Seq<char>,
    pub power: u64,
    pub last_nonce: u64,
}

/// An attestation as the model sees it: `votes[i]` says whether validator `i`
/// has claimed this event.
pub struct AttestationView {
    pub event: EventView,
    pub votes: Seq<bool>,
    pub finalized: bool,
}

/// The aggregator's state. `applied` holds the events whose effect is due on
/// the destination chain, in the order in which they were finalized.
pub struct AggregatorView {
    pub validators: Seq<ValidatorView>,
    pub attestations: Seq<AttestationView>,
    pub applied: Seq<EventView>,
    pub threshold: u128,
}

/// The first index at or after `from` at which `s` holds `x`, or -1.
pub open spec fn first_index<T>(s: Seq<T>, x: T, from: int) -> int
    decreases s.len() - from,
{
    if from < 0 || from >= s.len() {
        -1
    } else if s[from] == x {
        from
    } else {
        first_index(s, x, from + 1)
    }
}

/// The sum of `powers[i]` over the `i` below `upto` with `mask[i]` set.
pub open spec fn masked_sum(powers: Seq<u64>, mask: Seq<bool>, upto: int) -> nat
    decreases upto,
{
    if upto <= 0 {
        0
    } else {
        let i = upto - 1;
        let term: nat = if i < powers.len() && i < mask.len() && mask[i] {
            powers[i] as nat
        } else {
            0
        };
        masked_sum(powers, mask, i) + term
    }
}

/// The sum of `powers[i]` over the `i` below `upto`.
pub open spec fn plain_sum(powers: Seq<u64>, upto: int) -> nat
    decreases upto,
{
    if upto <= 0 {
        0
    } else {
        let i = upto - 1;
        let term: nat = if i < powers.len() {
            powers[i] as nat
        } else {
            0
        };
        plain_sum(powers, i) + term
    }
}

/// The least power that is more than two thirds of `total`.
pub open spec fn default_threshold(total: nat) -> nat {
    2 * total / 3 + 1
}

/// Whether a reset to `target` keeps the attestation: it is finalized, or it
/// lies below the target.
pub open spec fn survives_reset(a: AttestationView, target: u64) -> bool {
    a.finalized || a.event.nonce < target
}

/// The attestations that a reset to `target` keeps, in their order.
pub open spec fn retain(atts: Seq<AttestationView>, target: u64) -> Seq<AttestationView>
    decreases atts.len(),
{
    if atts.len() == 0 {
        Seq::empty()
    } else {
        let rest = retain(atts.drop_last(), target);
        if survives_reset(atts.last(), target) {
            rest.push(atts.last())
        } else {
            rest
        }
    }
}

/// The places below `upto` of the attestations of events with this nonce, in
/// rising order.
pub open spec fn places_at(atts: Seq<AttestationView>, nonce: u64, upto: int) -> Seq<int>
    decreases upto,
{
    if upto <= 0 {
        Seq::empty()
    } else {
        let before = places_at(atts, nonce, upto - 1);
        if upto - 1 < atts.len() && atts[upto - 1].event.nonce == nonce {
            before.push(upto - 1)
        } else {
            before
        }
    }
}

/// The highest nonce among the finalized attestations, if there is one.
pub open spec fn highest_finalized(atts: Seq<AttestationView>) -> Option<u64>
    decreases atts.len(),
{
    if atts.len() == 0 {
        None
    } else {
        let before = highest_finalized(atts.drop_last());
        let last = atts.last();
        if last.finalized && (before is None || before->Some_0 < last.event.nonce) {
            Some(last.event.nonce)
        } else {
            before
        }
    }
}

impl AggregatorView {
    /// The validators' addresses, in the validators' order.
    pub open spec fn addresses(self) -> Seq<Seq<char>> {
        Seq::new(self.validators.len(), |i: int| self.validators[i].address)
    }

    /// The validators' voting powers.
    pub open spec fn powers(self) -> Seq<u64> {
        Seq::new(self.validators.len(), |i: int| self.validators[i].power)
    }

    /// The validators' last event nonces.
    pub open spec fn nonces(self) -> Seq<u64> {
        Seq::new(self.validators.len(), |i: int| self.validators[i].last_nonce)
    }

    /// The events of the attestations, in the order in which they were opened.
    pub open spec fn events(self) -> Seq<EventView> {
        Seq::new(self.attestations.len(), |j: int| self.attestations[j].event)
    }

    /// The index of the validator with this address, or -1.
    pub open spec fn validator_index(self, address: Seq<char>) -> int {
        first_index(self.addresses(), address, 0)
    }

    /// The index of the attestation of this event, or -1.
    pub open spec fn attestation_index(self, event: EventView) -> int {
        first_index(self.events(), event, 0)
    }

    /// The voting power of all validators together.
    pub open spec fn total_power(self) -> nat {
        plain_sum(self.powers(), self.validators.len() as int)
    }

    /// The voting power gathered by the votes `votes`.
    pub open spec fn power_of_votes(self, votes: Seq<bool>) -> nat {
        masked_sum(self.powers(), votes, self.validators.len() as int)
    }

    /// The voting power gathered by attestation `j`.
    pub open spec fn power_of(self, j: int) -> nat {
        self.power_of_votes(self.attestations[j].votes)
    }

    /// Whether some attestation of an event with this nonce is finalized.
    pub open spec fn nonce_finalized(self, nonce: u64) -> bool {
        exists|j: int|
            0 <= j < self.attestations.len() && (#[trigger] self.attestations[j]).finalized
                && self.attestations[j].event.nonce == nonce
    }

    /// Whether the claims at this nonce disagree and are not settled: two
    /// attestations are of events with this nonce, and one of the two is not
    /// finalized.
    pub open spec fn conflict_at(self, nonce: u64) -> bool {
        exists|i: int, j: int|
            0 <= i < self.attestations.len() && 0 <= j < self.attestations.len() && i != j && (
            #[trigger] self.attestations[i]).event.nonce == nonce && (
            #[trigger] self.attestations[j]).event.nonce == nonce && !self.attestations[i].finalized
    }

    /// Whether the attestation of this event is there and finalized.
    pub open spec fn is_finalized(self, event: EventView) -> bool {
        exists|j: int|
            0 <= j < self.attestations.len() && (#[trigger] self.attestations[j]).event == event
                && self.attestations[j].finalized
    }

    /// The votes cast for this event: none where it has no attestation.
    pub open spec fn votes_for(self, event: EventView) -> Seq<bool> {
        if self.attestation_index(event) < 0 {
            Seq::new(self.validators.len(), |i: int| false)
        } else {
            self.attestations[self.attestation_index(event)].votes
        }
    }

    /// The validators that have voted for this event or may still do so:
    /// those whose last nonce is below the event's.
    pub open spec fn within_reach(self, event: EventView) -> Seq<bool> {
        Seq::new(
            self.validators.len(),
            |i: int| self.votes_for(event)[i] || self.validators[i].last_nonce < event.nonce,
        )
    }

    /// The most voting power that claims alone can still gather for this
    /// event.
    pub open spec fn reachable_power(self, event: EventView) -> nat {
        self.power_of_votes(self.within_reach(event))
    }

    /// The highest nonce of a finalized event: the place the bridge as a
    /// whole has reached. It moves only when an attestation is finalized.
    pub open spec fn last_finalized_nonce(self) -> Option<u64> {
        highest_finalized(self.attestations)
    }

    /// Whether the claims at the first validator's nonce disagree unsettled.
    /// Where all validators stand at one nonce, this is the conflict there.
    pub open spec fn unsettled(self) -> bool {
        self.validators.len() > 0 && self.conflict_at(self.validators[0].last_nonce)
    }

    /// What holds of every state the aggregator reaches: each attestation has
    /// one vote slot per validator, no two attestations are of the same event,
    /// no two finalized attestations share a nonce, every finalized
    /// attestation has gathered the threshold, and wherever an attestation
    /// has gathered the threshold its nonce is finalized. The applied events
    /// are the finalized ones, each once.
    pub open spec fn wf(self) -> bool {
        &&& forall|j: int|
            0 <= j < self.attestations.len() ==> (#[trigger] self.attestations[j]).votes.len()
                == self.validators.len()
        &&& forall|i: int, j: int|
            0 <= i < j < self.attestations.len() ==> (#[trigger] self.attestations[i]).event != (
            #[trigger] self.attestations[j]).event
        &&& forall|i: int, j: int|
            0 <= i < j < self.attestations.len() && (#[trigger] self.attestations[i]).finalized && (
            #[trigger] self.attestations[j]).finalized ==> self.attestations[i].event.nonce
                != self.attestations[j].event.nonce
        &&& forall|j: int|
            0 <= j < self.attestations.len() && (#[trigger] self.attestations[j]).finalized
                ==> self.power_of(j) >= self.threshold
        &&& forall|j: int|
            0 <= j < self.attestations.len() && self.power_of(j) >= self.threshold
                ==> self.nonce_finalized((#[trigger] self.attestations[j]).event.nonce)
        &&& forall|a: int| 0 <= a < self.applied.len() ==> self.is_finalized(#[trigger] self.applied[a])
        &&& forall|j: int|
            0 <= j < self.attestations.len() && (#[trigger] self.attestations[j]).finalized
                ==> self.applied.contains(self.attestations[j].event)
        &&& forall|a: int, b: int|
            0 <= a < b < self.applied.len() ==> (#[trigger] self.applied[a]).nonce != (
            #[trigger] self.applied[b]).nonce
    }

    /// Whether the claim is taken: its submitter is a validator and its nonce
    /// is that validator's last nonce plus one.
    pub open spec fn submit_outcome(self, claim: ClaimView) -> Result<(), ClaimError> {
        let v = self.validator_index(claim.orchestrator);
        if v < 0 {
            Err(ClaimError::Unauthorized)
        } else if claim.event.nonce != self.validators[v].last_nonce + 1 {
            Err(ClaimError::NonceGap)
        } else {
            Ok(())
        }
    }

    /// The attestations with one for the claim's event opened at the end,
    /// where there was none.
    pub open spec fn opened(self, claim: ClaimView) -> Seq<AttestationView> {
        if self.attestation_index(claim.event) < 0 {
            self.attestations.push(
                AttestationView {
                    event: claim.event,
                    votes: Seq::new(self.validators.len(), |i: int| false),
                    finalized: false,
                },
            )
        } else {
            self.attestations
        }
    }

    /// The place in [`Self::opened`] of the attestation of the claim's event.
    pub open spec fn slot(self, claim: ClaimView) -> int {
        if self.attestation_index(claim.event) < 0 {
            self.attestations.len() as int
        } else {
            self.attestation_index(claim.event)
        }
    }

    /// The votes for the claim's event, the submitter's among them.
    pub open spec fn votes_with(self, claim: ClaimView) -> Seq<bool> {
        self.opened(claim)[self.slot(claim)].votes.update(
            self.validator_index(claim.orchestrator),
            true,
        )
    }

    /// The state after the claim was submitted. A rejected claim changes
    /// nothing. A claim that is taken moves its submitter's nonce forward,
    /// adds the submitter's vote to the attestation of its event (opened at
    /// the end where there was none), and finalizes that attestation once its
    /// votes reach the threshold, unless the nonce is finalized already. An
    /// event that is finalized by the claim joins the applied events.
    pub open spec fn submit(self, claim: ClaimView) -> AggregatorView {
        if self.submit_outcome(claim) is Err {
            self
        } else {
            let v = self.validator_index(claim.orchestrator);
            let opened = self.opened(claim);
            let k = self.slot(claim);
            let votes = self.votes_with(claim);
            let finalized = opened[k].finalized || (self.power_of_votes(votes) >= self.threshold
                && !self.nonce_finalized(claim.event.nonce));
            AggregatorView {
                validators: self.validators.update(
                    v,
                    ValidatorView { last_nonce: claim.event.nonce, ..self.validators[v] },
                ),
                attestations: opened.update(k, AttestationView { votes, finalized, ..opened[k] }),
                applied: if finalized && !opened[k].finalized {
                    self.applied.push(claim.event)
                } else {
                    self.applied
                },
                threshold: self.threshold,
            }
        }
    }

    /// The state after a reset to `target`: every validator's last nonce is
    /// `target`, and of the attestations only those that [`survives_reset`]
    /// accepts are left. What was applied stays applied.
    pub open spec fn reset(self, target: u64) -> AggregatorView {
        AggregatorView {
            validators: Seq::new(
                self.validators.len(),
                |i: int| ValidatorView { last_nonce: target, ..self.validators[i] },
            ),
            attestations: retain(self.attestations, target),
            applied: self.applied,
            threshold: self.threshold,
        }
    }
}

/// One move of the aggregator.
pub enum Step {
    Submit(ClaimView),
    Reset(u64),
}

impl AggregatorView {
    /// The state after one move.
    pub open spec fn step(self, step: Step) -> AggregatorView {
        match step {
            Step::Submit(claim) => self.submit(claim),
            Step::Reset(target) => self.reset(target),
        }
    }

    /// The state after the moves in `steps`, first to last.
    pub open spec fn run(self, steps: Seq<Step>) -> AggregatorView
        decreases steps.len(),
    {
        if steps.len() == 0 {
            self
        } else {
            self.run(steps.drop_last()).step(steps.last())
        }
    }

    /// The state after the claims in `claims` were submitted, first to last.
    pub open spec fn run_claims(self, claims: Seq<ClaimView>) -> AggregatorView
        decreases claims.len(),
    {
        if claims.len() == 0 {
            self
        } else {
            self.run_claims(claims.drop_last()).submit(claims.last())
        }
    }

    /// The nonces of those claims in `claims` that `address` submitted and
    /// that were taken, in the order of submission.
    pub open spec fn accepted_nonces(self, claims: Seq<ClaimView>, address: Seq<char>) -> Seq<u64>
        decreases claims.len(),
    {
        if claims.len() == 0 {
            Seq::empty()
        } else {
            let before = self.accepted_nonces(claims.drop_last(), address);
            let claim = claims.last();
            if claim.orchestrator == address && self.run_claims(claims.drop_last()).submit_outcome(
                claim,
            ) is Ok {
                before.push(claim.event.nonce)
            } else {
                before
            }
        }
    }
}

/// What [`first_index`] finds is the first place that holds `x`; it finds
/// nothing only where no place does.
pub proof fn lemma_first_index<T>(s: Seq<T>, x: T, from: int)
    requires
        0 <= from,
    ensures
        ({
            let r = first_index(s, x, from);
            &&& r == -1 || (from <= r < s.len() && s[r] == x)
            &&& forall|i: int| from <= i < s.len() && (r == -1 || i < r) ==> s[i] != x
        }),
    decreases s.len() - from,
{
    if from < s.len() && s[from] != x {
        lemma_first_index(s, x, from + 1);
    }
}

/// Where `s` is searched after `x` was put at its end, what was found in `s`
/// is found again, and `x` itself where nothing was.
pub proof fn lemma_first_index_push<T>(s: Seq<T>, x: T, y: T, from: int)
    requires
        0 <= from <= s.len(),
    ensures
        first_index(s.push(x), y, from) == if first_index(s, y, from) >= 0 {
            first_index(s, y, from)
        } else if x == y {
            s.len() as int
        } else {
            -1
        },
    decreases s.len() - from,
{
    if from < s.len() {
        assert(s.push(x)[from] == s[from]);
        if s[from] != y {
            lemma_first_index_push(s, x, y, from + 1);
        }
    } else {
        assert(s.push(x)[from] == x);
        assert(first_index(s.push(x), y, from + 1) == -1);
    }
}

/// A masked sum is never more than the plain sum.
pub proof fn lemma_masked_sum_bounded(powers: Seq<u64>, mask: Seq<bool>, upto: int)
    ensures
        masked_sum(powers, mask, upto) <= plain_sum(powers, upto),
        upto >= 0 ==> plain_sum(powers, upto) <= upto * (u64::MAX as int),
        upto < 0 ==> plain_sum(powers, upto) == 0,
    decreases upto,
{
    if upto > 0 {
        lemma_masked_sum_bounded(powers, mask, upto - 1);
    }
}

/// Setting more votes never lowers the sum.
pub proof fn lemma_masked_sum_monotone(powers: Seq<u64>, a: Seq<bool>, b: Seq<bool>, upto: int)
    requires
        a.len() == b.len(),
        forall|i: int| 0 <= i < a.len() && a[i] ==> b[i],
    ensures
        masked_sum(powers, a, upto) <= masked_sum(powers, b, upto),
    decreases upto,
{
    if upto > 0 {
        lemma_masked_sum_monotone(powers, a, b, upto - 1);
    }
}

/// Two sets of votes that share no voter gather, together, no more than the
/// total power.
pub proof fn lemma_disjoint_votes_bounded(powers: Seq<u64>, a: Seq<bool>, b: Seq<bool>, upto: int)
    requires
        a.len() == b.len(),
        forall|i: int| 0 <= i < a.len() ==> !(a[i] && b[i]),
    ensures
        masked_sum(powers, a, upto) + masked_sum(powers, b, upto) <= plain_sum(powers, upto),
    decreases upto,
{
    if upto > 0 {
        lemma_disjoint_votes_bounded(powers, a, b, upto - 1);
    }
}

/// Each attestation that a reset keeps was there before, and survives.
pub proof fn lemma_retain_members(atts: Seq<AttestationView>, target: u64)
    ensures
        retain(atts, target).len() <= atts.len(),
        forall|k: int|
            0 <= k < retain(atts, target).len() ==> survives_reset(
                #[trigger] retain(atts, target)[k],
                target,
            ) && atts.contains(retain(atts, target)[k]),
        forall|i: int|
            0 <= i < atts.len() && survives_reset(#[trigger] atts[i], target) ==> retain(
                atts,
                target,
            ).contains(atts[i]),
    decreases atts.len(),
{
    if atts.len() > 0 {
        let init = atts.drop_last();
        lemma_retain_members(init, target);
        let rest = retain(init, target);
        let all = retain(atts, target);
        assert forall|k: int| 0 <= k < all.len() implies survives_reset(#[trigger] all[k], target)
            && atts.contains(all[k]) by {
            if k < rest.len() {
                assert(all[k] == rest[k]);
                assert(init.contains(rest[k]));
                let i = choose|i: int| 0 <= i < init.len() && init[i] == rest[k];
                assert(atts[i] == all[k]);
            } else {
                assert(all[k] == atts[atts.len() - 1]);
            }
        }
        assert forall|i: int| 0 <= i < atts.len() && survives_reset(
            #[trigger] atts[i],
            target,
        ) implies all.contains(atts[i]) by {
            if i < init.len() {
                assert(init[i] == atts[i]);
                assert(rest.contains(init[i]));
                let k = choose|k: int| 0 <= k < rest.len() && rest[k] == init[i];
                assert(all[k] == atts[i]);
            } else {
                assert(all[all.len() - 1] == atts[i]);
            }
        }
    }
}

/// A reset leaves a sequence alone in which every attestation survives.
pub proof fn lemma_retain_fixpoint(atts: Seq<AttestationView>, target: u64)
    requires
        forall|i: int| 0 <= i < atts.len() ==> survives_reset(#[trigger] atts[i], target),
    ensures
        retain(atts, target) == atts,
    decreases atts.len(),
{
    if atts.len() > 0 {
        let init = atts.drop_last();
        assert forall|i: int| 0 <= i < init.len() implies survives_reset(
            #[trigger] init[i],
            target,
        ) by {
            assert(init[i] == atts[i]);
        }
        lemma_retain_fixpoint(init, target);
        assert(survives_reset(atts[atts.len() - 1], target));
        assert(init.push(atts.last()) =~= atts);
    } else {
        assert(atts =~= Seq::empty());
    }
}

} // verus!
