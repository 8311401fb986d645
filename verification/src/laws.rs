//! What holds of the model in every state it can reach.

use crate::claim::{ClaimView, EventView};
use crate::governance::GovernanceResetDirective;
use crate::halt::{stalled, BridgeState, DetectorView};
use crate::model::{
    lemma_disjoint_votes_bounded, lemma_first_index, lemma_first_index_push,
    lemma_masked_sum_monotone, lemma_retain_fixpoint, lemma_retain_members, retain,
    AggregatorView, AttestationView, Step,
};
use vstd::prelude::*;

verus! {

/// Where a claim is taken, its submitter and the attestation it votes on are
/// in range, and that attestation is of the claim's event.
pub proof fn lemma_submit_indices(s: AggregatorView, claim: ClaimView)
    requires
        s.submit_outcome(claim) is Ok,
    ensures
        0 <= s.validator_index(claim.orchestrator) < s.validators.len(),
        s.validators[s.validator_index(claim.orchestrator)].address == claim.orchestrator,
        -1 <= s.attestation_index(claim.event) < s.attestations.len(),
        s.attestation_index(claim.event) >= 0 ==> s.attestations[s.attestation_index(
            claim.event,
        )].event == claim.event,
        s.attestation_index(claim.event) < 0 ==> forall|i: int|
            0 <= i < s.attestations.len() ==> (#[trigger] s.attestations[i]).event != claim.event,
        s.submit(claim).validators.len() == s.validators.len(),
        s.submit(claim).powers() == s.powers(),
        s.submit(claim).addresses() == s.addresses(),
        s.submit(claim).threshold == s.threshold,
{
    lemma_first_index(s.addresses(), claim.orchestrator, 0);
    lemma_first_index(s.events(), claim.event, 0);
    let j = s.attestation_index(claim.event);
    if j < 0 {
        assert forall|i: int| 0 <= i < s.attestations.len() implies (
        #[trigger] s.attestations[i]).event != claim.event by {
            assert(s.events()[i] == s.attestations[i].event);
        }
    }
    assert(s.submit(claim).powers() =~= s.powers());
    assert(s.submit(claim).addresses() =~= s.addresses());
}

/// Submitting a claim keeps the state well formed.
pub proof fn lemma_submit_preserves_wf(s: AggregatorView, claim: ClaimView)
    requires
        s.wf(),
    ensures
        s.submit(claim).wf(),
{
    if s.submit_outcome(claim) is Ok {
        lemma_submit_indices(s, claim);
        let t = s.submit(claim);
        let v = s.validator_index(claim.orchestrator);
        let j = s.attestation_index(claim.event);
        let k = s.slot(claim);
        let n = s.attestations.len() as int;
        assert(t.attestations.len() == if j < 0 {
            n + 1
        } else {
            n
        });
        assert(t.attestations[k].event == claim.event);
        assert forall|i: int| 0 <= i < t.attestations.len() && i != k implies (
        #[trigger] t.attestations[i]) == s.attestations[i] && i < n by {}
        assert forall|i: int| 0 <= i < t.attestations.len() implies (
        #[trigger] t.attestations[i]).votes.len() == t.validators.len() by {
            if i != k {
                assert(t.attestations[i] == s.attestations[i]);
            } else if j >= 0 {
                assert(s.attestations[k].votes.len() == s.validators.len());
            }
        }
        assert forall|a: int, b: int| 0 <= a < b < t.attestations.len() implies (
        #[trigger] t.attestations[a]).event != (#[trigger] t.attestations[b]).event by {
            if a != k {
                assert(t.attestations[a] == s.attestations[a]);
            }
            if b != k {
                assert(t.attestations[b] == s.attestations[b]);
            }
            if j >= 0 {
                assert(t.attestations[k].event == s.attestations[k].event);
            }
        }
        assert forall|i: int| 0 <= i < t.attestations.len() && (
        #[trigger] t.attestations[i]).finalized implies t.power_of(i) >= t.threshold by {
            if i != k {
                assert(t.attestations[i] == s.attestations[i]);
                assert(s.power_of(i) >= s.threshold);
            } else if j >= 0 && s.attestations[k].finalized {
                assert(s.power_of(k) >= s.threshold);
                lemma_masked_sum_monotone(
                    s.powers(),
                    s.attestations[k].votes,
                    t.attestations[k].votes,
                    s.validators.len() as int,
                );
            }
        }
        assert forall|i: int|
            0 <= i < t.attestations.len() && t.power_of(i) >= t.threshold implies t.nonce_finalized(
            (#[trigger] t.attestations[i]).event.nonce,
        ) by {
            let nonce = t.attestations[i].event.nonce;
            if t.attestations[i].finalized {
            } else {
                if i != k {
                    assert(t.attestations[i] == s.attestations[i]);
                    assert(s.power_of(i) >= s.threshold);
                }
                assert(s.nonce_finalized(nonce));
                let o = choose|o: int|
                    0 <= o < s.attestations.len() && (#[trigger] s.attestations[o]).finalized
                        && s.attestations[o].event.nonce == nonce;
                if o != k {
                    assert(t.attestations[o] == s.attestations[o]);
                } else {
                    assert(t.attestations[o].event == s.attestations[o].event);
                }
                assert(t.attestations[o].finalized && t.attestations[o].event.nonce == nonce);
            }
        }
        let was = s.opened(claim)[k].finalized;
        let old_len = s.applied.len() as int;
        assert(was ==> j >= 0 && s.attestations[k].finalized);
        assert forall|a: int| 0 <= a < t.applied.len() implies t.is_finalized(
            #[trigger] t.applied[a],
        ) by {
            if a < old_len {
                assert(t.applied[a] == s.applied[a]);
                assert(s.is_finalized(s.applied[a]));
                let o = choose|o: int|
                    0 <= o < s.attestations.len() && (#[trigger] s.attestations[o]).event
                        == s.applied[a] && s.attestations[o].finalized;
                if o != k {
                    assert(t.attestations[o] == s.attestations[o]);
                }
                assert(t.attestations[o].event == s.applied[a] && t.attestations[o].finalized);
            } else {
                assert(t.attestations[k].event == t.applied[a] && t.attestations[k].finalized);
            }
        }
        assert forall|i: int|
            0 <= i < t.attestations.len() && (
            #[trigger] t.attestations[i]).finalized implies t.applied.contains(
            t.attestations[i].event,
        ) by {
            if i != k || was {
                if i != k {
                    assert(t.attestations[i] == s.attestations[i]);
                }
                assert(s.attestations[i].finalized);
                assert(s.applied.contains(s.attestations[i].event));
                let a = choose|a: int| 0 <= a < old_len && s.applied[a] == s.attestations[i].event;
                assert(t.applied[a] == t.attestations[i].event);
            } else {
                assert(t.applied[old_len] == t.attestations[i].event);
            }
        }
        assert forall|a: int, b: int| 0 <= a < b < t.applied.len() implies (
        #[trigger] t.applied[a]).nonce != (#[trigger] t.applied[b]).nonce by {
            assert(t.applied[a] == s.applied[a]);
            if b < old_len {
                assert(t.applied[b] == s.applied[b]);
            } else {
                assert(s.is_finalized(s.applied[a]));
                let o = choose|o: int|
                    0 <= o < s.attestations.len() && (#[trigger] s.attestations[o]).event
                        == s.applied[a] && s.attestations[o].finalized;
                assert(!s.nonce_finalized(claim.event.nonce));
            }
        }
        assert forall|a: int, b: int|
            0 <= a < b < t.attestations.len() && (#[trigger] t.attestations[a]).finalized && (
            #[trigger] t.attestations[b]).finalized implies t.attestations[a].event.nonce
            != t.attestations[b].event.nonce by {
            if a != k {
                assert(t.attestations[a] == s.attestations[a]);
            }
            if b != k {
                assert(t.attestations[b] == s.attestations[b]);
            }
            if a == k || b == k {
                let o = if a == k {
                    b
                } else {
                    a
                };
                assert(s.attestations[o].finalized);
                if j >= 0 && s.attestations[k].finalized {
                    assert(t.attestations[k].event == s.attestations[k].event);
                } else {
                    assert(!s.nonce_finalized(claim.event.nonce));
                }
            }
        }
    }
}

/// The attestations that a reset keeps are still of different events, and the
/// finalized ones among them still of different nonces, where that held before.
pub proof fn lemma_retain_keeps_apart(atts: Seq<AttestationView>, target: u64)
    requires
        forall|i: int, j: int|
            0 <= i < j < atts.len() ==> (#[trigger] atts[i]).event != (#[trigger] atts[j]).event,
        forall|i: int, j: int|
            0 <= i < j < atts.len() && (#[trigger] atts[i]).finalized && (
            #[trigger] atts[j]).finalized ==> atts[i].event.nonce != atts[j].event.nonce,
    ensures
        forall|i: int, j: int|
            0 <= i < j < retain(atts, target).len() ==> (#[trigger] retain(atts, target)[i]).event
                != (#[trigger] retain(atts, target)[j]).event,
        forall|i: int, j: int|
            0 <= i < j < retain(atts, target).len() && (#[trigger] retain(
                atts,
                target,
            )[i]).finalized && (#[trigger] retain(atts, target)[j]).finalized ==> retain(
                atts,
                target,
            )[i].event.nonce != retain(atts, target)[j].event.nonce,
    decreases atts.len(),
{
    if atts.len() > 0 {
        let init = atts.drop_last();
        let rest = retain(init, target);
        let all = retain(atts, target);
        assert forall|i: int, j: int| 0 <= i < j < init.len() implies (#[trigger] init[i]).event
            != (#[trigger] init[j]).event by {
            assert(init[i] == atts[i] && init[j] == atts[j]);
        }
        assert forall|i: int, j: int|
            0 <= i < j < init.len() && (#[trigger] init[i]).finalized && (
            #[trigger] init[j]).finalized implies init[i].event.nonce != init[j].event.nonce by {
            assert(init[i] == atts[i] && init[j] == atts[j]);
        }
        lemma_retain_keeps_apart(init, target);
        lemma_retain_members(init, target);
        let last = atts.len() - 1;
        assert forall|i: int, j: int| 0 <= i < j < all.len() implies (#[trigger] all[i]).event != (
        #[trigger] all[j]).event && (all[i].finalized && all[j].finalized ==> all[i].event.nonce
            != all[j].event.nonce) by {
            assert(all[i] == rest[i]);
            if j < rest.len() {
                assert(all[j] == rest[j]);
            } else {
                assert(all[j] == atts[last]);
                assert(init.contains(rest[i]));
                let a = choose|a: int| 0 <= a < init.len() && init[a] == rest[i];
                assert(atts[a] == all[i]);
            }
        }
    }
}

/// A reset keeps the state well formed.
pub proof fn lemma_reset_preserves_wf(s: AggregatorView, target: u64)
    requires
        s.wf(),
    ensures
        s.reset(target).wf(),
        s.reset(target).powers() == s.powers(),
        s.reset(target).addresses() == s.addresses(),
{
    let t = s.reset(target);
    lemma_retain_keeps_apart(s.attestations, target);
    lemma_retain_members(s.attestations, target);
    assert(t.powers() =~= s.powers());
    assert(t.addresses() =~= s.addresses());
    assert forall|j: int| 0 <= j < t.attestations.len() implies (
    #[trigger] t.attestations[j]).votes.len() == t.validators.len() && (t.attestations[j].finalized
        ==> t.power_of(j) >= t.threshold) by {
        assert(s.attestations.contains(t.attestations[j]));
        let a = choose|a: int| 0 <= a < s.attestations.len() && s.attestations[a] == t.attestations[j];
        assert(s.attestations[a].votes.len() == s.validators.len());
        if t.attestations[j].finalized {
            assert(s.power_of(a) >= s.threshold);
        }
    }
}

/// A claim that is rejected changes nothing, and a claim that is taken moves
/// its submitter's nonce forward by exactly one and no other validator's
/// nonce at all.
pub proof fn law_submit_moves_one_nonce(s: AggregatorView, claim: ClaimView)
    ensures
        s.submit_outcome(claim) is Err ==> s.submit(claim) == s,
        s.submit_outcome(claim) is Ok ==> ({
            let v = s.validator_index(claim.orchestrator);
            let t = s.submit(claim);
            &&& 0 <= v < s.validators.len()
            &&& t.validators.len() == s.validators.len()
            &&& t.validators[v].last_nonce == s.validators[v].last_nonce + 1
            &&& t.validators[v].last_nonce == claim.event.nonce
            &&& forall|i: int|
                0 <= i < s.validators.len() && i != v ==> (#[trigger] t.validators[i])
                    == s.validators[i]
        }),
{
    if s.submit_outcome(claim) is Ok {
        lemma_submit_indices(s, claim);
    }
}

/// The nonces of the claims that one validator gets taken, whatever is
/// submitted and whoever else submits in between, count up from its first
/// nonce without a gap: the `k`-th is its starting nonce plus `k + 1`. Its
/// last nonce ends at its starting nonce plus the number of claims taken.
pub proof fn law_accepted_nonces_count_up(
    s: AggregatorView,
    claims: Seq<ClaimView>,
    address: Seq<char>,
)
    requires
        s.validator_index(address) >= 0,
    ensures
        ({
            let v = s.validator_index(address);
            let taken = s.accepted_nonces(claims, address);
            let t = s.run_claims(claims);
            &&& t.addresses() == s.addresses()
            &&& 0 <= v < t.validators.len()
            &&& t.validators[v].last_nonce == s.validators[v].last_nonce + taken.len()
            &&& forall|k: int|
                0 <= k < taken.len() ==> #[trigger] taken[k] == s.validators[v].last_nonce + k + 1
        }),
    decreases claims.len(),
{
    lemma_first_index(s.addresses(), address, 0);
    if claims.len() > 0 {
        let init = claims.drop_last();
        let claim = claims.last();
        law_accepted_nonces_count_up(s, init, address);
        let m = s.run_claims(init);
        law_submit_moves_one_nonce(m, claim);
        if m.submit_outcome(claim) is Ok {
            lemma_submit_indices(m, claim);
        }
    }
}

/// Claims never move a nonce backward: whatever claims are submitted, every
/// validator's last nonce is at least what it was.
pub proof fn law_claims_never_lower_a_nonce(s: AggregatorView, claims: Seq<ClaimView>, i: int)
    requires
        0 <= i < s.validators.len(),
    ensures
        s.run_claims(claims).validators.len() == s.validators.len(),
        s.run_claims(claims).validators[i].last_nonce >= s.validators[i].last_nonce,
    decreases claims.len(),
{
    if claims.len() > 0 {
        law_claims_never_lower_a_nonce(s, claims.drop_last(), i);
        law_submit_moves_one_nonce(s.run_claims(claims.drop_last()), claims.last());
    }
}

/// Every move keeps the state well formed.
pub proof fn lemma_run_preserves_wf(s: AggregatorView, steps: Seq<Step>)
    requires
        s.wf(),
    ensures
        s.run(steps).wf(),
    decreases steps.len(),
{
    if steps.len() > 0 {
        lemma_run_preserves_wf(s, steps.drop_last());
        let m = s.run(steps.drop_last());
        match steps.last() {
            Step::Submit(claim) => lemma_submit_preserves_wf(m, claim),
            Step::Reset(target) => lemma_reset_preserves_wf(m, target),
        }
    }
}

/// In a well-formed state no two events with one nonce are both finalized.
pub proof fn law_one_finalized_per_nonce(s: AggregatorView, e1: EventView, e2: EventView)
    requires
        s.wf(),
        s.is_finalized(e1),
        s.is_finalized(e2),
        e1.nonce == e2.nonce,
    ensures
        e1 == e2,
{
    let i = choose|i: int|
        0 <= i < s.attestations.len() && (#[trigger] s.attestations[i]).event == e1
            && s.attestations[i].finalized;
    let j = choose|j: int|
        0 <= j < s.attestations.len() && (#[trigger] s.attestations[j]).event == e2
            && s.attestations[j].finalized;
    if i < j {
        assert(s.attestations[i].event.nonce != s.attestations[j].event.nonce);
    } else if j < i {
        assert(s.attestations[j].event.nonce != s.attestations[i].event.nonce);
    }
}

/// An event that is finalized stays finalized through every move, claims and
/// resets alike.
pub proof fn law_finalized_is_permanent(s: AggregatorView, steps: Seq<Step>, event: EventView)
    requires
        s.is_finalized(event),
    ensures
        s.run(steps).is_finalized(event),
    decreases steps.len(),
{
    if steps.len() > 0 {
        law_finalized_is_permanent(s, steps.drop_last(), event);
        let m = s.run(steps.drop_last());
        let t = s.run(steps);
        let j = choose|j: int|
            0 <= j < m.attestations.len() && (#[trigger] m.attestations[j]).event == event
                && m.attestations[j].finalized;
        match steps.last() {
            Step::Submit(claim) => {
                if m.submit_outcome(claim) is Ok {
                    lemma_submit_indices(m, claim);
                    assert(t.attestations[j].event == event && t.attestations[j].finalized);
                }
            },
            Step::Reset(target) => {
                lemma_retain_members(m.attestations, target);
                assert(t.attestations.contains(m.attestations[j]));
                let k = choose|k: int|
                    0 <= k < t.attestations.len() && t.attestations[k] == m.attestations[j];
                assert(t.attestations[k].event == event && t.attestations[k].finalized);
            },
        }
    }
}

/// At most one event per nonce is ever finalized: where one event is
/// finalized at some time and another with the same nonce at a later time,
/// after any moves in between, the two are the same event.
pub proof fn law_never_two_finalized(
    s: AggregatorView,
    earlier: Seq<Step>,
    later: Seq<Step>,
    e1: EventView,
    e2: EventView,
)
    requires
        s.wf(),
        s.run(earlier).is_finalized(e1),
        s.run(earlier).run(later).is_finalized(e2),
        e1.nonce == e2.nonce,
    ensures
        e1 == e2,
{
    let m = s.run(earlier);
    lemma_run_preserves_wf(s, earlier);
    lemma_run_preserves_wf(m, later);
    law_finalized_is_permanent(m, later, e1);
    law_one_finalized_per_nonce(m.run(later), e1, e2);
}

/// The applied events only grow: whatever moves are made, what was applied
/// before stays where it was, and new events join at the end.
pub proof fn law_applied_only_grows(s: AggregatorView, steps: Seq<Step>)
    ensures
        s.applied.is_prefix_of(s.run(steps).applied),
    decreases steps.len(),
{
    if steps.len() > 0 {
        law_applied_only_grows(s, steps.drop_last());
        let m = s.run(steps.drop_last());
        let t = s.run(steps);
        assert(m.applied.is_prefix_of(t.applied));
    }
}

/// No effect is applied twice: in a well-formed state the applied events
/// have pairwise different nonces, and each of them is finalized.
pub proof fn law_applied_once(s: AggregatorView, a: int, b: int)
    requires
        s.wf(),
        0 <= a < s.applied.len(),
        0 <= b < s.applied.len(),
        a != b,
    ensures
        s.applied[a].nonce != s.applied[b].nonce,
        s.is_finalized(s.applied[a]),
{
    if a < b {
        assert(s.applied[a].nonce != s.applied[b].nonce);
    } else {
        assert(s.applied[b].nonce != s.applied[a].nonce);
    }
}

/// A claim that is taken and brings the votes for its event to the threshold
/// finalizes the event, unless another event is finalized at its nonce.
pub proof fn law_quorum_finalizes(s: AggregatorView, claim: ClaimView)
    requires
        s.wf(),
        s.submit_outcome(claim) is Ok,
        forall|e: EventView| s.is_finalized(e) && e.nonce == claim.event.nonce ==> e == claim.event,
        s.power_of_votes(s.votes_with(claim)) >= s.threshold,
    ensures
        s.submit(claim).is_finalized(claim.event),
{
    lemma_submit_indices(s, claim);
    let t = s.submit(claim);
    let j = s.attestation_index(claim.event);
    let k = s.slot(claim);
    assert(t.attestations[k].event == claim.event);
    if !t.attestations[k].finalized {
        assert(s.nonce_finalized(claim.event.nonce));
        let o = choose|o: int|
            0 <= o < s.attestations.len() && (#[trigger] s.attestations[o]).finalized
                && s.attestations[o].event.nonce == claim.event.nonce;
        assert(s.is_finalized(s.attestations[o].event));
        assert(s.attestations[o].event == claim.event);
        assert(s.events()[o] == claim.event);
        lemma_first_index(s.events(), claim.event, 0);
        if j != o {
            assert(s.attestations[j].event != s.attestations[o].event);
        }
    }
}

/// Matching claims that carry the threshold settle their nonce. In every
/// well-formed state, an attestation whose votes carry the threshold is
/// finalized, unless another event was finalized at its nonce before.
pub proof fn law_gathered_quorum_is_finalized(s: AggregatorView, j: int)
    requires
        s.wf(),
        0 <= j < s.attestations.len(),
        s.power_of(j) >= s.threshold,
        forall|e: EventView|
            s.is_finalized(e) && e.nonce == s.attestations[j].event.nonce ==> e
                == s.attestations[j].event,
    ensures
        s.attestations[j].finalized,
{
    assert(s.nonce_finalized(s.attestations[j].event.nonce));
    let o = choose|o: int|
        0 <= o < s.attestations.len() && (#[trigger] s.attestations[o]).finalized
            && s.attestations[o].event.nonce == s.attestations[j].event.nonce;
    assert(s.is_finalized(s.attestations[o].event));
    if o < j {
        assert(s.attestations[o].event != s.attestations[j].event);
    } else if j < o {
        assert(s.attestations[j].event != s.attestations[o].event);
    }
}

/// Without the threshold there is no finalization: in a well-formed state an
/// attestation whose votes carry less than the threshold is not finalized.
pub proof fn law_no_quorum_no_finalization(s: AggregatorView, j: int)
    requires
        s.wf(),
        0 <= j < s.attestations.len(),
        s.power_of(j) < s.threshold,
    ensures
        !s.attestations[j].finalized,
{
}

/// Where the threshold is more than half of the total power, two
/// attestations that share no voter cannot both carry the threshold.
pub proof fn law_conflicting_quorums_impossible(s: AggregatorView, i: int, j: int)
    requires
        s.wf(),
        0 <= i < s.attestations.len(),
        0 <= j < s.attestations.len(),
        forall|v: int|
            0 <= v < s.validators.len() ==> !(s.attestations[i].votes[v]
                && s.attestations[j].votes[v]),
        2 * s.threshold > s.total_power(),
    ensures
        !(s.power_of(i) >= s.threshold && s.power_of(j) >= s.threshold),
{
    assert(s.attestations[i].votes.len() == s.validators.len());
    assert(s.attestations[j].votes.len() == s.validators.len());
    lemma_disjoint_votes_bounded(
        s.powers(),
        s.attestations[i].votes,
        s.attestations[j].votes,
        s.validators.len() as int,
    );
}

/// After a claim was taken, the attestation of each event is where it was,
/// and that of the claim's event at the claim's slot.
pub proof fn lemma_submit_keeps_places(s: AggregatorView, claim: ClaimView, event: EventView)
    requires
        s.submit_outcome(claim) is Ok,
    ensures
        s.submit(claim).attestation_index(event) == if event == claim.event {
            s.slot(claim)
        } else {
            s.attestation_index(event)
        },
{
    lemma_submit_indices(s, claim);
    let t = s.submit(claim);
    lemma_first_index(s.events(), event, 0);
    if s.attestation_index(claim.event) < 0 {
        assert(t.events() =~= s.events().push(claim.event));
        lemma_first_index_push(s.events(), claim.event, event, 0);
    } else {
        assert(t.events() =~= s.events());
    }
}

/// One claim finalizes no event whose reachable power is below the
/// threshold, and raises no event's reachable power.
pub proof fn lemma_submit_keeps_out_of_reach(s: AggregatorView, claim: ClaimView, event: EventView)
    requires
        s.wf(),
        !s.is_finalized(event),
        s.reachable_power(event) < s.threshold,
    ensures
        !s.submit(claim).is_finalized(event),
        s.submit(claim).reachable_power(event) <= s.reachable_power(event),
        s.submit(claim).threshold == s.threshold,
{
    if s.submit_outcome(claim) is Ok {
        lemma_submit_indices(s, claim);
        lemma_submit_keeps_places(s, claim, event);
        lemma_submit_preserves_wf(s, claim);
        lemma_first_index(s.events(), event, 0);
        let t = s.submit(claim);
        let v = s.validator_index(claim.orchestrator);
        let k = s.slot(claim);
        let j = s.attestation_index(event);
        if j >= 0 {
            assert(s.attestations[j].votes.len() == s.validators.len());
            assert(s.events()[j] == s.attestations[j].event);
        }
        let before = s.within_reach(event);
        let after = t.within_reach(event);
        assert forall|i: int| 0 <= i < after.len() && after[i] implies before[i] by {
            if i == v {
                assert(s.validators[v].last_nonce < claim.event.nonce);
            } else {
                assert(t.validators[i] == s.validators[i]);
            }
        }
        lemma_masked_sum_monotone(s.powers(), after, before, s.validators.len() as int);
        if t.is_finalized(event) {
            let a = choose|a: int|
                0 <= a < t.attestations.len() && (#[trigger] t.attestations[a]).event == event
                    && t.attestations[a].finalized;
            if a != k {
                assert(t.attestations[a] == s.attestations[a]);
                assert(s.is_finalized(event));
            } else {
                assert(event == claim.event);
                if j >= 0 {
                    assert(!s.attestations[j].finalized);
                }
                let votes = s.votes_with(claim);
                assert forall|i: int| 0 <= i < votes.len() && votes[i] implies before[i] by {
                    if i == v {
                        assert(s.validators[v].last_nonce < claim.event.nonce);
                    }
                }
                lemma_masked_sum_monotone(s.powers(), votes, before, s.validators.len() as int);
            }
        }
    }
}

/// A nonce that is stuck stays stuck. Where the votes cast for an event and
/// the votes that may still come carry less than the threshold together, no
/// claims, however many and from whomever, finalize the event: only a reset
/// can help.
pub proof fn law_out_of_reach_never_finalizes(
    s: AggregatorView,
    claims: Seq<ClaimView>,
    event: EventView,
)
    requires
        s.wf(),
        !s.is_finalized(event),
        s.reachable_power(event) < s.threshold,
    ensures
        !s.run_claims(claims).is_finalized(event),
        s.run_claims(claims).reachable_power(event) <= s.reachable_power(event),
        s.run_claims(claims).threshold == s.threshold,
        s.run_claims(claims).wf(),
    decreases claims.len(),
{
    if claims.len() > 0 {
        law_out_of_reach_never_finalizes(s, claims.drop_last(), event);
        let m = s.run_claims(claims.drop_last());
        lemma_submit_keeps_out_of_reach(m, claims.last(), event);
        lemma_submit_preserves_wf(m, claims.last());
    }
}

/// A reset to a target, applied twice, leaves what one reset leaves.
pub proof fn law_reset_idempotent(s: AggregatorView, target: u64)
    ensures
        s.reset(target).reset(target) == s.reset(target),
{
    let once = s.reset(target);
    let twice = once.reset(target);
    lemma_retain_members(s.attestations, target);
    lemma_retain_fixpoint(once.attestations, target);
    assert(twice.validators =~= once.validators);
}

/// Clearing the detector twice leaves what one clearing leaves.
pub proof fn law_clear_idempotent(d: DetectorView)
    ensures
        d.clear().clear() == d.clear(),
{
}

/// Applying a directive twice leaves what applying it once leaves, in the
/// aggregator and in the detector, and returns the same.
pub proof fn law_apply_reset_idempotent(
    directive: GovernanceResetDirective,
    s: AggregatorView,
    d: DetectorView,
)
    ensures
        directive.on_aggregator(directive.on_aggregator(s)) == directive.on_aggregator(s),
        directive.on_detector(directive.on_detector(d)) == directive.on_detector(d),
{
    law_reset_idempotent(s, directive.target_nonce);
    law_clear_idempotent(d);
}

/// A stall behind another validator is reported. Where the nonces `nonces`
/// are sampled at `first` and, unchanged, again at `second`, more than the
/// stall window later, and one of them is behind another, the second verdict
/// is Halted. No timer may lie in the future of the first sample.
pub proof fn law_stall_is_reported(
    d: DetectorView,
    nonces: Seq<u64>,
    conflict_first: bool,
    conflict_second: bool,
    first: u64,
    second: u64,
)
    requires
        forall|i: int| 0 <= i < d.timers.len() ==> (#[trigger] d.timers[i]).since <= first,
        second - first > d.stall_window,
        exists|i: int, j: int|
            0 <= i < nonces.len() && 0 <= j < nonces.len() && #[trigger] nonces[i]
                < #[trigger] nonces[j],
    ensures
        d.check(nonces, conflict_first, first).check(nonces, conflict_second, second).state
            == BridgeState::Halted,
{
    let (i, j) = choose|i: int, j: int|
        0 <= i < nonces.len() && 0 <= j < nonces.len() && #[trigger] nonces[i]
            < #[trigger] nonces[j];
    let m = d.check(nonces, conflict_first, first);
    let t = m.check(nonces, conflict_second, second);
    assert(m.timers[i].nonce == nonces[i] && m.timers[i].since <= first);
    assert(t.timers[i] == m.timers[i]);
    assert(t.timers[j].nonce == nonces[j]);
    assert(stalled(t.timers[i], second, d.stall_window) && t.timers[j].nonce > t.timers[i].nonce);
}

/// Where all validators stand at one nonce and nothing there is in conflict,
/// the verdict is Normal.
pub proof fn law_agreement_is_normal(d: DetectorView, nonces: Seq<u64>, now: u64)
    requires
        crate::halt::all_equal(nonces),
    ensures
        d.check(nonces, false, now).state == BridgeState::Normal,
{
    let t = d.check(nonces, false, now);
    if crate::halt::stalled_behind(t.timers, now, d.stall_window) {
        let (i, j) = choose|i: int, j: int|
            0 <= i < t.timers.len() && 0 <= j < t.timers.len() && stalled(
                #[trigger] t.timers[i],
                now,
                d.stall_window,
            ) && (#[trigger] t.timers[j]).nonce > t.timers[i].nonce;
        assert(nonces[i] == nonces[j]);
    }
}

} // verus!
