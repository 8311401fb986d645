use bridge_attestation::aggregator::{AttestationAggregator, Validator};
use bridge_attestation::amount::Amount;
use bridge_attestation::claim::{create_claim, Claim, Event, EventKind, ONE_ETH};
use bridge_attestation::governance::{apply_reset, GovernanceResetDirective, ResetError};
use bridge_attestation::halt::{BridgeHaltDetector, BridgeState};
use bridge_attestation::model::ClaimError;

const TOKEN: &str = "0x0412C7c846bb6b7DC462CF6B453f76D8440b2609";
const USER_ETH: &str = "0xBf660843528035a5A4921534E156a27e64B231fE";
const USER_COSMOS: &str = "gravity1hanqss6jsq66tfyjz56wz44z0ejtyv0724h32c";

fn validators(start: u64, powers: &[u64]) -> Vec<Validator> {
    powers
        .iter()
        .enumerate()
        .map(|(i, p)| Validator { address: format!("val{}", i + 1), power: *p, last_nonce: start })
        .collect()
}

fn deposit(nonce: u64, height: u64, amount: u128, orchestrator: &str) -> Claim {
    Claim {
        event: Event {
            nonce,
            block_height: height,
            kind: EventKind::Deposit,
            token_contract: TOKEN.to_string(),
            amount: Amount::from_u128(amount),
            sender: USER_ETH.to_string(),
            receiver: USER_COSMOS.to_string(),
        },
        orchestrator: orchestrator.to_string(),
    }
}

fn false_claim(nonce: u64, height: u64, orchestrator: &str) -> Claim {
    create_claim(
        nonce,
        height,
        TOKEN.to_string(),
        USER_ETH.to_string(),
        USER_COSMOS.to_string(),
        orchestrator.to_string(),
    )
}

#[test]
fn create_claim_is_a_deposit_of_one_ether() {
    let claim = false_claim(8, 120, "val2");
    assert_eq!(claim.event.nonce, 8);
    assert_eq!(claim.event.block_height, 120);
    assert_eq!(claim.event.kind, EventKind::Deposit);
    assert_eq!(claim.event.token_contract, TOKEN);
    assert_eq!(claim.event.amount, Amount { hi: 0, lo: 1_000_000_000_000_000_000 });
    assert_eq!(ONE_ETH, 1_000_000_000_000_000_000);
    assert_eq!(claim.event.sender, USER_ETH);
    assert_eq!(claim.event.receiver, USER_COSMOS);
    assert_eq!(claim.orchestrator, "val2");
}

#[test]
fn default_threshold_is_more_than_two_thirds() {
    assert_eq!(AttestationAggregator::new(validators(0, &[100, 100, 100])).threshold(), 201);
    assert_eq!(AttestationAggregator::new(validators(0, &[1, 1, 1])).threshold(), 3);
    assert_eq!(AttestationAggregator::new(validators(0, &[1, 1, 1, 1])).threshold(), 3);
    assert_eq!(AttestationAggregator::new(validators(0, &[2, 2, 1])).threshold(), 4);
    assert_eq!(AttestationAggregator::new(validators(0, &[])).threshold(), 1);
    assert_eq!(
        AttestationAggregator::new(validators(0, &[u64::MAX, u64::MAX, u64::MAX])).threshold(),
        2 * (u64::MAX as u128) + 1
    );
    assert_eq!(AttestationAggregator::new(validators(0, &[100, 100, 100])).total_power(), 300);
    assert_eq!(AttestationAggregator::with_threshold(validators(0, &[5, 5]), 7).threshold(), 7);
}

#[test]
fn accepted_nonces_count_up_without_gaps() {
    let mut agg = AttestationAggregator::new(validators(0, &[100, 100, 100]));
    let v1 = "val1".to_string();
    assert_eq!(agg.last_event_nonce_for_validator(&v1), Some(0));
    assert_eq!(agg.submit_claim(deposit(2, 10, 5, "val1")), Err(ClaimError::NonceGap));
    assert_eq!(agg.submit_claim(deposit(0, 10, 5, "val1")), Err(ClaimError::NonceGap));
    assert_eq!(agg.last_event_nonce_for_validator(&v1), Some(0));
    assert_eq!(agg.attestation_count(), 0);
    assert_eq!(agg.submit_claim(deposit(1, 10, 5, "val1")), Ok(()));
    assert_eq!(agg.last_event_nonce_for_validator(&v1), Some(1));
    assert_eq!(agg.submit_claim(deposit(1, 10, 5, "val1")), Err(ClaimError::NonceGap));
    assert_eq!(agg.submit_claim(deposit(3, 12, 5, "val1")), Err(ClaimError::NonceGap));
    assert_eq!(agg.submit_claim(deposit(2, 11, 5, "val1")), Ok(()));
    assert_eq!(agg.submit_claim(deposit(3, 12, 5, "val1")), Ok(()));
    assert_eq!(agg.nonces(), vec![3, 0, 0]);
}

#[test]
fn unknown_submitter_is_unauthorized() {
    let mut agg = AttestationAggregator::new(validators(0, &[100, 100, 100]));
    assert_eq!(agg.submit_claim(deposit(1, 10, 5, "val9")), Err(ClaimError::Unauthorized));
    assert_eq!(agg.nonces(), vec![0, 0, 0]);
    assert_eq!(agg.attestation_count(), 0);
    assert_eq!(agg.last_event_nonce_for_validator(&"val9".to_string()), None);
    assert_eq!(agg.find_validator(&"val2".to_string()), Some(1));
    assert_eq!(agg.find_validator(&"val9".to_string()), None);
}

#[test]
fn nonce_at_the_top_of_the_range_has_no_successor() {
    let mut agg = AttestationAggregator::new(validators(u64::MAX, &[100]));
    assert_eq!(agg.submit_claim(deposit(0, 10, 5, "val1")), Err(ClaimError::NonceGap));
    assert_eq!(agg.submit_claim(deposit(u64::MAX, 10, 5, "val1")), Err(ClaimError::NonceGap));
    assert_eq!(agg.nonces(), vec![u64::MAX]);
}

#[test]
fn matching_claims_finalize_at_the_threshold() {
    let mut agg = AttestationAggregator::new(validators(4, &[100, 100, 100]));
    assert_eq!(agg.submit_claim(deposit(5, 10, 1_000_000, "val1")), Ok(()));
    assert_eq!(agg.attestation_count(), 1);
    assert_eq!(agg.power_of(0), 100);
    assert!(!agg.attestation(0).finalized);
    assert_eq!(agg.submit_claim(deposit(5, 10, 1_000_000, "val3")), Ok(()));
    assert_eq!(agg.power_of(0), 200);
    assert!(!agg.attestation(0).finalized);
    assert!(!agg.nonce_is_finalized(5));
    assert_eq!(agg.submit_claim(deposit(5, 10, 1_000_000, "val2")), Ok(()));
    assert_eq!(agg.attestation_count(), 1);
    assert_eq!(agg.power_of(0), 300);
    assert!(agg.attestation(0).finalized);
    assert_eq!(agg.attestation(0).votes, vec![true, true, true]);
    assert!(agg.nonce_is_finalized(5));
    assert!(!agg.nonce_is_finalized(6));
    assert_eq!(agg.nonces(), vec![5, 5, 5]);
    assert_eq!(agg.find_attestation(&deposit(5, 10, 1_000_000, "x").event), Some(0));
    assert_eq!(agg.find_attestation(&deposit(5, 10, 1_000_001, "x").event), None);
}

#[test]
fn a_heavy_validator_finalizes_alone() {
    let mut agg = AttestationAggregator::new(validators(0, &[70, 10, 20]));
    assert_eq!(agg.threshold(), 67);
    assert_eq!(agg.submit_claim(deposit(1, 10, 9, "val1")), Ok(()));
    assert!(agg.attestation(0).finalized);
    assert_eq!(agg.attestation(0).votes, vec![true, false, false]);
    assert_eq!(agg.submit_claim(deposit(1, 10, 9, "val2")), Ok(()));
    assert!(agg.attestation(0).finalized);
    assert_eq!(agg.power_of(0), 80);
}

#[test]
fn conflicting_claims_finalize_neither_below_the_threshold() {
    let mut agg = AttestationAggregator::new(validators(0, &[100, 100, 100]));
    assert_eq!(agg.submit_claim(deposit(1, 10, 5, "val1")), Ok(()));
    assert!(!agg.has_conflict_at(1));
    assert_eq!(agg.submit_claim(deposit(1, 10, 6, "val2")), Ok(()));
    assert_eq!(agg.attestation_count(), 2);
    assert!(!agg.attestation(0).finalized);
    assert!(!agg.attestation(1).finalized);
    assert!(agg.has_conflict_at(1));
    assert!(!agg.has_conflict_at(2));
    assert_eq!(agg.attestations_at(1), vec![0, 1]);
    assert_eq!(agg.attestations_at(2), Vec::<usize>::new());
    assert_eq!(agg.submit_claim(deposit(1, 10, 6, "val3")), Ok(()));
    assert_eq!(agg.power_of(0), 100);
    assert_eq!(agg.power_of(1), 200);
    assert!(!agg.attestation(0).finalized);
    assert!(!agg.attestation(1).finalized);
    assert!(!agg.nonce_is_finalized(1));
    assert_eq!(agg.nonces(), vec![1, 1, 1]);
}

#[test]
fn one_finalized_event_per_nonce() {
    let mut agg = AttestationAggregator::with_threshold(validators(0, &[100, 100, 100]), 100);
    assert_eq!(agg.submit_claim(deposit(1, 10, 5, "val1")), Ok(()));
    assert!(agg.attestation(0).finalized);
    assert_eq!(agg.submit_claim(deposit(1, 10, 6, "val2")), Ok(()));
    assert_eq!(agg.submit_claim(deposit(1, 10, 6, "val3")), Ok(()));
    assert_eq!(agg.power_of(1), 200);
    assert!(agg.attestation(0).finalized);
    assert!(!agg.attestation(1).finalized);
    assert!(agg.has_conflict_at(1));
}

#[test]
fn false_claims_by_two_of_three_halt_the_bridge() {
    let n = 7;
    let mut agg = AttestationAggregator::new(validators(n, &[100, 100, 100]));
    let mut detector = BridgeHaltDetector::new(20);
    assert_eq!(detector.observe(&agg, 1000), BridgeState::Normal);
    assert_eq!(agg.submit_claim(false_claim(n + 1, 501, "val2")), Ok(()));
    assert_eq!(agg.submit_claim(false_claim(n + 1, 501, "val3")), Ok(()));
    assert_eq!(agg.nonces(), vec![n, n + 1, n + 1]);
    assert_eq!(agg.power_of(0), 200);
    assert!(!agg.attestation(0).finalized);
    // Whatever is claimed from here on, the true deposit is out of reach.
    let legitimate = deposit(n + 1, 502, 100_000_000_000_000_000, "val1").event;
    assert_eq!(agg.reachable_power(&legitimate), 100);
    assert!(agg.reachable_power(&legitimate) < agg.threshold());
    assert_eq!(detector.observe(&agg, 1005), BridgeState::Normal);
    assert_eq!(detector.observe(&agg, 1020), BridgeState::Normal);
    assert_eq!(detector.observe(&agg, 1021), BridgeState::Halted);
    assert_eq!(detector.state(), BridgeState::Halted);
    // The honest validator's claim of the true deposit cannot settle the nonce.
    assert_eq!(agg.submit_claim(deposit(n + 1, 502, 100_000_000_000_000_000, "val1")), Ok(()));
    assert_eq!(agg.nonces(), vec![n + 1, n + 1, n + 1]);
    assert!(!agg.nonce_is_finalized(n + 1));
    assert!(agg.has_conflict_at(n + 1));
    assert_eq!(detector.observe(&agg, 1030), BridgeState::Halted);
}

#[test]
fn reset_realigns_and_the_next_deposit_finalizes() {
    let n = 7;
    let mut agg = AttestationAggregator::new(validators(n, &[100, 100, 100]));
    let mut detector = BridgeHaltDetector::new(20);
    assert_eq!(detector.observe(&agg, 1000), BridgeState::Normal);
    assert_eq!(agg.submit_claim(false_claim(n + 1, 501, "val2")), Ok(()));
    assert_eq!(agg.submit_claim(false_claim(n + 1, 501, "val3")), Ok(()));
    assert_eq!(detector.observe(&agg, 1001), BridgeState::Normal);
    assert_eq!(detector.observe(&agg, 1031), BridgeState::Halted);
    let directive = GovernanceResetDirective { target_nonce: n, reset: true, approved: true };
    assert_eq!(apply_reset(&directive, &mut agg, &mut detector), Ok(()));
    assert_eq!(agg.nonces(), vec![n, n, n]);
    assert_eq!(agg.attestation_count(), 0);
    assert_eq!(detector.state(), BridgeState::Normal);
    assert_eq!(detector.observe(&agg, 1032), BridgeState::Normal);
    for v in ["val1", "val2", "val3"] {
        assert_eq!(agg.submit_claim(deposit(n + 1, 502, 50_000_000_000_000_000, v)), Ok(()));
    }
    assert_eq!(agg.attestation_count(), 1);
    assert!(agg.attestation(0).finalized);
    assert!(agg.nonce_is_finalized(n + 1));
    assert_eq!(agg.nonces(), vec![n + 1, n + 1, n + 1]);
    assert_eq!(detector.observe(&agg, 1100), BridgeState::Normal);
}

#[test]
fn reset_twice_is_reset_once() {
    let mut agg = AttestationAggregator::new(validators(0, &[100, 100, 100]));
    let mut detector = BridgeHaltDetector::new(5);
    for v in ["val1", "val2", "val3"] {
        assert_eq!(agg.submit_claim(deposit(1, 10, 5, v)), Ok(()));
    }
    assert_eq!(agg.submit_claim(deposit(2, 11, 5, "val1")), Ok(()));
    assert_eq!(agg.submit_claim(deposit(2, 11, 6, "val2")), Ok(()));
    assert_eq!(agg.submit_claim(deposit(3, 12, 6, "val2")), Ok(()));
    assert_eq!(agg.attestation_count(), 4);
    let directive = GovernanceResetDirective { target_nonce: 2, reset: true, approved: true };
    assert_eq!(apply_reset(&directive, &mut agg, &mut detector), Ok(()));
    let once = format!("{:?} {:?}", agg, detector);
    assert_eq!(agg.nonces(), vec![2, 2, 2]);
    assert_eq!(agg.attestation_count(), 1);
    assert!(agg.attestation(0).finalized);
    assert_eq!(agg.attestation(0).event.nonce, 1);
    assert_eq!(apply_reset(&directive, &mut agg, &mut detector), Ok(()));
    assert_eq!(format!("{:?} {:?}", agg, detector), once);
}

#[test]
fn reset_keeps_finalized_and_lower_attestations() {
    let mut agg = AttestationAggregator::new(validators(0, &[100, 100, 100]));
    let mut detector = BridgeHaltDetector::new(5);
    assert_eq!(agg.submit_claim(deposit(1, 10, 5, "val1")), Ok(()));
    assert_eq!(agg.submit_claim(deposit(2, 11, 5, "val1")), Ok(()));
    for v in ["val1", "val2", "val3"] {
        assert_eq!(agg.submit_claim(deposit(if v == "val1" { 3 } else { 1 }, 12, 7, v)), Ok(()));
    }
    // attestations: (1, amount 5) open, (2, amount 5) open, (3, amount 7) open, (1, amount 7) open
    assert_eq!(agg.attestation_count(), 4);
    let directive = GovernanceResetDirective { target_nonce: 2, reset: true, approved: true };
    assert_eq!(apply_reset(&directive, &mut agg, &mut detector), Ok(()));
    assert_eq!(agg.attestation_count(), 2);
    assert_eq!(agg.attestation(0).event.amount, Amount::from_u128(5));
    assert_eq!(agg.attestation(0).event.nonce, 1);
    assert_eq!(agg.attestation(1).event.amount, Amount::from_u128(7));
    assert_eq!(agg.attestation(1).event.nonce, 1);
    assert_eq!(agg.nonces(), vec![2, 2, 2]);
}

#[test]
fn unapproved_directive_is_refused_without_effect() {
    let mut agg = AttestationAggregator::new(validators(3, &[100, 100, 100]));
    let mut detector = BridgeHaltDetector::new(5);
    assert_eq!(agg.submit_claim(deposit(4, 10, 5, "val2")), Ok(()));
    assert_eq!(detector.observe(&agg, 10), BridgeState::Normal);
    assert_eq!(detector.observe(&agg, 20), BridgeState::Halted);
    let before = format!("{:?} {:?}", agg, detector);
    let directive = GovernanceResetDirective { target_nonce: 3, reset: true, approved: false };
    assert_eq!(apply_reset(&directive, &mut agg, &mut detector), Err(ResetError::Unauthorized));
    assert_eq!(format!("{:?} {:?}", agg, detector), before);
    let idle = GovernanceResetDirective { target_nonce: 3, reset: false, approved: true };
    assert_eq!(apply_reset(&idle, &mut agg, &mut detector), Ok(()));
    assert_eq!(format!("{:?} {:?}", agg, detector), before);
}

#[test]
fn the_threshold_itself_is_enough_and_one_less_is_not() {
    let mut at = AttestationAggregator::new(validators(0, &[67, 33]));
    assert_eq!(at.threshold(), 67);
    assert_eq!(at.submit_claim(deposit(1, 10, 5, "val1")), Ok(()));
    assert_eq!(at.power_of(0), 67);
    assert!(at.attestation(0).finalized);
    let mut below = AttestationAggregator::new(validators(0, &[66, 34]));
    assert_eq!(below.threshold(), 67);
    assert_eq!(below.submit_claim(deposit(1, 10, 5, "val1")), Ok(()));
    assert_eq!(below.power_of(0), 66);
    assert!(!below.attestation(0).finalized);
    assert_eq!(below.submit_claim(deposit(1, 10, 5, "val2")), Ok(()));
    assert!(below.attestation(0).finalized);
}
