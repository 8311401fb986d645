use bridge_attestation::amount::Amount;
use bridge_attestation::claim::{
    false_claims, observation, Claim, Event, EventKind, Observation,
};
use bridge_attestation::governance::GovernanceResetDirective;
use bridge_attestation::pipeline::{ClaimSubmitter, EventObserver, Submission};
use bridge_attestation::proposal::{
    directive_from_params, quoted_nonce, read_bool, read_decimal, read_quoted,
    reset_changes_with, reset_param_changes, reset_proposal, voting_plan, ParamChange, YesVote,
};

fn event(nonce: u64, height: u64) -> Event {
    Event {
        nonce,
        block_height: height,
        kind: EventKind::BatchExecuted,
        token_contract: "0xtoken".to_string(),
        amount: Amount::from_u128(9),
        sender: "0xsender".to_string(),
        receiver: "gravity1receiver".to_string(),
    }
}

fn change(subspace: &str, key: &str, value: &str) -> ParamChange {
    ParamChange { subspace: subspace.to_string(), key: key.to_string(), value: value.to_string() }
}

fn nonces_of(events: &[Event]) -> Vec<u64> {
    events.iter().map(|e| e.nonce).collect()
}

#[test]
fn observer_hands_out_events_in_nonce_order() {
    let mut observer = EventObserver::new(40, 2);
    assert_eq!(observer.resume_height(), 40);
    assert_eq!(observer.last_nonce(), 2);
    let fetched = vec![event(2, 40), event(3, 41), event(5, 43), event(4, 42), event(5, 44)];
    let out = observer.deliver(&fetched);
    assert_eq!(nonces_of(&out), vec![3, 4, 5]);
    assert_eq!(out[2].block_height, 44);
    assert_eq!(observer.last_nonce(), 5);
    assert_eq!(observer.resume_height(), 44);
    let again = observer.deliver(&fetched);
    assert!(again.is_empty());
    assert_eq!(observer.last_nonce(), 5);
    assert_eq!(observer.resume_height(), 44);
    assert!(observer.deliver(&Vec::new()).is_empty());
}

#[test]
fn observer_stops_at_a_gap() {
    let mut observer = EventObserver::new(0, 0);
    let out = observer.deliver(&vec![event(1, 10), event(3, 12)]);
    assert_eq!(nonces_of(&out), vec![1]);
    assert_eq!(observer.last_nonce(), 1);
    assert_eq!(observer.resume_height(), 10);
    let mut last = EventObserver::new(0, u64::MAX);
    assert!(last.deliver(&vec![event(0, 1), event(u64::MAX, 2)]).is_empty());
}

#[test]
fn submitter_has_one_claim_on_its_way() {
    let mut submitter = ClaimSubmitter::new("val1".to_string(), 6);
    assert_eq!(submitter.last_accepted(), 6);
    assert!(!submitter.in_flight());
    assert!(matches!(submitter.offer(&event(8, 1)), Submission::OutOfTurn));
    assert!(matches!(submitter.offer(&event(6, 1)), Submission::OutOfTurn));
    assert!(!submitter.in_flight());
    match submitter.offer(&event(7, 1)) {
        Submission::Submit(Claim { event, orchestrator }) => {
            assert_eq!(event.nonce, 7);
            assert_eq!(event.kind, EventKind::BatchExecuted);
            assert_eq!(orchestrator, "val1");
        }
        other => panic!("no claim: {:?}", other),
    }
    assert!(submitter.in_flight());
    assert!(matches!(submitter.offer(&event(8, 1)), Submission::Busy));
    assert!(matches!(submitter.offer(&event(7, 1)), Submission::Busy));
    submitter.settle(true);
    assert_eq!(submitter.last_accepted(), 7);
    assert!(!submitter.in_flight());
    assert!(matches!(submitter.offer(&event(8, 1)), Submission::Submit(_)));
    submitter.settle(false);
    assert_eq!(submitter.last_accepted(), 7);
    assert!(matches!(submitter.offer(&event(8, 1)), Submission::Submit(_)));
}

#[test]
fn submitter_resyncs_only_when_idle() {
    let mut submitter = ClaimSubmitter::new("val1".to_string(), 6);
    submitter.settle(true);
    assert_eq!(submitter.last_accepted(), 6);
    assert!(matches!(submitter.offer(&event(7, 1)), Submission::Submit(_)));
    submitter.resync(3);
    assert_eq!(submitter.last_accepted(), 6);
    submitter.settle(true);
    submitter.resync(3);
    assert_eq!(submitter.last_accepted(), 3);
    assert!(matches!(submitter.offer(&event(4, 1)), Submission::Submit(_)));
    let mut top = ClaimSubmitter::new("val1".to_string(), u64::MAX);
    assert!(matches!(top.offer(&event(0, 1)), Submission::OutOfTurn));
}

#[test]
fn false_claims_skip_the_first_orchestrator() {
    let orchestrators = vec!["val1".to_string(), "val2".to_string(), "val3".to_string()];
    let claims = false_claims(
        &orchestrators,
        8,
        501,
        &"0xtoken".to_string(),
        &"0xuser".to_string(),
        &"gravity1user".to_string(),
    );
    assert_eq!(claims.len(), 2);
    assert_eq!(claims[0].orchestrator, "val2");
    assert_eq!(claims[1].orchestrator, "val3");
    assert!(claims[0].event.same_content(&claims[1].event));
    assert_eq!(claims[0].event.nonce, 8);
    assert_eq!(claims[0].event.block_height, 501);
    assert_eq!(claims[0].event.amount, Amount::from_u128(1_000_000_000_000_000_000));
    assert_eq!(claims[0].event.sender, "0xuser");
    assert_eq!(claims[0].event.receiver, "gravity1user");
    assert_eq!(claims[0].event.token_contract, "0xtoken");
    let none = false_claims(&Vec::new(), 8, 501, &String::new(), &String::new(), &String::new());
    assert!(none.is_empty());
}

#[test]
fn events_compare_by_every_field() {
    let base = event(3, 30);
    assert!(base.same_content(&base.duplicate()));
    assert!(!base.same_content(&event(4, 30)));
    assert!(!base.same_content(&event(3, 31)));
    let mut other = base.duplicate();
    other.kind = EventKind::ValsetUpdated;
    assert!(!base.same_content(&other));
    let mut other = base.duplicate();
    other.token_contract = "0xother".to_string();
    assert!(!base.same_content(&other));
    let mut other = base.duplicate();
    other.amount = Amount { hi: 1, lo: 9 };
    assert!(!base.same_content(&other));
    let mut other = base.duplicate();
    other.sender = "0xother".to_string();
    assert!(!base.same_content(&other));
    let mut other = base.duplicate();
    other.receiver = "gravity1other".to_string();
    assert!(!base.same_content(&other));
}

#[test]
fn attestations_of_other_kinds_are_shown_raw() {
    let deposit = "/gravity.v1.MsgSendToCosmosClaim".to_string();
    let batch = "/gravity.v1.MsgBatchSendToEthClaim".to_string();
    assert_eq!(observation(true, &deposit), Observation::Decode);
    assert_eq!(observation(true, &batch), Observation::ShowRaw);
    assert_eq!(observation(false, &deposit), Observation::Decode);
    assert_eq!(observation(false, &batch), Observation::Decode);
}

#[test]
fn nonce_is_written_in_quotes() {
    assert_eq!(quoted_nonce(0), "\"0\"");
    assert_eq!(quoted_nonce(7), "\"7\"");
    assert_eq!(quoted_nonce(10), "\"10\"");
    assert_eq!(quoted_nonce(1234567890), "\"1234567890\"");
    assert_eq!(quoted_nonce(u64::MAX), "\"18446744073709551615\"");
}

#[test]
fn reset_changes_name_both_parameters() {
    let changes = reset_param_changes(42).unwrap();
    assert_eq!(changes.len(), 2);
    assert_eq!(changes[0].subspace, "gravity");
    assert_eq!(changes[0].key, "ResetBridgeState");
    assert_eq!(changes[0].value, "true");
    assert_eq!(changes[1].subspace, "gravity");
    assert_eq!(changes[1].key, "ResetBridgeNonce");
    assert_eq!(changes[1].value, "\"42\"");
    let with = reset_changes_with("false".to_string(), 1);
    assert_eq!(with[0].value, "false");
    assert_eq!(with[1].value, "\"1\"");
}

#[test]
fn reset_proposal_carries_the_changes() {
    let proposal = reset_proposal(9).unwrap();
    assert_eq!(proposal.title, "Reset Bridge State");
    assert_eq!(
        proposal.description,
        "Test resetting bridge state to before things were messed up"
    );
    assert_eq!(proposal.changes.len(), 2);
    assert_eq!(proposal.changes[1].value, "\"9\"");
}

#[test]
fn decimals_are_read_strictly() {
    assert_eq!(read_decimal("0"), Some(0));
    assert_eq!(read_decimal("42"), Some(42));
    assert_eq!(read_decimal("007"), Some(7));
    assert_eq!(read_decimal("18446744073709551615"), Some(u64::MAX));
    assert_eq!(read_decimal("18446744073709551616"), None);
    assert_eq!(read_decimal("99999999999999999999999"), None);
    assert_eq!(read_decimal(""), None);
    assert_eq!(read_decimal("4 2"), None);
    assert_eq!(read_decimal("-1"), None);
    assert_eq!(read_decimal("12a"), None);
    assert_eq!(read_decimal("١٢"), None);
}

#[test]
fn quoted_numbers_need_both_quotes() {
    assert_eq!(read_quoted("\"42\""), Some(42));
    assert_eq!(read_quoted("42"), None);
    assert_eq!(read_quoted("\"42"), None);
    assert_eq!(read_quoted("42\""), None);
    assert_eq!(read_quoted("\"\""), None);
    assert_eq!(read_quoted("\""), None);
    assert_eq!(read_quoted(""), None);
    assert_eq!(read_quoted("\"4\"2\""), None);
}

#[test]
fn truth_values_are_read_as_json_writes_them() {
    assert_eq!(read_bool(&"true".to_string()), Some(true));
    assert_eq!(read_bool(&"false".to_string()), Some(false));
    assert_eq!(read_bool(&"True".to_string()), None);
    assert_eq!(read_bool(&"".to_string()), None);
    assert_eq!(read_bool(&"\"true\"".to_string()), None);
}

#[test]
fn directive_is_read_back_from_what_was_written() {
    for nonce in [0, 7, 1_000_000, u64::MAX] {
        let changes = reset_param_changes(nonce).unwrap();
        assert_eq!(
            directive_from_params(&changes, true),
            Some(GovernanceResetDirective { target_nonce: nonce, reset: true, approved: true })
        );
        assert_eq!(
            directive_from_params(&changes, false),
            Some(GovernanceResetDirective { target_nonce: nonce, reset: true, approved: false })
        );
    }
}

#[test]
fn directive_needs_both_parameters_well_written() {
    let state = || change("gravity", "ResetBridgeState", "true");
    let nonce = || change("gravity", "ResetBridgeNonce", "\"5\"");
    assert_eq!(directive_from_params(&vec![], true), None);
    assert_eq!(directive_from_params(&vec![state()], true), None);
    assert_eq!(directive_from_params(&vec![nonce()], true), None);
    assert_eq!(
        directive_from_params(&vec![nonce(), state()], true),
        Some(GovernanceResetDirective { target_nonce: 5, reset: true, approved: true })
    );
    assert_eq!(
        directive_from_params(&vec![change("staking", "ResetBridgeState", "true"), nonce()], true),
        None
    );
    assert_eq!(
        directive_from_params(&vec![change("gravity", "ResetBridgeState", "yes"), nonce()], true),
        None
    );
    assert_eq!(
        directive_from_params(&vec![state(), change("gravity", "ResetBridgeNonce", "5")], true),
        None
    );
    assert_eq!(
        directive_from_params(
            &vec![change("gravity", "ResetBridgeState", "false"), nonce()],
            true
        ),
        Some(GovernanceResetDirective { target_nonce: 5, reset: false, approved: true })
    );
}

#[test]
fn later_changes_override_earlier_ones() {
    let changes = vec![
        change("gravity", "ResetBridgeNonce", "\"5\""),
        change("gravity", "ResetBridgeState", "false"),
        change("other", "ResetBridgeNonce", "\"6\""),
        change("gravity", "ResetBridgeNonce", "\"7\""),
        change("gravity", "ResetBridgeState", "true"),
        change("gravity", "SignedBatchesWindow", "\"8\""),
    ];
    assert_eq!(
        directive_from_params(&changes, true),
        Some(GovernanceResetDirective { target_nonce: 7, reset: true, approved: true })
    );
}

#[test]
fn every_validator_votes_on_every_proposal() {
    assert_eq!(
        voting_plan(&vec![11, 12], 3),
        vec![
            YesVote { proposal: 11, validator: 0 },
            YesVote { proposal: 11, validator: 1 },
            YesVote { proposal: 11, validator: 2 },
            YesVote { proposal: 12, validator: 0 },
            YesVote { proposal: 12, validator: 1 },
            YesVote { proposal: 12, validator: 2 },
        ]
    );
    assert_eq!(voting_plan(&vec![], 3), vec![]);
    assert_eq!(voting_plan(&vec![11, 12], 0), vec![]);
}

#[test]
fn writing_a_reset_succeeds_for_every_nonce() {
    for nonce in [0, 1, 42, u64::MAX] {
        assert!(reset_param_changes(nonce).is_ok());
        assert!(reset_proposal(nonce).is_ok());
    }
}
