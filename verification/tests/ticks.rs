use validator_worker::adapter::dummy::DummyAdapter;
use validator_worker::primitives::adapter::{Adapter, AdapterError, DummyAdapterOptions, Session};
use validator_worker::primitives::balances_map::BalancesMap;
use validator_worker::primitives::big_num::BigNum;
use validator_worker::primitives::channel::{
    Channel, ChannelId, ChannelSpec, Role, SpecValidators, ValidatorDesc,
};
use validator_worker::primitives::config::Config;
use validator_worker::primitives::encoding::to_hex;
use validator_worker::primitives::error::DomainError;
use validator_worker::primitives::sentry::{
    AggregateEvents, EventAggregate, LastApproved, LastApprovedResponse,
};
use validator_worker::primitives::string_map::StringMap;
use validator_worker::primitives::validator::{
    Accounting, ApproveState, Heartbeat, MessageTypes, NewState, RejectState,
};
use validator_worker::worker::channels::{
    accepted, channel_verdicts, select_channels, tick_role, valid_channels,
};
use validator_worker::worker::error::{TickError, ValidatorWorker};
use validator_worker::worker::follower::{
    approve_message, approve_state_result, assess, check_proposal, judge_proposal,
    latest_is_responded_to, new_state_of, next_action, on_error, previous_balances, reason,
    reject_message, responded_root, root_hash_check, signature_verdict, Action,
    ApproveStateResult, Assessment, Integrity, InvalidNewState, Known, Verdict,
};
use validator_worker::worker::heartbeat::{heartbeat, heartbeat_message, heartbeat_state_root};
use validator_worker::worker::leader::{
    new_state_message, new_state_result, on_new_accounting, on_producer_tick, state_root_hex,
    NewStateResult,
};
use validator_worker::worker::producer::{
    accounting_message, accounting_of, on_aggregates, TickStatus,
};
use validator_worker::worker::sentry_interface::PropagationResult;
use validator_worker::worker::state_root::get_state_root_hash;

/// An adapter that refuses everything.
struct Locked;

impl Adapter for Locked {
    fn whoami(&self) -> String {
        "locked".to_string()
    }
    fn unlock(&mut self) -> Result<(), AdapterError> {
        Err(AdapterError::LockedWallet)
    }
    fn sign(&self, _state_root: &str) -> Result<String, AdapterError> {
        Err(AdapterError::LockedWallet)
    }
    fn verify(&self, _: &str, _: &str, _: &str) -> Result<bool, AdapterError> {
        Err(AdapterError::Signature("cannot verify".to_string()))
    }
    fn validate_channel(&self, channel: &Channel) -> Result<bool, AdapterError> {
        if channel.creator == "bad" {
            Err(AdapterError::InvalidChannel("bad creator".to_string()))
        } else {
            Ok(channel.creator == "good")
        }
    }
    fn session_from_token(&self, _token: &str) -> Result<Session, AdapterError> {
        Err(AdapterError::Authentication("no sessions".to_string()))
    }
    fn get_auth(&self, _validator_id: &str) -> Result<String, AdapterError> {
        Err(AdapterError::Authentication("no tokens".to_string()))
    }
}

fn config() -> Config {
    Config {
        max_channels: 512,
        wait_time: 40,
        heartbeat_time: 30_000,
        health_threshold_promilles: 950,
        health_unsignable_promilles: 750,
        propagation_timeout: 1,
        fetch_timeout: 5,
        validator_tick_timeout: 5,
    }
}

fn adapter(identity: &str) -> DummyAdapter {
    DummyAdapter::init(
        DummyAdapterOptions {
            dummy_identity: identity.to_string(),
            dummy_auth_tokens: StringMap::new(),
            dummy_auth: StringMap::new(),
        },
        &config(),
    )
}

fn channel_by(creator: &str) -> Channel {
    let validator = |id: &str, url: &str| ValidatorDesc {
        id: id.to_string(),
        url: url.to_string(),
        fee: BigNum::from_u64(50),
    };
    Channel {
        id: ChannelId { bytes: [7u8; 32] },
        creator: creator.to_string(),
        deposit_asset: "DAI".to_string(),
        deposit_amount: BigNum::from_u64(10_000),
        valid_until: 4_102_444_800_000,
        spec: ChannelSpec {
            validators: SpecValidators::new(
                validator("leader", "http://localhost:8005"),
                validator("follower", "http://localhost:8006"),
            ),
        },
    }
}

fn channel() -> Channel {
    channel_by("good")
}

fn balances(entries: &[(&str, u64)]) -> BalancesMap {
    let mut map = BalancesMap::new();
    for (key, amount) in entries {
        map.set(key.to_string(), BigNum::from_u64(*amount));
    }
    map
}

fn entries(map: &BalancesMap) -> Vec<(String, u64)> {
    (0..map.len())
        .map(|i| (map.key_at(i).clone(), map.amount_at(i).to_u64().expect("fits")))
        .collect()
}

fn root_of(map: &BalancesMap) -> String {
    to_hex(&get_state_root_hash(&channel(), map).expect("hashes"))
}

fn proposal(list: &[(&str, u64)]) -> NewState {
    let map = balances(list);
    let state_root = root_of(&map);
    let signature = adapter("leader").sign(&state_root).expect("signs");
    NewState { state_root, signature, balances: map }
}

fn aggregate(created: i64, payouts: &[(&str, u64)]) -> EventAggregate {
    let mut events = StringMap::new();
    events.insert(
        "IMPRESSION".to_string(),
        AggregateEvents { event_counts: balances(&[]), event_payouts: balances(payouts) },
    );
    EventAggregate { channel_id: ChannelId { bytes: [7u8; 32] }, created, events }
}

#[test]
fn producer_starts_from_the_stored_accounting() {
    let stored = Accounting {
        last_event_aggregate: 77,
        balances_before_fees: balances(&[("a", 1)]),
        balances: balances(&[("a", 1)]),
    };
    let a = accounting_of(Some(MessageTypes::Accounting(stored)));
    assert_eq!(a.last_event_aggregate, 77);
    assert_eq!(entries(&a.balances_before_fees), vec![("a".to_string(), 1)]);
    let a = accounting_of(None);
    assert_eq!((a.last_event_aggregate, a.balances_before_fees.len(), a.balances.len()), (0, 0, 0));
    let a = accounting_of(Some(MessageTypes::Heartbeat(Heartbeat::new_at(
        "s".to_string(),
        "r".to_string(),
        5,
    ))));
    assert_eq!((a.last_event_aggregate, a.balances_before_fees.len()), (0, 0));
}

#[test]
fn producer_without_aggregates_changes_nothing() {
    let accounting = Accounting {
        last_event_aggregate: 77,
        balances_before_fees: balances(&[("a", 100)]),
        balances: balances(&[("a", 99)]),
    };
    match on_aggregates(&accounting, &[], &channel()).expect("ticks") {
        TickStatus::NoNewEventAggr(b) => assert_eq!(entries(&b), vec![("a".to_string(), 99)]),
        TickStatus::Sent { .. } => panic!("nothing was to be sent"),
    }
}

#[test]
fn producer_merges_new_aggregates() {
    let accounting = Accounting {
        last_event_aggregate: 77,
        balances_before_fees: balances(&[("a", 100), ("b", 200)]),
        balances: BalancesMap::new(),
    };
    let tick = on_aggregates(&accounting, &[aggregate(88, &[("a", 50)])], &channel()).expect("ticks");
    assert_eq!(tick.get_balances().get("a").to_u64(), Some(148));
    assert_eq!(tick.get_balances().get("b").to_u64(), Some(198));
    assert_eq!(tick.get_balances().get("leader").to_u64(), Some(2));
    assert_eq!(tick.get_balances().get("follower").to_u64(), Some(2));
    match tick {
        TickStatus::Sent { balances, new_accounting } => {
            assert_eq!(new_accounting.last_event_aggregate, 88);
            assert_eq!(new_accounting.balances_before_fees.get("a").to_u64(), Some(150));
            assert_eq!(balances.total().to_u64(), Some(350));
            match accounting_message(&new_accounting) {
                MessageTypes::Accounting(a) => {
                    assert_eq!(a.last_event_aggregate, 88);
                    assert_eq!(entries(&a.balances), entries(&balances));
                }
                _ => panic!("an accounting was to be stored"),
            }
        }
        TickStatus::NoNewEventAggr(_) => panic!("the aggregate was to be merged"),
    }
}

#[test]
fn producer_fails_as_the_merge_does() {
    let accounting = Accounting {
        last_event_aggregate: 0,
        balances_before_fees: balances(&[("a", 10_001)]),
        balances: BalancesMap::new(),
    };
    let r = on_aggregates(&accounting, &[aggregate(1, &[])], &channel());
    assert!(matches!(r, Err(DomainError::RuleViolation(_))));
}

#[test]
fn leader_proposes_after_a_new_accounting() {
    let after = balances(&[("a", 148), ("b", 197)]);
    let new_accounting = Accounting {
        last_event_aggregate: 1,
        balances_before_fees: balances(&[("a", 150), ("b", 200)]),
        balances: after.clone(),
    };
    let message =
        on_new_accounting(&adapter("leader"), &channel(), &after, &new_accounting).expect("proposes");
    match message {
        MessageTypes::NewState(s) => {
            assert_eq!(s.state_root, root_of(&after));
            assert_eq!(s.state_root.len(), 64);
            assert_eq!(s.signature, format!("Dummy adapter signature for {} by leader", s.state_root));
            assert_eq!(entries(&s.balances), entries(&after));
        }
        _ => panic!("a new state was to be proposed"),
    }
}

#[test]
fn leader_sends_nothing_without_news() {
    let tick = TickStatus::NoNewEventAggr(balances(&[("a", 1)]));
    assert!(on_producer_tick(&adapter("leader"), &channel(), &tick).expect("ticks").is_none());
    let tick = TickStatus::Sent {
        balances: balances(&[("a", 1)]),
        new_accounting: Accounting {
            last_event_aggregate: 1,
            balances_before_fees: balances(&[("a", 1)]),
            balances: balances(&[("a", 1)]),
        },
    };
    let sent = on_producer_tick(&adapter("leader"), &channel(), &tick).expect("ticks");
    assert!(matches!(sent, Some(MessageTypes::NewState(_))));
}

#[test]
fn leader_fails_before_signing_what_cannot_be_hashed() {
    let long = "x".repeat(40);
    let after = balances(&[(long.as_str(), 1)]);
    let new_accounting = Accounting {
        last_event_aggregate: 1,
        balances_before_fees: after.clone(),
        balances: after.clone(),
    };
    let r = on_new_accounting(&adapter("leader"), &channel(), &after, &new_accounting);
    assert!(matches!(r, Err(TickError::Domain(DomainError::InvalidArgument(_)))));
    assert!(state_root_hex(&channel(), &after).is_err());
}

#[test]
fn leader_passes_the_refusal_of_the_adapter_on() {
    let after = balances(&[("a", 1)]);
    let new_accounting = Accounting {
        last_event_aggregate: 1,
        balances_before_fees: after.clone(),
        balances: after.clone(),
    };
    let r = on_new_accounting(&Locked, &channel(), &after, &new_accounting);
    assert!(matches!(r, Err(TickError::Adapter(AdapterError::LockedWallet))));
    let r = new_state_message("r".to_string(), Err(AdapterError::LockedWallet), &after);
    assert!(matches!(r, Err(TickError::Adapter(AdapterError::LockedWallet))));
    let r = new_state_message("r".to_string(), Ok("s".to_string()), &after).expect("made");
    assert!(matches!(r, MessageTypes::NewState(s) if s.state_root == "r" && s.signature == "s"));
}

#[test]
fn new_state_result_tells_sent_from_not_sent() {
    assert!(matches!(new_state_result(None), NewStateResult::NotSent));
    let results = vec![PropagationResult::Delivered("leader".to_string())];
    assert!(matches!(new_state_result(Some(results)), NewStateResult::Sent(r) if r.len() == 1));
}

#[test]
fn follower_reads_the_latest_messages() {
    let s = proposal(&[("a", 1)]);
    let root = s.state_root.clone();
    assert!(new_state_of(None).is_none());
    assert!(new_state_of(Some(MessageTypes::Heartbeat(Heartbeat::new_at(
        "s".to_string(),
        "r".to_string(),
        5
    ))))
    .is_none());
    let read = new_state_of(Some(MessageTypes::NewState(s))).expect("a proposal");
    assert_eq!(read.state_root, root);

    let approve = MessageTypes::ApproveState(ApproveState {
        state_root: "r1".to_string(),
        signature: "s".to_string(),
        is_healthy: true,
    });
    assert_eq!(responded_root(Some(approve)), Some("r1".to_string()));
    let reject = MessageTypes::RejectState(RejectState {
        reason: "InvalidRootHash".to_string(),
        state_root: "r2".to_string(),
        signature: "s".to_string(),
        balances: None,
        timestamp: None,
    });
    assert_eq!(responded_root(Some(reject)), Some("r2".to_string()));
    assert_eq!(responded_root(None), None);
    assert_eq!(responded_root(Some(MessageTypes::NewState(proposal(&[])))), None);
}

#[test]
fn follower_answers_each_proposal_once() {
    let s = proposal(&[("a", 1)]);
    let same = Some(s.state_root.clone());
    let new_msg = Some(s);
    assert!(latest_is_responded_to(&new_msg, &same));
    assert!(!latest_is_responded_to(&new_msg, &Some("another root".to_string())));
    assert!(!latest_is_responded_to(&new_msg, &None));
    assert!(!latest_is_responded_to(&None, &same));
    assert!(!latest_is_responded_to(&None, &None));
}

#[test]
fn follower_takes_the_last_approved_balances() {
    let response = LastApprovedResponse {
        last_approved: Some(LastApproved {
            new_state: proposal(&[("a", 100), ("b", 200)]),
            approved_state: ApproveState {
                state_root: "r".to_string(),
                signature: "s".to_string(),
                is_healthy: true,
            },
        }),
        heartbeats: None,
    };
    assert_eq!(
        entries(&previous_balances(response)),
        vec![("a".to_string(), 100), ("b".to_string(), 200)]
    );
    let nothing = LastApprovedResponse { last_approved: None, heartbeats: None };
    assert_eq!(previous_balances(nothing).len(), 0);
}

#[test]
fn follower_approves_a_good_proposal() {
    let new_state = proposal(&[("a", 148), ("b", 197)]);
    let follower = adapter("follower");
    assert_eq!(check_proposal(&follower, &channel(), &new_state).expect("checks"), Integrity::Sound);
    let verdict = judge_proposal(
        &follower,
        &channel(),
        &config(),
        &balances(&[("a", 148), ("b", 197)]),
        &balances(&[("a", 100), ("b", 197)]),
        &new_state,
    )
    .expect("judges");
    match verdict {
        Verdict::Approve(MessageTypes::ApproveState(a)) => {
            assert_eq!(a.state_root, new_state.state_root);
            assert!(a.is_healthy);
            assert_eq!(
                a.signature,
                format!("Dummy adapter signature for {} by follower", new_state.state_root)
            );
        }
        _ => panic!("the proposal was to be approved"),
    }
}

#[test]
fn follower_rejects_a_wrong_root() {
    let mut new_state = proposal(&[("a", 148), ("b", 197)]);
    new_state.state_root = root_of(&balances(&[("a", 149), ("b", 197)]));
    new_state.signature = adapter("leader").sign(&new_state.state_root).expect("signs");
    assert_eq!(root_hash_check(&channel(), &new_state).expect("checks"), false);
    assert_eq!(
        check_proposal(&adapter("follower"), &channel(), &new_state).expect("checks"),
        Integrity::Invalid(InvalidNewState::RootHash)
    );
    // the root is judged before the adapter is asked
    assert_eq!(
        check_proposal(&Locked, &channel(), &new_state).expect("checks"),
        Integrity::Invalid(InvalidNewState::RootHash)
    );
    match reject_message(&new_state, InvalidNewState::RootHash, 1_234) {
        MessageTypes::RejectState(j) => {
            assert_eq!(j.reason, "InvalidRootHash");
            assert_eq!(j.state_root, new_state.state_root);
            assert_eq!(j.signature, new_state.signature);
            assert_eq!(j.timestamp, Some(1_234));
            assert_eq!(entries(&j.balances.expect("balances")), entries(&new_state.balances));
        }
        _ => panic!("a rejection was to be made"),
    }
}

#[test]
fn follower_rejects_a_wrong_signature() {
    let mut new_state = proposal(&[("a", 148), ("b", 197)]);
    new_state.signature = adapter("somebody").sign(&new_state.state_root).expect("signs");
    assert_eq!(root_hash_check(&channel(), &new_state).expect("checks"), true);
    assert_eq!(
        check_proposal(&adapter("follower"), &channel(), &new_state).expect("checks"),
        Integrity::Invalid(InvalidNewState::Signature)
    );
    let r = check_proposal(&Locked, &channel(), &new_state);
    assert!(matches!(r, Err(TickError::Adapter(AdapterError::Signature(_)))));
}

#[test]
fn follower_fails_on_a_proposal_that_cannot_be_hashed() {
    let long = "x".repeat(40);
    let new_state = NewState {
        state_root: "r".to_string(),
        signature: "s".to_string(),
        balances: balances(&[(long.as_str(), 1)]),
    };
    assert!(matches!(root_hash_check(&channel(), &new_state), Err(TickError::Domain(_))));
    let r = check_proposal(&adapter("follower"), &channel(), &new_state);
    assert!(matches!(r, Err(TickError::Domain(DomainError::InvalidArgument(_)))));
}

#[test]
fn next_action_from_the_latest_messages() {
    let follower = adapter("follower");
    let step = |new_msg: &Option<NewState>, our_root: &Option<String>| {
        next_action(&follower, &channel(), &config(), Known::Latest { new_msg, our_root })
    };
    assert!(matches!(step(&None, &None), Ok(Action::SendNothing)));
    assert!(matches!(step(&None, &Some("r".to_string())), Ok(Action::SendNothing)));
    let good = proposal(&[("a", 148), ("b", 197)]);
    let root = good.state_root.clone();
    let good = Some(good);
    assert!(matches!(step(&good, &Some(root)), Ok(Action::SendNothing)));
    assert!(matches!(step(&good, &None), Ok(Action::FetchLastApproved)));
    assert!(matches!(step(&good, &Some("another".to_string())), Ok(Action::FetchLastApproved)));

    let mut wrong_root = proposal(&[("a", 148)]);
    wrong_root.state_root = "00".repeat(32);
    assert!(matches!(
        step(&Some(wrong_root), &None),
        Ok(Action::Reject(InvalidNewState::RootHash))
    ));
    let mut wrong_signature = proposal(&[("a", 148)]);
    wrong_signature.signature = "signed by somebody".to_string();
    assert!(matches!(
        step(&Some(wrong_signature), &None),
        Ok(Action::Reject(InvalidNewState::Signature))
    ));
    let long = "x".repeat(40);
    let unhashable = NewState {
        state_root: "r".to_string(),
        signature: "s".to_string(),
        balances: balances(&[(long.as_str(), 1)]),
    };
    assert!(matches!(step(&Some(unhashable), &None), Err(TickError::Domain(_))));
    // an answered proposal is not even looked at
    let answered = NewState {
        state_root: "r".to_string(),
        signature: "s".to_string(),
        balances: balances(&[(long.as_str(), 1)]),
    };
    assert!(matches!(step(&Some(answered), &Some("r".to_string())), Ok(Action::SendNothing)));
    let r = next_action(&Locked, &channel(), &config(), Known::Latest { new_msg: &good, our_root: &None });
    assert!(matches!(r, Err(TickError::Adapter(AdapterError::Signature(_)))));
}

#[test]
fn next_action_with_the_last_approved_state() {
    let follower = adapter("follower");
    let new_state = proposal(&[("a", 800)]);
    let step = |ours: &[(&str, u64)], prev: &[(&str, u64)]| {
        next_action(
            &follower,
            &channel(),
            &config(),
            Known::LastApproved {
                new_state: &new_state,
                our_balances: &balances(ours),
                prev_balances: &balances(prev),
            },
        )
    };
    assert!(matches!(
        step(&[("a", 800)], &[("a", 801)]),
        Ok(Action::Reject(InvalidNewState::Transition))
    ));
    assert!(matches!(
        step(&[("a", 1_067)], &[("a", 800)]),
        Ok(Action::Reject(InvalidNewState::Health))
    ));
    assert!(matches!(
        step(&[("a", 1_000)], &[]),
        Ok(Action::Approve(MessageTypes::ApproveState(a))) if !a.is_healthy && a.state_root == new_state.state_root
    ));
    assert!(matches!(
        step(&[("a", 800)], &[("a", 100)]),
        Ok(Action::Approve(MessageTypes::ApproveState(a))) if a.is_healthy
    ));
    let r = next_action(
        &Locked,
        &channel(),
        &config(),
        Known::LastApproved {
            new_state: &new_state,
            our_balances: &balances(&[("a", 800)]),
            prev_balances: &balances(&[]),
        },
    );
    assert!(matches!(r, Err(TickError::Adapter(AdapterError::LockedWallet))));
}

#[test]
fn signature_verdict_reads_the_adapter() {
    assert_eq!(signature_verdict(Ok(true)).expect("reads"), Integrity::Sound);
    assert_eq!(
        signature_verdict(Ok(false)).expect("reads"),
        Integrity::Invalid(InvalidNewState::Signature)
    );
    let r = signature_verdict(Err(AdapterError::LockedWallet));
    assert!(matches!(r, Err(TickError::Adapter(AdapterError::LockedWallet))));
}

#[test]
fn follower_rejects_a_bad_transition() {
    let new_state = proposal(&[("a", 50), ("b", 200)]);
    let prev = balances(&[("a", 100), ("b", 200)]);
    let ours = balances(&[("a", 50), ("b", 200)]);
    assert_eq!(
        assess(&channel(), &config(), &ours, &prev, &new_state.balances),
        Assessment::Invalid(InvalidNewState::Transition)
    );
    let verdict =
        judge_proposal(&adapter("follower"), &channel(), &config(), &ours, &prev, &new_state)
            .expect("judges");
    assert!(matches!(verdict, Verdict::Reject(InvalidNewState::Transition)));
    // no signature is asked for a rejection
    let verdict =
        judge_proposal(&Locked, &channel(), &config(), &ours, &prev, &new_state).expect("judges");
    assert!(matches!(verdict, Verdict::Reject(InvalidNewState::Transition)));
    assert!(matches!(
        reject_message(&new_state, InvalidNewState::Transition, 0),
        MessageTypes::RejectState(j) if j.reason == "InvalidTransition"
    ));
}

#[test]
fn follower_rejects_too_low_health() {
    let prev = balances(&[]);
    let ours = balances(&[("a", 1000)]);
    let assess_with = |theirs: u64| {
        assess(&channel(), &config(), &ours, &prev, &balances(&[("a", theirs)]))
    };
    assert_eq!(assess_with(749), Assessment::Invalid(InvalidNewState::Health));
    assert_eq!(assess_with(750), Assessment::Sign { is_healthy: false });
    assert_eq!(assess_with(949), Assessment::Sign { is_healthy: false });
    assert_eq!(assess_with(950), Assessment::Sign { is_healthy: true });
    assert_eq!(assess_with(1000), Assessment::Sign { is_healthy: true });
    // the transition is judged before the health
    assert_eq!(
        assess(&channel(), &config(), &ours, &balances(&[("a", 800)]), &balances(&[("a", 749)])),
        Assessment::Invalid(InvalidNewState::Transition)
    );
}

#[test]
fn follower_signs_unhealthy_but_signable_states_as_unhealthy() {
    let new_state = proposal(&[("a", 800)]);
    let verdict = judge_proposal(
        &adapter("follower"),
        &channel(),
        &config(),
        &balances(&[("a", 1000)]),
        &balances(&[]),
        &new_state,
    )
    .expect("judges");
    assert!(matches!(verdict, Verdict::Approve(MessageTypes::ApproveState(a)) if !a.is_healthy));
    let r = judge_proposal(
        &Locked,
        &channel(),
        &config(),
        &balances(&[("a", 1000)]),
        &balances(&[]),
        &new_state,
    );
    assert!(matches!(r, Err(TickError::Adapter(AdapterError::LockedWallet))));
}

#[test]
fn approve_message_carries_root_signature_and_health() {
    let root = "r".to_string();
    let made = approve_message(&root, Ok("s".to_string()), false).expect("made");
    assert!(matches!(
        made,
        MessageTypes::ApproveState(a) if a.state_root == "r" && a.signature == "s" && !a.is_healthy
    ));
    let r = approve_message(&root, Err(AdapterError::LockedWallet), true);
    assert!(matches!(r, Err(TickError::Adapter(AdapterError::LockedWallet))));
}

#[test]
fn rejection_reasons() {
    assert_eq!(reason(InvalidNewState::RootHash), "InvalidRootHash");
    assert_eq!(reason(InvalidNewState::Signature), "InvalidSignature");
    assert_eq!(reason(InvalidNewState::Transition), "InvalidTransition");
    assert_eq!(reason(InvalidNewState::Health), "TooLowHealth");
}

#[test]
fn on_error_rejects_now() {
    let new_state = proposal(&[("a", 1)]);
    match on_error(&new_state, InvalidNewState::Health) {
        MessageTypes::RejectState(j) => {
            assert_eq!(j.reason, "TooLowHealth");
            assert_eq!(j.state_root, new_state.state_root);
            assert!(j.timestamp.expect("a moment") > 1_500_000_000_000);
        }
        _ => panic!("a rejection was to be made"),
    }
}

#[test]
fn approve_state_result_of_each_outcome() {
    let results = || vec![PropagationResult::Delivered("leader".to_string())];
    assert!(matches!(approve_state_result(None, None), ApproveStateResult::NotSent));
    assert!(matches!(
        approve_state_result(Some(InvalidNewState::Health), None),
        ApproveStateResult::NotSent
    ));
    assert!(matches!(approve_state_result(None, Some(results())), ApproveStateResult::Sent(r) if r.len() == 1));
    assert!(matches!(
        approve_state_result(Some(InvalidNewState::Signature), Some(results())),
        ApproveStateResult::Rejected { new_state: InvalidNewState::Signature, reject_state_propagation }
            if reject_state_propagation.len() == 1
    ));
}

#[test]
fn heartbeat_is_signed_over_its_own_root() {
    let expected_root = to_hex(&heartbeat_state_root(&channel(), 1_570_000_000_000));
    match heartbeat(&adapter("leader"), &channel(), 1_570_000_000_000).expect("beats") {
        MessageTypes::Heartbeat(h) => {
            assert_eq!(h.state_root, expected_root);
            assert_eq!(h.timestamp, 1_570_000_000_000);
            assert_eq!(h.signature, format!("Dummy adapter signature for {} by leader", expected_root));
        }
        _ => panic!("a heartbeat was to be made"),
    }
    assert!(matches!(heartbeat(&Locked, &channel(), 5), Err(AdapterError::LockedWallet)));
    let r = heartbeat_message(&channel(), 5, Err(AdapterError::LockedWallet));
    assert!(matches!(r, Err(AdapterError::LockedWallet)));
}

#[test]
fn heartbeat_new_stamps_the_present() {
    let h = Heartbeat::new("sig".to_string(), "root".to_string());
    assert_eq!((h.signature.as_str(), h.state_root.as_str()), ("sig", "root"));
    assert!(h.timestamp > 1_500_000_000_000);
}

#[test]
fn tick_role_of_each_identity() {
    assert_eq!(tick_role(&channel(), "leader").expect("validates"), Role::Leader);
    assert_eq!(tick_role(&channel(), "follower").expect("validates"), Role::Follower);
    match tick_role(&channel(), "stranger") {
        Err(ValidatorWorker::Failed(m)) => {
            assert_eq!(m, "validatorTick: processing a channel where we are not validating")
        }
        Ok(_) => panic!("a stranger validates nothing"),
    }
}

#[test]
fn only_accepted_channels_are_ticked() {
    assert!(accepted(&Ok(true)));
    assert!(!accepted(&Ok(false)));
    assert!(!accepted(&Err(AdapterError::LockedWallet)));
    let channels = vec![channel_by("good"), channel_by("bad"), channel_by("other"), channel_by("good")];
    assert_eq!(channel_verdicts(&Locked, &channels), vec![true, false, false, true]);
    let kept = valid_channels(&Locked, channels);
    assert_eq!(kept.iter().map(|c| c.creator.as_str()).collect::<Vec<_>>(), vec!["good", "good"]);
    let kept = select_channels(
        vec![channel_by("a"), channel_by("b"), channel_by("c")],
        &vec![false, true, true],
    );
    assert_eq!(kept.iter().map(|c| c.creator.as_str()).collect::<Vec<_>>(), vec!["b", "c"]);
    assert_eq!(valid_channels(&adapter("leader"), vec![channel_by("x")]).len(), 1);
}
