use validator_worker::adapter::dummy::DummyAdapter;
use validator_worker::primitives::adapter::{AdapterError, DummyAdapterOptions};
use validator_worker::primitives::big_num::BigNum;
use validator_worker::primitives::channel::{
    Channel, ChannelId, ChannelSpec, Role, SpecValidator, SpecValidators, ValidatorDesc,
};
use validator_worker::primitives::config::Config;
use validator_worker::primitives::sentry::{ChannelAllResponse, ValidatorMessageResponse};
use validator_worker::primitives::string_map::StringMap;
use validator_worker::primitives::validator::{Heartbeat, MessageTypes};
use validator_worker::worker::error::{HttpError, ValidatorWorker};
use validator_worker::worker::sentry_interface::{
    channel_limit_reached, channel_list_request, channel_url_of, event_aggregates_request,
    flatten_pages, join_types, last_approved_request, latest_message, latest_msg_request,
    pages_after_first, plan_propagation, propagation_step, validator_url, whole_seconds,
    PropagationResult, PropagationStep,
};

const ID_TEXT: &str = "0x0707070707070707070707070707070707070707070707070707070707070707";

fn channel_by(creator: &str) -> Channel {
    let validator = |id: &str, url: &str| ValidatorDesc {
        id: id.to_string(),
        url: url.to_string(),
        fee: BigNum::from_u64(50),
    };
    Channel {
        id: ChannelId { bytes: [7u8; 32] },
        creator: creator.to_string(),
        deposit_asset: "DAI".to_string(),
        deposit_amount: BigNum::from_u64(10_000),
        valid_until: 4_102_444_800_000,
        spec: ChannelSpec {
            validators: SpecValidators::new(
                validator("leader", "http://localhost:8005"),
                validator("follower", "http://localhost:8006"),
            ),
        },
    }
}

fn channel() -> Channel {
    channel_by("creator")
}

fn adapter(tokens: &[(&str, &str)]) -> DummyAdapter {
    let mut auth_tokens = StringMap::new();
    for (k, v) in tokens {
        auth_tokens.insert(k.to_string(), v.to_string());
    }
    DummyAdapter::init(
        DummyAdapterOptions {
            dummy_identity: "leader".to_string(),
            dummy_auth_tokens: auth_tokens,
            dummy_auth: StringMap::new(),
        },
        &Config {
            max_channels: 512,
            wait_time: 40,
            heartbeat_time: 30_000,
            health_threshold_promilles: 950,
            health_unsignable_promilles: 750,
            propagation_timeout: 1,
            fetch_timeout: 5,
            validator_tick_timeout: 5,
        },
    )
}

#[test]
fn channel_id_as_text() {
    assert_eq!(channel().id.to_hex_string(), ID_TEXT);
    assert_eq!(channel().id.to_vec(), vec![7u8; 32]);
    let id = ChannelId::from_hex(&ID_TEXT[2..]).expect("an id");
    assert_eq!(id.bytes, [7u8; 32]);
    assert!(ChannelId::from_hex(ID_TEXT).is_none());
    assert!(ChannelId::from_hex(&ID_TEXT[4..]).is_none());
    assert!(ChannelId::from_hex(&"zz".repeat(32)).is_none());
    let mixed = format!("{}{}", "aB".repeat(16), "Cd".repeat(16));
    let id = ChannelId::from_hex(&mixed).expect("an id");
    assert_eq!(id.to_hex_string(), format!("0x{}", mixed.to_lowercase()));
}

#[test]
fn validators_are_found_by_identity() {
    let c = channel();
    assert!(matches!(c.spec.validators.find("leader"), SpecValidator::Leader(v) if v.url == "http://localhost:8005"));
    assert!(matches!(c.spec.validators.find("follower"), SpecValidator::Follower(v) if v.url == "http://localhost:8006"));
    assert!(matches!(c.spec.validators.find("Leader"), SpecValidator::Neither));
    assert_eq!(c.spec.validators.leader().id, "leader");
    assert_eq!(c.spec.validators.follower().id, "follower");
    assert_eq!(c.spec.validators.get(0).map(|v| v.id.as_str()), Some("leader"));
    assert_eq!(c.spec.validators.get(1).map(|v| v.id.as_str()), Some("follower"));
    assert!(c.spec.validators.get(2).is_none());
    assert_ne!(Role::Leader, Role::Follower);
    let twice = Channel {
        spec: ChannelSpec {
            validators: SpecValidators::new(
                c.spec.validators.leader.clone(),
                c.spec.validators.leader.clone(),
            ),
        },
        ..c.clone()
    };
    assert!(matches!(twice.spec.validators.find("leader"), SpecValidator::Leader(_)));
}

#[test]
fn own_sentry_address() {
    assert_eq!(
        validator_url(&channel(), "leader").expect("validates"),
        format!("http://localhost:8005/channel/{}", ID_TEXT)
    );
    assert_eq!(
        validator_url(&channel(), "follower").expect("validates"),
        format!("http://localhost:8006/channel/{}", ID_TEXT)
    );
    match validator_url(&channel(), "stranger") {
        Err(ValidatorWorker::Failed(m)) => {
            assert_eq!(m, "we can not find validator entry for whoami")
        }
        Ok(_) => panic!("a stranger has no sentry"),
    }
    assert_eq!(channel_url_of("http://s", &channel()), format!("http://s/channel/{}", ID_TEXT));
}

#[test]
fn request_addresses() {
    assert_eq!(join_types(&[]), "");
    assert_eq!(join_types(&["NewState"]), "NewState");
    assert_eq!(join_types(&["ApproveState", "RejectState"]), "ApproveState,RejectState");
    assert_eq!(join_types(&["A", "B", "C"]), "A,B,C");
    assert_eq!(
        latest_msg_request("http://s/channel/0x01", "leader", &["ApproveState", "RejectState"]),
        "http://s/channel/0x01/validator-messages/leader/ApproveState,RejectState?limit=1"
    );
    assert_eq!(last_approved_request("http://s/channel/0x01", false), "http://s/channel/0x01/last-approved");
    assert_eq!(
        last_approved_request("http://s/channel/0x01", true),
        "http://s/channel/0x01/last-approved?withHeartbeat=true"
    );
    assert_eq!(
        event_aggregates_request("http://s/channel/0x01", 1_570_000_000_999),
        "http://s/channel/0x01/events-aggregates?after=1570000000"
    );
    assert_eq!(event_aggregates_request("b", 0), "b/events-aggregates?after=0");
    assert_eq!(event_aggregates_request("b", -1), "b/events-aggregates?after=-1");
    assert_eq!(
        channel_list_request("http://127.0.0.1:8005", 0, "leader"),
        "http://127.0.0.1:8005/channel/list?page=0&validator=leader"
    );
    assert_eq!(
        channel_list_request("http://127.0.0.1:8005", 12, "0xce07"),
        "http://127.0.0.1:8005/channel/list?page=12&validator=0xce07"
    );
}

#[test]
fn whole_seconds_round_down() {
    assert_eq!(whole_seconds(0), 0);
    assert_eq!(whole_seconds(999), 0);
    assert_eq!(whole_seconds(1_000), 1);
    assert_eq!(whole_seconds(-1), -1);
    assert_eq!(whole_seconds(-1_000), -1);
    assert_eq!(whole_seconds(-1_001), -2);
    assert_eq!(whole_seconds(i64::MAX), 9_223_372_036_854_775);
    assert_eq!(whole_seconds(i64::MIN), -9_223_372_036_854_776);
}

#[test]
fn latest_message_is_the_first() {
    let beat = |n: i64| MessageTypes::Heartbeat(Heartbeat::new_at("s".to_string(), "r".to_string(), n));
    let response = ValidatorMessageResponse {
        from: "leader".to_string(),
        received: 9,
        msg: vec![beat(3), beat(2), beat(1)],
    };
    assert!(matches!(latest_message(response), Some(MessageTypes::Heartbeat(h)) if h.timestamp == 3));
    let empty = ValidatorMessageResponse { from: "leader".to_string(), received: 9, msg: vec![] };
    assert!(latest_message(empty).is_none());
}

#[test]
fn pages_are_flattened_in_order() {
    let page = |creators: &[&str], total_pages: u64| ChannelAllResponse {
        channels: creators.iter().map(|c| channel_by(c)).collect(),
        total_pages,
    };
    let all = flatten_pages(page(&["a", "b"], 3), vec![page(&["c"], 3), page(&[], 3), page(&["d", "e"], 3)]);
    assert_eq!(all.iter().map(|c| c.creator.as_str()).collect::<Vec<_>>(), vec!["a", "b", "c", "d", "e"]);
    let all = flatten_pages(page(&["a"], 1), vec![]);
    assert_eq!(all.len(), 1);
    assert_eq!(pages_after_first(0), (1, 1));
    assert_eq!(pages_after_first(1), (1, 1));
    assert_eq!(pages_after_first(2), (1, 2));
    assert_eq!(pages_after_first(7), (1, 7));
}

#[test]
fn channel_limit() {
    assert!(!channel_limit_reached(511, 512));
    assert!(channel_limit_reached(512, 512));
    assert!(channel_limit_reached(513, 512));
    assert!(channel_limit_reached(0, 0));
}

#[test]
fn propagation_partial_failure() {
    let steps = plan_propagation(&adapter(&[("leader", "T1"), ("follower", "T2")]), &channel());
    assert_eq!(steps.len(), 2);
    let mut results = Vec::new();
    for (step, outcome) in steps.into_iter().zip([Ok(()), Err(HttpError::Status(500))]) {
        match step {
            PropagationStep::Send { validator_id, .. } => {
                results.push(PropagationResult::of_delivery(validator_id, outcome))
            }
            PropagationStep::Skip { validator_id } => {
                results.push(PropagationResult::of_skipped(validator_id))
            }
        }
    }
    assert!(matches!(&results[0], PropagationResult::Delivered(id) if id == "leader"));
    assert!(matches!(&results[1], PropagationResult::Failed(id, reason) if id == "follower" && reason == "Status(500)"));
}

#[test]
fn propagation_plan_addresses_every_validator() {
    let steps = plan_propagation(&adapter(&[("leader", "T1"), ("follower", "T2")]), &channel());
    match &steps[0] {
        PropagationStep::Send { validator_id, url, auth_token } => {
            assert_eq!(validator_id, "leader");
            assert_eq!(url, &format!("http://localhost:8005/channel/{}/validator-messages", ID_TEXT));
            assert_eq!(auth_token, "T1");
        }
        _ => panic!("the leader was to be sent to"),
    }
    match &steps[1] {
        PropagationStep::Send { validator_id, url, auth_token } => {
            assert_eq!(validator_id, "follower");
            assert_eq!(url, &format!("http://localhost:8006/channel/{}/validator-messages", ID_TEXT));
            assert_eq!(auth_token, "T2");
        }
        _ => panic!("the follower was to be sent to"),
    }
}

#[test]
fn a_validator_without_token_does_not_stop_the_other() {
    let steps = plan_propagation(&adapter(&[("follower", "T2")]), &channel());
    assert!(matches!(&steps[0], PropagationStep::Skip { validator_id } if validator_id == "leader"));
    assert!(matches!(&steps[1], PropagationStep::Send { validator_id, .. } if validator_id == "follower"));
    let skipped = PropagationResult::of_skipped("leader".to_string());
    assert!(matches!(skipped, PropagationResult::Failed(id, reason) if id == "leader" && reason == "get auth failed"));
    let c = channel();
    let step = propagation_step(&c.spec.validators.leader, &c, Err(AdapterError::LockedWallet));
    assert!(matches!(step, PropagationStep::Skip { validator_id } if validator_id == "leader"));
}

#[test]
fn http_errors_by_their_marks() {
    assert_eq!(HttpError::classify(true, Some(500), true), HttpError::Timeout);
    assert_eq!(HttpError::classify(false, Some(500), true), HttpError::Status(500));
    assert_eq!(HttpError::classify(false, None, true), HttpError::Deserialize);
    assert_eq!(HttpError::classify(false, None, false), HttpError::ConnectRefused);
}

#[test]
fn http_error_tags() {
    assert_eq!(HttpError::Timeout.tag(), "Timeout");
    assert_eq!(HttpError::ConnectRefused.tag(), "ConnectRefused");
    assert_eq!(HttpError::Status(500).tag(), "Status(500)");
    assert_eq!(HttpError::Status(0).tag(), "Status(0)");
    assert_eq!(HttpError::Status(65_535).tag(), "Status(65535)");
    assert_eq!(HttpError::Deserialize.tag(), "Deserialize");
}
