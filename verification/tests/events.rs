use chrono::Utc;
use validator_worker::primitives::balances_map::BalancesMap;
use validator_worker::primitives::big_num::BigNum;
use validator_worker::primitives::channel::{
    Channel, ChannelId, ChannelSpec, SpecValidators, ValidatorDesc,
};
use validator_worker::primitives::sentry::{AggregateEvents, EventAggregate};
use validator_worker::primitives::string_map::StringMap;
use validator_worker::primitives::validator::Accounting;
use validator_worker::worker::events::merge_aggrs;

fn dummy_channel_id() -> ChannelId {
    let mut bytes = [0u8; 32];
    for (i, b) in bytes.iter_mut().enumerate() {
        *b = i as u8 + 1;
    }
    ChannelId { bytes }
}

fn dummy_validator_leader() -> ValidatorDesc {
    ValidatorDesc {
        id: "0xce07CbB7e054514D590a0262C93070D838bFBA2e".to_string(),
        url: "http://localhost:8005".to_string(),
        fee: BigNum::from_u64(100),
    }
}

fn dummy_validator_follower() -> ValidatorDesc {
    ValidatorDesc {
        id: "0xc91763d7f14ac5c5ddfbcd012e0d2a61ab9bded3".to_string(),
        url: "http://localhost:8006".to_string(),
        fee: BigNum::from_u64(100),
    }
}

fn dummy_channel(deposit: u64, leader_fee: u64, follower_fee: u64) -> Channel {
    let leader = ValidatorDesc { fee: BigNum::from_u64(leader_fee), ..dummy_validator_leader() };
    let follower =
        ValidatorDesc { fee: BigNum::from_u64(follower_fee), ..dummy_validator_follower() };
    Channel {
        id: dummy_channel_id(),
        creator: "0x033ed90e0fec3f3ea1c9b005c724d704501e0196".to_string(),
        deposit_asset: "0x89d24A6b4CcB1B6fAA2625fE562bDD9a23260359".to_string(),
        deposit_amount: BigNum::from_u64(deposit),
        valid_until: 4_102_444_800_000,
        spec: ChannelSpec { validators: SpecValidators::new(leader, follower) },
    }
}

fn balances(entries: &[(&str, u64)]) -> BalancesMap {
    let mut map = BalancesMap::new();
    for (key, amount) in entries {
        map.set(key.to_string(), BigNum::from_u64(*amount));
    }
    map
}

fn entries(map: &BalancesMap) -> Vec<(String, u64)> {
    (0..map.len())
        .map(|i| (map.key_at(i).clone(), map.amount_at(i).to_u64().expect("the amount fits")))
        .collect()
}

fn amount(map: &BalancesMap, key: &str) -> u64 {
    map.get(key).to_u64().expect("the amount fits")
}

fn gen_ev_aggr(count: u64, recipient: &str) -> EventAggregate {
    let aggregate_events = AggregateEvents {
        event_counts: balances(&[(recipient, count)]),
        event_payouts: balances(&[(recipient, count * 10)]),
    };
    let mut events = StringMap::new();
    events.insert("IMPRESSION".to_string(), aggregate_events);
    EventAggregate { channel_id: dummy_channel_id(), created: Utc::now().timestamp_millis(), events }
}

#[test]
fn should_merge_event_aggrs_and_apply_fees() {
    // fees: 100
    // deposit: 10 000
    let channel = dummy_channel(10_000, 50, 50);
    let balances_before_fees = balances(&[("a", 100), ("b", 200)]);

    let acc = Accounting {
        last_event_aggregate: Utc::now().timestamp_millis(),
        balances_before_fees,
        balances: BalancesMap::new(),
    };

    let (balances, new_accounting) =
        merge_aggrs(&acc, &[gen_ev_aggr(5, "a")], &channel).expect("Something went wrong");

    assert_eq!(entries(&balances), entries(&new_accounting.balances), "balances is the same");
    assert_eq!(
        amount(&new_accounting.balances_before_fees, "a"),
        150,
        "balance of recipient incremented accordingly"
    );
    assert_eq!(amount(&new_accounting.balances, "a"), 148, "balanceAfterFees is ok");
}

#[test]
fn should_never_allow_exceeding_the_deposit() {
    let channel = dummy_channel(10_000, 50, 50);
    let balances_before_fees = balances(&[("a", 100), ("b", 200)]);

    let acc = Accounting {
        last_event_aggregate: Utc::now().timestamp_millis(),
        balances_before_fees,
        balances: BalancesMap::new(),
    };

    let (balances, new_accounting) =
        merge_aggrs(&acc, &[gen_ev_aggr(1_001, "a")], &channel).expect("Something went wrong");

    assert_eq!(entries(&balances), entries(&new_accounting.balances), "balances is the same");
    assert_eq!(
        amount(&new_accounting.balances_before_fees, "a"),
        9_800,
        "balance of recipient incremented accordingly"
    );
    assert_eq!(
        amount(&new_accounting.balances_before_fees, "b"),
        200,
        "balances of non-recipient remains the same"
    );
    assert_eq!(amount(&new_accounting.balances, "a"), 9_702, "balanceAfterFees is ok");
    assert_eq!(
        new_accounting.balances_before_fees.total().to_u64(),
        channel.deposit_amount.to_u64(),
        "sum(balancesBeforeFees) == depositAmount"
    );
    assert_eq!(
        new_accounting.balances.total().to_u64(),
        channel.deposit_amount.to_u64(),
        "sum(balances) == depositAmount"
    );
}
