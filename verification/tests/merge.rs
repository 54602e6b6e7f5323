use validator_worker::primitives::balances_map::BalancesMap;
use validator_worker::primitives::big_num::BigNum;
use validator_worker::primitives::channel::{
    Channel, ChannelId, ChannelSpec, SpecValidators, ValidatorDesc,
};
use validator_worker::primitives::error::DomainError;
use validator_worker::primitives::sentry::{AggregateEvents, EventAggregate};
use validator_worker::primitives::string_map::StringMap;
use validator_worker::primitives::validator::Accounting;
use validator_worker::worker::events::{merge_aggrs, merge_payouts_into_balances};

fn channel(deposit: u64, leader_fee: u64, follower_fee: u64) -> Channel {
    Channel {
        id: ChannelId { bytes: [7u8; 32] },
        creator: "creator".to_string(),
        deposit_asset: "DAI".to_string(),
        deposit_amount: BigNum::from_u64(deposit),
        valid_until: 4_102_444_800_000,
        spec: ChannelSpec {
            validators: SpecValidators::new(
                ValidatorDesc {
                    id: "0xce07CbB7e054514D590a0262C93070D838bFBA2e".to_string(),
                    url: "http://localhost:8005".to_string(),
                    fee: BigNum::from_u64(leader_fee),
                },
                ValidatorDesc {
                    id: "0xc91763d7f14ac5c5ddfbcd012e0d2a61ab9bded3".to_string(),
                    url: "http://localhost:8006".to_string(),
                    fee: BigNum::from_u64(follower_fee),
                },
            ),
        },
    }
}

fn balances(entries: &[(&str, u64)]) -> BalancesMap {
    let mut map = BalancesMap::new();
    for (key, amount) in entries {
        map.set(key.to_string(), BigNum::from_u64(*amount));
    }
    map
}

fn entries(map: &BalancesMap) -> Vec<(String, u64)> {
    (0..map.len())
        .map(|i| (map.key_at(i).clone(), map.amount_at(i).to_u64().expect("fits")))
        .collect()
}

fn owned(list: &[(&str, u64)]) -> Vec<(String, u64)> {
    list.iter().map(|(k, v)| (k.to_string(), *v)).collect()
}

fn events(list: &[(&str, &[(&str, u64)])]) -> StringMap<AggregateEvents> {
    let mut map = StringMap::new();
    for (event_type, payouts) in list {
        map.insert(
            event_type.to_string(),
            AggregateEvents { event_counts: balances(&[]), event_payouts: balances(payouts) },
        );
    }
    map
}

fn aggregate(created: i64, list: &[(&str, &[(&str, u64)])]) -> EventAggregate {
    EventAggregate { channel_id: ChannelId { bytes: [7u8; 32] }, created, events: events(list) }
}

fn accounting(last: i64, before: &[(&str, u64)]) -> Accounting {
    Accounting {
        last_event_aggregate: last,
        balances_before_fees: balances(before),
        balances: BalancesMap::new(),
    }
}

#[test]
fn leader_happy_path_balances() {
    let (after, new_accounting) = merge_aggrs(
        &accounting(10, &[("a", 100), ("b", 200)]),
        &[aggregate(20, &[("IMPRESSION", &[("a", 50)])])],
        &channel(10_000, 50, 50),
    )
    .expect("merges");
    assert_eq!(entries(&new_accounting.balances_before_fees), owned(&[("a", 150), ("b", 200)]));
    assert_eq!(after.get("a").to_u64(), Some(148));
    assert_eq!(after.total().to_u64(), Some(350));
    assert_eq!(entries(&after), entries(&new_accounting.balances));
}

#[test]
fn deposit_cap_cuts_the_payout() {
    let (_, new_accounting) = merge_aggrs(
        &accounting(10, &[("a", 100), ("b", 200)]),
        &[aggregate(20, &[("IMPRESSION", &[("a", 10_010)])])],
        &channel(10_000, 50, 50),
    )
    .expect("merges");
    assert_eq!(entries(&new_accounting.balances_before_fees), owned(&[("a", 9_800), ("b", 200)]));
    assert_eq!(new_accounting.balances_before_fees.total().to_u64(), Some(10_000));
}

#[test]
fn payouts_after_the_cap_credit_nothing() {
    let merged = merge_payouts_into_balances(
        &balances(&[("a", 90)]),
        &events(&[("IMPRESSION", &[("b", 7), ("c", 7), ("d", 7)])]),
        &BigNum::from_u64(100),
    )
    .expect("merges");
    // addresses in ascending order: b takes 7, c the 3 that are left, d nothing
    assert_eq!(entries(&merged), owned(&[("a", 90), ("b", 7), ("c", 3), ("d", 0)]));
}

#[test]
fn event_types_are_merged_in_ascending_order() {
    let merged = merge_payouts_into_balances(
        &balances(&[]),
        &events(&[("PAY", &[("a", 8)]), ("IMPRESSION", &[("b", 8)])]),
        &BigNum::from_u64(10),
    )
    .expect("merges");
    assert_eq!(entries(&merged), owned(&[("a", 2), ("b", 8)]));
}

#[test]
fn merge_fails_when_the_balances_exceed_the_deposit() {
    let r = merge_payouts_into_balances(
        &balances(&[("a", 101)]),
        &events(&[]),
        &BigNum::from_u64(100),
    );
    assert!(matches!(
        r,
        Err(DomainError::RuleViolation(m)) if m == "remaining starts negative: total>depositAmount"
    ));
    let r = merge_aggrs(&accounting(0, &[("a", 101)]), &[], &channel(100, 1, 1));
    assert!(matches!(r, Err(DomainError::RuleViolation(_))));
    let r = merge_aggrs(&accounting(0, &[("a", 100)]), &[], &channel(100, 1, 1));
    assert!(r.is_ok());
}

#[test]
fn merge_fails_when_fees_cannot_be_applied() {
    let r = merge_aggrs(
        &accounting(0, &[]),
        &[aggregate(1, &[("IMPRESSION", &[("a", 5)])])],
        &channel(100, 60, 41),
    );
    assert!(matches!(
        r,
        Err(DomainError::RuleViolation(m)) if m == "the fees exceed what has been paid out"
    ));
    let r = merge_aggrs(&accounting(0, &[]), &[], &channel(0, 0, 0));
    assert!(matches!(r, Err(DomainError::RuleViolation(m)) if m == "the deposit is zero"));
}

#[test]
fn balances_never_go_down_in_a_merge() {
    let before = [("a", 5), ("b", 0), ("c", 70)];
    let (_, new_accounting) = merge_aggrs(
        &accounting(0, &before),
        &[
            aggregate(3, &[("IMPRESSION", &[("a", 10), ("d", 4)])]),
            aggregate(2, &[("IMPRESSION", &[("b", 100)])]),
        ],
        &channel(100, 1, 1),
    )
    .expect("merges");
    for (key, amount) in before {
        assert!(new_accounting.balances_before_fees.get(key).to_u64().expect("fits") >= amount);
    }
    assert_eq!(
        entries(&new_accounting.balances_before_fees),
        owned(&[("a", 15), ("b", 11), ("c", 70), ("d", 4)])
    );
    assert_eq!(new_accounting.balances.total().to_u64(), Some(100));
}

#[test]
fn last_event_aggregate_is_the_latest_moment() {
    let aggregates =
        [aggregate(30, &[]), aggregate(50, &[]), aggregate(40, &[])];
    let (_, a) =
        merge_aggrs(&accounting(10, &[]), &aggregates, &channel(100, 1, 1)).expect("merges");
    assert_eq!(a.last_event_aggregate, 50);
    let (_, a) =
        merge_aggrs(&accounting(60, &[]), &aggregates, &channel(100, 1, 1)).expect("merges");
    assert_eq!(a.last_event_aggregate, 60);
    let (_, a) = merge_aggrs(&accounting(-5, &[]), &[], &channel(100, 1, 1)).expect("merges");
    assert_eq!(a.last_event_aggregate, -5);
}
