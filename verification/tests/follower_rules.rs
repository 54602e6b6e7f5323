use validator_worker::primitives::balances_map::BalancesMap;
use validator_worker::primitives::big_num::BigNum;
use validator_worker::primitives::channel::{
    Channel, ChannelId, ChannelSpec, SpecValidators, ValidatorDesc,
};
use validator_worker::worker::follower_rules::{get_health, is_valid_transition};

fn channel(deposit: u64) -> Channel {
    let validator = |id: &str| ValidatorDesc {
        id: id.to_string(),
        url: "http://localhost:8005".to_string(),
        fee: BigNum::from_u64(50),
    };
    Channel {
        id: ChannelId { bytes: [7u8; 32] },
        creator: "creator".to_string(),
        deposit_asset: "DAI".to_string(),
        deposit_amount: BigNum::from_u64(deposit),
        valid_until: 4_102_444_800_000,
        spec: ChannelSpec { validators: SpecValidators::new(validator("l"), validator("f")) },
    }
}

fn balances(entries: &[(&str, u64)]) -> BalancesMap {
    let mut map = BalancesMap::new();
    for (key, amount) in entries {
        map.set(key.to_string(), BigNum::from_u64(*amount));
    }
    map
}

#[test]
fn transition_to_the_same_balances_is_valid() {
    let m = balances(&[("a", 100), ("b", 200)]);
    assert!(is_valid_transition(&channel(10_000), &m, &m));
    assert!(is_valid_transition(&channel(300), &m, &m));
    let empty = balances(&[]);
    assert!(is_valid_transition(&channel(0), &empty, &empty));
}

#[test]
fn transition_to_the_same_balances_above_the_deposit_is_not_valid() {
    let m = balances(&[("a", 101)]);
    assert!(!is_valid_transition(&channel(100), &m, &m));
}

#[test]
fn transition_with_a_decreased_entry_is_not_valid() {
    let prev = balances(&[("a", 100), ("b", 200)]);
    assert!(!is_valid_transition(&channel(10_000), &prev, &balances(&[("a", 50), ("b", 200)])));
    assert!(!is_valid_transition(&channel(10_000), &prev, &balances(&[("a", 100), ("b", 199)])));
    assert!(!is_valid_transition(&channel(10_000), &prev, &balances(&[("b", 200)])));
}

#[test]
fn transition_that_grows_within_the_deposit_is_valid() {
    let prev = balances(&[("a", 100), ("b", 200)]);
    assert!(is_valid_transition(&channel(10_000), &prev, &balances(&[("a", 148), ("b", 200), ("c", 1)])));
    assert!(is_valid_transition(&channel(349), &prev, &balances(&[("a", 148), ("b", 200), ("c", 1)])));
    assert!(!is_valid_transition(&channel(348), &prev, &balances(&[("a", 148), ("b", 200), ("c", 1)])));
    // an address that held nothing may be left out
    assert!(is_valid_transition(&channel(10), &balances(&[("a", 0)]), &balances(&[])));
}

#[test]
fn health_of_the_same_balances_is_full() {
    let m = balances(&[("a", 100), ("b", 200)]);
    assert_eq!(get_health(&channel(10_000), &m, &m), 1000);
    let empty = balances(&[]);
    assert_eq!(get_health(&channel(10_000), &empty, &empty), 1000);
}

#[test]
fn health_against_nothing_is_zero() {
    let ours = balances(&[("a", 100), ("b", 200)]);
    assert_eq!(get_health(&channel(10_000), &ours, &balances(&[("a", 0), ("b", 0)])), 0);
    assert_eq!(get_health(&channel(10_000), &ours, &balances(&[])), 0);
}

#[test]
fn health_is_the_agreed_part_in_promille() {
    let ours = balances(&[("a", 100), ("b", 200), ("c", 700)]);
    // they agree on min(100, 50) + min(200, 300) + min(700, 0) = 250 of 1000
    assert_eq!(get_health(&channel(10_000), &ours, &balances(&[("a", 50), ("b", 300)])), 250);
    // 1000 * 2 / 3 rounds down
    assert_eq!(
        get_health(&channel(10_000), &balances(&[("a", 3)]), &balances(&[("a", 2)])),
        666
    );
    // they hold at least as much in sum as we do
    assert_eq!(get_health(&channel(10_000), &ours, &balances(&[("z", 1000)])), 1000);
    assert_eq!(get_health(&channel(10_000), &ours, &balances(&[("z", 999)])), 0);
}
