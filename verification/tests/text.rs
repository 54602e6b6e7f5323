use validator_worker::primitives::balances_map::BalancesMap;
use validator_worker::primitives::big_num::BigNum;
use validator_worker::primitives::string_map::StringMap;
use validator_worker::primitives::text::{
    digit_text, ends_with, i64_to_string, starts_with, str_order, str_same, u64_to_string, Order,
};

#[test]
fn order_of_strings() {
    assert_eq!(str_order("a", "b"), Order::Before);
    assert_eq!(str_order("b", "a"), Order::After);
    assert_eq!(str_order("a", "a"), Order::Same);
    assert_eq!(str_order("", ""), Order::Same);
    assert_eq!(str_order("", "a"), Order::Before);
    assert_eq!(str_order("a", ""), Order::After);
    assert_eq!(str_order("a", "awesomeLeader"), Order::Before);
    assert_eq!(str_order("0xce07", "a"), Order::Before);
    assert_eq!(str_order("Z", "a"), Order::Before);
    assert_eq!(str_order("é", "z"), Order::After);
    assert_eq!(str_order("abc", "abd"), Order::Before);
}

#[test]
fn order_agrees_with_the_order_of_str() {
    let words = ["", "a", "ab", "b", "B", "0x1", "é", "zz", "z", "日本"];
    for a in words {
        for b in words {
            let expected = match a.cmp(b) {
                std::cmp::Ordering::Less => Order::Before,
                std::cmp::Ordering::Equal => Order::Same,
                std::cmp::Ordering::Greater => Order::After,
            };
            assert_eq!(str_order(a, b), expected, "{:?} against {:?}", a, b);
            assert_eq!(str_same(a, b), a == b);
        }
    }
}

#[test]
fn numbers_in_decimal() {
    assert_eq!(u64_to_string(0), "0");
    assert_eq!(u64_to_string(9), "9");
    assert_eq!(u64_to_string(10), "10");
    assert_eq!(u64_to_string(1_570_000_000), "1570000000");
    assert_eq!(u64_to_string(u64::MAX), "18446744073709551615");
    assert_eq!(i64_to_string(0), "0");
    assert_eq!(i64_to_string(-1), "-1");
    assert_eq!(i64_to_string(i64::MAX), "9223372036854775807");
    assert_eq!(i64_to_string(i64::MIN), "-9223372036854775808");
    assert_eq!(digit_text(7), "7");
}

#[test]
fn prefixes() {
    assert!(starts_with("/channel/list", "/channel"));
    assert!(starts_with("/channel", "/channel"));
    assert!(starts_with("anything", ""));
    assert!(!starts_with("/chan", "/channel"));
    assert!(!starts_with("/Channel/list", "/channel"));
    assert!(!starts_with("", "a"));
}

#[test]
fn suffixes() {
    assert!(ends_with("signed by leader", " by leader"));
    assert!(ends_with("leader", "leader"));
    assert!(ends_with("anything", ""));
    assert!(ends_with("", ""));
    assert!(!ends_with("leader", " by leader"));
    assert!(!ends_with("signed by leader ", "leader"));
    assert!(!ends_with("signed by Leader", "leader"));
    assert!(ends_with("cödé", "dé"));
}

#[test]
fn string_map_keeps_keys_sorted_and_unique() {
    let mut map: StringMap<u32> = StringMap::new();
    assert_eq!(map.len(), 0);
    assert_eq!(map.get("a"), None);
    for (k, v) in [("m", 1), ("a", 2), ("z", 3), ("b", 4), ("a", 5)] {
        map.insert(k.to_string(), v);
    }
    assert_eq!(map.len(), 4);
    let keys: Vec<&str> = (0..map.len()).map(|i| map.key_at(i).as_str()).collect();
    let values: Vec<u32> = (0..map.len()).map(|i| *map.value_at(i)).collect();
    assert_eq!(keys, vec!["a", "b", "m", "z"]);
    assert_eq!(values, vec![5, 4, 1, 3]);
    assert_eq!(map.get("a"), Some(&5));
    assert_eq!(map.get("c"), None);
    assert!(map.contains_key("z"));
    assert!(!map.contains_key(""));
    assert_eq!(map.place("a"), (0, true));
    assert_eq!(map.place("c"), (2, false));
    assert_eq!(map.place("zz"), (4, false));
}

#[test]
fn balances_map_operations() {
    let mut map = BalancesMap::new();
    assert_eq!(map.len(), 0);
    assert!(map.total().is_zero());
    assert!(map.get("a").is_zero());
    map.set("b".to_string(), BigNum::from_u64(200));
    map.set("a".to_string(), BigNum::from_u64(100));
    map.credit("a".to_string(), &BigNum::from_u64(50));
    map.credit("c".to_string(), &BigNum::from_u64(0));
    map.credit("d".to_string(), &BigNum::from_u64(7));
    assert_eq!(map.len(), 4);
    assert_eq!(map.total().to_u64(), Some(357));
    assert_eq!(map.get("a").to_u64(), Some(150));
    assert_eq!(map.get("c").to_u64(), Some(0));
    assert!(map.contains_key("c"));
    assert!(!map.contains_key("e"));
    assert_eq!(map.key_at(0), "a");
    assert_eq!(map.amount_at(3).to_u64(), Some(7));
    map.set("a".to_string(), BigNum::from_u64(1));
    assert_eq!(map.total().to_u64(), Some(208));
    let copy = map.clone();
    assert_eq!(copy.len(), 4);
    assert_eq!(copy.get("b").to_u64(), Some(200));
}
