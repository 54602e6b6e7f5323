//! The fee calculator: from balances before fees to balances after fees.
//!
//! Every earner keeps the part of its balance that the fee schedule leaves,
//! rounded down. What the earners give up is split between the validators in
//! proportion to their fees, rounded down. What that split leaves over goes to
//! the smallest address among the earners. So fees move money between
//! addresses and never make or lose any.

use crate::primitives::balances_map::BalancesMap;
use crate::primitives::big_num::BigNum;
use crate::primitives::channel::Channel;
use crate::primitives::error::DomainError;
use crate::primitives::string_map::{
    amount_at, is_key_order, key_order, keyed_sum, lemma_map_sum_by_keys, map_sum,
};
use vstd::prelude::*;

verus! {

/// What an earner keeps of `amount` when the validators together ask
/// `fee_total` out of a deposit of `deposit`.
pub open spec fn keep_share(amount: nat, fee_total: nat, deposit: nat) -> nat {
    if fee_total >= deposit {
        0
    } else {
        (amount * (deposit - fee_total) / deposit as int) as nat
    }
}

/// Every earner reduced to what it keeps.
pub open spec fn kept(m: Map<Seq<char>, nat>, fee_total: nat, deposit: nat) -> Map<Seq<char>, nat> {
    m.map_values(|a: nat| keep_share(a, fee_total, deposit))
}

/// What the earners of `m` give up together.
pub open spec fn collected(m: Map<Seq<char>, nat>, fee_total: nat, deposit: nat) -> nat {
    if map_sum(m) >= map_sum(kept(m, fee_total, deposit)) {
        (map_sum(m) - map_sum(kept(m, fee_total, deposit))) as nat
    } else {
        0
    }
}

/// The part of `collected` that goes to a validator with fee `fee`, when all
/// validators together ask `fee_total`.
pub open spec fn validator_credit(fee: nat, fee_total: nat, collected: nat) -> nat {
    if fee_total == 0 {
        0
    } else {
        collected * fee / fee_total
    }
}

/// `m` with `credit` added to what `id` has; unchanged when there is nothing
/// to add.
pub open spec fn credited(m: Map<Seq<char>, nat>, id: Seq<char>, credit: nat) -> Map<
    Seq<char>,
    nat,
> {
    if credit > 0 {
        m.insert(id, amount_at(m, id) + credit)
    } else {
        m
    }
}

/// `m` with what it lacks of `total` added to the smallest address among
/// `earners`.
pub open spec fn with_dust(m: Map<Seq<char>, nat>, total: nat, earners: Set<Seq<char>>) -> Map<
    Seq<char>,
    nat,
> {
    if total > map_sum(m) && earners.len() > 0 {
        let k = key_order(earners)[0];
        m.insert(k, (amount_at(m, k) + total - map_sum(m)) as nat)
    } else {
        m
    }
}

/// The balances after fees.
pub open spec fn balances_after_fees(
    m: Map<Seq<char>, nat>,
    leader_id: Seq<char>,
    leader_fee: nat,
    follower_id: Seq<char>,
    follower_fee: nat,
    deposit: nat,
) -> Map<Seq<char>, nat> {
    let fee_total = leader_fee + follower_fee;
    let fee = collected(m, fee_total, deposit);
    let earners = kept(m, fee_total, deposit);
    let with_leader = credited(earners, leader_id, validator_credit(leader_fee, fee_total, fee));
    let with_both = credited(
        with_leader,
        follower_id,
        validator_credit(follower_fee, fee_total, fee),
    );
    with_dust(with_both, map_sum(m), m.dom())
}

/// When fees cannot be applied: the deposit is zero, or the validators ask
/// more than the whole deposit while something has been paid out, so that the
/// fee would exceed what the earners hold.
pub open spec fn fees_fail(m: Map<Seq<char>, nat>, leader_fee: nat, follower_fee: nat, deposit: nat) -> bool {
    deposit == 0 || (leader_fee + follower_fee > deposit && map_sum(m) > 0)
}

/// What a failure of the fees says: a zero deposit is named first.
pub open spec fn fees_failure_text(deposit: nat) -> Seq<char> {
    if deposit == 0 {
        "the deposit is zero"@
    } else {
        "the fees exceed what has been paid out"@
    }
}

/// The balances of `channel` after fees, from the balances `m` before fees.
pub open spec fn channel_balances_after_fees(m: Map<Seq<char>, nat>, channel: &Channel) -> Map<
    Seq<char>,
    nat,
> {
    balances_after_fees(
        m,
        channel.spec.validators.leader.id@,
        channel.spec.validators.leader.fee@,
        channel.spec.validators.follower.id@,
        channel.spec.validators.follower.fee@,
        channel.deposit_amount@,
    )
}

/// Whether fees cannot be applied to the balances `m` of `channel`.
pub open spec fn channel_fees_fail(m: Map<Seq<char>, nat>, channel: &Channel) -> bool {
    fees_fail(
        m,
        channel.spec.validators.leader.fee@,
        channel.spec.validators.follower.fee@,
        channel.deposit_amount@,
    )
}

proof fn lemma_floor_times(x: nat, d: nat)
    requires
        d > 0,
    ensures
        (x / d) * d <= x,
{
    vstd::arithmetic::div_mod::lemma_fundamental_div_mod(x as int, d as int);
    vstd::arithmetic::div_mod::lemma_mod_bound(x as int, d as int);
    assert((x / d) * d == d * (x as int / d as int)) by (nonlinear_arith);
}

/// No earner keeps more than it had.
proof fn lemma_keep_le(amount: nat, rest: nat, d: nat)
    requires
        d > 0,
        rest <= d,
    ensures
        amount * rest / d <= amount,
{
    lemma_floor_times(amount * rest, d);
    let q = amount * rest / d;
    assert(q <= amount) by (nonlinear_arith)
        requires
            q * d <= amount * rest,
            rest <= d,
            d > 0,
    ;
}

/// The validators together get no more than was collected.
proof fn lemma_split(fee: nat, fl: nat, ff: nat)
    requires
        fl + ff > 0,
    ensures
        fee * fl / (fl + ff) + fee * ff / (fl + ff) <= fee,
{
    let f = fl + ff;
    lemma_floor_times(fee * fl, f);
    lemma_floor_times(fee * ff, f);
    let a = fee * fl / f;
    let b = fee * ff / f;
    assert(a + b <= fee) by (nonlinear_arith)
        requires
            a * f <= fee * fl,
            b * f <= fee * ff,
            f == fl + ff,
            f > 0,
    ;
}

/// Applies the fee schedule of `channel` to `balances`.
///
/// Fails when the deposit is zero, or when the fees exceed the deposit while
/// something has been paid out. Otherwise the result is
/// [`balances_after_fees`], and it sums to what `balances` sums to.
pub fn get_balances_after_fees_tree(balances: &BalancesMap, channel: &Channel) -> (r: Result<
    BalancesMap,
    DomainError,
>)
    ensures
        r.is_err() <==> channel_fees_fail(balances@, channel),
        r.is_err() ==> (r.unwrap_err() matches DomainError::RuleViolation(text) && text@
            == fees_failure_text(channel.deposit_amount@)),
        r.is_ok() ==> r.unwrap()@ == channel_balances_after_fees(balances@, channel),
        r.is_ok() ==> r.unwrap().sum() == balances.sum(),
{
    let deposit = &channel.deposit_amount;
    let leader = &channel.spec.validators.leader;
    let follower = &channel.spec.validators.follower;
    let total = balances.total();
    let fee_total = leader.fee.plus(&follower.fee);
    if deposit.is_zero() {
        return Err(DomainError::RuleViolation("the deposit is zero".to_owned()));
    }
    if deposit.lt(&fee_total) && !total.is_zero() {
        return Err(
            DomainError::RuleViolation("the fees exceed what has been paid out".to_owned()),
        );
    }
    let rest = match deposit.checked_sub(&fee_total) {
        Some(rest) => rest,
        None => BigNum::zero(),
    };
    let n: usize = balances.len();
    let ghost m = balances@;
    let ghost keys = key_order(m.dom());
    let ghost d = deposit@;
    let ghost f = fee_total@;
    let ghost m1 = kept(m, f, d);
    assert(m1.dom() =~= m.dom());
    let mut out = BalancesMap::new();
    let mut i: usize = 0;
    while i < n
        invariant
            m == balances@,
            n == m.dom().len(),
            n == keys.len(),
            keys == key_order(m.dom()),
            is_key_order(m.dom(), keys),
            m.dom().finite(),
            d == deposit@,
            d > 0,
            f == fee_total@,
            rest@ == (if f >= d { 0 } else { d - f }),
            m1 == kept(m, f, d),
            i <= n,
            forall|k: Seq<char>| out@.dom().contains(k) <==> exists|j: int| 0 <= j < i && keys[j] == k,
            forall|k: Seq<char>| out@.dom().contains(k) ==> out@[k] == m1[k],
            keyed_sum(m1, keys, i as int) <= keyed_sum(m, keys, i as int),
        decreases n - i,
    {
        let ghost before = out@;
        let key = balances.key_at(i);
        let amount = balances.amount_at(i);
        let keep = amount.times(&rest).div_floor(deposit);
        proof {
            assert(keys.contains(keys[i as int]));
            assert(m1[keys[i as int]] == keep@);
            lemma_keep_le(amount@, rest@, d);
        }
        out.set(key.clone(), keep);
        proof {
            assert forall|k: Seq<char>| out@.dom().contains(k) <==> exists|j: int|
                0 <= j < i + 1 && keys[j] == k by {
                if before.dom().contains(k) {
                    let j = choose|j: int| 0 <= j < i && keys[j] == k;
                    assert(0 <= j < i + 1 && keys[j] == k);
                }
                if k == keys[i as int] {
                    assert(0 <= i < i + 1 && keys[i as int] == k);
                }
            }
        }
        i = i + 1;
    }
    proof {
        assert forall|k: Seq<char>| out@.dom().contains(k) <==> m1.dom().contains(k) by {
            if m.dom().contains(k) {
                assert(keys.contains(k));
                let j = choose|j: int| 0 <= j < keys.len() && keys[j] == k;
                assert(0 <= j < i && keys[j] == k);
            }
            if out@.dom().contains(k) {
                let j = choose|j: int| 0 <= j < i && keys[j] == k;
                assert(keys.contains(k));
            }
        }
        assert(out@ =~= m1);
        lemma_map_sum_by_keys(m, keys);
        lemma_map_sum_by_keys(m1, keys);
    }
    let fee = match total.checked_sub(&out.total()) {
        Some(fee) => fee,
        None => BigNum::zero(),
    };
    let mut leader_credit = BigNum::zero();
    let mut follower_credit = BigNum::zero();
    if !fee_total.is_zero() {
        leader_credit = fee.times(&leader.fee).div_floor(&fee_total);
        follower_credit = fee.times(&follower.fee).div_floor(&fee_total);
        proof {
            lemma_split(fee@, leader.fee@, follower.fee@);
        }
    }
    if !leader_credit.is_zero() {
        out.credit(leader.id.clone(), &leader_credit);
    }
    if !follower_credit.is_zero() {
        out.credit(follower.id.clone(), &follower_credit);
    }
    if let Some(dust) = total.checked_sub(&out.total()) {
        if !dust.is_zero() && n > 0 {
            let smallest = balances.key_at(0).clone();
            out.credit(smallest, &dust);
        }
    }
    Ok(out)
}

} // verus!
