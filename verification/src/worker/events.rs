//! The event merger: folds event aggregates into the leader's accounting.
//!
//! Payouts are credited one after the other, aggregates in the order given,
//! event types and addresses in ascending order. Each credit is cut down to
//! what is left of the deposit, so the balances never sum to more than the
//! deposit, and no balance ever goes down.

use crate::primitives::balances_map::BalancesMap;
use crate::primitives::big_num::BigNum;
use crate::primitives::channel::Channel;
use crate::primitives::error::DomainError;
use crate::primitives::sentry::{AggregateEvents, EventAggregate};
use crate::primitives::string_map::{
    amount_at, key_order, lemma_map_sum_insert, map_sum, StringMap,
};
use crate::primitives::validator::Accounting;
use crate::worker::fees::{
    channel_balances_after_fees, channel_fees_fail, fees_failure_text,
    get_balances_after_fees_tree,
};
use vstd::prelude::*;

verus! {

/// The smaller of two numbers.
pub open spec fn min_nat(a: nat, b: nat) -> nat {
    if a <= b {
        a
    } else {
        b
    }
}

/// What is left of `deposit` once the balances `m` are taken out of it.
pub open spec fn remaining(m: Map<Seq<char>, nat>, deposit: nat) -> nat {
    if deposit > map_sum(m) {
        (deposit - map_sum(m)) as nat
    } else {
        0
    }
}

/// `m` after `payout` is credited to `k`, as far as the deposit allows.
pub open spec fn credit_capped(m: Map<Seq<char>, nat>, k: Seq<char>, payout: nat, deposit: nat) -> Map<
    Seq<char>,
    nat,
> {
    m.insert(k, amount_at(m, k) + min_nat(payout, remaining(m, deposit)))
}

/// `m` after the first `n` of `payouts`, in ascending order of the addresses,
/// are credited.
pub open spec fn merge_payouts(
    m: Map<Seq<char>, nat>,
    payouts: Map<Seq<char>, nat>,
    n: int,
    deposit: nat,
) -> Map<Seq<char>, nat>
    decreases n,
{
    if n <= 0 {
        m
    } else {
        let k = key_order(payouts.dom())[n - 1];
        credit_capped(merge_payouts(m, payouts, n - 1, deposit), k, payouts[k], deposit)
    }
}

/// `m` after the payouts of the first `n` event types of `events`, in
/// ascending order of the types, are credited.
pub open spec fn merge_events(
    m: Map<Seq<char>, nat>,
    events: Map<Seq<char>, AggregateEvents>,
    n: int,
    deposit: nat,
) -> Map<Seq<char>, nat>
    decreases n,
{
    if n <= 0 {
        m
    } else {
        let payouts = events[key_order(events.dom())[n - 1]].event_payouts@;
        merge_payouts(
            merge_events(m, events, n - 1, deposit),
            payouts,
            payouts.dom().len() as int,
            deposit,
        )
    }
}

/// `m` after all payouts of one aggregate's `events` are credited.
pub open spec fn merge_all_events(
    m: Map<Seq<char>, nat>,
    events: Map<Seq<char>, AggregateEvents>,
    deposit: nat,
) -> Map<Seq<char>, nat> {
    merge_events(m, events, events.dom().len() as int, deposit)
}

/// `m` after the first `n` of `aggregates` are merged in.
pub open spec fn merge_aggregates(
    m: Map<Seq<char>, nat>,
    aggregates: Seq<EventAggregate>,
    n: int,
    deposit: nat,
) -> Map<Seq<char>, nat>
    decreases n,
{
    if n <= 0 {
        m
    } else {
        merge_all_events(
            merge_aggregates(m, aggregates, n - 1, deposit),
            aggregates[n - 1].events@,
            deposit,
        )
    }
}

/// The latest of `start` and the moments at which the first `n` of
/// `aggregates` were made.
pub open spec fn latest(start: i64, aggregates: Seq<EventAggregate>, n: int) -> i64
    decreases n,
{
    if n <= 0 {
        start
    } else {
        let before = latest(start, aggregates, n - 1);
        if aggregates[n - 1].created > before {
            aggregates[n - 1].created
        } else {
            before
        }
    }
}

/// Every address of `before` is in `after` with at least as much.
pub open spec fn covers(after: Map<Seq<char>, nat>, before: Map<Seq<char>, nat>) -> bool {
    forall|k: Seq<char>| #[trigger]
        before.dom().contains(k) ==> after.dom().contains(k) && after[k] >= before[k]
}

/// Balances that the deposit covers: finitely many, summing to no more than
/// the deposit.
pub open spec fn within(m: Map<Seq<char>, nat>, deposit: nat) -> bool {
    m.dom().finite() && map_sum(m) <= deposit
}

/// One capped credit keeps the balances within the deposit, takes nothing
/// from anyone, and adds exactly what it credits.
pub proof fn lemma_credit_capped(m: Map<Seq<char>, nat>, k: Seq<char>, payout: nat, deposit: nat)
    requires
        within(m, deposit),
    ensures
        within(credit_capped(m, k, payout, deposit), deposit),
        covers(credit_capped(m, k, payout, deposit), m),
        map_sum(credit_capped(m, k, payout, deposit)) == map_sum(m) + min_nat(
            payout,
            remaining(m, deposit),
        ),
{
    lemma_map_sum_insert(m, k, amount_at(m, k) + min_nat(payout, remaining(m, deposit)));
}

/// Crediting payouts keeps the balances within the deposit and takes
/// nothing from anyone.
pub proof fn lemma_merge_payouts(
    m: Map<Seq<char>, nat>,
    payouts: Map<Seq<char>, nat>,
    n: int,
    deposit: nat,
)
    requires
        within(m, deposit),
    ensures
        within(merge_payouts(m, payouts, n, deposit), deposit),
        covers(merge_payouts(m, payouts, n, deposit), m),
    decreases n,
{
    if n > 0 {
        lemma_merge_payouts(m, payouts, n - 1, deposit);
        let k = key_order(payouts.dom())[n - 1];
        lemma_credit_capped(merge_payouts(m, payouts, n - 1, deposit), k, payouts[k], deposit);
    }
}

/// Merging event types keeps the balances within the deposit and takes
/// nothing from anyone.
pub proof fn lemma_merge_events(
    m: Map<Seq<char>, nat>,
    events: Map<Seq<char>, AggregateEvents>,
    n: int,
    deposit: nat,
)
    requires
        within(m, deposit),
    ensures
        within(merge_events(m, events, n, deposit), deposit),
        covers(merge_events(m, events, n, deposit), m),
    decreases n,
{
    if n > 0 {
        lemma_merge_events(m, events, n - 1, deposit);
        let payouts = events[key_order(events.dom())[n - 1]].event_payouts@;
        lemma_merge_payouts(
            merge_events(m, events, n - 1, deposit),
            payouts,
            payouts.dom().len() as int,
            deposit,
        );
    }
}

/// Merging aggregates keeps the balances within the deposit and takes
/// nothing from anyone.
pub proof fn lemma_merge_aggregates(
    m: Map<Seq<char>, nat>,
    aggregates: Seq<EventAggregate>,
    n: int,
    deposit: nat,
)
    requires
        within(m, deposit),
    ensures
        within(merge_aggregates(m, aggregates, n, deposit), deposit),
        covers(merge_aggregates(m, aggregates, n, deposit), m),
    decreases n,
{
    if n > 0 {
        lemma_merge_aggregates(m, aggregates, n - 1, deposit);
        let events = aggregates[n - 1].events@;
        lemma_merge_events(
            merge_aggregates(m, aggregates, n - 1, deposit),
            events,
            events.dom().len() as int,
            deposit,
        );
    }
}

/// The latest moment is the start or one of the aggregates' moments, and
/// none of them is later.
pub proof fn lemma_latest(start: i64, aggregates: Seq<EventAggregate>, n: int)
    requires
        0 <= n <= aggregates.len(),
    ensures
        latest(start, aggregates, n) >= start,
        forall|i: int| 0 <= i < n ==> latest(start, aggregates, n) >= (#[trigger] aggregates[i]).created,
        latest(start, aggregates, n) == start || exists|i: int|
            0 <= i < n && latest(start, aggregates, n) == (#[trigger] aggregates[i]).created,
    decreases n,
{
    if n > 0 {
        lemma_latest(start, aggregates, n - 1);
        let before = latest(start, aggregates, n - 1);
        if aggregates[n - 1].created <= before && before != start {
            let i = choose|i: int|
                0 <= i < n - 1 && before == (#[trigger] aggregates[i]).created;
            assert(0 <= i < n && latest(start, aggregates, n) == aggregates[i].created);
        }
    }
}

/// Credits the payouts of all `events` of one aggregate to `balances`, each
/// cut down to what is left of `deposit`.
///
/// Fails exactly when `balances` already sum to more than `deposit`.
pub fn merge_payouts_into_balances(
    balances: &BalancesMap,
    events: &StringMap<AggregateEvents>,
    deposit: &BigNum,
) -> (r: Result<BalancesMap, DomainError>)
    ensures
        r.is_err() <==> balances.sum() > deposit@,
        r.is_err() ==> (r.unwrap_err() matches DomainError::RuleViolation(text) && text@
            == "remaining starts negative: total>depositAmount"@),
        r.is_ok() ==> r.unwrap()@ == merge_all_events(balances@, events@, deposit@),
        r.is_ok() ==> r.unwrap().sum() <= deposit@,
        r.is_ok() ==> covers(r.unwrap()@, balances@),
{
    let total = balances.total();
    let mut left = match deposit.checked_sub(&total) {
        Some(left) => left,
        None => {
            return Err(
                DomainError::RuleViolation(
                    "remaining starts negative: total>depositAmount".to_owned(),
                ),
            );
        },
    };
    let mut out = balances.clone();
    let _ = balances.len();
    let types: usize = events.len();
    let ghost d = deposit@;
    let mut e: usize = 0;
    while e < types
        invariant
            d == deposit@,
            types == events@.dom().len(),
            e <= types,
            within(balances@, d),
            out@ == merge_events(balances@, events@, e as int, d),
            within(out@, d),
            left@ == remaining(out@, d),
        decreases types - e,
    {
        let payouts = &events.value_at(e).event_payouts;
        let count: usize = payouts.len();
        let ghost base = out@;
        let mut p: usize = 0;
        while p < count
            invariant
                d == deposit@,
                count == payouts@.dom().len(),
                p <= count,
                within(base, d),
                out@ == merge_payouts(base, payouts@, p as int, d),
                within(out@, d),
                left@ == remaining(out@, d),
            decreases count - p,
        {
            let key = payouts.key_at(p);
            let payout = payouts.amount_at(p);
            let to_add = payout.min(&left);
            proof {
                lemma_credit_capped(out@, key@, payout@, d);
            }
            out.credit(key.clone(), &to_add);
            if let Some(rest) = left.checked_sub(&to_add) {
                left = rest;
            }
            p = p + 1;
        }
        e = e + 1;
    }
    proof {
        lemma_merge_events(balances@, events@, types as int, d);
    }
    Ok(out)
}

/// Merges `aggregates` into `accounting` and applies the fees of `channel`.
///
/// Returns the balances after fees together with the new accounting. Fails
/// when the balances before fees already exceed the deposit, or when the fees
/// cannot be applied to the merged balances.
pub fn merge_aggrs(accounting: &Accounting, aggregates: &[EventAggregate], channel: &Channel) -> (r:
    Result<(BalancesMap, Accounting), DomainError>)
    ensures
        r.is_err() <==> (accounting.balances_before_fees.sum() > channel.deposit_amount@
            || channel_fees_fail(
            merge_aggregates(
                accounting.balances_before_fees@,
                aggregates@,
                aggregates@.len() as int,
                channel.deposit_amount@,
            ),
            channel,
        )),
        r.is_err() ==> (r.unwrap_err() matches DomainError::RuleViolation(text) && text@ == (
        if accounting.balances_before_fees.sum() > channel.deposit_amount@ {
            "remaining starts negative: total>depositAmount"@
        } else {
            fees_failure_text(channel.deposit_amount@)
        })),
        r.is_ok() ==> ({
            let (balances, new_accounting) = r.unwrap();
            &&& new_accounting.balances_before_fees@ == merge_aggregates(
                accounting.balances_before_fees@,
                aggregates@,
                aggregates@.len() as int,
                channel.deposit_amount@,
            )
            &&& balances@ == channel_balances_after_fees(
                new_accounting.balances_before_fees@,
                channel,
            )
            &&& new_accounting.balances@ == balances@
            &&& new_accounting.last_event_aggregate == latest(
                accounting.last_event_aggregate,
                aggregates@,
                aggregates@.len() as int,
            )
            &&& new_accounting.balances_before_fees.sum() <= channel.deposit_amount@
            &&& balances.sum() == new_accounting.balances_before_fees.sum()
            &&& covers(new_accounting.balances_before_fees@, accounting.balances_before_fees@)
        }),
{
    let deposit = &channel.deposit_amount;
    let total = accounting.balances_before_fees.total();
    if deposit.lt(&total) {
        return Err(
            DomainError::RuleViolation("remaining starts negative: total>depositAmount".to_owned()),
        );
    }
    let _ = accounting.balances_before_fees.len();
    let count: usize = aggregates.len();
    let ghost start = accounting.balances_before_fees@;
    let ghost d = deposit@;
    let mut last_event_aggregate: i64 = accounting.last_event_aggregate;
    let mut balances_before_fees = accounting.balances_before_fees.clone();
    let mut i: usize = 0;
    while i < count
        invariant
            d == deposit@,
            count == aggregates@.len(),
            i <= count,
            start == accounting.balances_before_fees@,
            within(start, d),
            balances_before_fees@ == merge_aggregates(start, aggregates@, i as int, d),
            within(balances_before_fees@, d),
            last_event_aggregate == latest(
                accounting.last_event_aggregate,
                aggregates@,
                i as int,
            ),
        decreases count - i,
    {
        let aggregate = &aggregates[i];
        if aggregate.created > last_event_aggregate {
            last_event_aggregate = aggregate.created;
        }
        match merge_payouts_into_balances(&balances_before_fees, &aggregate.events, deposit) {
            Ok(merged) => {
                balances_before_fees = merged;
            },
            Err(e) => {
                return Err(e);
            },
        }
        let _ = balances_before_fees.len();
        i = i + 1;
    }
    proof {
        lemma_merge_aggregates(start, aggregates@, count as int, d);
    }
    match get_balances_after_fees_tree(&balances_before_fees, channel) {
        Ok(balances) => {
            let new_accounting = Accounting {
                last_event_aggregate,
                balances_before_fees,
                balances: balances.clone(),
            };
            Ok((balances, new_accounting))
        },
        Err(e) => Err(e),
    }
}

} // verus!
