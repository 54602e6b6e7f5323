//! The producer: brings the accounting of a channel up to date.

use crate::primitives::balances_map::BalancesMap;
use crate::primitives::channel::Channel;
use crate::primitives::error::DomainError;
use crate::primitives::sentry::EventAggregate;
use crate::primitives::validator::{Accounting, MessageTypes};
use crate::worker::events::{covers, latest, merge_aggregates, merge_aggrs};
use crate::worker::fees::{channel_balances_after_fees, channel_fees_fail, fees_failure_text};
use vstd::prelude::*;

verus! {

/// How a tick of the producer ended.
#[derive(Debug)]
pub enum TickStatus {
    /// New aggregates were merged: the balances after fees, and the
    /// accounting to be stored.
    Sent { balances: BalancesMap, new_accounting: Accounting },
    /// There was nothing new: the balances as they were.
    NoNewEventAggr(BalancesMap),
}

impl TickStatus {
    /// The balances after fees that the tick ended with.
    pub open spec fn balances(&self) -> Map<Seq<char>, nat> {
        match *self {
            TickStatus::Sent { balances, new_accounting } => balances@,
            TickStatus::NoNewEventAggr(balances) => balances@,
        }
    }

    /// The balances after fees that the tick ended with.
    pub fn get_balances(&self) -> (r: &BalancesMap)
        ensures
            r@ == self.balances(),
    {
        match self {
            TickStatus::Sent { balances, new_accounting } => balances,
            TickStatus::NoNewEventAggr(balances) => balances,
        }
    }
}

/// The accounting to start from: the one in `latest` where the sentry had
/// one, and else an accounting without balances at the start of time.
pub fn accounting_of(latest: Option<MessageTypes>) -> (r: Accounting)
    ensures
        match latest {
            Some(MessageTypes::Accounting(a)) => r == a,
            _ => r.last_event_aggregate == 0 && r.balances_before_fees@ == Map::<
                Seq<char>,
                nat,
            >::empty() && r.balances@ == Map::<Seq<char>, nat>::empty(),
        },
{
    match latest {
        Some(MessageTypes::Accounting(a)) => a,
        _ => Accounting {
            last_event_aggregate: 0,
            balances_before_fees: BalancesMap::new(),
            balances: BalancesMap::new(),
        },
    }
}

/// What the producer makes of the aggregates that came after the last one
/// in `accounting`.
///
/// Without aggregates nothing changes. With aggregates they are merged and
/// the fees applied; that fails as [`merge_aggrs`] does.
pub fn on_aggregates(accounting: &Accounting, aggregates: &[EventAggregate], channel: &Channel) -> (r:
    Result<TickStatus, DomainError>)
    ensures
        aggregates@.len() == 0 ==> r.is_ok() && r.unwrap() is NoNewEventAggr
            && r.unwrap().balances() == accounting.balances@,
        aggregates@.len() > 0 ==> (r.is_err() <==> (accounting.balances_before_fees.sum()
            > channel.deposit_amount@ || channel_fees_fail(
            merge_aggregates(
                accounting.balances_before_fees@,
                aggregates@,
                aggregates@.len() as int,
                channel.deposit_amount@,
            ),
            channel,
        ))),
        aggregates@.len() > 0 && r.is_ok() ==> (match r.unwrap() {
            TickStatus::Sent { balances, new_accounting } => {
                &&& new_accounting.balances_before_fees@ == merge_aggregates(
                    accounting.balances_before_fees@,
                    aggregates@,
                    aggregates@.len() as int,
                    channel.deposit_amount@,
                )
                &&& balances@ == channel_balances_after_fees(
                    new_accounting.balances_before_fees@,
                    channel,
                )
                &&& new_accounting.balances@ == balances@
                &&& new_accounting.last_event_aggregate == latest(
                    accounting.last_event_aggregate,
                    aggregates@,
                    aggregates@.len() as int,
                )
                &&& new_accounting.balances_before_fees.sum() <= channel.deposit_amount@
                &&& balances.sum() == new_accounting.balances_before_fees.sum()
                &&& covers(new_accounting.balances_before_fees@, accounting.balances_before_fees@)
            },
            TickStatus::NoNewEventAggr(_) => false,
        }),
        r.is_err() ==> (r.unwrap_err() matches DomainError::RuleViolation(text) && text@ == (
        if accounting.balances_before_fees.sum() > channel.deposit_amount@ {
            "remaining starts negative: total>depositAmount"@
        } else {
            fees_failure_text(channel.deposit_amount@)
        })),
{
    if aggregates.len() == 0 {
        return Ok(TickStatus::NoNewEventAggr(accounting.balances.clone()));
    }
    match merge_aggrs(accounting, aggregates, channel) {
        Ok((balances, new_accounting)) => Ok(TickStatus::Sent { balances, new_accounting }),
        Err(e) => Err(e),
    }
}

/// The message with which a new accounting is stored.
pub fn accounting_message(new_accounting: &Accounting) -> (r: MessageTypes)
    ensures
        match r {
            MessageTypes::Accounting(a) => a.last_event_aggregate
                == new_accounting.last_event_aggregate && a.balances_before_fees@
                == new_accounting.balances_before_fees@ && a.balances@ == new_accounting.balances@,
            _ => false,
        },
{
    MessageTypes::Accounting(new_accounting.clone())
}

} // verus!
