//! What a sentry stores and answers with.

use crate::primitives::balances_map::BalancesMap;
use crate::primitives::big_num::BigNum;
use crate::primitives::channel::{Channel, ChannelId};
use crate::primitives::string_map::StringMap;
use crate::primitives::validator::{ApproveState, Heartbeat, MessageTypes, NewState};
use vstd::prelude::*;

verus! {

/// The last state that both validators agreed on.
#[derive(Debug)]
pub struct LastApproved {
    /// The leader's proposal.
    pub new_state: NewState,
    /// The follower's approval of it.
    pub approved_state: ApproveState,
}

/// One who earns a share of an impression.
#[derive(Debug)]
pub struct Earner {
    pub address: String,
    pub promilles: u64,
}

/// An event that a client reports on a channel.
#[derive(Debug)]
pub enum Event {
    Impression { publisher: String, ad_unit: Option<String> },
    ImpressionWithCommission { earners: Vec<Earner> },
    /// Only the creator can send this event.
    UpdateImpressionPrice { price: BigNum },
    /// Only the creator can send this event.
    Pay { outputs: BalancesMap },
    /// Only the creator can send this event.
    PauseChannel,
    /// Only the creator can send this event.
    Close,
}

/// The events of one type, summed per address: how many there were and what
/// they pay. Payouts feed the balances; counts feed analytics only.
#[derive(Debug)]
pub struct AggregateEvents {
    pub event_counts: BalancesMap,
    pub event_payouts: BalancesMap,
}

/// The events of a channel that a sentry has summed up at one moment, by
/// event type.
#[derive(Debug)]
pub struct EventAggregate {
    pub channel_id: ChannelId,
    /// Milliseconds since the Unix epoch.
    pub created: i64,
    pub events: StringMap<AggregateEvents>,
}

/// One page of the channels that a sentry lists.
#[derive(Debug)]
pub struct ChannelAllResponse {
    pub channels: Vec<Channel>,
    pub total_pages: u64,
}

/// The answer to a question for the last approved state, with the latest
/// heartbeats where they were asked for.
#[derive(Debug)]
pub struct LastApprovedResponse {
    pub last_approved: Option<LastApproved>,
    pub heartbeats: Option<Vec<Heartbeat>>,
}

/// The answer to a request that changes something.
#[derive(Debug)]
pub struct SuccessResponse {
    pub success: bool,
}

/// Messages of one validator as its sentry received them.
#[derive(Debug)]
pub struct ValidatorMessageResponse {
    pub from: String,
    /// Milliseconds since the Unix epoch.
    pub received: i64,
    pub msg: Vec<MessageTypes>,
}

/// The event aggregates that a sentry answers with.
#[derive(Debug)]
pub struct EventAggregateResponse {
    pub events: Vec<EventAggregate>,
}

} // verus!
