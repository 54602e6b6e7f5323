//! The leader: proposes a new state whenever the accounting has moved.

use crate::primitives::adapter::{Adapter, AdapterError};
use crate::primitives::balances_map::BalancesMap;
use crate::primitives::channel::Channel;
use crate::primitives::encoding::{hex_string, to_hex};
use crate::primitives::error::DomainError;
use crate::primitives::validator::{Accounting, MessageTypes, NewState};
use crate::worker::error::TickError;
use crate::worker::heartbeat::HeartbeatStatus;
use crate::worker::producer;
use crate::worker::sentry_interface::PropagationResult;
use crate::worker::state_root::{get_state_root_hash, hashable, state_root};
use vstd::prelude::*;

verus! {

/// What became of the new state of a tick.
#[derive(Debug)]
pub enum NewStateResult {
    /// It was sent: the result of each delivery.
    Sent(Vec<PropagationResult>),
    /// The conditions for sending a new state have not been met.
    NotSent,
}

/// How a tick of the leader ended.
#[derive(Debug)]
pub struct TickStatus {
    pub heartbeat: HeartbeatStatus,
    pub new_state: NewStateResult,
    pub producer_tick: producer::TickStatus,
}

/// The text of the state root of the balances `m` on the channel
/// `channel_id`.
pub open spec fn state_root_text(channel_id: Seq<u8>, m: Map<Seq<char>, nat>) -> Seq<char> {
    hex_string(state_root(channel_id, m))
}

/// The state root of `balances` on `channel`, as hexadecimal text.
///
/// Fails exactly when the balances cannot be hashed.
pub fn state_root_hex(channel: &Channel, balances: &BalancesMap) -> (r: Result<String, DomainError>)
    ensures
        r.is_ok() <==> hashable(balances@),
        r.is_ok() ==> r.unwrap()@ == state_root_text(channel.id.bytes@, balances@),
        r.is_err() ==> r.unwrap_err() is InvalidArgument,
{
    match get_state_root_hash(channel, balances) {
        Ok(root) => Ok(to_hex(&root)),
        Err(e) => Err(e),
    }
}

/// The proposal of `balances` under `state_root`, given what the adapter
/// made of the request to sign the root.
pub fn new_state_message(
    state_root: String,
    signed: Result<String, AdapterError>,
    balances: &BalancesMap,
) -> (r: Result<MessageTypes, TickError>)
    ensures
        signed.is_err() ==> r == Err::<MessageTypes, TickError>(
            TickError::Adapter(signed.unwrap_err()),
        ),
        signed.is_ok() ==> r.is_ok() && is_new_state(
            r.unwrap(),
            state_root@,
            signed.unwrap(),
            balances@,
        ),
{
    match signed {
        Ok(signature) => Ok(
            MessageTypes::NewState(NewState { state_root, signature, balances: balances.clone() }),
        ),
        Err(e) => Err(TickError::Adapter(e)),
    }
}

/// `message` proposes the balances `m` under `root`, signed with
/// `signature`.
pub open spec fn is_new_state(
    message: MessageTypes,
    root: Seq<char>,
    signature: String,
    m: Map<Seq<char>, nat>,
) -> bool {
    match message {
        MessageTypes::NewState(s) => s.state_root@ == root && s.signature == signature
            && s.balances@ == m,
        _ => false,
    }
}

/// `message` proposes the balances `m` under `root`, whatever its
/// signature.
pub open spec fn proposes(message: MessageTypes, root: Seq<char>, m: Map<Seq<char>, nat>) -> bool {
    match message {
        MessageTypes::NewState(s) => s.state_root@ == root && s.balances@ == m,
        _ => false,
    }
}

/// The proposal that follows a new accounting: the state root of
/// `balances`, signed, with the balances of `new_accounting`.
///
/// Balances that cannot be hashed fail before anything is signed, and
/// nothing else fails here. Whether signing succeeds is up to the adapter.
pub fn on_new_accounting<A: Adapter>(
    adapter: &A,
    channel: &Channel,
    balances: &BalancesMap,
    new_accounting: &Accounting,
) -> (r: Result<MessageTypes, TickError>)
    ensures
        !hashable(balances@) ==> r.is_err() && r.unwrap_err() is Domain,
        hashable(balances@) && r.is_err() ==> r.unwrap_err() is Adapter,
        r.is_ok() ==> proposes(
            r.unwrap(),
            state_root_text(channel.id.bytes@, balances@),
            new_accounting.balances@,
        ),
{
    let state_root = match state_root_hex(channel, balances) {
        Ok(root) => root,
        Err(e) => {
            return Err(TickError::Domain(e));
        },
    };
    let signed = adapter.sign(state_root.as_str());
    new_state_message(state_root, signed, &new_accounting.balances)
}

/// What the leader sends after a tick of the producer: a proposal where the
/// accounting moved, nothing where it did not.
pub fn on_producer_tick<A: Adapter>(
    adapter: &A,
    channel: &Channel,
    producer_tick: &producer::TickStatus,
) -> (r: Result<Option<MessageTypes>, TickError>)
    ensures
        producer_tick is NoNewEventAggr ==> r.is_ok() && r.unwrap().is_none(),
        producer_tick is Sent && r.is_ok() ==> r.unwrap().is_some() && proposes(
            r.unwrap().unwrap(),
            state_root_text(channel.id.bytes@, producer_tick.balances()),
            producer_tick->new_accounting.balances@,
        ),
        producer_tick is Sent && !hashable(producer_tick.balances()) ==> r.is_err()
            && r.unwrap_err() is Domain,
        producer_tick is Sent && hashable(producer_tick.balances()) && r.is_err()
            ==> r.unwrap_err() is Adapter,
{
    match producer_tick {
        producer::TickStatus::Sent { balances, new_accounting } => {
            match on_new_accounting(adapter, channel, balances, new_accounting) {
                Ok(message) => Ok(Some(message)),
                Err(e) => Err(e),
            }
        },
        producer::TickStatus::NoNewEventAggr(_) => Ok(None),
    }
}

/// The result of a tick's new state, from the deliveries of its proposal.
pub fn new_state_result(propagation: Option<Vec<PropagationResult>>) -> (r: NewStateResult)
    ensures
        match propagation {
            Some(results) => r == NewStateResult::Sent(results),
            None => r is NotSent,
        },
{
    match propagation {
        Some(results) => NewStateResult::Sent(results),
        None => NewStateResult::NotSent,
    }
}

} // verus!
