//! The follower: checks what the leader proposes, and approves or rejects.
//!
//! A proposal is judged in two steps. First its own soundness: the state
//! root must be the root of the balances it carries, and the signature must
//! be the leader's. Then, with the last approved balances at hand, its
//! merit: nobody may lose anything, the deposit must cover the balances, and
//! the balances must be close enough to what the follower itself has seen.

use crate::primitives::adapter::{Adapter, AdapterError};
use crate::primitives::balances_map::BalancesMap;
use crate::primitives::channel::Channel;
use crate::primitives::clock::now_millis;
use crate::primitives::config::Config;
use crate::primitives::sentry::LastApprovedResponse;
use crate::primitives::text::str_same;
use crate::primitives::validator::{ApproveState, MessageTypes, NewState, RejectState};
use crate::worker::error::TickError;
use crate::worker::follower_rules::{get_health, health, is_valid_transition, valid_transition};
use crate::worker::heartbeat::HeartbeatStatus;
use crate::worker::leader::{state_root_hex, state_root_text};
use crate::worker::sentry_interface::PropagationResult;
use crate::worker::state_root::hashable;
use vstd::prelude::*;
use vstd::string::*;

verus! {

/// What is wrong with a proposed state.
#[derive(Clone, Copy, Debug, PartialEq, Eq, Structural)]
pub enum InvalidNewState {
    RootHash,
    Signature,
    Transition,
    Health,
}

/// What became of the follower's answer to a proposal.
#[derive(Debug)]
pub enum ApproveStateResult {
    /// The proposal was approved: the result of each delivery.
    Sent(Vec<PropagationResult>),
    /// The conditions for handling the new state have not been met.
    NotSent,
    /// The proposal was rejected: why, and the result of each delivery of
    /// the rejection.
    Rejected { new_state: InvalidNewState, reject_state_propagation: Vec<PropagationResult> },
}

/// How a tick of the follower ended.
#[derive(Debug)]
pub struct TickStatus {
    pub heartbeat: HeartbeatStatus,
    pub approve_state: ApproveStateResult,
}

/// Whether a proposal is sound in itself.
#[derive(Clone, Copy, Debug, PartialEq, Eq, Structural)]
pub enum Integrity {
    Invalid(InvalidNewState),
    Sound,
}

/// What to do with a sound proposal, before anything is signed.
#[derive(Clone, Copy, Debug, PartialEq, Eq, Structural)]
pub enum Assessment {
    Invalid(InvalidNewState),
    Sign { is_healthy: bool },
}

/// The follower's answer to a proposal.
#[derive(Debug)]
pub enum Verdict {
    Approve(MessageTypes),
    Reject(InvalidNewState),
}

/// The reason that a rejection gives.
pub open spec fn reason_text(kind: InvalidNewState) -> Seq<char> {
    match kind {
        InvalidNewState::RootHash => "InvalidRootHash"@,
        InvalidNewState::Signature => "InvalidSignature"@,
        InvalidNewState::Transition => "InvalidTransition"@,
        InvalidNewState::Health => "TooLowHealth"@,
    }
}

/// The reason that a rejection gives.
pub fn reason(kind: InvalidNewState) -> (r: String)
    ensures
        r@ == reason_text(kind),
{
    match kind {
        InvalidNewState::RootHash => String::from_str("InvalidRootHash"),
        InvalidNewState::Signature => String::from_str("InvalidSignature"),
        InvalidNewState::Transition => String::from_str("InvalidTransition"),
        InvalidNewState::Health => String::from_str("TooLowHealth"),
    }
}

/// The proposal in the leader's latest message, where it is one.
pub fn new_state_of(message: Option<MessageTypes>) -> (r: Option<NewState>)
    ensures
        match message {
            Some(MessageTypes::NewState(s)) => r == Some(s),
            _ => r.is_none(),
        },
{
    match message {
        Some(MessageTypes::NewState(s)) => Some(s),
        _ => None,
    }
}

/// The state root that our latest answer, an approval or a rejection, was
/// given to.
pub fn responded_root(message: Option<MessageTypes>) -> (r: Option<String>)
    ensures
        match message {
            Some(MessageTypes::ApproveState(a)) => r == Some(a.state_root),
            Some(MessageTypes::RejectState(j)) => r == Some(j.state_root),
            _ => r.is_none(),
        },
{
    match message {
        Some(MessageTypes::ApproveState(a)) => Some(a.state_root),
        Some(MessageTypes::RejectState(j)) => Some(j.state_root),
        _ => None,
    }
}

/// Whether the latest proposal has been answered already: there is a
/// proposal, there is an answer, and both name the same state root.
pub fn latest_is_responded_to(new_msg: &Option<NewState>, our_root: &Option<String>) -> (r: bool)
    ensures
        r == (new_msg.is_some() && our_root.is_some() && new_msg.unwrap().state_root@
            == our_root.unwrap()@),
{
    match (new_msg, our_root) {
        (Some(s), Some(root)) => str_same(s.state_root.as_str(), root.as_str()),
        _ => false,
    }
}

/// The balances that were approved last; none where nothing was.
pub fn previous_balances(response: LastApprovedResponse) -> (r: BalancesMap)
    ensures
        match response.last_approved {
            Some(last) => r == last.new_state.balances,
            None => r@ == Map::<Seq<char>, nat>::empty(),
        },
{
    match response.last_approved {
        Some(last) => last.new_state.balances,
        None => BalancesMap::new(),
    }
}

/// Whether the state root of a proposal is the root of its balances.
///
/// Fails exactly when the balances cannot be hashed.
pub fn root_hash_check(channel: &Channel, new_state: &NewState) -> (r: Result<bool, TickError>)
    ensures
        r.is_ok() <==> hashable(new_state.balances@),
        r.is_ok() ==> r.unwrap() == (new_state.state_root@ == state_root_text(
            channel.id.bytes@,
            new_state.balances@,
        )),
        r.is_err() ==> r.unwrap_err() is Domain,
{
    match state_root_hex(channel, &new_state.balances) {
        Ok(expected) => Ok(str_same(new_state.state_root.as_str(), expected.as_str())),
        Err(e) => Err(TickError::Domain(e)),
    }
}

/// What the adapter's answer on the signature means for a proposal whose
/// state root was right.
pub fn signature_verdict(verified: Result<bool, AdapterError>) -> (r: Result<Integrity, TickError>)
    ensures
        match verified {
            Ok(true) => r == Ok::<Integrity, TickError>(Integrity::Sound),
            Ok(false) => r == Ok::<Integrity, TickError>(
                Integrity::Invalid(InvalidNewState::Signature),
            ),
            Err(e) => r == Err::<Integrity, TickError>(TickError::Adapter(e)),
        },
{
    match verified {
        Ok(true) => Ok(Integrity::Sound),
        Ok(false) => Ok(Integrity::Invalid(InvalidNewState::Signature)),
        Err(e) => Err(TickError::Adapter(e)),
    }
}

/// Checks a proposal in itself: first its state root, then its signature.
///
/// A wrong state root is decided here. The signature is asked of the
/// adapter, and only where the state root was right.
pub fn check_proposal<A: Adapter>(adapter: &A, channel: &Channel, new_state: &NewState) -> (r:
    Result<Integrity, TickError>)
    ensures
        !hashable(new_state.balances@) ==> r.is_err() && r.unwrap_err() is Domain,
        hashable(new_state.balances@) && new_state.state_root@ != state_root_text(
            channel.id.bytes@,
            new_state.balances@,
        ) ==> r == Ok::<Integrity, TickError>(Integrity::Invalid(InvalidNewState::RootHash)),
        hashable(new_state.balances@) && new_state.state_root@ == state_root_text(
            channel.id.bytes@,
            new_state.balances@,
        ) ==> match r {
            Ok(Integrity::Sound) => true,
            Ok(Integrity::Invalid(kind)) => kind == InvalidNewState::Signature,
            Err(e) => e is Adapter,
        },
{
    match root_hash_check(channel, new_state) {
        Err(e) => Err(e),
        Ok(false) => Ok(Integrity::Invalid(InvalidNewState::RootHash)),
        Ok(true) => {
            let verified = adapter.verify(
                channel.spec.validators.leader.id.as_str(),
                new_state.state_root.as_str(),
                new_state.signature.as_str(),
            );
            signature_verdict(verified)
        },
    }
}

/// What a sound proposal of `next` deserves, when `prev` was approved last
/// and the follower itself has seen `ours`.
pub open spec fn assessment(
    deposit: nat,
    config: &Config,
    ours: Map<Seq<char>, nat>,
    prev: Map<Seq<char>, nat>,
    next: Map<Seq<char>, nat>,
) -> Assessment {
    if !valid_transition(deposit, prev, next) {
        Assessment::Invalid(InvalidNewState::Transition)
    } else if health(ours, next) < config.health_unsignable_promilles {
        Assessment::Invalid(InvalidNewState::Health)
    } else {
        Assessment::Sign { is_healthy: health(ours, next) >= config.health_threshold_promilles }
    }
}

/// Judges the balances of a sound proposal: the transition first, then the
/// health.
pub fn assess(
    channel: &Channel,
    config: &Config,
    our_balances: &BalancesMap,
    prev_balances: &BalancesMap,
    proposed_balances: &BalancesMap,
) -> (r: Assessment)
    ensures
        r == assessment(
            channel.deposit_amount@,
            config,
            our_balances@,
            prev_balances@,
            proposed_balances@,
        ),
{
    if !is_valid_transition(channel, prev_balances, proposed_balances) {
        return Assessment::Invalid(InvalidNewState::Transition);
    }
    let health: u64 = get_health(channel, our_balances, proposed_balances);
    if health < config.health_unsignable_promilles as u64 {
        return Assessment::Invalid(InvalidNewState::Health);
    }
    Assessment::Sign { is_healthy: health >= config.health_threshold_promilles as u64 }
}

/// `message` approves `root`, said to be healthy or not, with `signature`.
pub open spec fn is_approval(
    message: MessageTypes,
    root: Seq<char>,
    signature: String,
    is_healthy: bool,
) -> bool {
    match message {
        MessageTypes::ApproveState(a) => a.state_root@ == root && a.signature == signature
            && a.is_healthy == is_healthy,
        _ => false,
    }
}

/// `message` approves `root`, said to be healthy or not, whatever its
/// signature.
pub open spec fn approves(message: MessageTypes, root: Seq<char>, is_healthy: bool) -> bool {
    match message {
        MessageTypes::ApproveState(a) => a.state_root@ == root && a.is_healthy == is_healthy,
        _ => false,
    }
}

/// The approval of `state_root`, given what the adapter made of the request
/// to sign it.
pub fn approve_message(state_root: &String, signed: Result<String, AdapterError>, is_healthy: bool) -> (r:
    Result<MessageTypes, TickError>)
    ensures
        signed.is_err() ==> r == Err::<MessageTypes, TickError>(
            TickError::Adapter(signed.unwrap_err()),
        ),
        signed.is_ok() ==> r.is_ok() && is_approval(
            r.unwrap(),
            state_root@,
            signed.unwrap(),
            is_healthy,
        ),
{
    match signed {
        Ok(signature) => Ok(
            MessageTypes::ApproveState(
                ApproveState { state_root: state_root.clone(), signature, is_healthy },
            ),
        ),
        Err(e) => Err(TickError::Adapter(e)),
    }
}

/// Judges a sound proposal and, where it deserves it, signs the approval.
///
/// Rejections are decided here. Whether signing an approval succeeds is up
/// to the adapter.
pub fn judge_proposal<A: Adapter>(
    adapter: &A,
    channel: &Channel,
    config: &Config,
    our_balances: &BalancesMap,
    prev_balances: &BalancesMap,
    new_state: &NewState,
) -> (r: Result<Verdict, TickError>)
    ensures
        match assessment(
            channel.deposit_amount@,
            config,
            our_balances@,
            prev_balances@,
            new_state.balances@,
        ) {
            Assessment::Invalid(kind) => r.is_ok() && r.unwrap() == Verdict::Reject(kind),
            Assessment::Sign { is_healthy } => match r {
                Ok(Verdict::Approve(message)) => approves(
                    message,
                    new_state.state_root@,
                    is_healthy,
                ),
                Ok(Verdict::Reject(_)) => false,
                Err(e) => e is Adapter,
            },
        },
{
    match assess(channel, config, our_balances, prev_balances, &new_state.balances) {
        Assessment::Invalid(kind) => Ok(Verdict::Reject(kind)),
        Assessment::Sign { is_healthy } => {
            let signed = adapter.sign(new_state.state_root.as_str());
            match approve_message(&new_state.state_root, signed, is_healthy) {
                Ok(message) => Ok(Verdict::Approve(message)),
                Err(e) => Err(e),
            }
        },
    }
}

/// What the follower knows when it asks what to do next.
#[derive(Debug)]
pub enum Known<'a> {
    /// The latest proposal of the leader, and the state root of our latest
    /// answer.
    Latest { new_msg: &'a Option<NewState>, our_root: &'a Option<String> },
    /// A sound proposal that waits for an answer, our own balances, and the
    /// balances that were approved last.
    LastApproved {
        new_state: &'a NewState,
        our_balances: &'a BalancesMap,
        prev_balances: &'a BalancesMap,
    },
}

/// What the follower does next.
#[derive(Debug)]
pub enum Action {
    /// There is nothing to answer.
    SendNothing,
    /// The proposal is sound: ask for the last approved state, and come back
    /// with it.
    FetchLastApproved,
    /// Send a rejection for this reason.
    Reject(InvalidNewState),
    /// Send this approval.
    Approve(MessageTypes),
}

/// Whether there is a proposal that has no answer yet.
pub open spec fn awaits_answer(new_msg: Option<NewState>, our_root: Option<String>) -> bool {
    new_msg.is_some() && !(our_root.is_some() && new_msg.unwrap().state_root@
        == our_root.unwrap()@)
}

/// The next step of the follower, from what it knows so far.
///
/// Knowing the latest messages: without a proposal, or with one that is
/// answered already, nothing is sent; a proposal that is not sound in itself
/// is rejected; a sound one needs the last approved state. Knowing that
/// state: the proposal is rejected or approved as [`assessment`] says. The
/// signature is checked and the approval signed by the adapter, and only
/// where the steps before have passed.
pub fn next_action<A: Adapter>(
    adapter: &A,
    channel: &Channel,
    config: &Config,
    known: Known<'_>,
) -> (r: Result<Action, TickError>)
    ensures
        match known {
            Known::Latest { new_msg, our_root } => if !awaits_answer(*new_msg, *our_root) {
                r.is_ok() && r.unwrap() is SendNothing
            } else if !hashable(new_msg.unwrap().balances@) {
                r.is_err() && r.unwrap_err() is Domain
            } else if new_msg.unwrap().state_root@ != state_root_text(
                channel.id.bytes@,
                new_msg.unwrap().balances@,
            ) {
                r.is_ok() && (r.unwrap() matches Action::Reject(kind) && kind
                    == InvalidNewState::RootHash)
            } else {
                match r {
                    Ok(Action::FetchLastApproved) => true,
                    Ok(Action::Reject(kind)) => kind == InvalidNewState::Signature,
                    Ok(_) => false,
                    Err(e) => e is Adapter,
                }
            },
            Known::LastApproved { new_state, our_balances, prev_balances } => match assessment(
                channel.deposit_amount@,
                config,
                our_balances@,
                prev_balances@,
                new_state.balances@,
            ) {
                Assessment::Invalid(wrong) => r.is_ok() && (r.unwrap() matches Action::Reject(
                    kind,
                ) && kind == wrong),
                Assessment::Sign { is_healthy } => match r {
                    Ok(Action::Approve(message)) => approves(
                        message,
                        new_state.state_root@,
                        is_healthy,
                    ),
                    Ok(_) => false,
                    Err(e) => e is Adapter,
                },
            },
        },
{
    match known {
        Known::Latest { new_msg, our_root } => {
            if latest_is_responded_to(new_msg, our_root) {
                return Ok(Action::SendNothing);
            }
            match new_msg {
                None => Ok(Action::SendNothing),
                Some(new_state) => match check_proposal(adapter, channel, new_state) {
                    Ok(Integrity::Sound) => Ok(Action::FetchLastApproved),
                    Ok(Integrity::Invalid(kind)) => Ok(Action::Reject(kind)),
                    Err(e) => Err(e),
                },
            }
        },
        Known::LastApproved { new_state, our_balances, prev_balances } => {
            match judge_proposal(adapter, channel, config, our_balances, prev_balances, new_state) {
                Ok(Verdict::Approve(message)) => Ok(Action::Approve(message)),
                Ok(Verdict::Reject(kind)) => Ok(Action::Reject(kind)),
                Err(e) => Err(e),
            }
        },
    }
}

/// `message` rejects `new_state` for the reason of `kind`: it repeats the
/// proposal's state root, signature and balances.
pub open spec fn rejects(message: MessageTypes, new_state: &NewState, kind: InvalidNewState) -> bool {
    match message {
        MessageTypes::RejectState(j) => {
            &&& j.reason@ == reason_text(kind)
            &&& j.state_root@ == new_state.state_root@
            &&& j.signature@ == new_state.signature@
            &&& j.balances.is_some()
            &&& j.balances.unwrap()@ == new_state.balances@
            &&& j.timestamp.is_some()
        },
        _ => false,
    }
}

/// The rejection of `new_state` for the reason of `kind`, made at
/// `timestamp`.
pub fn reject_message(new_state: &NewState, kind: InvalidNewState, timestamp: i64) -> (r:
    MessageTypes)
    ensures
        rejects(r, new_state, kind),
        r->RejectState_0.timestamp == Some(timestamp),
{
    MessageTypes::RejectState(
        RejectState {
            reason: reason(kind),
            state_root: new_state.state_root.clone(),
            signature: new_state.signature.clone(),
            balances: Some(new_state.balances.clone()),
            timestamp: Some(timestamp),
        },
    )
}

/// The rejection of `new_state` for the reason of `kind`, made now.
pub fn on_error(new_state: &NewState, kind: InvalidNewState) -> (r: MessageTypes)
    ensures
        rejects(r, new_state, kind),
{
    reject_message(new_state, kind, now_millis())
}

/// The result of the follower's answer, from what it decided and how the
/// deliveries went.
pub fn approve_state_result(
    rejected: Option<InvalidNewState>,
    propagation: Option<Vec<PropagationResult>>,
) -> (r: ApproveStateResult)
    ensures
        match (rejected, propagation) {
            (_, None) => r is NotSent,
            (None, Some(results)) => r == ApproveStateResult::Sent(results),
            (Some(kind), Some(results)) => r == (ApproveStateResult::Rejected {
                new_state: kind,
                reject_state_propagation: results,
            }),
        },
{
    match (rejected, propagation) {
        (_, None) => ApproveStateResult::NotSent,
        (None, Some(results)) => ApproveStateResult::Sent(results),
        (Some(kind), Some(results)) => ApproveStateResult::Rejected {
            new_state: kind,
            reject_state_propagation: results,
        },
    }
}

} // verus!
