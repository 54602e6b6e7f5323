//! The messages that validators sign and store at each other's sentries.

use crate::primitives::balances_map::BalancesMap;
use crate::primitives::clock::now_millis;
use vstd::prelude::*;

verus! {

/// Why a validator turned a proposed state down.
#[derive(Clone, Copy, Debug, PartialEq, Eq, Structural)]
pub enum ValidatorError {
    NoError,
    InvalidRootHash,
    InvalidSignature,
    InvalidTransition,
}

/// The leader's running tally: balances before and after fees, and the
/// moment of the latest event aggregate that went into them.
#[derive(Debug)]
pub struct Accounting {
    /// Milliseconds since the Unix epoch.
    pub last_event_aggregate: i64,
    pub balances_before_fees: BalancesMap,
    pub balances: BalancesMap,
}

impl Clone for Accounting {
    fn clone(&self) -> (r: Accounting)
        ensures
            r.last_event_aggregate == self.last_event_aggregate,
            r.balances_before_fees@ == self.balances_before_fees@,
            r.balances@ == self.balances@,
    {
        Accounting {
            last_event_aggregate: self.last_event_aggregate,
            balances_before_fees: self.balances_before_fees.clone(),
            balances: self.balances.clone(),
        }
    }
}

/// The follower's agreement to a state root.
#[derive(Debug)]
pub struct ApproveState {
    pub state_root: String,
    pub signature: String,
    pub is_healthy: bool,
}

/// The leader's proposal of new balances.
#[derive(Debug)]
pub struct NewState {
    pub state_root: String,
    pub signature: String,
    pub balances: BalancesMap,
}

/// The follower's refusal of a proposal.
#[derive(Debug)]
pub struct RejectState {
    pub reason: String,
    pub state_root: String,
    pub signature: String,
    pub balances: Option<BalancesMap>,
    /// Milliseconds since the Unix epoch.
    pub timestamp: Option<i64>,
}

/// A signed sign of life.
#[derive(Debug)]
pub struct Heartbeat {
    pub signature: String,
    pub state_root: String,
    /// Milliseconds since the Unix epoch.
    pub timestamp: i64,
}

impl Heartbeat {
    /// A heartbeat of this moment.
    pub fn new(signature: String, state_root: String) -> (r: Heartbeat)
        ensures
            r.signature == signature,
            r.state_root == state_root,
    {
        Heartbeat::new_at(signature, state_root, now_millis())
    }

    /// A heartbeat of the moment `timestamp`.
    pub fn new_at(signature: String, state_root: String, timestamp: i64) -> (r: Heartbeat)
        ensures
            r.signature == signature,
            r.state_root == state_root,
            r.timestamp == timestamp,
    {
        Heartbeat { signature, state_root, timestamp }
    }
}

/// Any message of a validator.
#[derive(Debug)]
pub enum MessageTypes {
    ApproveState(ApproveState),
    NewState(NewState),
    RejectState(RejectState),
    Heartbeat(Heartbeat),
    Accounting(Accounting),
}

} // verus!
