//! Validator stack for an off-chain payment-channel network.
//!
//! A channel funds a fixed deposit and pays it out to earners as events arrive.
//! Two validators, a leader and a follower, agree on a balance state that only
//! ever grows: the leader proposes balances, the follower checks and signs them.
//! This library holds the rules of that protocol (fee allocation, merging of
//! event aggregates, transition and health rules, state roots, the decisions of
//! each tick) together with proofs that the monetary invariants hold.

pub mod adapter;
pub mod domain;
pub mod primitives;
pub mod sentry;
pub mod worker;
