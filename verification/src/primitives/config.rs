//! Settings of a validator worker.

use vstd::prelude::*;

verus! {

/// How a worker runs: how many channels it takes on, how long it waits, and
/// at what health it still signs.
#[derive(Clone, Copy, Debug, PartialEq, Eq, Structural)]
pub struct Config {
    /// The number of channels from which on the worker warns.
    pub max_channels: u32,
    /// Seconds between two rounds over all channels.
    pub wait_time: u32,
    /// Milliseconds between two heartbeats.
    pub heartbeat_time: u32,
    /// The health, in promille, from which on a state counts as healthy.
    pub health_threshold_promilles: u32,
    /// The health, in promille, below which a state is not signed at all.
    pub health_unsignable_promilles: u32,
    /// Seconds that sending a message to one sentry may take.
    pub propagation_timeout: u32,
    /// Seconds that one request to a sentry may take.
    pub fetch_timeout: u32,
    /// Seconds that the tick of one channel may take.
    pub validator_tick_timeout: u32,
}

} // verus!
