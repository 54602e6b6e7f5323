//! The rules that a validator applies on every tick of a channel.

pub mod channels;
pub mod error;
pub mod events;
pub mod fees;
pub mod follower;
pub mod follower_rules;
pub mod heartbeat;
pub mod leader;
pub mod producer;
pub mod sentry_interface;
pub mod state_root;

pub use self::sentry_interface::{flatten_pages, validator_url, PropagationResult};
