//! What a sentry decides before it touches its store or the network.

pub mod analytics;
pub mod asset;
pub mod config;
pub mod db;
pub mod middleware;
pub mod response;
pub mod routing;

pub use self::asset::Asset;
pub use self::config::ConfigBuilder;
pub use self::response::{
    bad_response, bad_validation_response, map_response_error, not_found, success_response,
};
pub use self::routing::{ResponseError, RouteParams};
pub use crate::primitives::adapter::Session;
