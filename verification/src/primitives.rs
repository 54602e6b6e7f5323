//! Data types shared by the validators and the sentry.

pub mod big_num;
pub mod text;
pub mod string_map;
pub mod balances_map;
pub mod error;
pub mod channel;
pub mod validator;
pub mod sentry;
pub mod config;
pub mod adapter;
pub mod encoding;
pub mod clock;

pub use self::adapter::{Adapter, AdapterError, DummyAdapterOptions, Session};
pub use self::balances_map::BalancesMap;
pub use self::big_num::BigNum;
pub use self::channel::{Channel, ChannelId, ChannelSpec, SpecValidator, SpecValidators, ValidatorDesc};
pub use self::config::Config;
pub use self::error::DomainError;
