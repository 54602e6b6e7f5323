//! The validators of the domain.

pub use crate::primitives::channel::ValidatorDesc;
