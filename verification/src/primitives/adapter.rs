//! The adapter: what a validator needs to sign, verify and authenticate.

use crate::primitives::channel::Channel;
use crate::primitives::string_map::StringMap;
use vstd::prelude::*;

verus! {

/// Why an adapter could not do what it was asked.
#[derive(Debug)]
pub enum AdapterError {
    Authentication(String),
    Signature(String),
    LockedWallet,
    InvalidChannel(String),
}

/// Who is behind a request, as an adapter made it out from a token.
#[derive(Debug)]
pub struct Session {
    pub era: i64,
    pub uid: String,
    pub ip: Option<String>,
    pub country: Option<String>,
    pub referrer_header: Option<String>,
}

/// What a dummy adapter is made from: its identity, the token to present to
/// each identity, and the identity behind each token that may be presented
/// to it.
#[derive(Debug)]
pub struct DummyAdapterOptions {
    pub dummy_identity: String,
    /// From an identity to the token that authenticates towards it.
    pub dummy_auth_tokens: StringMap<String>,
    /// From a token to the identity that it proves.
    pub dummy_auth: StringMap<String>,
}

/// The capability that signs state roots, verifies the signatures of others
/// and hands out tokens. How it does so is up to each adapter; the rules of
/// the validators hold for every outcome.
pub trait Adapter {
    /// The identity under which the adapter signs.
    fn whoami(&self) -> String;

    /// Makes the adapter ready to sign. Unlocking twice is as good as once.
    fn unlock(&mut self) -> Result<(), AdapterError>;

    /// Signs a state root.
    fn sign(&self, state_root: &str) -> Result<String, AdapterError>;

    /// Whether `signature` is the signature of `signer` on `state_root`.
    fn verify(&self, signer: &str, state_root: &str, signature: &str) -> Result<
        bool,
        AdapterError,
    >;

    /// Whether the adapter accepts `channel` for validation.
    fn validate_channel(&self, channel: &Channel) -> Result<bool, AdapterError>;

    /// The session that `token` stands for.
    fn session_from_token(&self, token: &str) -> Result<Session, AdapterError>;

    /// The token with which to authenticate towards `validator_id`.
    fn get_auth(&self, validator_id: &str) -> Result<String, AdapterError>;
}

} // verus!
