//! An adapter without cryptography, for tests and local runs.
//!
//! Its signature on a state root is a sentence that names the root and the
//! signer; it takes a signature for valid when it ends by naming the signer.

use crate::primitives::adapter::{Adapter, AdapterError, DummyAdapterOptions, Session};
use crate::primitives::channel::Channel;
use crate::primitives::config::Config;
use crate::primitives::string_map::StringMap;
use crate::primitives::text::{ends_with, finishes_with};
use vstd::prelude::*;
use vstd::string::*;

verus! {

/// The signature of `identity` on `state_root`.
pub open spec fn dummy_signature(state_root: Seq<char>, identity: Seq<char>) -> Seq<char> {
    "Dummy adapter signature for "@ + state_root + " by "@ + identity
}

/// Whether `signature` names `signer` as the one who made it: it ends with
/// ` by ` and the signer.
pub open spec fn signed_by(signature: Seq<char>, signer: Seq<char>) -> bool {
    finishes_with(signature, " by "@ + signer)
}

/// A dummy signature verifies under the identity that made it, whatever the
/// state root and whatever the identity.
pub proof fn lemma_dummy_round_trip(state_root: Seq<char>, identity: Seq<char>)
    ensures
        signed_by(dummy_signature(state_root, identity), identity),
{
    let head = "Dummy adapter signature for "@ + state_root;
    let tail = " by "@ + identity;
    let signature = dummy_signature(state_root, identity);
    assert(signature =~= head + tail);
    assert(signature.subrange(signature.len() - tail.len(), signature.len() as int) =~= tail);
}

/// The adapter of the identity that it was made with.
#[derive(Debug)]
pub struct DummyAdapter {
    identity: String,
    auth_tokens: StringMap<String>,
    verified_auth: StringMap<String>,
}

impl DummyAdapter {
    /// The identity of the adapter.
    pub closed spec fn identity(&self) -> Seq<char> {
        self.identity@
    }

    /// From an identity to the token that authenticates towards it.
    pub closed spec fn auth_tokens(&self) -> Map<Seq<char>, String> {
        self.auth_tokens@
    }

    /// From a token to the identity that it proves.
    pub closed spec fn verified_auth(&self) -> Map<Seq<char>, String> {
        self.verified_auth@
    }

    /// The adapter that `opts` describe.
    pub fn init(opts: DummyAdapterOptions, config: &Config) -> (r: DummyAdapter)
        ensures
            r.identity() == opts.dummy_identity@,
            r.auth_tokens() == opts.dummy_auth_tokens@,
            r.verified_auth() == opts.dummy_auth@,
    {
        DummyAdapter {
            identity: opts.dummy_identity,
            auth_tokens: opts.dummy_auth_tokens,
            verified_auth: opts.dummy_auth,
        }
    }
}

impl Adapter for DummyAdapter {
    fn whoami(&self) -> (r: String)
        ensures
            r@ == self.identity(),
    {
        self.identity.clone()
    }

    fn unlock(&mut self) -> (r: Result<(), AdapterError>)
        ensures
            r.is_ok(),
            *final(self) == *old(self),
    {
        Ok(())
    }

    fn sign(&self, state_root: &str) -> (r: Result<String, AdapterError>)
        ensures
            r.is_ok(),
            r.unwrap()@ == dummy_signature(state_root@, self.identity()),
    {
        let signature = String::from_str("Dummy adapter signature for ").concat(state_root).concat(
            " by ",
        ).concat(self.identity.as_str());
        Ok(signature)
    }

    fn verify(&self, signer: &str, state_root: &str, signature: &str) -> (r: Result<
        bool,
        AdapterError,
    >)
        ensures
            r.is_ok(),
            r.unwrap() == signed_by(signature@, signer@),
    {
        let ending = String::from_str(" by ").concat(signer);
        Ok(ends_with(signature, ending.as_str()))
    }

    fn validate_channel(&self, channel: &Channel) -> (r: Result<bool, AdapterError>)
        ensures
            r == Ok::<bool, AdapterError>(true),
    {
        Ok(true)
    }

    fn session_from_token(&self, token: &str) -> (r: Result<Session, AdapterError>)
        ensures
            r.is_ok() <==> self.verified_auth().dom().contains(token@),
            r.is_ok() ==> ({
                let session = r.unwrap();
                &&& session.uid@ == self.verified_auth()[token@]@
                &&& session.era == 0
                &&& session.ip.is_none()
                &&& session.country.is_none()
                &&& session.referrer_header.is_none()
            }),
            r.is_err() ==> (r.unwrap_err() matches AdapterError::Authentication(text) && text@
                == "Token not found"@),
    {
        match self.verified_auth.get(token) {
            Some(identity) => Ok(
                Session {
                    era: 0,
                    uid: identity.clone(),
                    ip: None,
                    country: None,
                    referrer_header: None,
                },
            ),
            None => Err(AdapterError::Authentication("Token not found".to_owned())),
        }
    }

    fn get_auth(&self, validator_id: &str) -> (r: Result<String, AdapterError>)
        ensures
            r.is_ok() <==> self.auth_tokens().dom().contains(validator_id@),
            r.is_ok() ==> r.unwrap()@ == self.auth_tokens()[validator_id@]@,
            r.is_err() ==> (r.unwrap_err() matches AdapterError::Authentication(text) && text@
                == "Identity not found"@),
    {
        match self.auth_tokens.get(validator_id) {
            Some(token) => Ok(token.clone()),
            None => Err(AdapterError::Authentication("Identity not found".to_owned())),
        }
    }
}

} // verus!
