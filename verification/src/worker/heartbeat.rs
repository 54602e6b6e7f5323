//! The heartbeat: a signed sign of life, sent on every tick.
//!
//! Its state root is the digest of the channel's id, the moment, and a root
//! of zeros, so that it can never be taken for the root of any balances.

use crate::primitives::adapter::{Adapter, AdapterError};
use crate::primitives::big_num::{
    be_value, be_word, lemma_be_value_concat, lemma_be_value_zeros, lemma_pow256_grows, pow256,
    zeros, BigNum,
};
use crate::primitives::channel::Channel;
use crate::primitives::encoding::{hex_string, join_bytes, keccak, keccak256, to_hex};
use crate::primitives::validator::{Heartbeat, MessageTypes};
use crate::worker::sentry_interface::PropagationResult;
use crate::worker::state_root::zero_bytes;
use vstd::prelude::*;

verus! {

/// What became of the heartbeat of a tick: the result of each delivery, or
/// nothing where none was sent.
#[derive(Debug)]
pub struct HeartbeatStatus(pub Option<Vec<PropagationResult>>);

/// A moment, in milliseconds, as the number that is hashed: itself where it
/// is not negative, and else counted back from 2 to the power 256.
pub open spec fn moment_number(timestamp: i64) -> nat {
    if timestamp >= 0 {
        timestamp as nat
    } else {
        (pow256(32) + timestamp) as nat
    }
}

/// A moment as a word of 32 bytes.
pub open spec fn moment_word(timestamp: i64) -> Seq<u8> {
    be_word(moment_number(timestamp), 32)
}

/// The state root of a heartbeat of `channel_id` at `timestamp`.
pub open spec fn heartbeat_root(channel_id: Seq<u8>, timestamp: i64) -> Seq<u8> {
    keccak256(channel_id + moment_word(timestamp) + zeros(32))
}

proof fn lemma_pow256_32_is_large()
    ensures
        pow256(32) > 0x1_0000_0000_0000_0000,
{
    reveal_with_fuel(pow256, 10);
    assert(pow256(8) == 0x1_0000_0000_0000_0000);
    assert(pow256(9) == 256 * pow256(8));
    lemma_pow256_grows(9, 32);
}

/// The word of the moment `timestamp`.
pub fn moment_to_word(timestamp: i64) -> (r: Vec<u8>)
    ensures
        r@ == moment_word(timestamp),
{
    proof {
        lemma_pow256_32_is_large();
    }
    let number = if timestamp >= 0 {
        BigNum::from_u64(timestamp as u64)
    } else {
        let magnitude: u64 = (-(timestamp + 1)) as u64 + 1;
        let mut top: Vec<u8> = Vec::new();
        top.push(1u8);
        let bytes = join_bytes(&top, &zero_bytes(32));
        proof {
            lemma_be_value_concat(top@, zeros(32));
            lemma_be_value_zeros(32);
            assert(top@.drop_last() =~= Seq::<u8>::empty());
            assert(be_value(Seq::<u8>::empty()) == 0);
            assert(be_value(top@) == 1);
            assert(1 * pow256(32) == pow256(32)) by (nonlinear_arith);
        }
        let whole = BigNum::from_bytes_be(bytes);
        match whole.checked_sub(&BigNum::from_u64(magnitude)) {
            Some(n) => n,
            None => BigNum::zero(),
        }
    };
    match number.to_word(32) {
        Some(word) => word,
        None => zero_bytes(32),
    }
}

/// The state root of a heartbeat of `channel` at `timestamp`: 32 bytes.
pub fn heartbeat_state_root(channel: &Channel, timestamp: i64) -> (r: Vec<u8>)
    ensures
        r@ == heartbeat_root(channel.id.bytes@, timestamp),
        r@.len() == 32,
{
    let id = channel.id.to_vec();
    let data = join_bytes(&join_bytes(&id, &moment_to_word(timestamp)), &zero_bytes(32));
    keccak(&data)
}

/// The heartbeat message of `channel` at `timestamp`, given what the adapter
/// made of the request to sign its state root.
pub fn heartbeat_message(channel: &Channel, timestamp: i64, signed: Result<String, AdapterError>) -> (r:
    Result<MessageTypes, AdapterError>)
    ensures
        signed.is_err() ==> r == Err::<MessageTypes, AdapterError>(signed.unwrap_err()),
        signed.is_ok() ==> r.is_ok() && is_heartbeat_of(
            r.unwrap(),
            channel,
            timestamp,
            signed.unwrap(),
        ),
{
    match signed {
        Ok(signature) => {
            let state_root = to_hex(&heartbeat_state_root(channel, timestamp));
            Ok(MessageTypes::Heartbeat(Heartbeat::new_at(signature, state_root, timestamp)))
        },
        Err(e) => Err(e),
    }
}

/// `message` is the heartbeat of `channel` at `timestamp` with `signature`.
pub open spec fn is_heartbeat_of(
    message: MessageTypes,
    channel: &Channel,
    timestamp: i64,
    signature: String,
) -> bool {
    match message {
        MessageTypes::Heartbeat(h) => {
            &&& h.state_root@ == hex_string(heartbeat_root(channel.id.bytes@, timestamp))
            &&& h.signature == signature
            &&& h.timestamp == timestamp
        },
        _ => false,
    }
}

/// `message` is a heartbeat of `channel` at `timestamp`, whatever its
/// signature.
pub open spec fn is_heartbeat_at(message: MessageTypes, channel: &Channel, timestamp: i64) -> bool {
    match message {
        MessageTypes::Heartbeat(h) => h.state_root@ == hex_string(
            heartbeat_root(channel.id.bytes@, timestamp),
        ) && h.timestamp == timestamp,
        _ => false,
    }
}

/// Signs and makes the heartbeat of `channel` at the moment `timestamp`.
///
/// Whether it succeeds is up to the adapter. What comes back on success is
/// a heartbeat of `channel` at `timestamp`.
pub fn heartbeat<A: Adapter>(adapter: &A, channel: &Channel, timestamp: i64) -> (r: Result<
    MessageTypes,
    AdapterError,
>)
    ensures
        r.is_ok() ==> is_heartbeat_at(r.unwrap(), channel, timestamp),
{
    let state_root = to_hex(&heartbeat_state_root(channel, timestamp));
    let signed = adapter.sign(state_root.as_str());
    heartbeat_message(channel, timestamp, signed)
}

} // verus!
