//! Channels and the validators that watch over them.

use crate::primitives::big_num::BigNum;
use crate::primitives::encoding::{from_hex, hex_string, to_hex, unhex};
use crate::primitives::text::str_same;
use vstd::prelude::*;
use vstd::string::*;

verus! {

/// A validator of a channel: who it is, where its sentry listens, and the fee
/// it takes, in the deposit asset, for a fully paid out deposit.
#[derive(Debug)]
pub struct ValidatorDesc {
    pub id: String,
    pub url: String,
    pub fee: BigNum,
}

impl Clone for ValidatorDesc {
    fn clone(&self) -> (r: ValidatorDesc)
        ensures
            r.id@ == self.id@,
            r.url@ == self.url@,
            r.fee@ == self.fee@,
    {
        ValidatorDesc { id: self.id.clone(), url: self.url.clone(), fee: self.fee.clone() }
    }
}

/// The two validators of a channel. The order matters: the first leads, the
/// second follows.
#[derive(Debug)]
pub struct SpecValidators {
    pub leader: ValidatorDesc,
    pub follower: ValidatorDesc,
}

/// The part that an identity plays in a channel.
#[derive(Debug)]
pub enum SpecValidator<'a> {
    Leader(&'a ValidatorDesc),
    Follower(&'a ValidatorDesc),
    /// The identity is neither of the two validators.
    Neither,
}

/// The part of an identity, without the validator itself.
#[derive(Clone, Copy, Debug, PartialEq, Eq, Structural)]
pub enum Role {
    Leader,
    Follower,
    Neither,
}

impl SpecValidators {
    /// The pair with `leader` first and `follower` second.
    pub fn new(leader: ValidatorDesc, follower: ValidatorDesc) -> (r: SpecValidators)
        ensures
            r.leader == leader,
            r.follower == follower,
    {
        SpecValidators { leader, follower }
    }

    /// The leading validator.
    pub fn leader(&self) -> (r: &ValidatorDesc)
        ensures
            *r == self.leader,
    {
        &self.leader
    }

    /// The following validator.
    pub fn follower(&self) -> (r: &ValidatorDesc)
        ensures
            *r == self.follower,
    {
        &self.follower
    }

    /// The part that `id` plays: the leader is asked first.
    pub open spec fn role_of(&self, id: Seq<char>) -> Role {
        if self.leader.id@ == id {
            Role::Leader
        } else if self.follower.id@ == id {
            Role::Follower
        } else {
            Role::Neither
        }
    }

    /// Finds the validator with identity `id`.
    pub fn find(&self, id: &str) -> (r: SpecValidator<'_>)
        ensures
            match r {
                SpecValidator::Leader(v) => self.role_of(id@) == Role::Leader && *v == self.leader,
                SpecValidator::Follower(v) => self.role_of(id@) == Role::Follower && *v
                    == self.follower,
                SpecValidator::Neither => self.role_of(id@) == Role::Neither,
            },
    {
        if str_same(self.leader.id.as_str(), id) {
            SpecValidator::Leader(&self.leader)
        } else if str_same(self.follower.id.as_str(), id) {
            SpecValidator::Follower(&self.follower)
        } else {
            SpecValidator::Neither
        }
    }

    /// The validator at `index`: 0 is the leader, 1 the follower.
    pub fn get(&self, index: usize) -> (r: Option<&ValidatorDesc>)
        ensures
            index == 0 ==> r == Some(&self.leader),
            index == 1 ==> r == Some(&self.follower),
            index > 1 ==> r.is_none(),

    {
        if index == 0 {
            Some(&self.leader)
        } else if index == 1 {
            Some(&self.follower)
        } else {
            None
        }
    }
}

impl Clone for SpecValidators {
    fn clone(&self) -> (r: SpecValidators)
        ensures
            r.leader.id@ == self.leader.id@,
            r.leader.url@ == self.leader.url@,
            r.leader.fee@ == self.leader.fee@,
            r.follower.id@ == self.follower.id@,
            r.follower.url@ == self.follower.url@,
            r.follower.fee@ == self.follower.fee@,
    {
        SpecValidators { leader: self.leader.clone(), follower: self.follower.clone() }
    }
}

/// The policy of a channel.
#[derive(Debug)]
pub struct ChannelSpec {
    pub validators: SpecValidators,
}

/// The 32 bytes that name a channel.
#[derive(Clone, Copy, Debug)]
pub struct ChannelId {
    pub bytes: [u8; 32],
}

/// The text of a channel id: `0x` and the 64 hexadecimal digits of its
/// bytes.
pub open spec fn channel_id_text(bytes: Seq<u8>) -> Seq<char> {
    "0x"@ + hex_string(bytes)
}

impl ChannelId {
    /// The bytes of the id as a vector.
    pub fn to_vec(&self) -> (r: Vec<u8>)
        ensures
            r@ == self.bytes@,
    {
        let mut out: Vec<u8> = Vec::new();
        let mut i: usize = 0;
        while i < 32
            invariant
                i <= 32,
                out@ == self.bytes@.subrange(0, i as int),
            decreases 32 - i,
        {
            out.push(self.bytes[i]);
            assert(out@ =~= self.bytes@.subrange(0, i + 1));
            i = i + 1;
        }
        assert(self.bytes@.subrange(0, 32) =~= self.bytes@);
        out
    }

    /// The id as text: `0x` and 64 hexadecimal digits in lower case.
    pub fn to_hex_string(&self) -> (r: String)
        ensures
            r@ == channel_id_text(self.bytes@),
    {
        let digits = to_hex(&self.to_vec());
        String::from_str("0x").concat(digits.as_str())
    }

    /// The id that 64 hexadecimal digits spell; nothing for any other text.
    pub fn from_hex(text: &str) -> (r: Option<ChannelId>)
        ensures
            r.is_some() <==> unhex(text@).is_some() && unhex(text@).unwrap().len() == 32,
            r.is_some() ==> r.unwrap().bytes@ == unhex(text@).unwrap(),
    {
        match from_hex(text) {
            Some(decoded) => {
                if decoded.len() != 32 {
                    return None;
                }
                let mut bytes: [u8; 32] = [0u8; 32];
                let mut i: usize = 0;
                while i < 32
                    invariant
                        i <= 32,
                        decoded@.len() == 32,
                        forall|j: int| 0 <= j < i ==> bytes@[j] == decoded@[j],
                    decreases 32 - i,
                {
                    bytes[i] = decoded[i];
                    i = i + 1;
                }
                assert(bytes@ =~= decoded@);
                Some(ChannelId { bytes })
            },
            None => None,
        }
    }
}

/// A funded payment agreement: a fixed deposit, its creator, and the two
/// validators that ratify how the deposit is paid out.
#[derive(Debug)]
pub struct Channel {
    pub id: ChannelId,
    pub creator: String,
    pub deposit_asset: String,
    pub deposit_amount: BigNum,
    /// Milliseconds since the Unix epoch.
    pub valid_until: i64,
    pub spec: ChannelSpec,
}

impl Clone for Channel {
    fn clone(&self) -> (r: Channel)
        ensures
            r.id == self.id,
            r.creator@ == self.creator@,
            r.deposit_asset@ == self.deposit_asset@,
            r.deposit_amount@ == self.deposit_amount@,
            r.valid_until == self.valid_until,
            r.spec.validators.leader.id@ == self.spec.validators.leader.id@,
            r.spec.validators.leader.url@ == self.spec.validators.leader.url@,
            r.spec.validators.leader.fee@ == self.spec.validators.leader.fee@,
            r.spec.validators.follower.id@ == self.spec.validators.follower.id@,
            r.spec.validators.follower.url@ == self.spec.validators.follower.url@,
            r.spec.validators.follower.fee@ == self.spec.validators.follower.fee@,
    {
        Channel {
            id: self.id,
            creator: self.creator.clone(),
            deposit_asset: self.deposit_asset.clone(),
            deposit_amount: self.deposit_amount.clone(),
            valid_until: self.valid_until,
            spec: ChannelSpec { validators: self.spec.validators.clone() },
        }
    }
}

} // verus!
