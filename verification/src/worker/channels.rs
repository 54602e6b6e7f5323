//! The round over all channels of a worker.

use crate::primitives::adapter::{Adapter, AdapterError};
use crate::primitives::channel::{Channel, Role, SpecValidator};
use crate::worker::error::ValidatorWorker;
use vstd::prelude::*;
use vstd::string::*;

verus! {

/// The part that the worker `whoami` plays on `channel`.
///
/// Fails when it is neither validator of the channel: such a channel is
/// not ticked.
pub fn tick_role(channel: &Channel, whoami: &str) -> (r: Result<Role, ValidatorWorker>)
    ensures
        match channel.spec.validators.role_of(whoami@) {
            Role::Leader => r.is_ok() && r.unwrap() == Role::Leader,
            Role::Follower => r.is_ok() && r.unwrap() == Role::Follower,
            Role::Neither => r.is_err(),
        },
        r.is_err() ==> (r.unwrap_err() matches ValidatorWorker::Failed(m) && m@
            == "validatorTick: processing a channel where we are not validating"@),
{
    match channel.spec.validators.find(whoami) {
        SpecValidator::Leader(_) => Ok(Role::Leader),
        SpecValidator::Follower(_) => Ok(Role::Follower),
        SpecValidator::Neither => Err(
            ValidatorWorker::Failed(
                String::from_str(
                    "validatorTick: processing a channel where we are not validating",
                ),
            ),
        ),
    }
}

/// Whether a channel is ticked, given what the adapter said of it: only
/// a plain yes counts.
pub fn accepted(validated: &Result<bool, AdapterError>) -> (r: bool)
    ensures
        r == (*validated == Ok::<bool, AdapterError>(true)),
{
    match validated {
        Ok(true) => true,
        _ => false,
    }
}

/// For each channel, whether the adapter accepts it.
pub fn channel_verdicts<A: Adapter>(adapter: &A, channels: &Vec<Channel>) -> (r: Vec<bool>)
    ensures
        r@.len() == channels@.len(),
{
    let n: usize = channels.len();
    let mut verdicts: Vec<bool> = Vec::new();
    let mut i: usize = 0;
    while i < n
        invariant
            n == channels@.len(),
            i <= n,
            verdicts@.len() == i,
        decreases n - i,
    {
        let validated = adapter.validate_channel(&channels[i]);
        verdicts.push(accepted(&validated));
        i = i + 1;
    }
    verdicts
}

/// The first `n` of `channels` without those whose verdict is no.
pub open spec fn selected(channels: Seq<Channel>, verdicts: Seq<bool>, n: int) -> Seq<Channel>
    decreases n,
{
    if n <= 0 {
        Seq::empty()
    } else if verdicts[n - 1] {
        selected(channels, verdicts, n - 1).push(channels[n - 1])
    } else {
        selected(channels, verdicts, n - 1)
    }
}

/// The channels whose verdict is yes, in their order.
pub fn select_channels(channels: Vec<Channel>, verdicts: &Vec<bool>) -> (r: Vec<Channel>)
    requires
        verdicts@.len() == channels@.len(),
    ensures
        r@ == selected(channels@, verdicts@, channels@.len() as int),
{
    let ghost all = channels@;
    let mut rest = channels;
    let mut out: Vec<Channel> = Vec::new();
    let n: usize = verdicts.len();
    let mut i: usize = 0;
    while i < n
        invariant
            n == all.len(),
            n == verdicts@.len(),
            i <= n,
            rest@.len() == n - i,
            forall|j: int| 0 <= j < n - i ==> rest@[j] == all[i + j],
            out@ == selected(all, verdicts@, i as int),
        decreases n - i,
    {
        let channel = rest.remove(0);
        if verdicts[i] {
            out.push(channel);
        }
        i = i + 1;
    }
    out
}

/// The channels of `channels` that the adapter accepts, in their order.
pub fn valid_channels<A: Adapter>(adapter: &A, channels: Vec<Channel>) -> (r: Vec<Channel>)
    ensures
        r@.len() <= channels@.len(),
        forall|i: int| 0 <= i < r@.len() ==> channels@.contains(#[trigger] r@[i]),
        exists|verdicts: Seq<bool>|
            verdicts.len() == channels@.len() && r@ == #[trigger] selected(
                channels@,
                verdicts,
                channels@.len() as int,
            ),
{
    let verdicts = channel_verdicts(adapter, &channels);
    proof {
        lemma_selected(channels@, verdicts@, channels@.len() as int);
    }
    let r = select_channels(channels, &verdicts);
    assert(r@ == selected(channels@, verdicts@, channels@.len() as int));
    r
}

/// A selection holds no more than it selects from, and nothing else.
pub proof fn lemma_selected(channels: Seq<Channel>, verdicts: Seq<bool>, n: int)
    requires
        0 <= n <= channels.len(),
    ensures
        selected(channels, verdicts, n).len() <= n,
        forall|i: int|
            0 <= i < selected(channels, verdicts, n).len() ==> channels.contains(
                #[trigger] selected(channels, verdicts, n)[i],
            ),
    decreases n,
{
    if n > 0 {
        lemma_selected(channels, verdicts, n - 1);
        assert(channels.contains(channels[n - 1]));
    }
}

} // verus!
