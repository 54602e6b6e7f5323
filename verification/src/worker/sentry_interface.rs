//! What a worker asks of sentries, and what it makes of their answers.
//!
//! The requests themselves are sent elsewhere; here stand the addresses they
//! go to, the plan of a propagation, and the reading of what came back.

use crate::primitives::adapter::{Adapter, AdapterError};
use crate::primitives::channel::{channel_id_text, Channel, Role, ValidatorDesc};
use crate::primitives::sentry::{ChannelAllResponse, ValidatorMessageResponse};
use crate::primitives::text::{decimal, i64_to_string, signed_decimal, str_same, u64_to_string};
use crate::primitives::validator::MessageTypes;
use crate::worker::error::{http_error_tag, HttpError, ValidatorWorker};
use vstd::prelude::*;
use vstd::string::*;

verus! {

/// How the delivery of a message to one validator ended.
#[derive(Debug)]
pub enum PropagationResult {
    /// The sentry of this validator took the message.
    Delivered(String),
    /// The message did not reach this validator, and why.
    Failed(String, String),
}

/// One step of a propagation: a message to post, or a validator that could
/// not be given a token and is left out.
#[derive(Debug)]
pub enum PropagationStep {
    Send { validator_id: String, url: String, auth_token: String },
    Skip { validator_id: String },
}

/// The address under which the sentry at `url` serves the channel `id`.
pub open spec fn channel_url(url: Seq<char>, id: Seq<u8>) -> Seq<char> {
    url + "/channel/"@ + channel_id_text(id)
}

/// The address that validator messages for the channel are posted to.
pub open spec fn messages_url(url: Seq<char>, id: Seq<u8>) -> Seq<char> {
    channel_url(url, id) + "/validator-messages"@
}

/// The address of the newest message of one of the given types by `from`.
pub open spec fn latest_msg_url(base: Seq<char>, from: Seq<char>, types: Seq<char>) -> Seq<char> {
    base + "/validator-messages/"@ + from + "/"@ + types + "?limit=1"@
}

/// The address of the last approved state, with heartbeats where asked for.
pub open spec fn last_approved_url(base: Seq<char>, with_heartbeat: bool) -> Seq<char> {
    if with_heartbeat {
        base + "/last-approved?withHeartbeat=true"@
    } else {
        base + "/last-approved"@
    }
}

/// The address of the event aggregates made after `after_seconds`.
pub open spec fn event_aggregates_url(base: Seq<char>, after_seconds: int) -> Seq<char> {
    base + "/events-aggregates?after="@ + signed_decimal(after_seconds)
}

/// The address of page `page` of the channels that `validator` validates.
pub open spec fn channel_list_url(sentry_url: Seq<char>, page: nat, validator: Seq<char>) -> Seq<
    char,
> {
    sentry_url + "/channel/list?page="@ + decimal(page) + "&validator="@ + validator
}

/// The names in `types`, with commas between them.
pub open spec fn comma_joined(types: Seq<Seq<char>>) -> Seq<char>
    decreases types.len(),
{
    if types.len() == 0 {
        Seq::empty()
    } else if types.len() == 1 {
        types[0]
    } else {
        comma_joined(types.drop_last()) + ","@ + types.last()
    }
}

/// The validator of `channel` that `whoami` is, if any.
pub open spec fn own_validator(channel: &Channel, whoami: Seq<char>) -> Option<ValidatorDesc> {
    match channel.spec.validators.role_of(whoami) {
        Role::Leader => Some(channel.spec.validators.leader),
        Role::Follower => Some(channel.spec.validators.follower),
        Role::Neither => None,
    }
}

/// The address under which the sentry at `url` serves `channel`.
pub fn channel_url_of(url: &str, channel: &Channel) -> (r: String)
    ensures
        r@ == channel_url(url@, channel.id.bytes@),
{
    let id = channel.id.to_hex_string();
    let r = String::from_str(url).concat("/channel/").concat(id.as_str());
    assert(r@ =~= channel_url(url@, channel.id.bytes@));
    r
}

/// The address of the worker's own sentry for `channel`.
///
/// Fails when `whoami` is neither validator of the channel.
pub fn validator_url(channel: &Channel, whoami: &str) -> (r: Result<String, ValidatorWorker>)
    ensures
        r.is_ok() <==> own_validator(channel, whoami@).is_some(),
        r.is_ok() ==> r.unwrap()@ == channel_url(
            own_validator(channel, whoami@).unwrap().url@,
            channel.id.bytes@,
        ),
        r.is_err() ==> (r.unwrap_err() matches ValidatorWorker::Failed(m) && m@
            == "we can not find validator entry for whoami"@),
{
    if str_same(channel.spec.validators.leader.id.as_str(), whoami) {
        Ok(channel_url_of(channel.spec.validators.leader.url.as_str(), channel))
    } else if str_same(channel.spec.validators.follower.id.as_str(), whoami) {
        Ok(channel_url_of(channel.spec.validators.follower.url.as_str(), channel))
    } else {
        Err(
            ValidatorWorker::Failed(
                String::from_str("we can not find validator entry for whoami"),
            ),
        )
    }
}

/// The names in `types`, with commas between them.
pub fn join_types(types: &[&str]) -> (r: String)
    ensures
        r@ == comma_joined(types@.map_values(|s: &str| s@)),
{
    let ghost names = types@.map_values(|s: &str| s@);
    let n: usize = types.len();
    let mut out = String::new();
    let mut i: usize = 0;
    assert(names.take(0) =~= Seq::<Seq<char>>::empty());
    while i < n
        invariant
            n == types@.len(),
            names == types@.map_values(|s: &str| s@),
            i <= n,
            out@ == comma_joined(names.take(i as int)),
        decreases n - i,
    {
        proof {
            assert(names.take(i + 1).drop_last() =~= names.take(i as int));
            assert(names.take(i + 1).last() == types@[i as int]@);
        }
        if i > 0 {
            out.append(",");
        }
        out.append(types[i]);
        proof {
            if i == 0 {
                assert(out@ =~= types@[0]@);
            }
            assert(out@ =~= comma_joined(names.take(i + 1)));
        }
        i = i + 1;
    }
    assert(names.take(n as int) =~= names);
    out
}

/// The address to ask for the newest message by `from` of one of `types`.
pub fn latest_msg_request(base: &str, from: &str, types: &[&str]) -> (r: String)
    ensures
        r@ == latest_msg_url(base@, from@, comma_joined(types@.map_values(|s: &str| s@))),
{
    let joined = join_types(types);
    String::from_str(base).concat("/validator-messages/").concat(from).concat("/").concat(
        joined.as_str(),
    ).concat("?limit=1")
}

/// The address to ask for the last approved state.
pub fn last_approved_request(base: &str, with_heartbeat: bool) -> (r: String)
    ensures
        r@ == last_approved_url(base@, with_heartbeat),
{
    if with_heartbeat {
        String::from_str(base).concat("/last-approved?withHeartbeat=true")
    } else {
        String::from_str(base).concat("/last-approved")
    }
}

/// The address to ask for the event aggregates made after the moment
/// `after`, given in milliseconds and asked for in whole seconds.
pub fn event_aggregates_request(base: &str, after: i64) -> (r: String)
    ensures
        r@ == event_aggregates_url(base@, seconds_of(after) as int),
{
    let seconds = whole_seconds(after);
    String::from_str(base).concat("/events-aggregates?after=").concat(
        i64_to_string(seconds).as_str(),
    )
}

/// The whole seconds in `millis` milliseconds, rounded down.
pub open spec fn seconds_of(millis: i64) -> i64 {
    (millis as int / 1000) as i64
}

/// The whole seconds in `millis` milliseconds, rounded down.
pub fn whole_seconds(millis: i64) -> (r: i64)
    ensures
        r == seconds_of(millis),
{
    if millis >= 0 {
        millis / 1000
    } else {
        let up: i64 = (millis + 1) / 1000;
        // the quotient of a negative number rounds towards zero
        up - 1
    }
}

/// The address to ask for page `page` of the channels of `validator`.
pub fn channel_list_request(sentry_url: &str, page: u64, validator: &str) -> (r: String)
    ensures
        r@ == channel_list_url(sentry_url@, page as nat, validator@),
{
    String::from_str(sentry_url).concat("/channel/list?page=").concat(
        u64_to_string(page).as_str(),
    ).concat("&validator=").concat(validator)
}

/// The newest message in an answer, where it holds any.
pub fn latest_message(response: ValidatorMessageResponse) -> (r: Option<MessageTypes>)
    ensures
        r.is_some() <==> response.msg@.len() > 0,
        r.is_some() ==> r.unwrap() == response.msg@[0],
{
    let mut messages = response.msg;
    if messages.len() > 0 {
        Some(messages.remove(0))
    } else {
        None
    }
}

/// The channels of `first`, followed by those of each page of `rest`, in
/// order.
pub open spec fn all_pages(first: Seq<Channel>, rest: Seq<ChannelAllResponse>, n: int) -> Seq<
    Channel,
>
    decreases n,
{
    if n <= 0 {
        first
    } else {
        all_pages(first, rest, n - 1) + rest[n - 1].channels@
    }
}

/// The pages that are still to be asked for once the first page, page 0,
/// has said that there are `total_pages` in all.
pub fn pages_after_first(total_pages: u64) -> (r: (u64, u64))
    ensures
        r.0 == 1,
        r.1 == (if total_pages < 2 { 1 } else { total_pages }),
{
    if total_pages < 2 {
        (1, 1)
    } else {
        (1, total_pages)
    }
}

/// All channels of the pages of a listing, those of the first page first.
pub fn flatten_pages(first: ChannelAllResponse, rest: Vec<ChannelAllResponse>) -> (r: Vec<Channel>)
    ensures
        r@ == all_pages(first.channels@, rest@, rest@.len() as int),
{
    let mut out = first.channels;
    let mut pages = rest;
    let ghost all = pages@;
    let n: usize = pages.len();
    let mut i: usize = 0;
    while i < n
        invariant
            n == all.len(),
            i <= n,
            pages@.len() == n - i,
            forall|j: int| 0 <= j < n - i ==> pages@[j] == all[i + j],
            out@ == all_pages(first.channels@, all, i as int),
        decreases n - i,
    {
        let page = pages.remove(0);
        let mut channels = page.channels;
        out.append(&mut channels);
        i = i + 1;
    }
    out
}

/// Whether a round over `count` channels has reached the limit of the
/// settings.
pub fn channel_limit_reached(count: usize, max_channels: u32) -> (r: bool)
    ensures
        r == (count >= max_channels),
{
    count as u64 >= max_channels as u64
}

/// The reading of one delivery: taken, or failed with the name of what went
/// wrong.
pub open spec fn delivery(validator_id: String, outcome: Result<(), HttpError>) -> (Seq<char>, Option<Seq<char>>) {
    match outcome {
        Ok(_) => (validator_id@, None),
        Err(e) => (validator_id@, Some(http_error_tag(e))),
    }
}

impl PropagationResult {
    /// The validator that the result is about, and the reason of a failure.
    pub open spec fn model(&self) -> (Seq<char>, Option<Seq<char>>) {
        match *self {
            PropagationResult::Delivered(id) => (id@, None),
            PropagationResult::Failed(id, reason) => (id@, Some(reason@)),
        }
    }

    /// How posting to `validator_id` ended, given what the request came to.
    pub fn of_delivery(validator_id: String, outcome: Result<(), HttpError>) -> (r:
        PropagationResult)
        ensures
            r.model() == delivery(validator_id, outcome),
    {
        match outcome {
            Ok(_) => PropagationResult::Delivered(validator_id),
            Err(e) => PropagationResult::Failed(validator_id, e.tag()),
        }
    }

    /// The failure of a validator that was left out for want of a token.
    pub fn of_skipped(validator_id: String) -> (r: PropagationResult)
        ensures
            r.model() == (validator_id@, Some("get auth failed"@)),
    {
        PropagationResult::Failed(validator_id, String::from_str("get auth failed"))
    }
}

/// The step for one validator, given the token that the adapter gave for it
/// or its refusal.
pub fn propagation_step(
    validator: &ValidatorDesc,
    channel: &Channel,
    auth: Result<String, AdapterError>,
) -> (r: PropagationStep)
    ensures
        match r {
            PropagationStep::Send { validator_id, url, auth_token } => {
                &&& auth.is_ok()
                &&& validator_id@ == validator.id@
                &&& url@ == messages_url(validator.url@, channel.id.bytes@)
                &&& auth_token == auth.unwrap()
            },
            PropagationStep::Skip { validator_id } => auth.is_err() && validator_id@
                == validator.id@,
        },
{
    match auth {
        Ok(auth_token) => {
            let url = channel_url_of(validator.url.as_str(), channel).concat("/validator-messages");
            PropagationStep::Send { validator_id: validator.id.clone(), url, auth_token }
        },
        Err(_) => PropagationStep::Skip { validator_id: validator.id.clone() },
    }
}

/// The plan of a propagation on `channel`: one step for the leader, then one
/// for the follower. A validator for which the adapter gives no token is
/// skipped; the other is not affected.
pub fn plan_propagation<A: Adapter>(adapter: &A, channel: &Channel) -> (r: Vec<PropagationStep>)
    ensures
        r@.len() == 2,
        step_is_for(r@[0], &channel.spec.validators.leader, channel),
        step_is_for(r@[1], &channel.spec.validators.follower, channel),
{
    let leader = &channel.spec.validators.leader;
    let follower = &channel.spec.validators.follower;
    let mut steps: Vec<PropagationStep> = Vec::new();
    let leader_auth = adapter.get_auth(leader.id.as_str());
    steps.push(propagation_step(leader, channel, leader_auth));
    let follower_auth = adapter.get_auth(follower.id.as_str());
    steps.push(propagation_step(follower, channel, follower_auth));
    steps
}

/// `step` is addressed to `validator`: it names it, and where it sends, it
/// sends to the validator's sentry for `channel`.
pub open spec fn step_is_for(step: PropagationStep, validator: &ValidatorDesc, channel: &Channel) -> bool {
    match step {
        PropagationStep::Send { validator_id, url, auth_token } => validator_id@ == validator.id@
            && url@ == messages_url(validator.url@, channel.id.bytes@),
        PropagationStep::Skip { validator_id } => validator_id@ == validator.id@,
    }
}

} // verus!
