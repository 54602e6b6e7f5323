//! What the middleware of the sentry reads out of a request.

use crate::primitives::channel::ChannelId;
use crate::primitives::encoding::{from_hex, unhex};
use crate::sentry::routing::{ResponseError, RouteParams};
use vstd::prelude::*;
use vstd::string::*;

verus! {

/// The id of the channel that a route names: its first parameter, read as
/// 64 hexadecimal digits.
pub open spec fn param_channel_id(params: Option<Seq<Seq<char>>>) -> Option<Seq<u8>> {
    match params {
        Some(p) => if p.len() > 0 && unhex(p[0]).is_some() && unhex(p[0]).unwrap().len() == 32 {
            unhex(p[0])
        } else {
            None
        },
        None => None,
    }
}

/// The text with which the absence of a channel id is answered.
pub open spec fn channel_id_failure(params: Option<Seq<Seq<char>>>) -> Seq<char> {
    match params {
        None => "Route params not found"@,
        Some(p) => if p.len() == 0 {
            "No id"@
        } else {
            "Wrong Channel Id"@
        },
    }
}

/// The optional parameters as plain values.
pub open spec fn params_model(params: Option<&RouteParams>) -> Option<Seq<Seq<char>>> {
    match params {
        Some(p) => Some(p@),
        None => None,
    }
}

/// The id of the channel to load: the first parameter of the route.
///
/// A request without parameters, without a first parameter, or with one
/// that is no channel id is a bad request; the message says which.
pub fn channel_load(params: Option<&RouteParams>) -> (r: Result<ChannelId, ResponseError>)
    ensures
        r.is_ok() <==> param_channel_id(params_model(params)).is_some(),
        r.is_ok() ==> r.unwrap().bytes@ == param_channel_id(params_model(params)).unwrap(),
        r.is_err() ==> (r.unwrap_err() matches ResponseError::BadRequest(m) && m@
            == channel_id_failure(params_model(params))),
{
    let params = match params {
        Some(p) => p,
        None => {
            return Err(ResponseError::BadRequest(String::from_str("Route params not found")));
        },
    };
    let id = match params.get(0) {
        Some(id) => id,
        None => {
            return Err(ResponseError::BadRequest(String::from_str("No id")));
        },
    };
    match ChannelId::from_hex(id.as_str()) {
        Some(channel_id) => Ok(channel_id),
        None => Err(ResponseError::BadRequest(String::from_str("Wrong Channel Id"))),
    }
}

/// What names a validator in a path: 40 hexadecimal digits, with or without
/// `0x` in front.
pub open spec fn validator_id_bytes(text: Seq<char>) -> Option<Seq<u8>> {
    let digits = if text.len() >= 2 && text[0] == '0' && text[1] == 'x' {
        text.subrange(2, text.len() as int)
    } else {
        text
    };
    if unhex(digits).is_some() && unhex(digits).unwrap().len() == 20 {
        unhex(digits)
    } else {
        None
    }
}

/// The 20 bytes of a validator id given as text.
pub fn validator_id_of(text: &str) -> (r: Option<Vec<u8>>)
    ensures
        r.is_some() <==> validator_id_bytes(text@).is_some(),
        r.is_some() ==> r.unwrap()@ == validator_id_bytes(text@).unwrap(),
{
    let n: usize = text.unicode_len();
    let digits = if n >= 2 && text.get_char(0) == '0' && text.get_char(1) == 'x' {
        text.substring_char(2, n)
    } else {
        assert(text@.subrange(0, n as int) =~= text@);
        text.substring_char(0, n)
    };
    match from_hex(digits) {
        Some(bytes) => if bytes.len() == 20 {
            Some(bytes)
        } else {
            None
        },
        None => None,
    }
}

/// The channel and the validator that a route names: its first and its
/// second parameter.
///
/// The channel is read as [`channel_load`] reads it. A request without a
/// second parameter, or with one that is no validator id, is a bad request.
pub fn channel_if_active(params: Option<&RouteParams>) -> (r: Result<
    (ChannelId, Vec<u8>),
    ResponseError,
>)
    ensures
        r.is_ok() <==> (param_channel_id(params_model(params)).is_some() && params.unwrap()@.len()
            > 1 && validator_id_bytes(params.unwrap()@[1]).is_some()),
        r.is_ok() ==> r.unwrap().0.bytes@ == param_channel_id(params_model(params)).unwrap()
            && r.unwrap().1@ == validator_id_bytes(params.unwrap()@[1]).unwrap(),
        r.is_err() ==> (r.unwrap_err() matches ResponseError::BadRequest(m) && m@ == (
        if param_channel_id(params_model(params)).is_none() {
            channel_id_failure(params_model(params))
        } else if params.unwrap()@.len() <= 1 {
            "No Validator Id"@
        } else {
            "Wrong Validator Id"@
        })),
{
    let channel_id = match channel_load(params) {
        Ok(id) => id,
        Err(e) => {
            return Err(e);
        },
    };
    let route_params = match params {
        Some(p) => p,
        None => {
            return Err(ResponseError::BadRequest(String::from_str("Route params not found")));
        },
    };
    let validator = match route_params.get(1) {
        Some(v) => v,
        None => {
            return Err(ResponseError::BadRequest(String::from_str("No Validator Id")));
        },
    };
    match validator_id_of(validator.as_str()) {
        Some(bytes) => Ok((channel_id, bytes)),
        None => Err(ResponseError::BadRequest(String::from_str("Wrong Validator Id"))),
    }
}

/// The channel id for the handlers that want it, where the route has
/// parameters: the first of them.
///
/// Without parameters there is nothing to read, and that is in order. A
/// first parameter that is no channel id is a bad request.
pub fn get_channel_id(params: Option<&RouteParams>) -> (r: Result<Option<ChannelId>, ResponseError>)
    requires
        params.is_some() ==> params.unwrap()@.len() > 0,
    ensures
        params.is_none() ==> r.is_ok() && r.unwrap().is_none(),
        params.is_some() ==> (r.is_ok() <==> param_channel_id(params_model(params)).is_some()),
        params.is_some() && r.is_ok() ==> r.unwrap().is_some() && r.unwrap().unwrap().bytes@
            == param_channel_id(params_model(params)).unwrap(),
        r.is_err() ==> (r.unwrap_err() matches ResponseError::BadRequest(m) && m@
            == "Invalid Channel Id"@),
{
    match params {
        Some(param) => {
            let id = param.index(0);
            match ChannelId::from_hex(id.as_str()) {
                Some(channel_id) => Ok(Some(channel_id)),
                None => Err(ResponseError::BadRequest(String::from_str("Invalid Channel Id"))),
            }
        },
        None => Ok(None),
    }
}

} // verus!
