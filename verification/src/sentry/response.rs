//! The answers of the sentry, before they are put on the wire.

use crate::sentry::routing::ResponseError;
use vstd::prelude::*;
use vstd::string::*;

verus! {

/// What an answer carries.
#[derive(Debug)]
pub enum ReplyBody {
    /// Plain text.
    Text(String),
    /// A JSON object with the one member `message`.
    Message(String),
    /// A JSON object that reports a failed validation.
    Validation { status_code: u16, message: String, validation: Vec<String> },
    /// JSON text that is sent as it is.
    Json(String),
}

/// An answer: its status, whether it is declared as JSON, and its body.
#[derive(Debug)]
pub struct Reply {
    pub status: u16,
    pub json: bool,
    pub body: ReplyBody,
}

/// The answer to a request for something that is not there.
pub fn not_found() -> (r: Reply)
    ensures
        r.status == 404,
        !r.json,
        (r.body matches ReplyBody::Text(t) && t@ == "Not found"@),
{
    Reply { status: 404, json: false, body: ReplyBody::Text(String::from_str("Not found")) }
}

/// An answer that reports `response_body` as the message of an error with
/// status `status_code`.
pub fn bad_response(response_body: String, status_code: u16) -> (r: Reply)
    ensures
        r.status == status_code,
        r.json,
        r.body == ReplyBody::Message(response_body),
{
    Reply { status: status_code, json: true, body: ReplyBody::Message(response_body) }
}

/// The answer to a request that failed validation.
pub fn bad_validation_response(response_body: String) -> (r: Reply)
    ensures
        r.status == 400,
        r.json,
        (r.body matches ReplyBody::Validation { status_code, message, validation }
            && status_code == 400 && message@ == response_body@ && validation@.len() == 1
            && validation@[0] == response_body),
{
    let mut validation: Vec<String> = Vec::new();
    let message = response_body.clone();
    validation.push(response_body);
    Reply {
        status: 400,
        json: true,
        body: ReplyBody::Validation { status_code: 400, message, validation },
    }
}

/// The answer that carries `response_body` as the JSON of a success.
pub fn success_response(response_body: String) -> (r: Reply)
    ensures
        r.status == 200,
        r.json,
        r.body == ReplyBody::Json(response_body),
{
    Reply { status: 200, json: true, body: ReplyBody::Json(response_body) }
}

/// The status that an error is answered with.
pub open spec fn error_status(error: ResponseError) -> u16 {
    match error {
        ResponseError::NotFound => 404,
        ResponseError::BadRequest(_) => 400,
        ResponseError::FailedValidation(_) => 400,
        ResponseError::Unauthorized => 401,
        ResponseError::Forbidden(_) => 403,
        ResponseError::Conflict(_) => 409,
        ResponseError::TooManyRequests(_) => 429,
    }
}

/// The answer to a request that was turned down.
pub fn map_response_error(error: ResponseError) -> (r: Reply)
    ensures
        r.status == error_status(error),
        r.json == !(error is NotFound),
        match error {
            ResponseError::NotFound => (r.body matches ReplyBody::Text(t) && t@ == "Not found"@),
            ResponseError::BadRequest(e) => r.body == ReplyBody::Message(e),
            ResponseError::Unauthorized => (r.body matches ReplyBody::Message(m) && m@
                == "invalid authorization"@),
            ResponseError::Forbidden(e) => r.body == ReplyBody::Message(e),
            ResponseError::Conflict(e) => r.body == ReplyBody::Message(e),
            ResponseError::TooManyRequests(e) => r.body == ReplyBody::Message(e),
            ResponseError::FailedValidation(e) => (r.body matches ReplyBody::Validation {
                status_code,
                message,
                validation,
            } && status_code == 400 && message@ == e@ && validation@.len() == 1 && validation@[0]
                == e),
        },
{
    match error {
        ResponseError::NotFound => not_found(),
        ResponseError::BadRequest(e) => bad_response(e, 400),
        ResponseError::Unauthorized => bad_response(String::from_str("invalid authorization"), 401),
        ResponseError::Forbidden(e) => bad_response(e, 403),
        ResponseError::Conflict(e) => bad_response(e, 409),
        ResponseError::TooManyRequests(e) => bad_response(e, 429),
        ResponseError::FailedValidation(e) => bad_validation_response(e),
    }
}

/// The error that stands for any failure inside the sentry: a bad request
/// to be tried again.
pub fn internal_failure() -> (r: ResponseError)
    ensures
        (r matches ResponseError::BadRequest(m) && m@ == "Bad Request: try again later"@),
{
    ResponseError::BadRequest(String::from_str("Bad Request: try again later"))
}

} // verus!
