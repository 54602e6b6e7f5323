//! The time of day.

use chrono::Utc;
use vstd::prelude::*;

verus! {

/// Trusted: `chrono::Utc::now` and `DateTime::timestamp_millis`, the
/// milliseconds since the Unix epoch at the moment of the call. Nothing is
/// claimed of the number.
#[verifier::external_body]
pub(crate) fn now_millis() -> i64 {
    Utc::now().timestamp_millis()
}

} // verus!
