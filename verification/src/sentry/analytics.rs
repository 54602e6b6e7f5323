//! Decisions of the analytics routes.

use crate::primitives::text::str_same;
use vstd::prelude::*;
use vstd::string::*;

verus! {

/// The seconds for which an analytics answer is kept: ten minutes for one
/// channel, five for all.
pub fn cache_timeframe(has_route_params: bool) -> (r: i32)
    ensures
        r == (if has_route_params { 600i32 } else { 300i32 }),
{
    if has_route_params {
        600
    } else {
        300
    }
}

/// Whether an analytics query asks for segments by channel: it does where
/// it names the parameter, whatever it gives for it.
pub fn segment_by_channel(parameter: &Option<String>) -> (r: bool)
    ensures
        r == parameter.is_some(),
{
    parameter.is_some()
}

/// The event types that analytics know of.
pub open spec fn known_event_type(s: Seq<char>) -> bool {
    s == "IMPRESSION"@ || s == "CLICK"@
}

/// The metrics that analytics know of.
pub open spec fn known_metric(s: Seq<char>) -> bool {
    s == "eventCounts"@ || s == "eventPayouts"@
}

/// The timeframes that analytics know of.
pub open spec fn known_timeframe(s: Seq<char>) -> bool {
    s == "year"@ || s == "month"@ || s == "week"@ || s == "day"@ || s == "hour"@
}

/// What is said of the first member of a query that is not known: the event
/// type comes before the metric, the metric before the timeframe.
pub open spec fn query_failure(event_type: Seq<char>, metric: Seq<char>) -> Seq<char> {
    if !known_event_type(event_type) {
        "invalid eventType, possible values are: IMPRESSION ,CLICK"@
    } else if !known_metric(metric) {
        "invalid metric, possible values are: eventCounts ,eventPayouts"@
    } else {
        "invalid timeframe, possible values are: year ,month ,week ,day ,hour"@
    }
}

/// Whether an analytics query asks for something that analytics know of.
///
/// It does where its event type, its metric and its timeframe are all
/// known. Where not, the error names the first of them that is not, and the
/// values it could have.
pub fn analytics_query_valid(event_type: &str, metric: &str, timeframe: &str) -> (r: Result<
    (),
    String,
>)
    ensures
        r.is_ok() <==> known_event_type(event_type@) && known_metric(metric@) && known_timeframe(
            timeframe@,
        ),
        r.is_err() ==> r.unwrap_err()@ == query_failure(event_type@, metric@),
{
    if !(str_same(event_type, "IMPRESSION") || str_same(event_type, "CLICK")) {
        return Err(String::from_str("invalid eventType, possible values are: IMPRESSION ,CLICK"));
    }
    if !(str_same(metric, "eventCounts") || str_same(metric, "eventPayouts")) {
        return Err(
            String::from_str("invalid metric, possible values are: eventCounts ,eventPayouts"),
        );
    }
    if !(str_same(timeframe, "year") || str_same(timeframe, "month") || str_same(timeframe, "week")
        || str_same(timeframe, "day") || str_same(timeframe, "hour")) {
        return Err(
            String::from_str(
                "invalid timeframe, possible values are: year ,month ,week ,day ,hour",
            ),
        );
    }
    Ok(())
}

} // verus!
