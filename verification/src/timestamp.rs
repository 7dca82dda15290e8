use vstd::prelude::*;
use vstd::string::*;
use crate::json::{JsonLite, JsonView};

verus! {

/// The millisecond epoch value of an RFC3339 date-time string, or
/// `None` when the string is not one.
pub uninterp spec fn rfc3339_millis(s: Seq<char>) -> Option<i64>;

/// Relies on chrono::DateTime::parse_from_rfc3339 and
/// DateTime::timestamp_millis: whether a string is a valid RFC3339
/// date-time, and its millisecond epoch value, depend on the
/// characters alone.
#[verifier::external_body]
fn parse_rfc3339_ms(text: &str) -> (r: Option<i64>)
    ensures
        r == rfc3339_millis(text@),
{
    match chrono::DateTime::parse_from_rfc3339(text) {
        Ok(dt) => Some(dt.timestamp_millis()),
        Err(_) => None,
    }
}

/// The seconds-vs-milliseconds heuristic: a number whose magnitude is
/// below one trillion is taken as seconds and scaled, anything larger
/// is already milliseconds.
pub open spec fn scaled_ms(n: i64) -> i64 {
    if -1000000000000 < n && n < 1000000000000 {
        (n * 1000) as i64
    } else {
        n
    }
}

/// The millisecond timestamp a JSON value stands for: RFC3339 for
/// strings, the scaling heuristic for integers, nothing for all other
/// shapes.
pub open spec fn ts_of_view(v: JsonView) -> Option<i64> {
    match v {
        JsonView::Text(s) => rfc3339_millis(s),
        JsonView::Int(n) => Some(scaled_ms(n)),
        _ => None,
    }
}

/// Converts one raw timestamp value into an optional millisecond
/// epoch integer.
pub fn parse_timestamp_ms(value: &JsonLite) -> (r: Option<i64>)
    ensures
        r == ts_of_view(value@),
{
    match value {
        JsonLite::Text(s) => parse_rfc3339_ms(s.as_str()),
        JsonLite::Int(n) => {
            let raw = *n;
            if -1000000000000 < raw && raw < 1000000000000 {
                Some(raw * 1000)
            } else {
                Some(raw)
            }
        },
        _ => None,
    }
}

/// A numeric timestamp below the trillion threshold in magnitude is
/// scaled by exactly one thousand; on or above it, it passes through
/// unchanged.
pub proof fn lemma_timestamp_scaling(n: i64)
    ensures
        (-1000000000000 < n && n < 1000000000000) ==> ts_of_view(JsonView::Int(n)) == Some(
            (n * 1000) as i64,
        ),
        !(-1000000000000 < n && n < 1000000000000) ==> ts_of_view(JsonView::Int(n)) == Some(n),
{
}

} // verus!
