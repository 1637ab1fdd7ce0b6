//! Time: how text becomes a point in time, and what time it is. Both come
//! from the `chrono` crate.

use vstd::prelude::*;

verus! {

/// The form in which requests write a point in time: `YYYY-MM-DD HH:MM:SS`,
/// without a time zone, read as UTC.
pub const TIMESTAMP_FORMAT: &'static str = "%Y-%m-%d %H:%M:%S";

/// What `chrono::NaiveDateTime::parse_from_str` makes of `text` under
/// `format`: the point in time in microseconds since the Unix epoch, or
/// nothing where it rejects the text.
pub uninterp spec fn parsed_timestamp(text: Seq<char>, format: Seq<char>) -> Option<i64>;

/// Reads a point in time with `chrono::NaiveDateTime::parse_from_str`.
/// Nothing is claimed of which texts are accepted or of the value read, only
/// that both depend on the text and the format alone; the value is handed on
/// as whole microseconds since the Unix epoch, taking the text as UTC.
#[verifier::external_body]
pub(crate) fn parse_timestamp(text: &str, format: &str) -> (r: Option<i64>)
    ensures
        r == parsed_timestamp(text@, format@),
{
    match chrono::NaiveDateTime::parse_from_str(text, format) {
        Ok(t) => Some(t.and_utc().timestamp_micros()),
        Err(_) => None,
    }
}

/// The time of the system clock, from `chrono::Utc::now`, in microseconds
/// since the Unix epoch. Nothing is claimed of the value. `chrono` panics if
/// the system clock stands before the epoch.
#[verifier::external_body]
pub(crate) fn utc_now_micros() -> i64 {
    chrono::Utc::now().timestamp_micros()
}

} // verus!
