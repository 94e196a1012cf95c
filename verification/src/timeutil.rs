//! Trusted boundary around the clock and timestamp parsing.

use vstd::prelude::*;

verus! {

/// The epoch milliseconds an RFC 3339 timestamp denotes, or nothing when
/// the text does not parse.  The result depends on the text alone.
pub uninterp spec fn rfc3339_epoch_millis(s: Seq<char>) -> Option<int>;

/// Relies on `chrono::Utc::now`: the wall clock, read as epoch
/// milliseconds.  Nothing is promised of the value.
#[verifier::external_body]
pub fn now_millis() -> (r: u64)
{
    chrono::Utc::now().timestamp_millis() as u64
}

/// Relies on `chrono::Utc::now`: the wall clock, rendered as an RFC 3339
/// timestamp.  Nothing is promised of the value.
#[verifier::external_body]
pub fn now_rfc3339() -> (r: String)
{
    chrono::Utc::now().to_rfc3339()
}

/// Relies on `chrono::DateTime::parse_from_rfc3339` and
/// `timestamp_millis`: parsing succeeds on exactly the well-formed
/// timestamps, and the milliseconds depend on the text alone.
#[verifier::external_body]
pub fn parse_rfc3339_millis(s: &str) -> (r: Option<i64>)
    ensures
        r is Some <==> rfc3339_epoch_millis(s@) is Some,
        r matches Some(m) ==> rfc3339_epoch_millis(s@) == Some(m as int),
{
    chrono::DateTime::parse_from_rfc3339(s).ok().map(|dt| dt.timestamp_millis())
}

} // verus!
