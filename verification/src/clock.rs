//! Timestamps.
//!
//! Records carry RFC 3339 timestamps, and the history read path filters
//! on them. Parsing a timestamp is a pure function of its characters
//! and is delegated to chrono under the name `rfc3339_millis`; reading
//! the clock depends on the machine and carries no promise beyond what
//! chrono documents of its output format.

use vstd::prelude::*;

verus! {

/// The instant an RFC 3339 timestamp denotes, in milliseconds since the
/// Unix epoch — or none for a string that is not a valid RFC 3339
/// timestamp. The result depends on the characters alone.
pub uninterp spec fn rfc3339_millis(s: Seq<char>) -> Option<i64>;

/// Relies on chrono's `DateTime::parse_from_rfc3339` followed by
/// `timestamp_millis`: parsing an RFC 3339 string is deterministic in
/// the string, and a string chrono rejects yields none.
#[verifier::external_body]
pub(crate) fn parse_rfc3339_millis(s: &str) -> (r: Option<i64>)
    ensures
        r == rfc3339_millis(s@),
{
    match chrono::DateTime::parse_from_rfc3339(s) {
        Ok(dt) => Some(dt.timestamp_millis()),
        Err(_) => None,
    }
}

/// Relies on chrono's `Utc::now().to_rfc3339()` and
/// `parse_from_rfc3339`: the rendered timestamp parses back. The body
/// checks the round trip itself and falls back to the epoch for a clock
/// whose year needs more than the four digits RFC 3339 parsing accepts,
/// so the contract holds of every outcome. Nothing is assumed about
/// which instant the clock reports.
#[verifier::external_body]
pub(crate) fn now_rfc3339() -> (r: String)
    ensures
        rfc3339_millis(r@) is Some,
{
    let rendered = chrono::Utc::now().to_rfc3339();
    if chrono::DateTime::parse_from_rfc3339(&rendered).is_ok() {
        rendered
    } else {
        "1970-01-01T00:00:00+00:00".to_string()
    }
}

/// Relies on chrono's `Utc::now().timestamp()`: seconds since the Unix
/// epoch as the machine clock stands. Nothing is assumed of the value.
#[verifier::external_body]
pub(crate) fn now_unix() -> i64 {
    chrono::Utc::now().timestamp()
}

} // verus!
