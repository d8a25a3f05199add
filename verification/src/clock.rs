//! Timestamps.
//!
//! The library measures time as whole seconds since the Unix epoch,
//! UTC. Turning an RFC 3339 date-time string into such a count is
//! chrono's work; the result is named by [`rfc3339_secs`].

use vstd::prelude::*;

verus! {

/// The Unix-second reading of an RFC 3339 date-time string: `None`
/// when the string is not a valid RFC 3339 date-time.
pub uninterp spec fn rfc3339_secs(s: Seq<char>) -> Option<i64>;

/// Relies on chrono's `DateTime::parse_from_rfc3339` and
/// `DateTime::timestamp`: parsing an RFC 3339 date-time and reading
/// it as seconds since the Unix epoch depend on the characters alone.
#[verifier::external_body]
pub(crate) fn parse_rfc3339(s: &str) -> (r: Option<i64>)
    ensures
        r == rfc3339_secs(s@),
{
    chrono::DateTime::parse_from_rfc3339(s).ok().map(|d| d.timestamp())
}

} // verus!
