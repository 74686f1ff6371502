//! Moments in time as plain numbers.

use vstd::prelude::*;

verus! {

/// A moment with the offset from UTC under which it was written: the seconds
/// since 1970-01-01T00:00:00Z, the nanoseconds into that second, and the
/// offset of the local time from UTC in seconds, east being positive.
#[derive(Clone, Copy, Debug, PartialEq, Eq, Structural)]
pub struct Timestamp {
    pub seconds: i64,
    pub nanos: u32,
    pub offset_seconds: i32,
}

/// The moment that an RFC 3339 date and time denotes; `None` where the text
/// is not one.
pub uninterp spec fn rfc3339_timestamp(text: Seq<char>) -> Option<Timestamp>;

/// Calls `chrono::DateTime::parse_from_rfc3339` and reads the result with
/// `DateTime::timestamp`, `DateTime::timestamp_subsec_nanos` and
/// `FixedOffset::local_minus_utc`. Trusted: what comes back depends on the
/// text alone, and an error comes back as `None`.
#[verifier::external_body]
pub(crate) fn parse_rfc3339(text: &str) -> (r: Option<Timestamp>)
    ensures
        r == rfc3339_timestamp(text@),
{
    chrono::DateTime::parse_from_rfc3339(text).ok().map(|moment| Timestamp {
        seconds: moment.timestamp(),
        nanos: moment.timestamp_subsec_nanos(),
        offset_seconds: moment.offset().local_minus_utc(),
    })
}

} // verus!
