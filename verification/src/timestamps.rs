//! Moments in time, and the text form in which they travel.

use vstd::prelude::*;
use vstd::string::*;

use crate::text::opt_string;

verus! {

/// A moment: the seconds since the start of 1970 in UTC, and the nanoseconds within the second.
#[derive(Debug, Clone, Copy, PartialEq, Eq, Structural)]
pub struct Timestamp {
    pub seconds: i64,
    pub nanos: u32,
}

/// Whether `chrono::DateTime` holds a moment: from the start of the year -262143 to the end of the
/// year 262142, with up to a second of nanoseconds, and up to two where a leap second may stand.
pub open spec fn is_moment(time: Timestamp) -> bool {
    &&& -8_334_601_228_800 <= time.seconds <= 8_210_266_876_799
    &&& time.nanos < 1_000_000_000 || (time.nanos < 2_000_000_000 && time.seconds as int % 60 == 59)
}

/// What `chrono::DateTime::to_rfc3339` writes for a moment in UTC; nothing for a moment that
/// `chrono::DateTime` cannot hold.
pub uninterp spec fn rfc3339_text(time: Timestamp) -> Option<Seq<char>>;

/// The moment that chrono reads from a text in the relaxed form of RFC 3339.
pub uninterp spec fn parsed_timestamp(text: Seq<char>) -> Option<Timestamp>;

/// Calls `chrono::DateTime::from_timestamp` and `to_rfc3339`. The text is named. Every moment that
/// `chrono::DateTime` holds has a text, and it reads back as the same moment.
#[verifier::external_body]
pub(crate) fn write_timestamp(time: Timestamp) -> (r: Option<String>)
    ensures
        opt_string(r) == rfc3339_text(time),
        r is Some <==> is_moment(time),
        r matches Some(text) ==> parsed_timestamp(text@) == Some(time),
{
    chrono::DateTime::from_timestamp(time.seconds, time.nanos).map(|moment| moment.to_rfc3339())
}

/// Calls `parse` for a `chrono::DateTime<chrono::Utc>`; the moment, or the refusal, is named.
#[verifier::external_body]
pub(crate) fn parse_timestamp(text: &str) -> (r: Option<Timestamp>)
    ensures
        r == parsed_timestamp(text@),
{
    text.parse::<chrono::DateTime<chrono::Utc>>().ok().map(
        |moment| Timestamp { seconds: moment.timestamp(), nanos: moment.timestamp_subsec_nanos() },
    )
}

} // verus!
