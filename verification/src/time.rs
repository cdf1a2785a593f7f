//! Instants and spans. An instant is a count of microseconds since the Unix
//! epoch in UTC, the resolution at which the tick store keeps time.

use vstd::prelude::*;

verus! {

/// Microseconds since 1970-01-01T00:00:00Z.
pub type Instant = i64;

/// The instant that an RFC 3339 text denotes, according to chrono; `None`
/// for a text that chrono does not accept.
pub uninterp spec fn rfc3339_instant(text: Seq<char>) -> Option<i64>;

/// The RFC 3339 text that chrono writes for an instant; `None` for an
/// instant outside the years that chrono can hold.
pub uninterp spec fn rfc3339_text(instant: i64) -> Option<Seq<char>>;

/// The instant that lies `nanos` nanoseconds after the Unix second `secs`,
/// according to chrono; `None` where chrono cannot hold it.
pub uninterp spec fn timestamp_instant(secs: i64, nanos: u32) -> Option<i64>;

/// `chrono::DateTime::parse_from_rfc3339`, followed by
/// `DateTime::timestamp_micros`: the parsed instant in microseconds, or
/// `None` where the parser returns an error. Nothing is claimed of which
/// texts are accepted.
#[verifier::external_body]
pub(crate) fn parse_rfc3339(text: &str) -> (r: Option<Instant>)
    ensures
        r == rfc3339_instant(text@),
{
    match chrono::DateTime::parse_from_rfc3339(text) {
        Ok(t) => Some(t.timestamp_micros()),
        Err(_) => None,
    }
}

/// `chrono::DateTime::from_timestamp_micros`, followed by
/// `DateTime::to_rfc3339`: the text of the instant, or `None` where the
/// first call finds the instant out of range.
#[verifier::external_body]
pub(crate) fn format_rfc3339(instant: Instant) -> (r: Option<String>)
    ensures
        match r {
            Some(text) => rfc3339_text(instant) == Some(text@),
            None => rfc3339_text(instant) is None,
        },
{
    match chrono::DateTime::from_timestamp_micros(instant) {
        Some(t) => Some(t.to_rfc3339()),
        None => None,
    }
}

/// `chrono::DateTime::from_timestamp`, followed by
/// `DateTime::timestamp_micros`. chrono documents that the seconds and the
/// nanoseconds of the value it builds are the two arguments, so the
/// microseconds are `secs * 1_000_000 + nanos / 1000`; when it builds one
/// is left to chrono.
#[verifier::external_body]
pub(crate) fn instant_from_timestamp(secs: i64, nanos: u32) -> (r: Option<Instant>)
    ensures
        r == timestamp_instant(secs, nanos),
        r matches Some(t) ==> t == secs * 1_000_000 + nanos / 1000,
{
    match chrono::DateTime::from_timestamp(secs, nanos) {
        Some(t) => Some(t.timestamp_micros()),
        None => None,
    }
}

/// Whole minutes in the span from `earlier` to `later`, rounded toward
/// zero and kept within the range of `i64`.
pub open spec fn whole_minutes(earlier: int, later: int) -> int {
    if later >= earlier {
        (later - earlier) / 60_000_000
    } else {
        -((earlier - later) / 60_000_000)
    }
}

/// Whole minutes in the span from `earlier` to `later`, rounded toward zero.
pub fn minutes_between(earlier: Instant, later: Instant) -> (m: i64)
    ensures
        m == whole_minutes(earlier as int, later as int),
{
    let span: i128 = later as i128 - earlier as i128;
    (span / 60_000_000) as i64
}

/// `instant - span`, held at the ends of the range of `i64`.
pub open spec fn earlier_by(instant: int, span: int) -> int {
    if instant - span < i64::MIN {
        i64::MIN as int
    } else if instant - span > i64::MAX {
        i64::MAX as int
    } else {
        instant - span
    }
}

/// The instant `span` microseconds before `instant`, held at the ends of
/// the range.
pub fn instant_before(instant: Instant, span: i64) -> (r: Instant)
    ensures
        r == earlier_by(instant as int, span as int),
{
    let wide: i128 = instant as i128 - span as i128;
    if wide < i64::MIN as i128 {
        i64::MIN
    } else if wide > i64::MAX as i128 {
        i64::MAX
    } else {
        wide as i64
    }
}

} // verus!
