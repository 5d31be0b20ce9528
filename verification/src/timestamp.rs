//! Timestamps as RFC 3339 text, by way of the `chrono` crate.

use vstd::prelude::*;
use crate::entry::Timestamp;

verus! {

/// The RFC 3339 text that `chrono` writes for an instant and an offset, or
/// `None` where the numbers are no date and time that `chrono` can hold.
pub uninterp spec fn rfc3339_text(secs: i64, nanos: u32, offset: i32) -> Option<Seq<char>>;

/// The instant and offset that `chrono` reads from an RFC 3339 text, or `None`
/// where the text is none.
pub uninterp spec fn rfc3339_parsed(text: Seq<char>) -> Option<(i64, u32, i32)>;

/// The text that a timestamp is stored as.
pub open spec fn timestamp_text(t: Timestamp) -> Option<Seq<char>> {
    rfc3339_text(t.secs, t.nanos, t.offset)
}

/// The timestamp that a stored text stands for.
pub open spec fn parsed_timestamp(text: Seq<char>) -> Option<Timestamp> {
    match rfc3339_parsed(text) {
        Some((secs, nanos, offset)) => Some(Timestamp { secs, nanos, offset }),
        None => None,
    }
}

/// Calls `chrono::DateTime::to_rfc3339` on the date and time that
/// `DateTime::from_timestamp` and `FixedOffset::east_opt` make of the
/// numbers. Trusted: the text depends on the three numbers alone, and the
/// result is `None` exactly where one of the two constructors refuses them.
#[verifier::external_body]
pub(crate) fn format_rfc3339(t: Timestamp) -> (res: Option<String>)
    ensures
        match res {
            Some(text) => rfc3339_text(t.secs, t.nanos, t.offset) == Some(text@),
            None => rfc3339_text(t.secs, t.nanos, t.offset) is None,
        },
{
    let utc = chrono::DateTime::from_timestamp(t.secs, t.nanos)?;
    let zone = chrono::FixedOffset::east_opt(t.offset)?;
    Some(utc.with_timezone(&zone).to_rfc3339())
}

/// Calls `chrono::DateTime::parse_from_rfc3339` and takes the result apart
/// with `timestamp`, `timestamp_subsec_nanos` and `local_minus_utc`.
/// Trusted: the numbers depend on the text alone, and the result is `None`
/// exactly where the parser reports an error.
#[verifier::external_body]
pub(crate) fn parse_rfc3339(text: &str) -> (res: Option<Timestamp>)
    ensures
        match res {
            Some(t) => rfc3339_parsed(text@) == Some((t.secs, t.nanos, t.offset)),
            None => rfc3339_parsed(text@) is None,
        },
{
    match chrono::DateTime::parse_from_rfc3339(text) {
        Ok(t) => Some(
            Timestamp {
                secs: t.timestamp(),
                nanos: t.timestamp_subsec_nanos(),
                offset: t.offset().local_minus_utc(),
            },
        ),
        Err(_) => None,
    }
}

} // verus!
