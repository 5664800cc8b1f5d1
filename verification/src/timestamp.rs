//! Timestamps as plain values: seconds and nanoseconds since the epoch.
//! Parsing and formatting of the wire formats is done by the calendar
//! library behind trusted wrappers; comparison and everything downstream of
//! a parse is verified here.

use vstd::prelude::*;

verus! {

/// `a` lies strictly before `b`: the change filter's "local file is older
/// than the remote copy".
pub open spec fn time_before(a: (i64, u32), b: (i64, u32)) -> bool {
    a.0 < b.0 || (a.0 == b.0 && a.1 < b.1)
}

/// Compares two epoch instants, seconds first, then nanoseconds.
pub fn epoch_before(a: (i64, u32), b: (i64, u32)) -> (r: bool)
    ensures
        r == time_before(a, b),
{
    a.0 < b.0 || (a.0 == b.0 && a.1 < b.1)
}

/// What parsing an RFC 3339 timestamp yields — the epoch instant, or
/// nothing for malformed text.  A function of the text alone.
pub uninterp spec fn rfc3339_of(s: Seq<char>) -> Option<(i64, u32)>;

/// Relies on `chrono::DateTime::parse_from_rfc3339` and the `timestamp` /
/// `timestamp_subsec_nanos` accessors: the parsed absolute instant, a
/// function of the text alone.
#[verifier::external_body]
pub(crate) fn parse_rfc3339(s: &str) -> (r: Option<(i64, u32)>)
    ensures
        r == rfc3339_of(s@),
{
    match chrono::DateTime::parse_from_rfc3339(s) {
        Ok(dt) => Some((dt.timestamp(), dt.timestamp_subsec_nanos())),
        Err(_) => None,
    }
}

/// The epoch instant a candidate's remote timestamp text denotes, if it
/// parses.
pub fn remote_timestamp(s: &str) -> (r: Option<(i64, u32)>)
    ensures
        r == rfc3339_of(s@),
{
    parse_rfc3339(s)
}

/// Whether a text parses as an RFC 2822 timestamp.  Only parseability is a
/// function of the text alone; the rendered local-zone text below is not.
pub uninterp spec fn rfc2822_ok(s: Seq<char>) -> bool;

/// Relies on `chrono::DateTime::parse_from_rfc2822`, `with_timezone` with
/// the local zone, and `to_rfc3339`.  The rendering depends on the host's
/// time zone, so nothing is stated of the text beyond when it exists.
#[verifier::external_body]
pub(crate) fn rfc2822_to_rfc3339_local(s: &str) -> (r: Option<String>)
    ensures
        r is Some == rfc2822_ok(s@),
{
    match chrono::DateTime::parse_from_rfc2822(s) {
        Ok(dt) => Some(dt.with_timezone(&chrono::Local).to_rfc3339()),
        Err(_) => None,
    }
}

/// Relies on `chrono::Local::now` and `to_rfc3339`.  The clock's reading
/// admits no contract.
#[verifier::external_body]
pub(crate) fn now_rfc3339_local() -> String {
    chrono::Local::now().to_rfc3339()
}

/// The RFC 3339 rendering of an epoch-millisecond instant, or nothing when
/// the instant lies outside the calendar's range.  A function of the
/// milliseconds alone.
pub uninterp spec fn rfc3339_from_millis(ms: i64) -> Option<Seq<char>>;

/// Relies on `chrono::TimeZone::timestamp_millis_opt` over UTC, `earliest`,
/// and `to_rfc3339`: an in-range instant renders to its UTC text.
#[verifier::external_body]
pub(crate) fn millis_to_rfc3339(ms: i64) -> (r: Option<String>)
    ensures
        match r {
            Some(t) => rfc3339_from_millis(ms) == Some(t@),
            None => rfc3339_from_millis(ms) is None,
        },
{
    match chrono::TimeZone::timestamp_millis_opt(&chrono::Utc, ms).earliest() {
        Some(dt) => Some(dt.to_rfc3339()),
        None => None,
    }
}

} // verus!
