use vstd::prelude::*;

use crate::error::{AppError, Result};

verus! {

/// An instant in UTC: whole seconds since 1970-01-01T00:00:00Z and the
/// nanoseconds past that second.
#[derive(Debug, Clone, Copy, PartialEq, Eq, Structural)]
pub struct Timestamp {
    pub secs: i64,
    pub nanos: u32,
}

/// The instant that an RFC 3339 text denotes, converted to UTC; `None` where the
/// text is not RFC 3339.
pub uninterp spec fn rfc3339_instant(s: Seq<char>) -> Option<Timestamp>;

/// The instant that a text denotes when read with a strftime-style format that
/// carries no offset, taken as UTC; `None` where the text does not match.
pub uninterp spec fn naive_utc_instant(s: Seq<char>, fmt: Seq<char>) -> Option<Timestamp>;

/// The instant at midnight UTC of the day that a text denotes when read with a
/// strftime-style date format; `None` where the text does not match.
pub uninterp spec fn naive_date_instant(s: Seq<char>, fmt: Seq<char>) -> Option<Timestamp>;

/// A day written `YYYY-MM-DD`.
pub const DATE_FORMAT: &'static str = "%Y-%m-%d";

/// The storage engine's own date-time text, `YYYY-MM-DD HH:MM:SS`.
pub const NAIVE_FORMAT: &'static str = "%Y-%m-%d %H:%M:%S";

/// The same with a fraction of a second after the seconds.
pub const NAIVE_FRACTION_FORMAT: &'static str = "%Y-%m-%d %H:%M:%S%.f";

/// The first second of the year 0000, UTC.
pub const FIRST_WRITABLE_SECS: i64 = -62167219200;

/// The last second of the year 9999, UTC.
pub const LAST_WRITABLE_SECS: i64 = 253402300799;

/// An instant whose RFC 3339 text has a four-digit year and no leap second.
pub open spec fn writable(t: Timestamp) -> bool {
    FIRST_WRITABLE_SECS <= t.secs <= LAST_WRITABLE_SECS && t.nanos < 1_000_000_000
}

/// The RFC 3339 text of an instant, offset `+00:00`.
///
/// Relies on `chrono::DateTime::from_timestamp`, which represents every
/// instant of the years 0000 to 9999, and on `DateTime::to_rfc3339`, which
/// writes the year in four digits and as many digits of the fraction as it
/// needs, so that `DateTime::parse_from_rfc3339` reads the same instant back.
#[verifier::external_body]
pub(crate) fn rfc3339_text(t: Timestamp) -> (r: Option<String>)
    ensures
        writable(t) ==> r is Some,
        writable(t) ==> rfc3339_instant(r->0@) == Some(t),
{
    match chrono::DateTime::from_timestamp(t.secs, t.nanos) {
        Some(d) => Some(d.to_rfc3339()),
        None => None,
    }
}

/// The current time.
///
/// Relies on `chrono::Utc::now`, read back through `DateTime::timestamp` and
/// `DateTime::timestamp_subsec_nanos`.
#[verifier::external_body]
pub(crate) fn now() -> (r: Timestamp) {
    let t = chrono::Utc::now();
    Timestamp { secs: t.timestamp(), nanos: t.timestamp_subsec_nanos() }
}

/// Relies on `chrono::DateTime::parse_from_rfc3339`: the text read as RFC 3339,
/// with its offset, and the instant taken in UTC.
#[verifier::external_body]
fn parse_rfc3339(s: &str) -> (r: Option<Timestamp>)
    ensures
        r == rfc3339_instant(s@),
{
    match chrono::DateTime::parse_from_rfc3339(s) {
        Ok(d) => Some(Timestamp { secs: d.timestamp(), nanos: d.timestamp_subsec_nanos() }),
        Err(_) => None,
    }
}

/// Relies on `chrono::NaiveDateTime::parse_from_str`: the text read with the
/// format `fmt`, and the date and time taken as UTC.
#[verifier::external_body]
fn parse_naive_utc(s: &str, fmt: &str) -> (r: Option<Timestamp>)
    ensures
        r == naive_utc_instant(s@, fmt@),
{
    match chrono::NaiveDateTime::parse_from_str(s, fmt) {
        Ok(n) => {
            let d = n.and_utc();
            Some(Timestamp { secs: d.timestamp(), nanos: d.timestamp_subsec_nanos() })
        },
        Err(_) => None,
    }
}

/// Relies on `chrono::NaiveDate::parse_from_str`: the text read as a day with
/// the format `fmt`, and midnight of that day (`and_hms_opt(0, 0, 0)`, which
/// every day has) taken as UTC.
#[verifier::external_body]
fn parse_naive_date_utc(s: &str, fmt: &str) -> (r: Option<Timestamp>)
    ensures
        r == naive_date_instant(s@, fmt@),
{
    match chrono::NaiveDate::parse_from_str(s, fmt) {
        Ok(d) => match d.and_hms_opt(0, 0, 0) {
            Some(n) => Some(Timestamp { secs: n.and_utc().timestamp(), nanos: n.and_utc().timestamp_subsec_nanos() }),
            None => None,
        },
        Err(_) => None,
    }
}

/// The instant that a date typed by a user denotes: `YYYY-MM-DD HH:MM:SS`, or
/// `YYYY-MM-DD` for midnight, both in UTC.
pub open spec fn input_instant(s: Seq<char>) -> Option<Timestamp> {
    if naive_utc_instant(s, NAIVE_FORMAT@) is Some {
        naive_utc_instant(s, NAIVE_FORMAT@)
    } else {
        naive_date_instant(s, DATE_FORMAT@)
    }
}

/// Reads a date typed by a user; any other text is a validation error.
pub fn parse_datetime(s: &str) -> (r: Result<Timestamp>)
    ensures
        input_instant(s@) matches Some(t) ==> r == Ok::<Timestamp, AppError>(t),
        input_instant(s@) is None ==> (r matches Err(e) && e is Validation),
{
    if let Some(t) = parse_naive_utc(s, NAIVE_FORMAT) {
        return Ok(t);
    }
    if let Some(t) = parse_naive_date_utc(s, DATE_FORMAT) {
        return Ok(t);
    }
    Err(AppError::Validation(String::from_str("invalid date: use YYYY-MM-DD or YYYY-MM-DD HH:MM:SS")))
}

/// The instant that a stored date text denotes: the first of RFC 3339, then
/// `YYYY-MM-DD HH:MM:SS`, then the same with a fraction of a second, that reads
/// the text.
pub open spec fn flexible_instant(s: Seq<char>) -> Option<Timestamp> {
    if rfc3339_instant(s) is Some {
        rfc3339_instant(s)
    } else if naive_utc_instant(s, NAIVE_FORMAT@) is Some {
        naive_utc_instant(s, NAIVE_FORMAT@)
    } else {
        naive_utc_instant(s, NAIVE_FRACTION_FORMAT@)
    }
}

/// Reads a stored date text in any of the three formats that rows may hold.
pub fn parse_flexible_datetime(s: &str) -> (r: Result<Timestamp>)
    ensures
        flexible_instant(s@) matches Some(t) ==> r == Ok::<Timestamp, AppError>(t),
        flexible_instant(s@) is None ==> (r matches Err(e) && e is Internal),
{
    if let Some(t) = parse_rfc3339(s) {
        return Ok(t);
    }
    if let Some(t) = parse_naive_utc(s, NAIVE_FORMAT) {
        return Ok(t);
    }
    if let Some(t) = parse_naive_utc(s, NAIVE_FRACTION_FORMAT) {
        return Ok(t);
    }
    Err(AppError::Internal(String::from_str("invalid date format")))
}

} // verus!
