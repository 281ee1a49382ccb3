//! Instants as Unix microseconds, and their RFC 3339 text.
use vstd::prelude::*;

verus! {

/// Instants up to this many microseconds away from the Unix epoch (about
/// 253,000 years) can be represented as calendar dates.
pub const INSTANT_RANGE_MICROS: i64 = 8_000_000_000_000_000_000;

/// The first instant of year 0, in Unix microseconds.
pub const RFC3339_MIN_MICROS: i64 = -62_167_219_200_000_000;

/// The last instant of year 9999, in Unix microseconds.
pub const RFC3339_MAX_MICROS: i64 = 253_402_300_799_999_999;

/// One second, in microseconds.
pub const MICROS_PER_SECOND: i64 = 1_000_000;

/// The RFC 3339 text chrono writes for an instant (Unix microseconds, UTC).
pub uninterp spec fn rfc3339_text(micros: int) -> Seq<char>;

/// The instant (Unix microseconds) chrono reads from an RFC 3339 text, if it
/// reads one.
pub uninterp spec fn rfc3339_instant(text: Seq<char>) -> Option<i64>;

/// The instant (Unix microseconds) chrono reads from a text as a
/// `DateTime<Utc>` through `FromStr`, if it reads one.
pub uninterp spec fn utc_text_instant(text: Seq<char>) -> Option<i64>;

/// Calls `chrono::DateTime::from_timestamp_micros` and `to_rfc3339` on the
/// result. Claimed: instants within `INSTANT_RANGE_MICROS` of the epoch are
/// representable (chrono represents about 262,000 years either side), the
/// text is the named RFC 3339 text of the instant, and for an instant in the
/// years 0 to 9999 (which `to_rfc3339` writes with four-digit years, the
/// offset `+00:00` and as many fractional digits as the instant needs)
/// `parse_from_rfc3339` reads the same instant back from that text.
#[verifier::external_body]
pub(crate) fn format_rfc3339(micros: i64) -> (r: Option<String>)
    ensures
        -INSTANT_RANGE_MICROS <= micros <= INSTANT_RANGE_MICROS ==> r is Some,
        r matches Some(s) ==> s@ == rfc3339_text(micros as int),
        RFC3339_MIN_MICROS <= micros <= RFC3339_MAX_MICROS ==> (r matches Some(s) ==> rfc3339_instant(s@)
            == Some(micros)),
{
    match chrono::DateTime::from_timestamp_micros(micros) {
        Some(t) => Some(t.to_rfc3339()),
        None => None,
    }
}

/// Calls `chrono::DateTime::parse_from_rfc3339` and takes the instant of
/// the result in Unix microseconds. Claimed: the result is the named reading
/// of the text.
#[verifier::external_body]
pub(crate) fn parse_rfc3339(text: &str) -> (r: Option<i64>)
    ensures
        r == rfc3339_instant(text@),
{
    match chrono::DateTime::parse_from_rfc3339(text) {
        Ok(t) => Some(t.timestamp_micros()),
        Err(_) => None,
    }
}

/// Calls `<chrono::DateTime<Utc> as FromStr>::from_str` and takes the
/// instant of the result in Unix microseconds. Claimed: the result is the
/// named reading of the text.
#[verifier::external_body]
pub(crate) fn parse_utc_text(text: &str) -> (r: Option<i64>)
    ensures
        r == utc_text_instant(text@),
{
    match <chrono::DateTime<chrono::Utc> as std::str::FromStr>::from_str(text) {
        Ok(t) => Some(t.timestamp_micros()),
        Err(_) => None,
    }
}

} // verus!
