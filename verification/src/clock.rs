//! Time, as the library sees it: text in RFC 3339 form and whole seconds since
//! 1970-01-01T00:00:00Z. The calendar itself is chrono's; the calls into it are
//! the trusted functions of this module.

use vstd::prelude::*;

verus! {

/// The instant that an RFC 3339 text denotes, in whole seconds since the Unix
/// epoch, or `None` where chrono does not accept the text.
pub uninterp spec fn rfc3339_seconds(text: Seq<char>) -> Option<i64>;

/// The text `YYYY-MM-DDTHH:MM:SSZ` of an instant given in seconds since the
/// Unix epoch, or `None` where chrono cannot represent the instant.
pub uninterp spec fn utc_text(seconds: i64) -> Option<Seq<char>>;

/// The current time in RFC 3339 form. Trusted: calls `chrono::Utc::now` and
/// `DateTime::to_rfc3339`; nothing is claimed of a clock reading.
#[verifier::external_body]
pub(crate) fn now_rfc3339() -> (text: String) {
    chrono::Utc::now().to_rfc3339()
}

/// Reads an RFC 3339 text. Trusted: calls `chrono::DateTime::parse_from_rfc3339`
/// and, on success, `DateTime::timestamp`; the contract only names the result,
/// which depends on the text alone.
#[verifier::external_body]
pub(crate) fn parse_rfc3339(text: &str) -> (seconds: Option<i64>)
    ensures
        seconds == rfc3339_seconds(text@),
{
    match chrono::DateTime::parse_from_rfc3339(text) {
        Ok(moment) => Some(moment.timestamp()),
        Err(_) => None,
    }
}

/// Writes an instant as `YYYY-MM-DDTHH:MM:SSZ`. Trusted: calls
/// `chrono::DateTime::from_timestamp` and formats the result with
/// `DateTime::format`; the contract only names the result, which depends on
/// the number alone.
#[verifier::external_body]
pub(crate) fn format_utc(seconds: i64) -> (text: Option<String>)
    ensures
        match text {
            Some(t) => utc_text(seconds) == Some(t@),
            None => utc_text(seconds) is None,
        },
{
    match chrono::DateTime::from_timestamp(seconds, 0) {
        Some(moment) => Some(moment.format("%Y-%m-%dT%H:%M:%SZ").to_string()),
        None => None,
    }
}

} // verus!
