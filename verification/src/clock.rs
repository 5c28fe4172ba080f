//! The current time and fresh identifiers, as text.
//!
//! What these give depends on the clock and on chance, so nothing is
//! claimed of any of them: their callers hold for every text.

use vstd::prelude::*;

verus! {

/// The current time in UTC as RFC 3339 text, by `Utc::now` and
/// `DateTime::to_rfc3339` of `chrono`. `Utc::now` gives up where the system
/// clock stands before 1970.
#[verifier::external_body]
pub(crate) fn now_rfc3339() -> String {
    chrono::Utc::now().to_rfc3339()
}

/// The current time in UTC as RFC 3339 text with milliseconds and a `Z`, by
/// `Utc::now` and `DateTime::to_rfc3339_opts` of `chrono`.
#[verifier::external_body]
pub(crate) fn now_rfc3339_millis() -> String {
    chrono::Utc::now().to_rfc3339_opts(chrono::SecondsFormat::Millis, true)
}

/// The current time in UTC in the form `%Y-%m-%dT%H-%M-%S`, by `Utc::now`
/// and `DateTime::format` of `chrono`.
#[verifier::external_body]
pub(crate) fn now_file_stamp() -> String {
    chrono::Utc::now().format("%Y-%m-%dT%H-%M-%S").to_string()
}

/// A random version 4 UUID in its hyphenated text form, by `Uuid::new_v4`
/// of `uuid`. `Uuid::new_v4` gives up where the system has no source of
/// randomness.
#[verifier::external_body]
pub(crate) fn new_uuid() -> String {
    uuid::Uuid::new_v4().to_string()
}

} // verus!
