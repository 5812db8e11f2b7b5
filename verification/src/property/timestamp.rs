//! Timestamp format validation and generation
use vstd::prelude::*;

use crate::error::{Error, Result};

verus! {

/// What chrono's RFC 3339 parser (`DateTime::parse_from_rfc3339`) reports
/// for a text: `None` when it accepts the text, otherwise the text of its
/// error.
pub uninterp spec fn rfc3339_verdict(s: Seq<char>) -> Option<Seq<char>>;

/// Runs `chrono::DateTime::parse_from_rfc3339` on the text: `None` when it
/// accepts the text, the error's text otherwise. Chrono's RFC 3339 grammar
/// is referred to by the name `rfc3339_verdict`, not spelled out.
#[verifier::external_body]
fn rfc3339_check(timestamp: &str) -> (r: Option<String>)
    ensures
        match r {
            None => rfc3339_verdict(timestamp@) is None,
            Some(m) => rfc3339_verdict(timestamp@) == Some(m@),
        },
{
    match chrono::DateTime::parse_from_rfc3339(timestamp) {
        Ok(_) => None,
        Err(e) => Some(e.to_string()),
    }
}

/// Validate timestamp format: accepted exactly when it is an RFC 3339
/// date-time; otherwise the parser's message is returned as a parse error.
pub fn validate(timestamp: &str) -> (r: Result<()>)
    ensures
        match r {
            Ok(()) => rfc3339_verdict(timestamp@) is None,
            Err(e) => rfc3339_verdict(timestamp@) matches Some(m) && (e matches Error::ParseError(
                t,
            ) && t@ == m),
        },
{
    match rfc3339_check(timestamp) {
        None => Ok(()),
        Some(m) => Err(Error::ParseError(m)),
    }
}

/// Generate current timestamp: `chrono::Utc::now().to_rfc3339()`.
///
/// Nothing is promised of the text: which moment it names depends on the
/// clock, and for years past 9999 chrono writes a text its own RFC 3339
/// parser refuses. `Utc::now` panics when the system clock reads a time
/// before 1970, which no precondition can rule out.
#[verifier::external_body]
pub fn generate() -> (r: String)
{
    chrono::Utc::now().to_rfc3339()
}

} // verus!
