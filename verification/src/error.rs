//! The errors of fetching and caching match data.

use vstd::prelude::*;
use vstd::std_specs::convert::FromSpecImpl;
use crate::text::{decimal_text, u64_text};

verus! {

/// `reqwest::Error`, held opaque.
#[verifier::external_type_specification]
#[verifier::external_body]
pub struct ExReqwestError(reqwest::Error);

/// `serde_json::Error`, held opaque.
#[verifier::external_type_specification]
#[verifier::external_body]
pub struct ExJsonError(serde_json::Error);

/// `sqlx::Error`, held opaque.
#[verifier::external_type_specification]
#[verifier::external_body]
pub struct ExSqlxError(sqlx::Error);

/// What can go wrong while fetching or caching matches.

#[derive(Debug)]
pub enum AppError {
    NetworkError(reqwest::Error),
    ParseError(serde_json::Error),
    ServerError(u16),
    DbError(sqlx::Error),
}

/// The text that `reqwest::Error`'s `Display` writes for an error: a phrase
/// naming the kind of failure (with the HTTP status for a status error),
/// then the URL when the error has one. It depends on the error's own
/// fields alone.
pub uninterp spec fn network_display(e: reqwest::Error) -> Seq<char>;

/// Formats a `reqwest::Error` through its `Display` impl; the contract
/// claims that the text is `network_display` of the error.
#[verifier::external_body]
fn network_error_text(e: &reqwest::Error) -> (r: String)
    ensures
        r@ == network_display(*e),
{
    format!("{}", e)
}

/// Formats a `serde_json::Error` through its `Display` impl. Nothing is
/// stated of the text, which comes from the error's hidden fields.
#[verifier::external_body]
fn json_error_text(e: &serde_json::Error) -> String {
    format!("{}", e)
}

/// Formats an `sqlx::Error` through its `Display` impl. Nothing is stated
/// of the text, which comes from the error's hidden fields.
#[verifier::external_body]
fn db_error_text(e: &sqlx::Error) -> String {
    format!("{}", e)
}

/// `s` is `prefix` followed by some text.
pub open spec fn starts_with(s: Seq<char>, prefix: Seq<char>) -> bool {
    exists|rest: Seq<char>| s == prefix + rest
}

impl AppError {
    /// The message of the error, as shown in the status line: a prefix that
    /// names the kind of error, then the details. The details of a parse or
    /// database error come from that error's `Display`, which may print an
    /// operating-system message; of those only the prefix is stated.
    pub fn describe(&self) -> (r: String)
        ensures
            match self {
                AppError::NetworkError(e) => r@ == "Network error: "@ + network_display(*e),
                AppError::ParseError(_) => starts_with(r@, "Data parsing error: "@),
                AppError::ServerError(code) => r@ == "Server returned error code "@ + decimal_text(*code as int),
                AppError::DbError(_) => starts_with(r@, "Database error: "@),
            },
    {
        let (mut s, detail) = match self {
            AppError::NetworkError(e) => ("Network error: ".to_owned(), network_error_text(e)),
            AppError::ParseError(e) => ("Data parsing error: ".to_owned(), json_error_text(e)),
            AppError::ServerError(code) => ("Server returned error code ".to_owned(), u64_text(*code as u64)),
            AppError::DbError(e) => ("Database error: ".to_owned(), db_error_text(e)),
        };
        let ghost prefix = s@;
        s.append(detail.as_str());
        assert(s@ == prefix + detail@);
        s
    }
}

impl From<reqwest::Error> for AppError {
    fn from(e: reqwest::Error) -> (r: Self) {
        AppError::NetworkError(e)
    }
}

impl FromSpecImpl<reqwest::Error> for AppError {
    open spec fn obeys_from_spec() -> bool {
        true
    }

    open spec fn from_spec(e: reqwest::Error) -> Self {
        AppError::NetworkError(e)
    }
}

impl From<serde_json::Error> for AppError {
    fn from(e: serde_json::Error) -> (r: Self) {
        AppError::ParseError(e)
    }
}

impl FromSpecImpl<serde_json::Error> for AppError {
    open spec fn obeys_from_spec() -> bool {
        true
    }

    open spec fn from_spec(e: serde_json::Error) -> Self {
        AppError::ParseError(e)
    }
}

impl From<sqlx::Error> for AppError {
    fn from(e: sqlx::Error) -> (r: Self) {
        AppError::DbError(e)
    }
}

impl FromSpecImpl<sqlx::Error> for AppError {
    open spec fn obeys_from_spec() -> bool {
        true
    }

    open spec fn from_spec(e: sqlx::Error) -> Self {
        AppError::DbError(e)
    }
}

/// The status line after a failed fetch of pro matches, which leaves the
/// cached matches on show.
pub fn fetch_failed_status(reason: &str) -> (r: String)
    ensures
        r@ == "Pro match fetch failed: "@ + reason@ + " (showing cached data)"@,
{
    let mut s = "Pro match fetch failed: ".to_owned();
    s.append(reason);
    s.append(" (showing cached data)");
    s
}

/// The status line after fetched pro matches could not be written to the
/// cache.
pub fn cache_write_failed_status(reason: &str) -> (r: String)
    ensures
        r@ == "Cache write failed: "@ + reason@,
{
    let mut s = "Cache write failed: ".to_owned();
    s.append(reason);
    s
}

} // verus!
