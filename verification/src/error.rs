//! Error types and Result alias.

use vstd::prelude::*;
use serde_json::Error as JsonParseError;

verus! {

/// `serde_json::Error`, the error of a JSON parse, carried through as it
/// came.
#[verifier::external_type_specification]
#[verifier::external_body]
pub struct ExJsonError(JsonParseError);

/// Errors returned by releasekit operations.
#[derive(Debug)]
pub enum Error {
    /// An HTTP error response was received.
    Http {
        /// HTTP status code.
        status: u16,
        /// The requested URL.
        url: String,
    },
    /// Failed to parse JSON response.
    Json(JsonParseError),
    /// A network-level error occurred.
    Network(String),
    /// No releases were found for the given query.
    NoReleases,
    /// No asset matched the filter criteria.
    NoMatchingAsset,
    /// The provided URL could not be parsed.
    InvalidUrl(String),
}

/// Alias for `Result<T, Error>`.
pub type Result<T> = core::result::Result<T, Error>;

} // verus!
