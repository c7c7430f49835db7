//! Types of std and of outside crates that the library carries through.
//!
//! Each is opaque to verification: values of these types are only stored and
//! handed back, never inspected, except where a wrapper says otherwise.

use vstd::prelude::*;

verus! {

/// `std::io::Error`, carried inside the library's error types.
#[verifier::external_type_specification]
#[verifier::external_body]
pub struct ExIoError(std::io::Error);

/// `serde_json::Error`, carried inside the library's error types.
#[verifier::external_type_specification]
#[verifier::external_body]
pub struct ExJsonError(serde_json::Error);

/// The `Display` text of an I/O error (`ToString::to_string`).
///
/// Trusted: returns whatever `std::io::Error`'s `Display` writes; nothing is
/// stated about that text.
#[verifier::external_body]
pub(crate) fn io_error_text(error: &std::io::Error) -> String {
    error.to_string()
}

/// The `Display` text of a JSON error (`ToString::to_string`).
///
/// Trusted: returns whatever `serde_json::Error`'s `Display` writes; nothing
/// is stated about that text.
#[verifier::external_body]
pub(crate) fn json_error_text(error: &serde_json::Error) -> String {
    error.to_string()
}

} // verus!
