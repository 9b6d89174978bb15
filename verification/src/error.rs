//! Errors raised while reading a cookie.

use vstd::prelude::*;

verus! {

/// The error `serde_json` reports when a value cannot be serialized or
/// deserialized.
#[verifier::external_type_specification]
#[verifier::external_body]
pub struct ExJsonError(serde_json::Error);

/// Why a cookie could not be read.
#[derive(Debug)]
pub enum ParseCookieError {
    /// The cookie header or cookie string is not a valid cookie.
    CookieIllegal,
    /// The request carries no `Cookie` header.
    CookieHeaderRequired,
    /// The cookie's value is not JSON of the requested type.
    ParseJsonValue(serde_json::Error),
}

/// A header map that has reached the largest size the `http` crate allows
/// and takes no further value.
#[derive(Debug)]
pub struct HeaderMapFull;

} // verus!
