//! Error types of the HTTP client and of the JSON reader, carried through unread.

use vstd::prelude::*;

verus! {

/// Declares reqwest::Error, carried unread in a failed download.
#[verifier::external_type_specification]
#[verifier::external_body]
pub struct ExHttpError(reqwest::Error);

/// Declares serde_json::Error, carried unread in a failed parse.
#[verifier::external_type_specification]
#[verifier::external_body]
pub struct ExJsonError(serde_json::Error);

} // verus!
