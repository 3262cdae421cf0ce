//! Why a remote operation can fail.

use vstd::prelude::*;

verus! {

/// `serde_json::Error`: why a text is not a well-formed document, carried through as it is.
#[verifier::external_type_specification]
#[verifier::external_body]
pub struct ExJsonError(serde_json::Error);

/// The hard failures: everything else degrades to an absent result.
#[derive(Debug)]
pub enum ApiError {
    /// The response body is not a well-formed document.
    SerdeJson(serde_json::Error),
}

} // verus!
