//! What the program asks of its configuration before it starts.

use crate::strings::{contains, lowercased, occurs_in, to_lowercase};
use vstd::prelude::*;

verus! {

/// Whether the text of a header file names a cookie: whether "cookie: " occurs in it,
/// without regard to case.
pub open spec fn names_cookie(headers: Seq<char>) -> bool {
    occurs_in("cookie: "@, lowercased(headers))
}

/// Whether a header file is configured: it has to name the cookie of a signed-in session.
pub fn headers_configured(headers: &str) -> (r: bool)
    ensures
        r == names_cookie(headers@),
{
    let lower = to_lowercase(headers);
    contains(lower.as_str(), "cookie: ")
}

} // verus!
