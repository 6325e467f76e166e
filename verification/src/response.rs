//! What a retrieval hands to the stages: a status and a body.

use vstd::prelude::*;

verus! {

/// What one retrieval brought back: the HTTP status and the body as text.
#[derive(Clone, Debug, PartialEq, Eq)]
pub struct Response {
    pub status: u16,
    pub body: String,
}

/// The status is one of success, 200 to 299.
pub open spec fn success_status(status: u16) -> bool {
    200 <= status < 300
}

/// Whether a retrieval with this status succeeded.
pub fn is_success(status: u16) -> (r: bool)
    ensures
        r == success_status(status),
{
    200 <= status && status < 300
}

} // verus!
