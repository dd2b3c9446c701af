//! Request-level errors that the verified logic can raise.

use vstd::prelude::*;

verus! {

/// Client-facing failure of a request, rendered by the HTTP layer as
/// 400 / 401 / 403 / 404 / 409.
pub enum ApiError {
    BadRequest(String),
    Unauthorized,
    Forbidden,
    NotFound,
    Conflict(String),
}

impl ApiError {
    /// The error is a bad request carrying exactly `msg`.
    pub open spec fn is_bad_request(self, msg: Seq<char>) -> bool {
        self matches ApiError::BadRequest(m) && m@ == msg
    }

    /// The error is a conflict carrying exactly `msg`.
    pub open spec fn is_conflict(self, msg: Seq<char>) -> bool {
        self matches ApiError::Conflict(m) && m@ == msg
    }
}

/// A bad-request error with the given message.
pub fn bad_request(msg: &str) -> (e: ApiError)
    ensures
        e.is_bad_request(msg@),
{
    ApiError::BadRequest(msg.to_owned())
}

/// A conflict error with the given message.
pub fn conflict(msg: &str) -> (e: ApiError)
    ensures
        e.is_conflict(msg@),
{
    ApiError::Conflict(msg.to_owned())
}

} // verus!
