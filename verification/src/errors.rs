//! Error taxonomy.
//!
//! The storage layer reports every failure as `DaoError::Storage`. The
//! handler layer exposes exactly two kinds to callers: `BadRequest` for
//! structurally invalid input, and `InternalError` for any storage failure.
//! The collapse of all storage detail into one opaque kind is deliberate.

use vstd::prelude::*;

verus! {

/// A storage-layer failure: constraint violation, missing row on delete, or
/// connectivity loss. The storage layer does not distinguish these further.
#[derive(Debug)]
pub enum DaoError {
    Storage(String),
}

/// The two user-visible error kinds of the handler layer.
#[derive(Debug)]
pub enum HandlerError {
    BadRequest(String),
    InternalError(String),
}

impl HandlerError {
    /// Collapses any storage failure into the opaque internal kind, keeping
    /// its message.
    pub fn from_dao(err: DaoError) -> (r: HandlerError)
        ensures
            (match err {
                DaoError::Storage(m) => r == HandlerError::InternalError(m),
            }),
    {
        match err {
            DaoError::Storage(m) => HandlerError::InternalError(m),
        }
    }

    /// The HTTP status code and message body this error is reported with:
    /// 400 for a bad request, 500 for an internal error.
    pub fn status_and_message(self) -> (r: (u16, String))
        ensures
            (match self {
                HandlerError::BadRequest(m) => r == (400u16, m),
                HandlerError::InternalError(m) => r == (500u16, m),
            }),
    {
        match self {
            HandlerError::BadRequest(m) => (400u16, m),
            HandlerError::InternalError(m) => (500u16, m),
        }
    }
}

} // verus!
