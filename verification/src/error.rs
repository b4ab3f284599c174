//! Error kinds surfaced by the data-access core.

use vstd::prelude::*;

verus! {

/// The error kinds an access operation can surface.
///
/// `NotFound` and `Forbidden` are terminal for the current operation and are
/// surfaced verbatim to the caller; they are never retried or downgraded.
/// `ValidationFailed` is detected before any backend work happens.
/// `Conflict` is reserved for uniqueness violations the backend detects; it
/// should not occur given server-assigned ids, but the contract allows a
/// backend to report it.
#[derive(Debug)]
pub enum AppError {
    /// No entity with the given id exists for the requested kind.
    NotFound,
    /// The identity is authenticated but not authorized for this
    /// id or operation.
    Forbidden(String),
    /// A filter or content value violates a structural constraint.
    ValidationFailed(String),
    /// A uniqueness violation detected by the storage backend.
    Conflict(String),
    /// The route exists but does not support the requested method.
    MethodNotAllowed,
}

/// The reason an access operation denies a request, stripped of its
/// message.  The spec-level models of the store operations decide one of
/// these (or none); each executable operation promises to surface exactly
/// the matching [`AppError`].
#[derive(Clone, Copy, Debug, PartialEq, Eq, Structural)]
pub enum DenialKind {
    NotFound,
    Forbidden,
    ValidationFailed,
    Conflict,
}

/// Message carried when a store's id counter is exhausted, so that its
/// next assignment would have to repeat an id: the uniqueness violation
/// reserved for `Conflict`.
pub open spec fn id_exhausted_msg() -> Seq<char> {
    "server-assigned object id space exhausted"@
}

/// HTTP status code that the surrounding middleware screens for.
pub const METHOD_NOT_ALLOWED_STATUS: u16 = 405;

/// Decision at the heart of the response-screening middleware: a response
/// that came back as "method not allowed" is replaced by the matching
/// application error; every other response passes through unchanged.
pub fn method_not_allowed_screen(status: u16) -> (r: Option<AppError>)
    ensures
        r is Some <==> status == METHOD_NOT_ALLOWED_STATUS,
        r is Some ==> r->0 is MethodNotAllowed,
{
    if status == METHOD_NOT_ALLOWED_STATUS {
        Some(AppError::MethodNotAllowed)
    } else {
        None
    }
}

} // verus!
