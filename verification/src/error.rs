//! Error values returned by request handling, with the HTTP class they map to.
use vstd::prelude::*;

verus! {

/// HTTP class of an [`ApiError`].
#[derive(Debug, Clone, Copy, PartialEq, Eq, Structural)]
pub enum ErrorKind {
    /// 400
    BadRequest,
    /// 401
    Unauthorized,
    /// 403
    Forbidden,
    /// 404
    NotFound,
    /// 409
    Conflict,
    /// 422
    Unprocessable,
    /// 500
    Internal,
    /// 503
    Unavailable,
}

/// An error answered to the caller: its class and message.
#[derive(Debug)]
pub struct ApiError {
    pub kind: ErrorKind,
    pub message: String,
}

impl ApiError {
    /// The error of class `kind` with message `m`.
    pub open spec fn is(self, kind: ErrorKind, m: Seq<char>) -> bool {
        self.kind == kind && self.message@ == m
    }

    pub fn new(kind: ErrorKind, message: String) -> (e: ApiError)
        ensures
            e.kind == kind,
            e.message@ == message@,
    {
        ApiError { kind, message }
    }

    pub fn bad_request(message: &str) -> (e: ApiError)
        ensures
            e.kind == ErrorKind::BadRequest,
            e.message@ == message@,
    {
        ApiError { kind: ErrorKind::BadRequest, message: message.to_owned() }
    }

    pub fn unauthorized(message: &str) -> (e: ApiError)
        ensures
            e.kind == ErrorKind::Unauthorized,
            e.message@ == message@,
    {
        ApiError { kind: ErrorKind::Unauthorized, message: message.to_owned() }
    }

    pub fn conflict(message: &str) -> (e: ApiError)
        ensures
            e.kind == ErrorKind::Conflict,
            e.message@ == message@,
    {
        ApiError { kind: ErrorKind::Conflict, message: message.to_owned() }
    }

    pub fn forbidden(message: &str) -> (e: ApiError)
        ensures
            e.kind == ErrorKind::Forbidden,
            e.message@ == message@,
    {
        ApiError { kind: ErrorKind::Forbidden, message: message.to_owned() }
    }

    pub fn not_found(message: &str) -> (e: ApiError)
        ensures
            e.kind == ErrorKind::NotFound,
            e.message@ == message@,
    {
        ApiError { kind: ErrorKind::NotFound, message: message.to_owned() }
    }

    pub fn unprocessable(message: &str) -> (e: ApiError)
        ensures
            e.kind == ErrorKind::Unprocessable,
            e.message@ == message@,
    {
        ApiError { kind: ErrorKind::Unprocessable, message: message.to_owned() }
    }

    pub fn internal(message: &str) -> (e: ApiError)
        ensures
            e.kind == ErrorKind::Internal,
            e.message@ == message@,
    {
        ApiError { kind: ErrorKind::Internal, message: message.to_owned() }
    }

    pub fn unavailable(message: &str) -> (e: ApiError)
        ensures
            e.kind == ErrorKind::Unavailable,
            e.message@ == message@,
    {
        ApiError { kind: ErrorKind::Unavailable, message: message.to_owned() }
    }
}

} // verus!
