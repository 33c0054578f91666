//! Debug sessions: short-lived, owner-only access to secrets, each readable once.
use vstd::prelude::*;
use crate::error::{ApiError, ErrorKind};
use crate::text::{concat3, str_eq};
use crate::webhook_payloads::opt_view;
use crate::workspace_cursor::{parse_uuid, uuid_text, uuid_to_text, uuid_value};

verus! {

/// A session lasts between 1 and 480 minutes.
pub fn check_debug_ttl(ttl_minutes: i64) -> (r: Result<(), ApiError>)
    ensures
        r is Ok <==> 1 <= ttl_minutes <= 480,
        r matches Err(e) ==> e.is(ErrorKind::BadRequest, "ttl_minutes must be between 1 and 480"@),
{
    if ttl_minutes < 1 || ttl_minutes > 480 {
        return Err(ApiError::bad_request("ttl_minutes must be between 1 and 480"));
    }
    Ok(())
}

/// An optional id of a request, read as a UUID; `message` when it is not one.
pub fn parse_optional_uuid(raw: &Option<String>, message: &str) -> (r: Result<Option<u128>, ApiError>)
    ensures
        match opt_view(*raw) {
            None => r == Ok::<Option<u128>, ApiError>(None),
            Some(t) => match uuid_value(t) {
                Some(v) => r == Ok::<Option<u128>, ApiError>(Some(v)),
                None => r matches Err(e) && e.is(ErrorKind::BadRequest, message@),
            },
        },
{
    match raw {
        None => Ok(None),
        Some(t) => match parse_uuid(t.as_str()) {
            Some(v) => Ok(Some(v)),
            None => Err(ApiError::bad_request(message)),
        },
    }
}

/// The session id in a path, read as a UUID.
pub fn parse_session_id(text: &str) -> (r: Result<u128, ApiError>)
    ensures
        match uuid_value(text@) {
            Some(v) => r == Ok::<u128, ApiError>(v),
            None => r matches Err(e) && e.is(ErrorKind::BadRequest, "invalid session_id"@),
        },
{
    match parse_uuid(text) {
        Some(v) => Ok(v),
        None => Err(ApiError::bad_request("invalid session_id")),
    }
}

/// Where a session's secrets are read: `/api/v1/debug/sessions/{id}/secrets`.
pub fn debug_proxy_url(session_id: u128) -> (r: String)
    ensures
        r@ == "/api/v1/debug/sessions/"@ + uuid_text(session_id) + "/secrets"@,
{
    let id = uuid_to_text(session_id);
    concat3("/api/v1/debug/sessions/", id.as_str(), "/secrets")
}

/// Whether a secret of a session may be read: only by the session's owner, before it
/// expires, and only once.
pub fn debug_secret_access(
    owner_id: &str,
    user_id: &str,
    expired: bool,
    already_consumed: Option<bool>,
) -> (r: Result<(), ApiError>)
    ensures
        owner_id@ != user_id@ ==> (r matches Err(e) && e.is(
            ErrorKind::Forbidden,
            "not your debug session"@,
        )),
        (owner_id@ == user_id@ && expired) ==> (r matches Err(e) && e.is(
            ErrorKind::BadRequest,
            "debug session has expired"@,
        )),
        (owner_id@ == user_id@ && !expired && already_consumed == Some(true)) ==> (r matches Err(e)
            && e.is(ErrorKind::Conflict, "secret has already been consumed"@)),
        (owner_id@ == user_id@ && !expired && already_consumed != Some(true)) ==> r is Ok,
{
    if !str_eq(owner_id, user_id) {
        return Err(ApiError::forbidden("not your debug session"));
    }
    if expired {
        return Err(ApiError::bad_request("debug session has expired"));
    }
    if already_consumed == Some(true) {
        return Err(ApiError::conflict("secret has already been consumed"));
    }
    Ok(())
}

} // verus!
