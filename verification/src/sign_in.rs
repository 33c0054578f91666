//! Password sign-in, password changes and first-run setup.
use vstd::prelude::*;
use crate::error::{ApiError, ErrorKind};
use crate::text::{
    concat3, decimal, owned, push_char, to_lowercase, unicode_lowercase, usize_to_string, utf8_len,
    utf8_len_of, is_alphanumeric, unicode_alphanumeric,
};
use crate::webhook_payloads::opt_view;

verus! {

/// Password sign-in works only where it is enabled.
pub fn check_password_login_enabled(enabled: bool) -> (r: Result<(), ApiError>)
    ensures
        r is Ok <==> enabled,
        r matches Err(e) ==> e.is(
            ErrorKind::Forbidden,
            "password authentication is disabled - use SSO to login"@,
        ),
{
    if !enabled {
        return Err(ApiError::forbidden("password authentication is disabled - use SSO to login"));
    }
    Ok(())
}

/// The account found for a sign-in must be active, a person (not a service account) and
/// have a password; the stored password hash is returned for verification.
pub fn check_login_account(is_active: bool, service_account: bool, password_hash: &Option<String>) -> (r:
    Result<String, ApiError>)
    ensures
        !is_active ==> (r matches Err(e) && e.is(ErrorKind::Unauthorized, "account is disabled"@)),
        (is_active && service_account) ==> (r matches Err(e) && e.is(
            ErrorKind::Forbidden,
            "service accounts cannot sign in with a password; use an API token"@,
        )),
        (is_active && !service_account) ==> match opt_view(*password_hash) {
            Some(h) => r matches Ok(x) && x@ == h,
            None => r matches Err(e) && e.is(
                ErrorKind::Unauthorized,
                "password login not configured for this user"@,
            ),
        },
{
    if !is_active {
        return Err(ApiError::unauthorized("account is disabled"));
    }
    if service_account {
        return Err(
            ApiError::forbidden("service accounts cannot sign in with a password; use an API token"),
        );
    }
    match password_hash {
        Some(h) => Ok(owned(h.as_str())),
        None => Err(ApiError::unauthorized("password login not configured for this user")),
    }
}

/// Setup runs once, before any user exists.
pub fn check_setup_allowed(any_users_exist: bool) -> (r: Result<(), ApiError>)
    ensures
        r is Ok <==> !any_users_exist,
        r matches Err(e) ==> e.is(ErrorKind::Conflict, "setup already completed"@),
{
    if any_users_exist {
        return Err(ApiError::conflict("setup already completed"));
    }
    Ok(())
}

/// The first password must have at least the configured number of bytes.
pub fn check_password_length(password: &str, min_length: usize) -> (r: Result<(), ApiError>)
    ensures
        r is Ok <==> utf8_len(password@) >= min_length,
        r matches Err(e) ==> e.is(
            ErrorKind::BadRequest,
            "password must be at least "@ + decimal(min_length as nat) + " characters"@,
        ),
{
    if utf8_len_of(password) < min_length as u128 {
        let n = usize_to_string(min_length);
        return Err(
            ApiError::new(
                ErrorKind::BadRequest,
                concat3("password must be at least ", n.as_str(), " characters"),
            ),
        );
    }
    Ok(())
}

/// A password change needs password sign-in to be enabled and a new password of at least
/// `min_length` bytes.
pub fn check_password_change(enabled: bool, new_password: &str, min_length: usize) -> (r: Result<
    (),
    ApiError,
>)
    ensures
        !enabled ==> (r matches Err(e) && e.is(
            ErrorKind::Forbidden,
            "password authentication is disabled"@,
        )),
        (enabled && utf8_len(new_password@) < min_length) ==> (r matches Err(e) && e.is(
            ErrorKind::BadRequest,
            "new password must be at least "@ + decimal(min_length as nat) + " characters"@,
        )),
        (enabled && utf8_len(new_password@) >= min_length) ==> r is Ok,
{
    if !enabled {
        return Err(ApiError::forbidden("password authentication is disabled"));
    }
    if utf8_len_of(new_password) < min_length as u128 {
        let n = usize_to_string(min_length);
        return Err(
            ApiError::new(
                ErrorKind::BadRequest,
                concat3("new password must be at least ", n.as_str(), " characters"),
            ),
        );
    }
    Ok(())
}

/// The stored hash the current password is checked against; a user without one cannot
/// change a password.
pub fn stored_password_hash(password_hash: &Option<String>) -> (r: Result<String, ApiError>)
    ensures
        match opt_view(*password_hash) {
            Some(h) => r matches Ok(x) && x@ == h,
            None => r matches Err(e) && e.is(
                ErrorKind::BadRequest,
                "password login not configured for this user"@,
            ),
        },
{
    match password_hash {
        Some(h) => Ok(owned(h.as_str())),
        None => Err(ApiError::bad_request("password login not configured for this user")),
    }
}

/// Password sign-in needs an organization to exist (setup has run).
pub fn require_org_configured(org_present: bool) -> (r: Result<(), ApiError>)
    ensures
        r is Ok <==> org_present,
        r matches Err(e) ==> e.is(
            ErrorKind::Unauthorized,
            "no organization configured - run setup first"@,
        ),
{
    if !org_present {
        return Err(ApiError::unauthorized("no organization configured - run setup first"));
    }
    Ok(())
}

/// The account a sign-in names: the one with that username, else the one with that e-mail;
/// with neither the credentials are refused.
pub fn login_account<T>(by_username: Option<T>, by_email: Option<T>) -> (r: Result<T, ApiError>)
    ensures
        match by_username {
            Some(u) => r matches Ok(x) && x == u,
            None => match by_email {
                Some(u) => r matches Ok(x) && x == u,
                None => r matches Err(e) && e.is(ErrorKind::Unauthorized, "invalid credentials"@),
            },
        },
{
    match by_username {
        Some(u) => Ok(u),
        None => match by_email {
            Some(u) => Ok(u),
            None => Err(ApiError::unauthorized("invalid credentials")),
        },
    }
}

/// A password that does not match the stored hash is refused; `login` tells whether this
/// is a sign-in (`invalid credentials`) or a password change (`current password is
/// incorrect`).
pub fn require_password_match(matches: bool, login: bool) -> (r: Result<(), ApiError>)
    ensures
        r is Ok <==> matches,
        r matches Err(e) ==> e.is(
            ErrorKind::Unauthorized,
            if login {
                "invalid credentials"@
            } else {
                "current password is incorrect"@
            },
        ),
{
    if !matches {
        if login {
            return Err(ApiError::unauthorized("invalid credentials"));
        }
        return Err(ApiError::unauthorized("current password is incorrect"));
    }
    Ok(())
}

/// Slug of an organization name: lowercased, spaces made `-`, then only alphanumeric
/// characters and `-` kept.
pub open spec fn org_slug_spec(name: Seq<char>) -> Seq<char> {
    slug_filter(unicode_lowercase(name))
}

pub open spec fn slug_filter(s: Seq<char>) -> Seq<char>
    decreases s.len(),
{
    if s.len() == 0 {
        Seq::empty()
    } else {
        let p = slug_filter(s.drop_last());
        let c = if s.last() == ' ' {
            '-'
        } else {
            s.last()
        };
        if unicode_alphanumeric(c) || c == '-' {
            p.push(c)
        } else {
            p
        }
    }
}

pub fn org_slug(name: &str) -> (r: String)
    ensures
        r@ == org_slug_spec(name@),
{
    let lower = to_lowercase(name);
    let n = lower.as_str().unicode_len();
    let mut out = String::new();
    let mut i: usize = 0;
    while i < n
        invariant
            n == lower@.len(),
            i <= n,
            out@ == slug_filter(lower@.take(i as int)),
        decreases n - i,
    {
        proof {
            assert(lower@.take(i + 1).drop_last() =~= lower@.take(i as int));
            assert(lower@.take(i + 1).last() == lower@[i as int]);
        }
        let raw = lower.as_str().get_char(i);
        let c = if raw == ' ' {
            '-'
        } else {
            raw
        };
        if is_alphanumeric(c) || c == '-' {
            push_char(&mut out, c);
        }
        i = i + 1;
    }
    assert(lower@.take(n as int) =~= lower@);
    out
}

} // verus!
