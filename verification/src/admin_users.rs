//! Rules an administrator's changes to user accounts follow: only users of the admin's own
//! organization, never the admin's own lock, deletion or demotion; the roles an admin
//! grants and revokes; the identity of a new service account; password resets.
use vstd::prelude::*;
use crate::access::{require_admin, CurrentUser};
use crate::error::{ApiError, ErrorKind};
use crate::sign_in::check_password_length;
use crate::text::{decimal, owned, str_eq, to_lowercase, trim, trim_str, unicode_lowercase, utf8_len};

verus! {

/// A change an administrator makes to another user's account.
#[derive(Clone, Copy, PartialEq, Eq, Structural)]
pub enum UserAdminAction {
    /// Edit the display name or admin flag; `demote` is set when the request turns the admin
    /// flag off.
    Update { demote: bool },
    Lock,
    Unlock,
    Delete,
}

/// The refusal for a user of another organization.
pub open spec fn other_org_refusal(action: UserAdminAction) -> Seq<char> {
    match action {
        UserAdminAction::Update { .. } => "cannot modify users in other organizations"@,
        UserAdminAction::Lock => "cannot lock users in other organizations"@,
        UserAdminAction::Unlock => "cannot unlock users in other organizations"@,
        UserAdminAction::Delete => "cannot delete users in other organizations"@,
    }
}

/// The refusal, if any, when the administrator targets their own account.
pub open spec fn self_refusal(action: UserAdminAction) -> Option<(ErrorKind, Seq<char>)> {
    match action {
        UserAdminAction::Update { demote } => if demote {
            Some((ErrorKind::BadRequest, "cannot remove your own admin status"@))
        } else {
            None
        },
        UserAdminAction::Lock => Some(
            (
                ErrorKind::Forbidden,
                "cannot lock your own account; use another admin if you need this account disabled"@,
            ),
        ),
        UserAdminAction::Unlock => None,
        UserAdminAction::Delete => Some((ErrorKind::BadRequest, "cannot delete your own account"@)),
    }
}

fn other_org_message(action: UserAdminAction) -> (m: &'static str)
    ensures
        m@ == other_org_refusal(action),
{
    proof {
        reveal_strlit("cannot modify users in other organizations");
        reveal_strlit("cannot lock users in other organizations");
        reveal_strlit("cannot unlock users in other organizations");
        reveal_strlit("cannot delete users in other organizations");
    }
    match action {
        UserAdminAction::Update { .. } => "cannot modify users in other organizations",
        UserAdminAction::Lock => "cannot lock users in other organizations",
        UserAdminAction::Unlock => "cannot unlock users in other organizations",
        UserAdminAction::Delete => "cannot delete users in other organizations",
    }
}

/// Whether an administrator may apply `action` to the user `target_id` of organization
/// `target_org_id` (the target is read only once the caller is known to be an admin:
/// `require_admin` comes first).
pub fn check_user_admin_action(
    action: UserAdminAction,
    admin: &CurrentUser,
    target_id: &str,
    target_org_id: &str,
) -> (r: Result<(), ApiError>)
    ensures
        !admin.holds("*"@) ==> (r matches Err(e) && e.is(
            ErrorKind::Forbidden,
            "admin access required"@,
        )),
        (admin.holds("*"@) && target_org_id@ != admin.org_id@) ==> (r matches Err(e) && e.is(
            ErrorKind::Forbidden,
            other_org_refusal(action),
        )),
        (admin.holds("*"@) && target_org_id@ == admin.org_id@ && target_id@ != admin.user_id@)
            ==> r is Ok,
        (admin.holds("*"@) && target_org_id@ == admin.org_id@ && target_id@ == admin.user_id@)
            ==> match self_refusal(action) {
            Some((k, m)) => r matches Err(e) && e.is(k, m),
            None => r is Ok,
        },
{
    require_admin(admin)?;
    if !str_eq(target_org_id, admin.org_id.as_str()) {
        return Err(ApiError::forbidden(other_org_message(action)));
    }
    if str_eq(target_id, admin.user_id.as_str()) {
        match action {
            UserAdminAction::Update { demote } => {
                if demote {
                    return Err(ApiError::bad_request("cannot remove your own admin status"));
                }
            },
            UserAdminAction::Lock => {
                return Err(
                    ApiError::forbidden(
                        "cannot lock your own account; use another admin if you need this account disabled",
                    ),
                );
            },
            UserAdminAction::Unlock => {},
            UserAdminAction::Delete => {
                return Err(ApiError::bad_request("cannot delete your own account"));
            },
        }
    }
    Ok(())
}

/// Account fields an administrator can edit.
pub struct EditableUser {
    pub display_name: Option<String>,
    pub is_admin: bool,
}

/// Applies an update request: each field given replaces the current one.
pub fn apply_user_update(
    current: EditableUser,
    display_name: Option<String>,
    is_admin: Option<bool>,
) -> (u: EditableUser)
    ensures
        u.display_name == (match display_name {
            Some(d) => Some(d),
            None => current.display_name,
        }),
        u.is_admin == (match is_admin {
            Some(b) => b,
            None => current.is_admin,
        }),
{
    let mut u = current;
    if let Some(d) = display_name {
        u.display_name = Some(d);
    }
    if let Some(b) = is_admin {
        u.is_admin = b;
    }
    u
}

/// The request part of an administrator's password reset: only an admin, only while
/// password sign-in is enabled, and only with a password of at least `min_length` bytes.
pub fn check_admin_password_reset(
    admin: &CurrentUser,
    password_enabled: bool,
    new_password: &str,
    min_length: usize,
) -> (r: Result<(), ApiError>)
    ensures
        !admin.holds("*"@) ==> (r matches Err(e) && e.is(
            ErrorKind::Forbidden,
            "admin access required"@,
        )),
        (admin.holds("*"@) && !password_enabled) ==> (r matches Err(e) && e.is(
            ErrorKind::Forbidden,
            "password authentication is disabled"@,
        )),
        (admin.holds("*"@) && password_enabled && utf8_len(new_password@) < min_length) ==> (
        r matches Err(e) && e.is(
            ErrorKind::BadRequest,
            "password must be at least "@ + decimal(min_length as nat) + " characters"@,
        )),
        (admin.holds("*"@) && password_enabled && utf8_len(new_password@) >= min_length) ==> r is Ok,
{
    require_admin(admin)?;
    if !password_enabled {
        return Err(ApiError::forbidden("password authentication is disabled"));
    }
    check_password_length(new_password, min_length)
}

/// The target of a password reset must be in the administrator's organization.
pub fn check_password_reset_target(admin: &CurrentUser, target_org_id: &str) -> (r: Result<
    (),
    ApiError,
>)
    ensures
        target_org_id@ == admin.org_id@ ==> r is Ok,
        target_org_id@ != admin.org_id@ ==> (r matches Err(e) && e.is(
            ErrorKind::Forbidden,
            "cannot reset password for users in other organizations"@,
        )),
{
    if !str_eq(target_org_id, admin.org_id.as_str()) {
        return Err(ApiError::forbidden("cannot reset password for users in other organizations"));
    }
    Ok(())
}

/// The permission roles an administrator can grant.
#[derive(Debug, Clone, Copy, PartialEq, Eq, Structural)]
pub enum PermissionRoleName {
    Admin,
    Auditor,
    SecurityLead,
    SecurityAuditor,
    User,
}

/// The role a (lowercased) role name stands for.
pub open spec fn role_named(n: Seq<char>) -> Option<PermissionRoleName> {
    if n == "admin"@ {
        Some(PermissionRoleName::Admin)
    } else if n == "auditor"@ {
        Some(PermissionRoleName::Auditor)
    } else if n == "security_lead"@ {
        Some(PermissionRoleName::SecurityLead)
    } else if n == "security_auditor"@ {
        Some(PermissionRoleName::SecurityAuditor)
    } else if n == "user"@ {
        Some(PermissionRoleName::User)
    } else {
        None
    }
}

/// Reads a role name in any letter case; an unknown name is refused.
pub fn parse_permission_role(role: &str) -> (r: Result<PermissionRoleName, ApiError>)
    ensures
        match role_named(unicode_lowercase(role@)) {
            Some(x) => r == Ok::<PermissionRoleName, ApiError>(x),
            None => r matches Err(e) && e.is(ErrorKind::BadRequest, "invalid role"@),
        },
{
    let l = to_lowercase(role);
    let n = l.as_str();
    if str_eq(n, "admin") {
        Ok(PermissionRoleName::Admin)
    } else if str_eq(n, "auditor") {
        Ok(PermissionRoleName::Auditor)
    } else if str_eq(n, "security_lead") {
        Ok(PermissionRoleName::SecurityLead)
    } else if str_eq(n, "security_auditor") {
        Ok(PermissionRoleName::SecurityAuditor)
    } else if str_eq(n, "user") {
        Ok(PermissionRoleName::User)
    } else {
        Err(ApiError::bad_request("invalid role"))
    }
}

/// An administrator cannot revoke their own `admin` role.
pub fn check_role_revocation(admin: &CurrentUser, target_id: &str, role: PermissionRoleName) -> (r:
    Result<(), ApiError>)
    ensures
        (target_id@ == admin.user_id@ && role == PermissionRoleName::Admin) ==> (r matches Err(e)
            && e.is(ErrorKind::BadRequest, "cannot revoke your own admin role"@)),
        !(target_id@ == admin.user_id@ && role == PermissionRoleName::Admin) ==> r is Ok,
{
    if str_eq(target_id, admin.user_id.as_str()) && role == PermissionRoleName::Admin {
        return Err(ApiError::bad_request("cannot revoke your own admin role"));
    }
    Ok(())
}

/// A service account needs a username and an e-mail (both trimmed, neither blank); the
/// trimmed pair is returned.
pub fn service_account_identity(username: &str, email: &str) -> (r: Result<(String, String), ApiError>)
    ensures
        (trim(username@).len() == 0 || trim(email@).len() == 0) ==> (r matches Err(e) && e.is(
            ErrorKind::BadRequest,
            "username and email are required"@,
        )),
        (trim(username@).len() > 0 && trim(email@).len() > 0) ==> (r matches Ok((u, m)) && u@
            == trim(username@) && m@ == trim(email@)),
{
    let u = trim_str(username);
    let m = trim_str(email);
    if u.is_empty() || m.is_empty() {
        return Err(ApiError::bad_request("username and email are required"));
    }
    Ok((owned(u), owned(m)))
}

/// A new account's username and e-mail must not already be used in the organization.
pub fn check_identity_free(username_taken: bool, email_taken: bool) -> (r: Result<(), ApiError>)
    ensures
        username_taken ==> (r matches Err(e) && e.is(
            ErrorKind::BadRequest,
            "username already exists"@,
        )),
        (!username_taken && email_taken) ==> (r matches Err(e) && e.is(
            ErrorKind::BadRequest,
            "email already exists"@,
        )),
        (!username_taken && !email_taken) ==> r is Ok,
{
    if username_taken {
        return Err(ApiError::bad_request("username already exists"));
    }
    if email_taken {
        return Err(ApiError::bad_request("email already exists"));
    }
    Ok(())
}

} // verus!
