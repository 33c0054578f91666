//! Organizations: who may create, read, change and delete them, and what a name and slug
//! must be.
use vstd::prelude::*;
use crate::access::CurrentUser;
use crate::error::{ApiError, ErrorKind};
use crate::projects::{check_new_project, slug_chars_ok};
use crate::text::str_eq;
use crate::webhook_payloads::opt_view;

verus! {

/// A platform administrator holds `*`.
pub open spec fn platform_admin(user: CurrentUser) -> bool {
    user.holds("*"@)
}

/// Creating an organization needs a platform administrator, a name and a slug of
/// alphanumeric characters, `-` and `_`.
pub fn check_org_create(user: &CurrentUser, name: &str, slug: &str) -> (r: Result<(), ApiError>)
    ensures
        !platform_admin(*user) ==> (r matches Err(e) && e.is(
            ErrorKind::Forbidden,
            "platform admin access required"@,
        )),
        (platform_admin(*user) && name@.len() == 0) ==> (r matches Err(e) && e.is(
            ErrorKind::BadRequest,
            "name is required"@,
        )),
        (platform_admin(*user) && name@.len() > 0 && slug@.len() == 0) ==> (r matches Err(e)
            && e.is(ErrorKind::BadRequest, "slug is required"@)),
        (platform_admin(*user) && name@.len() > 0 && slug@.len() > 0 && !slug_chars_ok(slug@)) ==> (
        r matches Err(e) && e.is(
            ErrorKind::BadRequest,
            "slug must contain only alphanumeric characters, hyphens, and underscores"@,
        )),
        (platform_admin(*user) && name@.len() > 0 && slug@.len() > 0 && slug_chars_ok(slug@)) ==> r is Ok,
{
    if !user.has_permission("*") {
        return Err(ApiError::forbidden("platform admin access required"));
    }
    check_new_project(name, slug)
}

/// Whether an organization listing shows every organization (platform administrators) or
/// only the caller's own.
pub fn lists_all_orgs(user: &CurrentUser) -> (r: bool)
    ensures
        r == platform_admin(*user),
{
    user.has_permission("*")
}

/// Reading an organization other than one's own needs a platform administrator.
pub fn check_org_read(user: &CurrentUser, org_id: &str) -> (r: Result<(), ApiError>)
    ensures
        r is Ok <==> (org_id@ == user.org_id@ || platform_admin(*user)),
        r matches Err(e) ==> e.is(ErrorKind::Forbidden, "cannot access other organizations"@),
{
    if !str_eq(org_id, user.org_id.as_str()) && !user.has_permission("*") {
        return Err(ApiError::forbidden("cannot access other organizations"));
    }
    Ok(())
}

/// Changing an organization: one's own (or any, for a platform administrator), by an
/// organization administrator (`*` or `org:admin`), and never to a blank name.
pub fn check_org_update(user: &CurrentUser, org_id: &str, name: &Option<String>) -> (r: Result<
    (),
    ApiError,
>)
    ensures
        (org_id@ != user.org_id@ && !platform_admin(*user)) ==> (r matches Err(e) && e.is(
            ErrorKind::Forbidden,
            "cannot modify other organizations"@,
        )),
        ((org_id@ == user.org_id@ || platform_admin(*user)) && !(platform_admin(*user)
            || user.holds("org:admin"@))) ==> (r matches Err(e) && e.is(
            ErrorKind::Forbidden,
            "org admin access required"@,
        )),
        ((org_id@ == user.org_id@ || platform_admin(*user)) && (platform_admin(*user) || user.holds(
            "org:admin"@,
        ))) ==> (if opt_view(*name) == Some(Seq::<char>::empty()) {
            r matches Err(e) && e.is(ErrorKind::BadRequest, "name cannot be empty"@)
        } else {
            r is Ok
        }),
{
    if !str_eq(org_id, user.org_id.as_str()) && !user.has_permission("*") {
        return Err(ApiError::forbidden("cannot modify other organizations"));
    }
    if !user.has_permission("*") && !user.has_permission("org:admin") {
        return Err(ApiError::forbidden("org admin access required"));
    }
    if let Some(n) = name {
        if n.as_str().is_empty() {
            assert(n@ =~= Seq::<char>::empty());
            return Err(ApiError::bad_request("name cannot be empty"));
        }
    }
    Ok(())
}

/// Deleting an organization needs a platform administrator and another organization than
/// the caller's own.
pub fn check_org_delete(user: &CurrentUser, org_id: &str) -> (r: Result<(), ApiError>)
    ensures
        !platform_admin(*user) ==> (r matches Err(e) && e.is(
            ErrorKind::Forbidden,
            "platform admin access required"@,
        )),
        (platform_admin(*user) && org_id@ == user.org_id@) ==> (r matches Err(e) && e.is(
            ErrorKind::BadRequest,
            "cannot delete your own organization"@,
        )),
        (platform_admin(*user) && org_id@ != user.org_id@) ==> r is Ok,
{
    if !user.has_permission("*") {
        return Err(ApiError::forbidden("platform admin access required"));
    }
    if str_eq(org_id, user.org_id.as_str()) {
        return Err(ApiError::bad_request("cannot delete your own organization"));
    }
    Ok(())
}

} // verus!
