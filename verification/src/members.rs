//! Project and pipeline members (roles, principal kinds, who can be removed or re-roled,
//! principal search) and Meticulous App installations (permissions, who may install).
use vstd::prelude::*;
use crate::error::{ApiError, ErrorKind};
use crate::text::{concat3, owned, str_eq, to_lowercase, trim, trim_str, unicode_lowercase, views};
use crate::webhook_payloads::opt_view;
use crate::workspace_cursor::{parse_uuid, uuid_value};

verus! {

/// Role shown by the API for a stored role: `developer` shows as `operator`, other roles
/// as stored.
pub open spec fn api_role_of(db_role: Seq<char>) -> Seq<char> {
    if db_role == "developer"@ {
        "operator"@
    } else {
        db_role
    }
}

/// The database stores `developer`; the API shows it as `operator`.
pub fn normalize_role_for_api(db_role: &str) -> (r: String)
    ensures
        r@ == api_role_of(db_role@),
{
    if str_eq(db_role, "developer") {
        owned("operator")
    } else {
        owned(db_role)
    }
}

/// Stored role for an API role: `admin`; `operator`, `developer` and `executor` store as
/// `developer`; `readonly` and `read-only` as `readonly`; anything else is refused.
pub open spec fn db_role_of(api_role: Seq<char>) -> Option<Seq<char>> {
    if api_role == "admin"@ {
        Some("admin"@)
    } else if api_role == "operator"@ || api_role == "developer"@ || api_role == "executor"@ {
        Some("developer"@)
    } else if api_role == "readonly"@ || api_role == "read-only"@ {
        Some("readonly"@)
    } else {
        None
    }
}

/// Accepts the canonical and legacy role names and returns the stored role.
pub fn normalize_role_for_db(api_role: &str) -> (r: Result<&'static str, ApiError>)
    ensures
        r is Ok <==> db_role_of(api_role@) is Some,
        r matches Ok(s) ==> Some(s@) == db_role_of(api_role@),
        r matches Err(e) ==> e.is(
            ErrorKind::BadRequest,
            "role must be 'admin', 'operator', or 'readonly'"@,
        ),
{
    if str_eq(api_role, "admin") {
        Ok("admin")
    } else if str_eq(api_role, "operator") || str_eq(api_role, "developer") || str_eq(
        api_role,
        "executor",
    ) {
        Ok("developer")
    } else if str_eq(api_role, "readonly") || str_eq(api_role, "read-only") {
        Ok("readonly")
    } else {
        Err(ApiError::bad_request("role must be 'admin', 'operator', or 'readonly'"))
    }
}

/// Members are users or groups.
pub fn validate_principal_type(pt: &str) -> (r: Result<(), ApiError>)
    ensures
        r is Ok <==> (pt@ == "user"@ || pt@ == "group"@),
        r matches Err(e) ==> e.is(ErrorKind::BadRequest, "principal_type must be 'user' or 'group'"@),
{
    if !(str_eq(pt, "user") || str_eq(pt, "group")) {
        return Err(ApiError::bad_request("principal_type must be 'user' or 'group'"));
    }
    Ok(())
}

/// Permissions an app installation may be granted.
pub open spec fn install_permission_allowed(p: Seq<char>) -> bool {
    p == "join_tokens:create"@ || p == "join_tokens:revoke"@ || p == "agents:delete"@ || p == "*"@
}

/// Scanning the requested permissions in order: blanks are skipped, the first unknown one
/// is reported, repeats are kept once.
pub open spec fn scan_install_permissions(perms: Seq<Seq<char>>) -> Result<Seq<Seq<char>>, Seq<char>>
    decreases perms.len(),
{
    if perms.len() == 0 {
        Ok(Seq::empty())
    } else {
        match scan_install_permissions(perms.drop_last()) {
            Err(bad) => Err(bad),
            Ok(out) => {
                let p = trim(perms.last());
                if p.len() == 0 {
                    Ok(out)
                } else if !install_permission_allowed(p) {
                    Err(p)
                } else if out.contains(p) {
                    Ok(out)
                } else {
                    Ok(out.push(p))
                }
            },
        }
    }
}

fn contains_in(out: &Vec<String>, p: &str) -> (r: bool)
    ensures
        r == views(out@).contains(p@),
{
    let mut i: usize = 0;
    while i < out.len()
        invariant
            i <= out@.len(),
            forall|j: int| 0 <= j < i ==> #[trigger] out@[j]@ != p@,
        decreases out.len() - i,
    {
        if str_eq(out[i].as_str(), p) {
            assert(views(out@)[i as int] == p@);
            return true;
        }
        i = i + 1;
    }
    assert forall|j: int| 0 <= j < views(out@).len() implies views(out@)[j] != p@ by {
        assert(out@[j]@ != p@);
    }
    false
}

/// Validates requested installation permissions; an empty result defaults to
/// `join_tokens:create`.
pub fn normalize_install_permissions(perms: &[String]) -> (r: Result<Vec<String>, ApiError>)
    ensures
        match scan_install_permissions(views(perms@)) {
            Err(bad) => r matches Err(e) && e.is(
                ErrorKind::BadRequest,
                "unknown permission '"@ + bad
                    + "', allowed: join_tokens:create, join_tokens:revoke, agents:delete, *"@,
            ),
            Ok(out) => r matches Ok(v) && views(v@) == (if out.len() == 0 {
                seq!["join_tokens:create"@]
            } else {
                out
            }),
        },
{
    let mut out: Vec<String> = Vec::new();
    let mut i: usize = 0;
    assert(views(perms@).subrange(0, 0) =~= Seq::<Seq<char>>::empty());
    assert(views(out@) =~= Seq::<Seq<char>>::empty());
    while i < perms.len()
        invariant
            i <= perms@.len(),
            scan_install_permissions(views(perms@).subrange(0, i as int)) == Ok::<
                Seq<Seq<char>>,
                Seq<char>,
            >(views(out@)),
        decreases perms.len() - i,
    {
        let ghost pre = views(perms@).subrange(0, i as int);
        let ghost nxt = views(perms@).subrange(0, i + 1);
        assert(nxt.drop_last() =~= pre);
        assert(nxt.last() == perms@[i as int]@);
        let p = trim_str(perms[i].as_str());
        assert(p@ == trim(nxt.last()));
        if !p.is_empty() {
            let allowed = str_eq(p, "join_tokens:create") || str_eq(p, "join_tokens:revoke")
                || str_eq(p, "agents:delete") || str_eq(p, "*");
            if !allowed {
                proof {
                    lemma_scan_err_sticks(views(perms@), i + 1, p@);
                }
                return Err(
                    ApiError::new(
                        ErrorKind::BadRequest,
                        concat3(
                            "unknown permission '",
                            p,
                            "', allowed: join_tokens:create, join_tokens:revoke, agents:delete, *",
                        ),
                    ),
                );
            }
            assert(install_permission_allowed(p@));
            let ghost before = views(out@);
            if !contains_in(&out, p) {
                out.push(owned(p));
                assert(views(out@) =~= before.push(p@));
            }
            assert(scan_install_permissions(nxt) == Ok::<Seq<Seq<char>>, Seq<char>>(views(out@)));
        }
        i = i + 1;
    }
    assert(views(perms@).subrange(0, perms@.len() as int) =~= views(perms@));
    if out.len() == 0 {
        out.push(owned("join_tokens:create"));
        assert(views(out@) =~= seq!["join_tokens:create"@]);
    }
    Ok(out)
}

proof fn lemma_scan_err_sticks(perms: Seq<Seq<char>>, k: int, bad: Seq<char>)
    requires
        0 <= k <= perms.len(),
        scan_install_permissions(perms.subrange(0, k)) == Err::<Seq<Seq<char>>, Seq<char>>(bad),
    ensures
        scan_install_permissions(perms) == Err::<Seq<Seq<char>>, Seq<char>>(bad),
    decreases perms.len() - k,
{
    if k == perms.len() {
        assert(perms.subrange(0, k) =~= perms);
    } else {
        let nxt = perms.subrange(0, k + 1);
        assert(nxt.drop_last() =~= perms.subrange(0, k));
        lemma_scan_err_sticks(perms, k + 1, bad);
    }
}

/// Request to add a member to a project.
pub struct AddProjectMemberRequest {
    /// Older clients name a user here; `principal_id` takes precedence.
    pub user_id: Option<String>,
    /// `user` (default) or `group`.
    pub principal_type: Option<String>,
    pub principal_id: Option<String>,
    /// One of `admin`, `developer`, `readonly`.
    pub role: String,
}

/// Who a project membership is for.
pub enum ProjectPrincipalTarget {
    User(String),
    Group(String),
}

/// Kind of principal a request names: the trimmed, lowercased `principal_type`, `user`
/// when absent.
pub open spec fn requested_principal_kind(req: AddProjectMemberRequest) -> Seq<char> {
    unicode_lowercase(
        trim(
            match opt_view(req.principal_type) {
                Some(t) => t,
                None => "user"@,
            },
        ),
    )
}

/// The principal a request adds: a user (`principal_id`, else `user_id`) or a group
/// (`principal_id`); a missing id or another kind is refused.
pub fn resolve_add_project_member_principal(req: &AddProjectMemberRequest) -> (r: Result<
    ProjectPrincipalTarget,
    ApiError,
>)
    ensures
        requested_principal_kind(*req) == "user"@ ==> match (opt_view(req.principal_id), opt_view(
            req.user_id,
        )) {
            (Some(p), _) => r matches Ok(ProjectPrincipalTarget::User(u)) && u@ == p,
            (None, Some(u0)) => r matches Ok(ProjectPrincipalTarget::User(u)) && u@ == u0,
            (None, None) => r matches Err(e) && e.is(
                ErrorKind::BadRequest,
                "user principal requires `user_id` or `principal_id`"@,
            ),
        },
        requested_principal_kind(*req) == "group"@ ==> match opt_view(req.principal_id) {
            Some(p) => r matches Ok(ProjectPrincipalTarget::Group(g)) && g@ == p,
            None => r matches Err(e) && e.is(
                ErrorKind::BadRequest,
                "group principal requires `principal_id`"@,
            ),
        },
        (requested_principal_kind(*req) != "user"@ && requested_principal_kind(*req) != "group"@)
            ==> (r matches Err(e) && e.is(
            ErrorKind::BadRequest,
            "principal_type must be user or group"@,
        )),
{
    let raw: &str = match &req.principal_type {
        Some(t) => t.as_str(),
        None => "user",
    };
    let pt = to_lowercase(trim_str(raw));
    proof {
        reveal_strlit("user");
        reveal_strlit("group");
        assert("user"@.len() != "group"@.len());
    }
    if str_eq(pt.as_str(), "user") {
        if let Some(pid) = &req.principal_id {
            Ok(ProjectPrincipalTarget::User(owned(pid.as_str())))
        } else if let Some(u) = &req.user_id {
            Ok(ProjectPrincipalTarget::User(owned(u.as_str())))
        } else {
            Err(ApiError::bad_request("user principal requires `user_id` or `principal_id`"))
        }
    } else if str_eq(pt.as_str(), "group") {
        match &req.principal_id {
            Some(gid) => Ok(ProjectPrincipalTarget::Group(owned(gid.as_str()))),
            None => Err(ApiError::bad_request("group principal requires `principal_id`")),
        }
    } else {
        Err(ApiError::bad_request("principal_type must be user or group"))
    }
}

/// `ILIKE` pattern of a principal search: the lowercased query (empty when absent) between
/// `%` wildcards, used as given (its own `%` and `_` stay wildcards).
pub fn principal_search_pattern(q: Option<String>) -> (r: String)
    ensures
        r@ == "%"@ + unicode_lowercase(
            match q {
                Some(s) => s@,
                None => Seq::<char>::empty(),
            },
        ) + "%"@,
{
    let raw = match q {
        Some(s) => s,
        None => String::new(),
    };
    let lower = to_lowercase(raw.as_str());
    concat3("%", lower.as_str(), "%")
}

/// Permissions of an installation made from a project: as requested, or `read` alone when
/// none are requested.
pub fn project_install_permissions(perms: Vec<String>) -> (r: Vec<String>)
    ensures
        perms@.len() == 0 ==> views(r@) == seq!["read"@],
        perms@.len() > 0 ==> r@ == perms@,
{
    if perms.len() == 0 {
        let mut v: Vec<String> = Vec::new();
        v.push(owned("read"));
        assert(views(v@) =~= seq!["read"@]);
        v
    } else {
        perms
    }
}

/// Installing an app into a project needs the project administrator role
/// (`may_manage_pipelines`) and an app that an administrator has not disabled.
pub fn check_app_installable(may_manage_pipelines: bool, app_enabled: bool) -> (r: Result<
    (),
    ApiError,
>)
    ensures
        !may_manage_pipelines ==> (r matches Err(e) && e.is(
            ErrorKind::Forbidden,
            "project administrator role is required to install Meticulous Apps"@,
        )),
        (may_manage_pipelines && !app_enabled) ==> (r matches Err(e) && e.is(
            ErrorKind::BadRequest,
            "this Meticulous App is disabled by an administrator"@,
        )),
        (may_manage_pipelines && app_enabled) ==> r is Ok,
{
    if !may_manage_pipelines {
        return Err(
            ApiError::forbidden("project administrator role is required to install Meticulous Apps"),
        );
    }
    if !app_enabled {
        return Err(ApiError::bad_request("this Meticulous App is disabled by an administrator"));
    }
    Ok(())
}

/// The project owner (whose id is stored as UUID text) cannot be removed from the project's
/// members; a stored id that is not a UUID is an internal error.
pub fn check_member_removal(principal_id: u128, owner_id: &str) -> (r: Result<(), ApiError>)
    ensures
        match uuid_value(owner_id@) {
            None => r matches Err(e) && e.is(ErrorKind::Internal, "invalid owner_id"@),
            Some(o) => if o == principal_id {
                r matches Err(e) && e.is(
                    ErrorKind::BadRequest,
                    "cannot remove the project owner from membership"@,
                )
            } else {
                r is Ok
            },
        },
{
    match parse_uuid(owner_id) {
        None => Err(ApiError::internal("invalid owner_id")),
        Some(o) => if o == principal_id {
            Err(ApiError::bad_request("cannot remove the project owner from membership"))
        } else {
            Ok(())
        },
    }
}

/// A pipeline member's role can be changed only for a listed member (`inherited` is
/// `None` when the principal is not listed) that is not inherited from the project.
pub fn check_member_role_change(inherited: Option<bool>) -> (r: Result<(), ApiError>)
    ensures
        inherited is None ==> (r matches Err(e) && e.is(ErrorKind::NotFound, "member not found"@)),
        inherited == Some(true) ==> (r matches Err(e) && e.is(
            ErrorKind::BadRequest,
            "cannot change role of inherited member; manage at project level"@,
        )),
        inherited == Some(false) ==> r is Ok,
{
    match inherited {
        None => Err(ApiError::not_found("member not found")),
        Some(true) => Err(
            ApiError::bad_request("cannot change role of inherited member; manage at project level"),
        ),
        Some(false) => Ok(()),
    }
}

/// The role an administrator gives a project member: trimmed and lowercased, one of
/// `admin`, `developer` and `readonly`.
pub fn admin_project_member_role(role: &str) -> (r: Result<String, ApiError>)
    ensures
        ({
            let l = unicode_lowercase(trim(role@));
            &&& (l == "admin"@ || l == "developer"@ || l == "readonly"@) ==> (r matches Ok(x) && x@
                == l)
            &&& !(l == "admin"@ || l == "developer"@ || l == "readonly"@) ==> (r matches Err(e)
                && e.is(ErrorKind::BadRequest, "role must be admin, developer, or readonly"@))
        }),
{
    let l = to_lowercase(trim_str(role));
    if str_eq(l.as_str(), "admin") || str_eq(l.as_str(), "developer") || str_eq(
        l.as_str(),
        "readonly",
    ) {
        Ok(l)
    } else {
        Err(ApiError::bad_request("role must be admin, developer, or readonly"))
    }
}

/// The user or group made a project member must be in the administrator's organization.
pub fn check_principal_org(is_user: bool, principal_org_id: &str, org_id: &str) -> (r: Result<
    (),
    ApiError,
>)
    ensures
        r is Ok <==> principal_org_id@ == org_id@,
        r matches Err(e) ==> e.is(
            ErrorKind::BadRequest,
            if is_user {
                "user is not in this organization"@
            } else {
                "group is not in this organization"@
            },
        ),
{
    if !str_eq(principal_org_id, org_id) {
        if is_user {
            return Err(ApiError::bad_request("user is not in this organization"));
        }
        return Err(ApiError::bad_request("group is not in this organization"));
    }
    Ok(())
}

} // verus!
