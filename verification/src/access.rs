//! Who may do what: permission guards shared by the admin, moderation, stored-secret,
//! security and workspace routes.
use vstd::prelude::*;
use crate::error::{ApiError, ErrorKind};
use crate::text::{concat3, owned, str_eq, trim, trim_str, views};
use crate::webhook_payloads::opt_view;
use crate::webhooks::{contains_string, contains_view};

verus! {

/// The authenticated caller as the guards see it.
pub struct CurrentUser {
    pub user_id: String,
    pub org_id: String,
    /// Permission strings granted to the caller (`*` is the super-admin grant).
    pub permissions: Vec<String>,
    /// Whether the caller authenticated with an API token.
    pub is_api_token: bool,
    /// Projects the caller is limited to; `None` when not limited.
    pub project_ids: Option<Vec<String>>,
    /// Pipelines an API token is limited to; `None` when not limited.
    pub pipeline_ids: Option<Vec<String>>,
}

impl CurrentUser {
    /// The caller holds permission `p`.
    pub open spec fn holds(self, p: Seq<char>) -> bool {
        contains_view(self.permissions@, p)
    }

    /// Whether the caller holds permission `p`.
    pub fn has_permission(&self, p: &str) -> (r: bool)
        ensures
            r == self.holds(p@),
    {
        contains_string(&self.permissions, p)
    }
}

/// Admin routes need the `*` permission.
pub fn require_admin(user: &CurrentUser) -> (r: Result<(), ApiError>)
    ensures
        r is Ok <==> user.holds("*"@),
        r matches Err(e) ==> e.is(ErrorKind::Forbidden, "admin access required"@),
{
    if !user.has_permission("*") {
        return Err(ApiError::forbidden("admin access required"));
    }
    Ok(())
}

/// A resource of another organization is out of the caller's reach: `refusal` is what the
/// caller is told.
pub fn require_same_org(resource_org_id: &str, user: &CurrentUser, refusal: &str) -> (r: Result<
    (),
    ApiError,
>)
    ensures
        r is Ok <==> resource_org_id@ == user.org_id@,
        r matches Err(e) ==> e.is(ErrorKind::Forbidden, refusal@),
{
    if !str_eq(resource_org_id, user.org_id.as_str()) {
        return Err(ApiError::forbidden(refusal));
    }
    Ok(())
}

/// Setting a catalog workflow's deprecation period needs `*` or `workflow:approve`.
pub fn check_deprecation_permission(user: &CurrentUser) -> (r: Result<(), ApiError>)
    ensures
        r is Ok <==> (user.holds("*"@) || user.holds("workflow:approve"@)),
        r matches Err(e) ==> e.is(
            ErrorKind::Forbidden,
            "setting a deprecation period requires workflow:approve (or *) permission"@,
        ),
{
    if !user.has_permission("*") && !user.has_permission("workflow:approve") {
        return Err(
            ApiError::forbidden("setting a deprecation period requires workflow:approve (or *) permission"),
        );
    }
    Ok(())
}

/// A workflow's moderation history is shown to holders of `*`, `workflow:approve`,
/// `audit:read` or `read:*`.
pub fn check_moderation_history_permission(user: &CurrentUser) -> (r: Result<(), ApiError>)
    ensures
        r is Ok <==> (user.holds("*"@) || user.holds("workflow:approve"@) || user.holds(
            "audit:read"@,
        ) || user.holds("read:*"@)),
        r matches Err(e) ==> e.is(
            ErrorKind::Forbidden,
            "insufficient permissions to view moderation events"@,
        ),
{
    if !user.has_permission("*") && !user.has_permission("workflow:approve")
        && !user.has_permission("audit:read") && !user.has_permission("read:*") {
        return Err(ApiError::forbidden("insufficient permissions to view moderation events"));
    }
    Ok(())
}

/// Moderating a catalog workflow needs `*` or the action's own permission.
pub fn require_workflow_moderator(user: &CurrentUser, action_permission: &str) -> (r: Result<
    Option<String>,
    ApiError,
>)
    ensures
        r is Ok <==> user.holds("*"@) || user.holds(action_permission@),
        r matches Ok(n) ==> n is None,
        r matches Err(e) ==> e.is(
            ErrorKind::Forbidden,
            "requires '"@ + action_permission@ + "' (or '*') permission"@,
        ),
{
    if user.has_permission("*") {
        return Ok(None);
    }
    if user.has_permission(action_permission) {
        return Ok(None);
    }
    Err(
        ApiError::new(
            ErrorKind::Forbidden,
            concat3("requires '", action_permission, "' (or '*') permission"),
        ),
    )
}

/// A moderation note: required (non-blank) for callers without `*`; otherwise optional.
/// Kept notes are trimmed, blank ones dropped.
pub fn validate_note(user: &CurrentUser, note: Option<String>) -> (r: Result<Option<String>, ApiError>)
    ensures
        !user.holds("*"@) ==> (match opt_view(note) {
            Some(n) => if trim(n).len() > 0 {
                r matches Ok(Some(k)) && k@ == trim(n)
            } else {
                r matches Err(e) && e.is(
                    ErrorKind::BadRequest,
                    "a note is required when approving/rejecting/trusting/untrusting as SecurityEngineer"@,
                )
            },
            None => r matches Err(e) && e.is(
                ErrorKind::BadRequest,
                "a note is required when approving/rejecting/trusting/untrusting as SecurityEngineer"@,
            ),
        }),
        user.holds("*"@) ==> (r matches Ok(k) && opt_view(k) == match opt_view(note) {
            Some(n) => if trim(n).len() > 0 {
                Some(trim(n))
            } else {
                None
            },
            None => None,
        }),
{
    if !user.has_permission("*") {
        let n: &str = match &note {
            Some(s) => trim_str(s.as_str()),
            None => "",
        };
        proof {
            reveal_strlit("");
        }
        if n.is_empty() {
            return Err(
                ApiError::bad_request(
                    "a note is required when approving/rejecting/trusting/untrusting as SecurityEngineer",
                ),
            );
        }
        return Ok(Some(owned(n)));
    }
    match &note {
        Some(s) => {
            let t = trim_str(s.as_str());
            if t.is_empty() {
                Ok(None)
            } else {
                Ok(Some(owned(t)))
            }
        },
        None => Ok(None),
    }
}

/// Org-wide stored secrets may be managed by holders of `*` or `org:admin`.
pub fn user_may_manage_org_stored_secrets(user: &CurrentUser) -> (r: bool)
    ensures
        r == (user.holds("*"@) || user.holds("org:admin"@)),
{
    user.has_permission("*") || user.has_permission("org:admin")
}

/// How far a blast-radius search may look.
pub enum OrgSearchMode {
    FullOrg,
    ProjectAllowList(Vec<String>),
    PipelineAllowList(Vec<String>),
    OpenOrg,
}

/// Search scope: the whole org for `*` and the blast-radius grants; a non-empty pipeline
/// list for pipeline-limited API tokens; the project list for project-limited callers;
/// else the open org.
pub fn blast_radius_mode(user: &CurrentUser) -> (m: OrgSearchMode)
    ensures
        (user.holds("*"@) || user.holds("security:blast-radius:all"@) || user.holds(
            "security:blast-radius:org"@,
        )) ==> m is FullOrg,
        !(user.holds("*"@) || user.holds("security:blast-radius:all"@) || user.holds(
            "security:blast-radius:org"@,
        )) ==> (if user.is_api_token && user.pipeline_ids is Some && user.pipeline_ids->0@.len()
            > 0 {
            m matches OrgSearchMode::PipelineAllowList(l) && views(l@) == views(
                user.pipeline_ids->0@,
            )
        } else if user.project_ids is Some {
            m matches OrgSearchMode::ProjectAllowList(l) && views(l@) == views(
                user.project_ids->0@,
            )
        } else {
            m is OpenOrg
        }),
{
    if user.has_permission("*") || user.has_permission("security:blast-radius:all")
        || user.has_permission("security:blast-radius:org") {
        return OrgSearchMode::FullOrg;
    }
    if user.is_api_token {
        if let Some(pl) = &user.pipeline_ids {
            if pl.len() > 0 {
                return OrgSearchMode::PipelineAllowList(copy_ids(pl));
            }
        }
    }
    if let Some(pids) = &user.project_ids {
        return OrgSearchMode::ProjectAllowList(copy_ids(pids));
    }
    OrgSearchMode::OpenOrg
}

fn copy_ids(v: &Vec<String>) -> (r: Vec<String>)
    ensures
        views(r@) == views(v@),
{
    let mut r: Vec<String> = Vec::new();
    let mut i: usize = 0;
    while i < v.len()
        invariant
            i <= v@.len(),
            r@.len() == i,
            forall|j: int| 0 <= j < i ==> #[trigger] r@[j]@ == v@[j]@,
        decreases v.len() - i,
    {
        r.push(v[i].clone());
        i = i + 1;
    }
    assert(views(r@) =~= views(v@));
    r
}

/// A project named by a webhook-management request must be in the caller's organization
/// (else it is reported as not found) and accessible to the caller (`project_access` is
/// that answer).
pub fn require_project_in_user_org(
    project_org_id: &str,
    user: &CurrentUser,
    project_access: bool,
) -> (r: Result<(), ApiError>)
    ensures
        project_org_id@ != user.org_id@ ==> (r matches Err(e) && e.is(
            ErrorKind::NotFound,
            "Project not found"@,
        )),
        (project_org_id@ == user.org_id@ && !project_access) ==> (r matches Err(e) && e.is(
            ErrorKind::Forbidden,
            "You do not have access to this project"@,
        )),
        (project_org_id@ == user.org_id@ && project_access) ==> r is Ok,
{
    if !str_eq(project_org_id, user.org_id.as_str()) {
        return Err(ApiError::not_found("Project not found"));
    }
    if !project_access {
        return Err(ApiError::forbidden("You do not have access to this project"));
    }
    Ok(())
}

/// The project filter of a workspace listing once its pipeline filter is applied: a
/// pipeline (whose project and that project's organization the caller read) must be in the
/// caller's organization and, when a project is also named, belong to it; the pipeline's
/// project then becomes the project filter. Without a pipeline the named project stays.
pub fn pipeline_filter_project(
    project_id: Option<String>,
    pipeline: Option<(String, String)>,
    user: &CurrentUser,
) -> (r: Result<Option<String>, ApiError>)
    ensures
        match pipeline {
            None => r matches Ok(p) && opt_view(p) == opt_view(project_id),
            Some((pl_project, pl_org)) => if pl_org@ != user.org_id@ {
                r matches Err(e) && e.is(
                    ErrorKind::Forbidden,
                    "pipeline not in your organization"@,
                )
            } else if project_id matches Some(p) && p@ != pl_project@ {
                r matches Err(e) && e.is(
                    ErrorKind::BadRequest,
                    "pipeline_id does not belong to the given project_id"@,
                )
            } else {
                r matches Ok(p) && opt_view(p) == Some(pl_project@)
            },
        },
{
    match pipeline {
        None => Ok(project_id),
        Some((pl_project, pl_org)) => {
            if !str_eq(pl_org.as_str(), user.org_id.as_str()) {
                return Err(ApiError::forbidden("pipeline not in your organization"));
            }
            if let Some(p) = &project_id {
                if !str_eq(p.as_str(), pl_project.as_str()) {
                    return Err(
                        ApiError::bad_request("pipeline_id does not belong to the given project_id"),
                    );
                }
            }
            Ok(Some(pl_project))
        },
    }
}

/// Which projects a workspace listing covers.
pub struct AccessPlan {
    pub restricted: bool,
    pub project_uuids: Vec<String>,
}

/// Callers limited to projects see only those; others see the whole org.
pub fn project_access_plan(user: &CurrentUser) -> (p: AccessPlan)
    ensures
        p.restricted == user.project_ids is Some,
        views(p.project_uuids@) == (match user.project_ids {
            Some(ids) => views(ids@),
            None => Seq::empty(),
        }),
{
    match &user.project_ids {
        None => {
            let v: Vec<String> = Vec::new();
            assert(views(v@) =~= Seq::<Seq<char>>::empty());
            AccessPlan { restricted: false, project_uuids: v }
        },
        Some(ids) => AccessPlan { restricted: true, project_uuids: copy_ids(ids) },
    }
}

} // verus!
