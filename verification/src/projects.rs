//! Projects and pipelines: what a name and a slug must be, who owns a new project, which
//! project role each change needs, and the archive-before-delete rule.
use vstd::prelude::*;
use crate::access::CurrentUser;
use crate::error::{ApiError, ErrorKind};
use crate::text::{is_alphanumeric, owned, unicode_alphanumeric, views};
use crate::webhooks::{contains_string, contains_view};
use crate::webhook_payloads::opt_view;

verus! {

/// Slugs are made of alphanumeric characters, `-` and `_`.
pub open spec fn slug_chars_ok(slug: Seq<char>) -> bool {
    forall|i: int|
        0 <= i < slug.len() ==> unicode_alphanumeric(#[trigger] slug[i]) || slug[i] == '-'
            || slug[i] == '_'
}

fn slug_chars_valid(slug: &str) -> (r: bool)
    ensures
        r == slug_chars_ok(slug@),
{
    let n = slug.unicode_len();
    let mut i: usize = 0;
    while i < n
        invariant
            n == slug@.len(),
            i <= n,
            forall|j: int|
                0 <= j < i ==> unicode_alphanumeric(#[trigger] slug@[j]) || slug@[j] == '-'
                    || slug@[j] == '_',
        decreases n - i,
    {
        let c = slug.get_char(i);
        if !(is_alphanumeric(c) || c == '-' || c == '_') {
            return false;
        }
        i = i + 1;
    }
    true
}

fn check_slug(slug: &str, empty_message: &str) -> (r: Result<(), ApiError>)
    ensures
        slug@.len() == 0 ==> (r matches Err(e) && e.is(ErrorKind::BadRequest, empty_message@)),
        (slug@.len() > 0 && !slug_chars_ok(slug@)) ==> (r matches Err(e) && e.is(
            ErrorKind::BadRequest,
            "slug must contain only alphanumeric characters, hyphens, and underscores"@,
        )),
        (slug@.len() > 0 && slug_chars_ok(slug@)) ==> r is Ok,
{
    if slug.is_empty() {
        return Err(ApiError::bad_request(empty_message));
    }
    if !slug_chars_valid(slug) {
        return Err(
            ApiError::bad_request(
                "slug must contain only alphanumeric characters, hyphens, and underscores",
            ),
        );
    }
    Ok(())
}

/// A new project needs a name and a valid slug.
pub fn check_new_project(name: &str, slug: &str) -> (r: Result<(), ApiError>)
    ensures
        name@.len() == 0 ==> (r matches Err(e) && e.is(ErrorKind::BadRequest, "name is required"@)),
        (name@.len() > 0 && slug@.len() == 0) ==> (r matches Err(e) && e.is(
            ErrorKind::BadRequest,
            "slug is required"@,
        )),
        (name@.len() > 0 && slug@.len() > 0 && !slug_chars_ok(slug@)) ==> (r matches Err(e) && e.is(
            ErrorKind::BadRequest,
            "slug must contain only alphanumeric characters, hyphens, and underscores"@,
        )),
        (name@.len() > 0 && slug@.len() > 0 && slug_chars_ok(slug@)) ==> r is Ok,
{
    if name.is_empty() {
        return Err(ApiError::bad_request("name is required"));
    }
    check_slug(slug, "slug is required")
}

/// An update may not blank the name, and a new slug must be valid.
pub fn check_project_update(name: &Option<String>, slug: &Option<String>) -> (r: Result<(), ApiError>)
    ensures
        opt_view(*name) == Some(Seq::<char>::empty()) ==> (r matches Err(e) && e.is(
            ErrorKind::BadRequest,
            "name cannot be empty"@,
        )),
        opt_view(*name) != Some(Seq::<char>::empty()) ==> match opt_view(*slug) {
            Some(s) => if s.len() == 0 {
                r matches Err(e) && e.is(ErrorKind::BadRequest, "slug cannot be empty"@)
            } else if !slug_chars_ok(s) {
                r matches Err(e) && e.is(
                    ErrorKind::BadRequest,
                    "slug must contain only alphanumeric characters, hyphens, and underscores"@,
                )
            } else {
                r is Ok
            },
            None => r is Ok,
        },
{
    if let Some(n) = name {
        if n.as_str().is_empty() {
            assert(n@ =~= Seq::<char>::empty());
            return Err(ApiError::bad_request("name cannot be empty"));
        }
    }
    match slug {
        Some(s) => check_slug(s.as_str(), "slug cannot be empty"),
        None => Ok(()),
    }
}

/// Owner of a new project: the requested owner, else the caller.
pub fn project_owner_id(requested_owner: &Option<String>, user_id: &str) -> (r: String)
    ensures
        r@ == match opt_view(*requested_owner) {
            Some(o) => o,
            None => user_id@,
        },
{
    match requested_owner {
        Some(o) => owned(o.as_str()),
        None => owned(user_id),
    }
}

/// A change that needs a project role.
#[derive(Debug, Clone, Copy, PartialEq, Eq, Structural)]
pub enum ProjectAction {
    CreatePipelines,
    ImportPipelines,
    SyncPipelinesFromGit,
    UpdatePipelines,
    DeletePipelines,
    ArchivePipelines,
    UpdateProject,
    ArchiveProject,
    BrowseApps,
    TriggerPipelines,
    CreateVariables,
    UpdateVariables,
    DeleteVariables,
    /// Create, change or delete environments, or remove project members.
    AdministerProject,
    /// Add, change or remove pipeline members.
    AdministerPipelineMembers,
}

/// What a caller without the needed project role is told.
pub open spec fn project_role_refusal(action: ProjectAction) -> Seq<char> {
    match action {
        ProjectAction::CreatePipelines => "project administrator role is required to create pipelines"@,
        ProjectAction::ImportPipelines => "project administrator role is required to import pipelines"@,
        ProjectAction::SyncPipelinesFromGit => "project administrator role is required to sync pipelines from Git"@,
        ProjectAction::UpdatePipelines => "project administrator role is required to update pipelines"@,
        ProjectAction::DeletePipelines => "project administrator role is required to delete pipelines"@,
        ProjectAction::ArchivePipelines => "project administrator role is required to archive pipelines"@,
        ProjectAction::UpdateProject => "project administrator role is required to update this project"@,
        ProjectAction::ArchiveProject => "project administrator role is required to archive this project"@,
        ProjectAction::BrowseApps => "project administrator role is required to browse Meticulous Apps for install"@,
        ProjectAction::TriggerPipelines => "developer or administrator project role is required to trigger pipelines"@,
        ProjectAction::CreateVariables => "developer or administrator project role is required to create variables"@,
        ProjectAction::UpdateVariables => "developer or administrator project role is required to update variables"@,
        ProjectAction::DeleteVariables => "developer or administrator project role is required to delete variables"@,
        ProjectAction::AdministerProject => "requires project admin"@,
        ProjectAction::AdministerPipelineMembers => "requires pipeline admin"@,
    }
}

fn project_role_message(action: ProjectAction) -> (m: &'static str)
    ensures
        m@ == project_role_refusal(action),
{
    proof {
        reveal_strlit("project administrator role is required to create pipelines");
        reveal_strlit("project administrator role is required to import pipelines");
        reveal_strlit("project administrator role is required to sync pipelines from Git");
        reveal_strlit("project administrator role is required to update pipelines");
        reveal_strlit("project administrator role is required to delete pipelines");
        reveal_strlit("project administrator role is required to archive pipelines");
        reveal_strlit("project administrator role is required to update this project");
        reveal_strlit("project administrator role is required to archive this project");
        reveal_strlit("project administrator role is required to browse Meticulous Apps for install");
        reveal_strlit("developer or administrator project role is required to trigger pipelines");
        reveal_strlit("developer or administrator project role is required to create variables");
        reveal_strlit("developer or administrator project role is required to update variables");
        reveal_strlit("developer or administrator project role is required to delete variables");
        reveal_strlit("requires project admin");
        reveal_strlit("requires pipeline admin");
    }
    match action {
        ProjectAction::CreatePipelines => "project administrator role is required to create pipelines",
        ProjectAction::ImportPipelines => "project administrator role is required to import pipelines",
        ProjectAction::SyncPipelinesFromGit => "project administrator role is required to sync pipelines from Git",
        ProjectAction::UpdatePipelines => "project administrator role is required to update pipelines",
        ProjectAction::DeletePipelines => "project administrator role is required to delete pipelines",
        ProjectAction::ArchivePipelines => "project administrator role is required to archive pipelines",
        ProjectAction::UpdateProject => "project administrator role is required to update this project",
        ProjectAction::ArchiveProject => "project administrator role is required to archive this project",
        ProjectAction::BrowseApps => "project administrator role is required to browse Meticulous Apps for install",
        ProjectAction::TriggerPipelines => "developer or administrator project role is required to trigger pipelines",
        ProjectAction::CreateVariables => "developer or administrator project role is required to create variables",
        ProjectAction::UpdateVariables => "developer or administrator project role is required to update variables",
        ProjectAction::DeleteVariables => "developer or administrator project role is required to delete variables",
        ProjectAction::AdministerProject => "requires project admin",
        ProjectAction::AdministerPipelineMembers => "requires pipeline admin",
    }
}

/// A change goes ahead only when the caller's effective project role allows it (`allowed`
/// is that answer).
pub fn require_project_role(allowed: bool, action: ProjectAction) -> (r: Result<(), ApiError>)
    ensures
        r is Ok <==> allowed,
        r matches Err(e) ==> e.is(ErrorKind::Forbidden, project_role_refusal(action)),
{
    if !allowed {
        return Err(ApiError::forbidden(project_role_message(action)));
    }
    Ok(())
}

/// Permanent removals, each allowed only for an archived project or pipeline.
#[derive(Debug, Clone, Copy, PartialEq, Eq, Structural)]
pub enum Removal {
    /// An administrator purges a pipeline.
    PurgePipeline,
    /// A project administrator deletes a pipeline.
    DeletePipeline,
    /// An administrator deletes a project.
    DeleteProject,
}

/// What is answered when the target is not archived.
pub open spec fn unarchived_refusal(removal: Removal) -> Seq<char> {
    match removal {
        Removal::PurgePipeline => "pipeline must be archived before purge"@,
        Removal::DeletePipeline => "only archived pipelines can be permanently deleted; archive first or purge from Admin → Archive"@,
        Removal::DeleteProject => "project must be archived before permanent delete (use Admin → Archive)"@,
    }
}

/// Only archived projects and pipelines are removed for good.
pub fn require_archived(archived: bool, removal: Removal) -> (r: Result<(), ApiError>)
    ensures
        r is Ok <==> archived,
        r matches Err(e) ==> e.is(ErrorKind::BadRequest, unarchived_refusal(removal)),
{
    proof {
        reveal_strlit("pipeline must be archived before purge");
        reveal_strlit(
            "only archived pipelines can be permanently deleted; archive first or purge from Admin → Archive",
        );
        reveal_strlit("project must be archived before permanent delete (use Admin → Archive)");
    }
    if !archived {
        let m: &str = match removal {
            Removal::PurgePipeline => "pipeline must be archived before purge",
            Removal::DeletePipeline => "only archived pipelines can be permanently deleted; archive first or purge from Admin → Archive",
            Removal::DeleteProject => "project must be archived before permanent delete (use Admin → Archive)",
        };
        return Err(ApiError::bad_request(m));
    }
    Ok(())
}

/// Unarchiving is for organization administrators (`*`); `pipeline` tells which kind of
/// object the refusal names.
pub fn require_unarchive_permission(user: &CurrentUser, pipeline: bool) -> (r: Result<(), ApiError>)
    ensures
        r is Ok <==> user.holds("*"@),
        r matches Err(e) ==> e.is(
            ErrorKind::Forbidden,
            if pipeline {
                "only organization administrators may unarchive pipelines (Admin → Archive)"@
            } else {
                "only organization administrators may unarchive projects (Admin → Archive)"@
            },
        ),
{
    if !user.has_permission("*") {
        if pipeline {
            return Err(
                ApiError::forbidden(
                    "only organization administrators may unarchive pipelines (Admin → Archive)",
                ),
            );
        }
        return Err(
            ApiError::forbidden("only organization administrators may unarchive projects (Admin → Archive)"),
        );
    }
    Ok(())
}

/// What a definition sent for validation is, as JSON.
#[derive(Debug, Clone, Copy, PartialEq, Eq, Structural)]
pub enum DefinitionShape {
    Null,
    /// An object; `has_jobs_or_steps` tells whether it has a `jobs` or a `steps` key.
    Object { has_jobs_or_steps: bool },
    /// Any other JSON value.
    Other,
}

/// The outcome of validating a definition.
pub struct DefinitionReport {
    pub valid: bool,
    pub errors: Vec<String>,
    pub warnings: Vec<String>,
}

/// Errors found in a definition of this shape.
pub open spec fn definition_errors(shape: DefinitionShape) -> Seq<Seq<char>> {
    match shape {
        DefinitionShape::Null => seq!["definition cannot be null"@, "definition must be a JSON object"@],
        DefinitionShape::Object { .. } => Seq::empty(),
        DefinitionShape::Other => seq!["definition must be a JSON object"@],
    }
}

/// Warnings about a definition of this shape.
pub open spec fn definition_warnings(shape: DefinitionShape) -> Seq<Seq<char>> {
    match shape {
        DefinitionShape::Object { has_jobs_or_steps } => if has_jobs_or_steps {
            Seq::empty()
        } else {
            seq!["definition should contain 'jobs' or 'steps'"@]
        },
        _ => Seq::empty(),
    }
}

/// Validates a definition: it must be a JSON object (null is reported as such too), and an
/// object without `jobs` or `steps` draws a warning; it is valid when there is no error.
pub fn validate_definition(shape: DefinitionShape) -> (r: DefinitionReport)
    ensures
        views(r.errors@) == definition_errors(shape),
        views(r.warnings@) == definition_warnings(shape),
        r.valid == (definition_errors(shape).len() == 0),
{
    let mut errors: Vec<String> = Vec::new();
    let mut warnings: Vec<String> = Vec::new();
    if shape == DefinitionShape::Null {
        errors.push(owned("definition cannot be null"));
    }
    match shape {
        DefinitionShape::Object { has_jobs_or_steps } => {
            if !has_jobs_or_steps {
                warnings.push(owned("definition should contain 'jobs' or 'steps'"));
            }
        },
        _ => {
            errors.push(owned("definition must be a JSON object"));
        },
    }
    assert(views(errors@) =~= definition_errors(shape));
    assert(views(warnings@) =~= definition_warnings(shape));
    let valid = errors.len() == 0;
    DefinitionReport { valid, errors, warnings }
}

/// A pipeline listing is for one project, named by `project_id`.
pub fn require_project_filter(project_id: Option<String>) -> (r: Result<String, ApiError>)
    ensures
        match project_id {
            Some(p) => r matches Ok(x) && x == p,
            None => r matches Err(e) && e.is(
                ErrorKind::BadRequest,
                "project_id query parameter is required"@,
            ),
        },
{
    match project_id {
        Some(p) => Ok(p),
        None => Err(ApiError::bad_request("project_id query parameter is required")),
    }
}

/// An API token limited to some pipelines sees only those of a listing.
pub open spec fn pipeline_visible(user: CurrentUser, pipeline_id: Seq<char>) -> bool {
    match user.pipeline_ids {
        Some(allow) => !user.is_api_token || contains_view(allow@, pipeline_id),
        None => true,
    }
}

/// Positions, in order, of the listed pipelines among the first `n` that the caller sees.
pub open spec fn visible_positions(user: CurrentUser, ids: Seq<String>, n: int) -> Seq<usize>
    decreases n,
{
    if n <= 0 {
        Seq::empty()
    } else if pipeline_visible(user, ids[n - 1]@) {
        visible_positions(user, ids, n - 1).push((n - 1) as usize)
    } else {
        visible_positions(user, ids, n - 1)
    }
}

/// The positions of the listed pipelines (by id) that the caller sees, in listing order.
pub fn visible_pipelines(user: &CurrentUser, pipeline_ids: &Vec<String>) -> (r: Vec<usize>)
    ensures
        r@ == visible_positions(*user, pipeline_ids@, pipeline_ids@.len() as int),
{
    let mut r: Vec<usize> = Vec::new();
    let mut i: usize = 0;
    while i < pipeline_ids.len()
        invariant
            i <= pipeline_ids@.len(),
            r@ == visible_positions(*user, pipeline_ids@, i as int),
        decreases pipeline_ids.len() - i,
    {
        let visible = match &user.pipeline_ids {
            Some(allow) => !user.is_api_token || contains_string(allow, pipeline_ids[i].as_str()),
            None => true,
        };
        if visible {
            r.push(i);
        }
        i = i + 1;
    }
    r
}

/// Which projects a caller's project listing reads: every project of the organization for
/// holders of `*`, else those the caller is a member of.
pub fn lists_all_projects(user: &CurrentUser) -> (r: bool)
    ensures
        r == user.holds("*"@),
{
    user.has_permission("*")
}

/// An API token limited to some projects sees only those of a listing.
pub open spec fn project_visible(user: CurrentUser, project_id: Seq<char>) -> bool {
    match user.project_ids {
        Some(allow) => !user.is_api_token || contains_view(allow@, project_id),
        None => true,
    }
}

/// Positions, in order, of the listed projects among the first `n` that the caller sees.
pub open spec fn visible_project_positions(user: CurrentUser, ids: Seq<String>, n: int) -> Seq<usize>
    decreases n,
{
    if n <= 0 {
        Seq::empty()
    } else if project_visible(user, ids[n - 1]@) {
        visible_project_positions(user, ids, n - 1).push((n - 1) as usize)
    } else {
        visible_project_positions(user, ids, n - 1)
    }
}

/// The positions of the listed projects (by id) that the caller sees, in listing order.
pub fn visible_projects(user: &CurrentUser, project_ids: &Vec<String>) -> (r: Vec<usize>)
    ensures
        r@ == visible_project_positions(*user, project_ids@, project_ids@.len() as int),
{
    let mut r: Vec<usize> = Vec::new();
    let mut i: usize = 0;
    while i < project_ids.len()
        invariant
            i <= project_ids@.len(),
            r@ == visible_project_positions(*user, project_ids@, i as int),
        decreases project_ids.len() - i,
    {
        let visible = match &user.project_ids {
            Some(allow) => !user.is_api_token || contains_string(allow, project_ids[i].as_str()),
            None => true,
        };
        if visible {
            r.push(i);
        }
        i = i + 1;
    }
    r
}

} // verus!
