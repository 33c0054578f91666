//! Catalog workflows imported from GitHub: where they came from, what their catalog entry
//! says, and how a scheduled re-import picks its versions.
use vstd::prelude::*;
use crate::dto_resources::ImportCatalogWorkflowGitRequest;
use crate::error::{ApiError, ErrorKind};
use crate::text::{concat3, owned, views};
use crate::webhook_payloads::opt_view;
use crate::workspace_cursor::{parse_uuid, uuid_value};

verus! {

/// `s` without its leading `/` characters (`trim_start_matches('/')`).
pub open spec fn strip_leading_slashes(s: Seq<char>) -> Seq<char>
    decreases s.len(),
{
    if s.len() > 0 && s[0] == '/' {
        strip_leading_slashes(s.drop_first())
    } else {
        s
    }
}

proof fn lemma_strip_leading(s: Seq<char>, k: int)
    requires
        0 <= k <= s.len(),
        forall|j: int| 0 <= j < k ==> s[j] == '/',
    ensures
        strip_leading_slashes(s) == strip_leading_slashes(s.subrange(k, s.len() as int)),
    decreases k,
{
    if k > 0 {
        let t = s.drop_first();
        assert forall|j: int| 0 <= j < k - 1 implies t[j] == '/' by {
            assert(t[j] == s[j + 1]);
        }
        lemma_strip_leading(t, k - 1);
        assert(t.subrange(k - 1, t.len() as int) =~= s.subrange(k, s.len() as int));
    } else {
        assert(s.subrange(0, s.len() as int) =~= s);
    }
}

fn trim_leading_slashes(s: &str) -> (r: &str)
    ensures
        r@ == strip_leading_slashes(s@),
{
    let n = s.unicode_len();
    let mut k: usize = 0;
    while k < n && s.get_char(k) == '/'
        invariant
            n == s@.len(),
            k <= n,
            forall|j: int| 0 <= j < k ==> s@[j] == '/',
        decreases n - k,
    {
        k = k + 1;
    }
    proof {
        lemma_strip_leading(s@, k as int);
        let t = s@.subrange(k as int, n as int);
        if k < n {
            assert(t[0] == s@[k as int]);
        }
    }
    s.substring_char(k, n)
}

/// Repository of an import as `owner/name`.
pub fn repo_slug(owner: &str, name: &str) -> (r: String)
    ensures
        r@ == owner@ + "/"@ + name@,
{
    concat3(owner, "/", name)
}

/// Link to the imported file at the imported commit:
/// `https://github.com/{owner}/{name}/blob/{commit}/{path}` (leading `/` of the path dropped).
pub fn github_upstream_url(owner: &str, name: &str, commit_sha: &str, workflow_path: &str) -> (r:
    String)
    ensures
        r@ == "https://github.com/"@ + owner@ + "/"@ + name@ + "/blob/"@ + commit_sha@ + "/"@
            + strip_leading_slashes(workflow_path@),
{
    let mut r = owned("https://github.com/");
    r.append(owner);
    r.append("/");
    r.append(name);
    r.append("/blob/");
    r.append(commit_sha);
    r.append("/");
    r.append(trim_leading_slashes(workflow_path));
    r
}

/// An imported workflow must be named.
pub fn require_workflow_name(name: Option<&str>) -> (r: Result<String, ApiError>)
    ensures
        match name {
            Some(n) => if n@.len() > 0 {
                r matches Ok(s) && s@ == n@
            } else {
                r matches Err(e) && e.is(
                    ErrorKind::BadRequest,
                    "workflow YAML must include a non-empty `name` field"@,
                )
            },
            None => r matches Err(e) && e.is(
                ErrorKind::BadRequest,
                "workflow YAML must include a non-empty `name` field"@,
            ),
        },
{
    match name {
        Some(n) => if n.is_empty() {
            Err(ApiError::bad_request("workflow YAML must include a non-empty `name` field"))
        } else {
            Ok(owned(n))
        },
        None => Err(ApiError::bad_request("workflow YAML must include a non-empty `name` field")),
    }
}

/// Version of an imported workflow: the one it declares, `0.0.0` otherwise.
pub fn workflow_version_or_default(version: Option<String>) -> (r: String)
    ensures
        r@ == match opt_view(version) {
            Some(v) => v,
            None => "0.0.0"@,
        },
{
    match version {
        Some(v) => v,
        None => owned("0.0.0"),
    }
}

/// Catalog metadata of an imported workflow.
pub struct CatalogMetadata {
    /// The workflow's description, else its name, else `workflow`.
    pub summary: String,
    /// The `uses` of every step of every job, in order.
    pub tools: Vec<String>,
    pub upstream_url: String,
}

/// Tools of a definition: the `uses` of each step, job by job.
pub open spec fn tools_of(jobs: Seq<Vec<Option<String>>>) -> Seq<Seq<char>>
    decreases jobs.len(),
{
    if jobs.len() == 0 {
        Seq::empty()
    } else {
        tools_of(jobs.drop_last()) + uses_of(jobs.last()@)
    }
}

pub open spec fn uses_of(steps: Seq<Option<String>>) -> Seq<Seq<char>>
    decreases steps.len(),
{
    if steps.len() == 0 {
        Seq::empty()
    } else {
        match opt_view(steps.last()) {
            Some(u) => uses_of(steps.drop_last()).push(u),
            None => uses_of(steps.drop_last()),
        }
    }
}

/// Metadata of a definition given its `description`, `name`, the `uses` of each step of each
/// job (`None` for a step without one), and its upstream link.
pub fn catalog_metadata(
    description: Option<&str>,
    name: Option<&str>,
    jobs: &Vec<Vec<Option<String>>>,
    upstream_url: &str,
) -> (m: CatalogMetadata)
    ensures
        m.summary@ == match description {
            Some(d) => d@,
            None => match name {
                Some(n) => n@,
                None => "workflow"@,
            },
        },
        views(m.tools@) == tools_of(jobs@),
        m.upstream_url@ == upstream_url@,
{
    let summary: &str = match description {
        Some(d) => d,
        None => match name {
            Some(n) => n,
            None => "workflow",
        },
    };
    let mut tools: Vec<String> = Vec::new();
    let mut i: usize = 0;
    while i < jobs.len()
        invariant
            i <= jobs@.len(),
            views(tools@) == tools_of(jobs@.take(i as int)),
        decreases jobs.len() - i,
    {
        proof {
            assert(jobs@.take(i + 1).drop_last() =~= jobs@.take(i as int));
            assert(jobs@.take(i + 1).last() == jobs@[i as int]);
        }
        let steps = &jobs[i];
        let ghost before = views(tools@);
        let mut k: usize = 0;
        assert(uses_of(steps@.take(0)) =~= Seq::<Seq<char>>::empty());
        assert(before + Seq::<Seq<char>>::empty() =~= before);
        while k < steps.len()
            invariant
                k <= steps@.len(),
                views(tools@) == before + uses_of(steps@.take(k as int)),
            decreases steps.len() - k,
        {
            proof {
                assert(steps@.take(k + 1).drop_last() =~= steps@.take(k as int));
                assert(steps@.take(k + 1).last() == steps@[k as int]);
            }
            if let Some(u) = &steps[k] {
                let ghost mid = views(tools@);
                tools.push(owned(u.as_str()));
                assert(views(tools@) =~= mid.push(u@));
            }
            k = k + 1;
        }
        assert(steps@.take(steps@.len() as int) =~= steps@);
        i = i + 1;
    }
    assert(jobs@.take(jobs@.len() as int) =~= jobs@);
    CatalogMetadata { summary: owned(summary), tools, upstream_url: owned(upstream_url) }
}

/// A scheduled re-import has nothing to do without SCM-sourced versions.
pub fn no_scm_versions_error(workflow_name: &str) -> (r: String)
    ensures
        r@ == "no SCM-sourced versions of '"@ + workflow_name@ + "' found in the catalog"@,
{
    concat3("no SCM-sourced versions of '", workflow_name, "' found in the catalog")
}

/// The re-import of a catalog version: only for versions with a credentials path and
/// complete SCM coordinates.
pub fn sync_import_request(
    credentials_path: Option<&str>,
    scm_repository: &Option<String>,
    scm_ref: &Option<String>,
    scm_path: &Option<String>,
) -> (r: Option<ImportCatalogWorkflowGitRequest>)
    ensures
        ({
            let cred = match credentials_path {
                Some(c) => c@,
                None => Seq::<char>::empty(),
            };
            match (opt_view(*scm_repository), opt_view(*scm_ref), opt_view(*scm_path)) {
                (Some(repo), Some(rf), Some(p)) => if cred.len() > 0 {
                    r matches Some(q) && q.repository@ == repo && q.git_ref@ == rf
                        && q.workflow_path@ == p && q.credentials_path@ == cred
                } else {
                    r is None
                },
                _ => r is None,
            }
        }),
{
    let cred: &str = match credentials_path {
        Some(c) => c,
        None => "",
    };
    proof {
        reveal_strlit("");
    }
    if cred.is_empty() {
        return None;
    }
    match (scm_repository, scm_ref, scm_path) {
        (Some(repo), Some(rf), Some(p)) => Some(
            ImportCatalogWorkflowGitRequest {
                repository: owned(repo.as_str()),
                git_ref: owned(rf.as_str()),
                workflow_path: owned(p.as_str()),
                credentials_path: owned(cred),
            },
        ),
        _ => None,
    }
}

/// Who a re-import acts as: the original submitter, else the nil user.
pub fn sync_actor(submitted_by: Option<u128>) -> (r: u128)
    ensures
        r == match submitted_by {
            Some(u) => u,
            None => 0,
        },
{
    match submitted_by {
        Some(u) => u,
        None => 0,
    }
}

/// A catalog workflow id in a path must be a UUID; its value is returned.
pub fn parse_workflow_id(text: &str) -> (r: Result<u128, ApiError>)
    ensures
        match uuid_value(text@) {
            Some(v) => r == Ok::<u128, ApiError>(v),
            None => r matches Err(e) && e.is(ErrorKind::BadRequest, "invalid workflow ID"@),
        },
{
    match parse_uuid(text) {
        Some(v) => Ok(v),
        None => Err(ApiError::bad_request("invalid workflow ID")),
    }
}

/// A project workflow needs a name and a version.
pub fn check_new_project_workflow(name: &str, version: &str) -> (r: Result<(), ApiError>)
    ensures
        name@.len() == 0 ==> (r matches Err(e) && e.is(ErrorKind::BadRequest, "name is required"@)),
        (name@.len() > 0 && version@.len() == 0) ==> (r matches Err(e) && e.is(
            ErrorKind::BadRequest,
            "version is required"@,
        )),
        (name@.len() > 0 && version@.len() > 0) ==> r is Ok,
{
    if name.is_empty() {
        return Err(ApiError::bad_request("name is required"));
    }
    if version.is_empty() {
        return Err(ApiError::bad_request("version is required"));
    }
    Ok(())
}

/// Catalog version listings start from a global catalog row.
pub fn check_global_catalog_row(is_global: bool) -> (r: Result<(), ApiError>)
    ensures
        r is Ok <==> is_global,
        r matches Err(e) ==> e.is(ErrorKind::BadRequest, "not a global catalog workflow row"@),
{
    if !is_global {
        return Err(ApiError::bad_request("not a global catalog workflow row"));
    }
    Ok(())
}

} // verus!
