//! Stored secrets: where a new secret is recorded, who may change an existing one, which
//! versions a listing reads, and the latest version of each secret in a listing; and the
//! fields a reference to an externally held secret needs.
use vstd::prelude::*;
use crate::access::{user_may_manage_org_stored_secrets, CurrentUser};
use crate::error::{ApiError, ErrorKind};
use crate::ordering::{lemma_lt_asymmetric, lemma_lt_transitive, seq_lt, str_lt};
use crate::text::{eq_ascii_ci, eq_ignore_ascii_case, owned, str_eq, trim, trim_str};
use crate::webhook_payloads::{clone_opt, opt_view};

verus! {

/// An operation on an existing stored secret row.
#[derive(Clone, Copy, PartialEq, Eq, Structural)]
pub enum SecretRowAction {
    Rotate,
    Delete,
    Activate,
    Purge,
}

/// What a caller without `org:admin` (or `*`) is told when the row is organization-wide.
pub open spec fn org_wide_denial(action: SecretRowAction) -> Seq<char> {
    match action {
        SecretRowAction::Rotate => "rotating org-wide secrets requires org:admin (or *) permission"@,
        SecretRowAction::Delete => "deleting org-wide secrets requires org:admin (or *) permission"@,
        SecretRowAction::Activate => "org-wide secret rollback requires org:admin (or *) permission"@,
        SecretRowAction::Purge => "purging org-wide secrets requires org:admin (or *) permission"@,
    }
}

fn org_wide_denial_message(action: SecretRowAction) -> (m: &'static str)
    ensures
        m@ == org_wide_denial(action),
{
    proof {
        reveal_strlit("rotating org-wide secrets requires org:admin (or *) permission");
        reveal_strlit("deleting org-wide secrets requires org:admin (or *) permission");
        reveal_strlit("org-wide secret rollback requires org:admin (or *) permission");
        reveal_strlit("purging org-wide secrets requires org:admin (or *) permission");
    }
    match action {
        SecretRowAction::Rotate => "rotating org-wide secrets requires org:admin (or *) permission",
        SecretRowAction::Delete => "deleting org-wide secrets requires org:admin (or *) permission",
        SecretRowAction::Activate => "org-wide secret rollback requires org:admin (or *) permission",
        SecretRowAction::Purge => "purging org-wide secrets requires org:admin (or *) permission",
    }
}

/// Who may rotate, delete, roll back to or purge a stored secret row: for a project row,
/// callers with access to its project (`project_access` is that answer); for an
/// organization-wide row, holders of `org:admin` or `*`; and in either case only within
/// the row's own organization.
pub fn check_stored_secret_row_access(
    action: SecretRowAction,
    row_project_id: &Option<String>,
    project_access: bool,
    row_org_id: &str,
    user: &CurrentUser,
) -> (r: Result<(), ApiError>)
    ensures
        (row_project_id is Some && !project_access) ==> (r matches Err(e) && e.is(
            ErrorKind::Forbidden,
            "no access to this project"@,
        )),
        (row_project_id is None && !(user.holds("*"@) || user.holds("org:admin"@))) ==> (
        r matches Err(e) && e.is(ErrorKind::Forbidden, org_wide_denial(action))),
        (if row_project_id is Some {
            project_access
        } else {
            user.holds("*"@) || user.holds("org:admin"@)
        }) ==> (if row_org_id@ == user.org_id@ {
            r is Ok
        } else {
            r matches Err(e) && e.is(ErrorKind::Forbidden, "wrong organization"@)
        }),
{
    match row_project_id {
        Some(_) => {
            if !project_access {
                return Err(ApiError::forbidden("no access to this project"));
            }
        },
        None => {
            if !user_may_manage_org_stored_secrets(user) {
                return Err(ApiError::forbidden(org_wide_denial_message(action)));
            }
        },
    }
    if !str_eq(row_org_id, user.org_id.as_str()) {
        return Err(ApiError::forbidden("wrong organization"));
    }
    Ok(())
}

/// The scope whose versions a version listing reads: no project and no pipeline for an
/// organization-wide listing, else the project and the optional pipeline.
pub struct SecretVersionScope {
    pub path: String,
    pub project_id: Option<String>,
    pub pipeline_id: Option<String>,
}

/// Checks a version listing of `path` in `project_id`: the path must not be blank (it is
/// used trimmed), an organization-wide listing cannot name a pipeline, and a named pipeline
/// (whose project is `pipeline_project_id`, read by the caller) must belong to the project.
pub fn secret_version_scope(
    path: &str,
    organization_wide: bool,
    pipeline_id: &Option<String>,
    pipeline_project_id: &Option<String>,
    project_id: &str,
) -> (r: Result<SecretVersionScope, ApiError>)
    requires
        (!organization_wide && pipeline_id is Some) ==> pipeline_project_id is Some,
    ensures
        trim(path@).len() == 0 ==> (r matches Err(e) && e.is(
            ErrorKind::BadRequest,
            "path is required"@,
        )),
        (trim(path@).len() > 0 && organization_wide && pipeline_id is Some) ==> (r matches Err(e)
            && e.is(ErrorKind::BadRequest, "organization_wide conflicts with pipeline_id"@)),
        (trim(path@).len() > 0 && organization_wide && pipeline_id is None) ==> (r matches Ok(s)
            && s.path@ == trim(path@) && s.project_id is None && s.pipeline_id is None),
        (trim(path@).len() > 0 && !organization_wide && pipeline_id is Some) ==> (
        match pipeline_project_id {
            Some(pp) => if pp@ == project_id@ {
                r matches Ok(s) && s.path@ == trim(path@) && opt_view(s.project_id) == Some(
                    project_id@,
                ) && opt_view(s.pipeline_id) == opt_view(*pipeline_id)
            } else {
                r matches Err(e) && e.is(
                    ErrorKind::BadRequest,
                    "pipeline does not belong to project"@,
                )
            },
            None => true,
        }),
        (trim(path@).len() > 0 && !organization_wide && pipeline_id is None) ==> (r matches Ok(s)
            && s.path@ == trim(path@) && opt_view(s.project_id) == Some(project_id@)
            && s.pipeline_id is None),
{
    let p = trim_str(path);
    if p.is_empty() {
        return Err(ApiError::bad_request("path is required"));
    }
    if organization_wide {
        if pipeline_id.is_some() {
            return Err(ApiError::bad_request("organization_wide conflicts with pipeline_id"));
        }
        return Ok(SecretVersionScope { path: owned(p), project_id: None, pipeline_id: None });
    }
    if pipeline_id.is_some() {
        if let Some(pp) = pipeline_project_id {
            if !str_eq(pp.as_str(), project_id) {
                return Err(ApiError::bad_request("pipeline does not belong to project"));
            }
        }
    }
    Ok(
        SecretVersionScope {
            path: owned(p),
            project_id: Some(owned(project_id)),
            pipeline_id: clone_opt(pipeline_id),
        },
    )
}

/// A secret reference names the secret, the provider holding it and its key there.
pub fn check_secret_reference(name: &str, provider: &str, provider_key: &str) -> (r: Result<
    (),
    ApiError,
>)
    ensures
        name@.len() == 0 ==> (r matches Err(e) && e.is(ErrorKind::BadRequest, "name is required"@)),
        (name@.len() > 0 && provider@.len() == 0) ==> (r matches Err(e) && e.is(
            ErrorKind::BadRequest,
            "provider is required"@,
        )),
        (name@.len() > 0 && provider@.len() > 0 && provider_key@.len() == 0) ==> (r matches Err(e)
            && e.is(ErrorKind::BadRequest, "provider_key is required"@)),
        (name@.len() > 0 && provider@.len() > 0 && provider_key@.len() > 0) ==> r is Ok,
{
    if name.is_empty() {
        return Err(ApiError::bad_request("name is required"));
    }
    if provider.is_empty() {
        return Err(ApiError::bad_request("provider is required"));
    }
    if provider_key.is_empty() {
        return Err(ApiError::bad_request("provider_key is required"));
    }
    Ok(())
}

/// A new secret needs a non-blank path and a non-empty value.
pub fn check_stored_secret_input(path: &str, value: &str) -> (r: Result<(), ApiError>)
    ensures
        trim(path@).len() == 0 ==> (r matches Err(e) && e.is(
            ErrorKind::BadRequest,
            "path is required"@,
        )),
        (trim(path@).len() > 0 && value@.len() == 0) ==> (r matches Err(e) && e.is(
            ErrorKind::BadRequest,
            "value is required"@,
        )),
        (trim(path@).len() > 0 && value@.len() > 0) ==> r is Ok,
{
    if trim_str(path).is_empty() {
        return Err(ApiError::bad_request("path is required"));
    }
    if value.is_empty() {
        return Err(ApiError::bad_request("value is required"));
    }
    Ok(())
}

/// Where a new secret is recorded.
pub struct StoredSecretPlacement {
    /// Organization-wide (no project or pipeline).
    pub org_wide: bool,
    pub project_id: Option<String>,
    pub pipeline_id: Option<String>,
    /// Whether an organization-wide secret is offered to projects.
    pub propagate_to_projects: bool,
}

/// The request asks for an organization-wide secret (`scope` is `organization`, in any
/// ASCII case).
pub open spec fn org_wide_requested(scope: Option<Seq<char>>) -> bool {
    match scope {
        Some(s) => eq_ascii_ci(s, "organization"@),
        None => false,
    }
}

/// Placement of a secret created in `project_id`: an organization-wide secret needs
/// `org:admin` (or `*`), cannot name a pipeline, and is offered to projects unless asked
/// otherwise; a project secret, optionally for one pipeline, cannot opt out of
/// propagation.
pub fn stored_secret_placement(
    scope: Option<&str>,
    pipeline_id: &Option<String>,
    propagate_to_projects: Option<bool>,
    user: &CurrentUser,
    project_id: &str,
) -> (r: Result<StoredSecretPlacement, ApiError>)
    ensures
        ({
            let org = org_wide_requested(
                match scope {
                    Some(s) => Some(s@),
                    None => None,
                },
            );
            &&& (org && !(user.holds("*"@) || user.holds("org:admin"@))) ==> (r matches Err(e)
                && e.is(
                ErrorKind::Forbidden,
                "org-wide stored secrets require org:admin (or *) permission"@,
            ))
            &&& (org && (user.holds("*"@) || user.holds("org:admin"@)) && pipeline_id is Some)
                ==> (r matches Err(e) && e.is(
                ErrorKind::BadRequest,
                "organization-scoped secrets cannot be pipeline-scoped"@,
            ))
            &&& (org && (user.holds("*"@) || user.holds("org:admin"@)) && pipeline_id is None)
                ==> (r matches Ok(p) && p.org_wide && p.project_id is None && p.pipeline_id is None
                && p.propagate_to_projects == match propagate_to_projects {
                Some(b) => b,
                None => true,
            })
            &&& (!org && propagate_to_projects == Some(false)) ==> (r matches Err(e) && e.is(
                ErrorKind::BadRequest,
                "propagate_to_projects may only be set when scope is organization"@,
            ))
            &&& (!org && propagate_to_projects != Some(false)) ==> (r matches Ok(p) && !p.org_wide
                && opt_view(p.project_id) == Some(project_id@) && opt_view(p.pipeline_id)
                == opt_view(*pipeline_id) && p.propagate_to_projects)
        }),
{
    let org_wide = match scope {
        Some(s) => eq_ignore_ascii_case(s, "organization"),
        None => false,
    };
    if org_wide {
        if !user_may_manage_org_stored_secrets(user) {
            return Err(
                ApiError::forbidden("org-wide stored secrets require org:admin (or *) permission"),
            );
        }
        if pipeline_id.is_some() {
            return Err(ApiError::bad_request("organization-scoped secrets cannot be pipeline-scoped"));
        }
        let propagate = match propagate_to_projects {
            Some(b) => b,
            None => true,
        };
        Ok(
            StoredSecretPlacement {
                org_wide: true,
                project_id: None,
                pipeline_id: None,
                propagate_to_projects: propagate,
            },
        )
    } else {
        if propagate_to_projects == Some(false) {
            return Err(
                ApiError::bad_request(
                    "propagate_to_projects may only be set when scope is organization",
                ),
            );
        }
        Ok(
            StoredSecretPlacement {
                org_wide: false,
                project_id: Some(owned(project_id)),
                pipeline_id: clone_opt(pipeline_id),
                propagate_to_projects: true,
            },
        )
    }
}

/// Metadata of one stored secret version.
pub struct BuiltinSecretMetaRow {
    pub id: String,
    pub project_id: Option<String>,
    pub pipeline_id: Option<String>,
    pub path: String,
    pub kind: String,
    pub version: i32,
    pub description: Option<String>,
    pub propagate_to_projects: bool,
}

/// What identifies a secret across its versions: path, project and pipeline.
pub open spec fn secret_key(r: BuiltinSecretMetaRow) -> (Seq<char>, Option<Seq<char>>, Option<
    Seq<char>,
>) {
    (r.path@, opt_view(r.project_id), opt_view(r.pipeline_id))
}

/// Index of the version of `key` that a listing shows: the highest version, the first one
/// listed among equal versions.
pub open spec fn latest_index(
    rows: Seq<BuiltinSecretMetaRow>,
    key: (Seq<char>, Option<Seq<char>>, Option<Seq<char>>),
) -> int
    decreases rows.len(),
{
    if rows.len() == 0 {
        -1
    } else {
        let i = latest_index(rows.drop_last(), key);
        let last = rows.len() - 1;
        if secret_key(rows[last]) == key && (i < 0 || rows[last].version > rows[i].version) {
            last
        } else {
            i
        }
    }
}

pub open spec fn row_keys(rows: Seq<BuiltinSecretMetaRow>) -> Seq<
    (Seq<char>, Option<Seq<char>>, Option<Seq<char>>),
> {
    rows.map_values(|r: BuiltinSecretMetaRow| secret_key(r))
}

/// A listing shows, for each secret, its latest version (see [`latest_index`]), each secret
/// once, ordered by path.
pub open spec fn latest_listing(r: Seq<BuiltinSecretMetaRow>, rows: Seq<BuiltinSecretMetaRow>) -> bool {
    &&& row_keys(r).no_duplicates()
    &&& row_keys(r).to_set() == row_keys(rows).to_set()
    &&& forall|k: int| 0 <= k < r.len() ==> #[trigger] r[k] == rows[latest_index(rows, secret_key(r[k]))]
    &&& forall|a: int, b: int| 0 <= a < b < r.len() ==> !seq_lt(#[trigger] r[b].path@, #[trigger] r[a].path@)
}

proof fn lemma_latest_index_bounds(rows: Seq<BuiltinSecretMetaRow>, key: (Seq<char>, Option<Seq<char>>, Option<Seq<char>>))
    ensures
        -1 <= latest_index(rows, key) < rows.len(),
        latest_index(rows, key) >= 0 ==> secret_key(rows[latest_index(rows, key)]) == key,
        latest_index(rows, key) < 0 <==> !row_keys(rows).contains(key),
    decreases rows.len(),
{
    if rows.len() > 0 {
        let p = rows.drop_last();
        lemma_latest_index_bounds(p, key);
        let i = latest_index(p, key);
        if i >= 0 {
            assert(p[i] == rows[i]);
        }
        if row_keys(p).contains(key) {
            let m = choose|m: int| 0 <= m < row_keys(p).len() && row_keys(p)[m] == key;
            assert(row_keys(rows)[m] == row_keys(p)[m]);
        }
        if row_keys(rows).contains(key) {
            let m = choose|m: int| 0 <= m < row_keys(rows).len() && row_keys(rows)[m] == key;
            if m < p.len() {
                assert(row_keys(p)[m] == row_keys(rows)[m]);
            } else {
                assert(row_keys(rows)[m] == secret_key(rows[m]));
            }
        }
        assert(row_keys(rows)[rows.len() - 1] == secret_key(rows[rows.len() - 1]));
    }
}

fn opt_str_eq(a: &Option<String>, b: &Option<String>) -> (r: bool)
    ensures
        r == (opt_view(*a) == opt_view(*b)),
{
    match (a, b) {
        (Some(x), Some(y)) => str_eq(x.as_str(), y.as_str()),
        (None, None) => true,
        _ => false,
    }
}

fn same_secret(a: &BuiltinSecretMetaRow, b: &BuiltinSecretMetaRow) -> (r: bool)
    ensures
        r == (secret_key(*a) == secret_key(*b)),
{
    str_eq(a.path.as_str(), b.path.as_str()) && opt_str_eq(&a.project_id, &b.project_id)
        && opt_str_eq(&a.pipeline_id, &b.pipeline_id)
}

/// The latest version of each secret, ordered by path (secrets with the same path keep the
/// order in which they were first listed).
pub fn dedupe_latest(rows: Vec<BuiltinSecretMetaRow>) -> (r: Vec<BuiltinSecretMetaRow>)
    ensures
        latest_listing(r@, rows@),
{
    let ghost all = rows@;
    let total = rows.len();
    let mut rest = rows;
    let mut best: Vec<BuiltinSecretMetaRow> = Vec::new();
    let mut n: usize = 0;
    // Pass 1: one row per secret, the latest seen so far.
    while rest.len() > 0
        invariant
            n <= all.len(),
            all.len() == total,
            rest@ == all.subrange(n as int, all.len() as int),
            row_keys(best@).no_duplicates(),
            row_keys(best@).to_set() == row_keys(all.take(n as int)).to_set(),
            forall|k: int|
                0 <= k < best@.len() ==> #[trigger] best@[k] == all.take(n as int)[latest_index(
                    all.take(n as int),
                    secret_key(best@[k]),
                )],
        decreases rest.len(),
    {
        let row = rest.remove(0);
        let ghost pre = all.take(n as int);
        let ghost nxt = all.take(n + 1);
        assert(row == all[n as int]);
        assert(nxt =~= pre.push(row));
        assert(nxt.drop_last() =~= pre);
        assert(rest@ =~= all.subrange(n + 1, all.len() as int));
        let ghost key = secret_key(row);
        let ghost b0 = best@;
        proof {
            assert(row_keys(nxt) =~= row_keys(pre).push(key));
            assert forall|k: (Seq<char>, Option<Seq<char>>, Option<Seq<char>>)| #[trigger] latest_index(nxt, k)
                == (if k == key && (latest_index(pre, k) < 0 || row.version > pre[latest_index(pre, k)].version) {
                    n as int
                } else {
                    latest_index(pre, k)
                }) by {
                lemma_latest_index_bounds(pre, k);
                if latest_index(pre, k) >= 0 {
                    assert(nxt[latest_index(pre, k)] == pre[latest_index(pre, k)]);
                }
            }
        }
        let mut j: usize = 0;
        while j < best.len() && !same_secret(&best[j], &row)
            invariant
                j <= best@.len(),
                best@ == b0,
                forall|m: int| 0 <= m < j ==> #[trigger] row_keys(b0)[m] != key,
                key == secret_key(row),
            decreases best.len() - j,
        {
            assert(row_keys(b0)[j as int] == secret_key(b0[j as int]));
            j = j + 1;
        }
        if j < best.len() {
            proof {
                assert(row_keys(b0)[j as int] == key);
                assert(row_keys(b0).to_set().contains(key));
                assert(row_keys(pre).to_set().contains(key));
                lemma_latest_index_bounds(pre, key);
            }
            if row.version > best[j].version {
                let _old = best.remove(j);
                best.insert(j, row);
                proof {
                    assert(best@ =~= b0.update(j as int, row));
                }
            } else {
                proof {
                    assert(best@ == b0);
                }
            }
            proof {
                assert(row_keys(best@) =~= row_keys(b0));
                assert(row_keys(nxt).to_set() =~= row_keys(pre).to_set()) by {
                    assert forall|x| row_keys(nxt).to_set().contains(x) implies row_keys(pre).to_set().contains(x) by {
                        let m = choose|m: int| 0 <= m < row_keys(nxt).len() && row_keys(nxt)[m] == x;
                        if m < pre.len() {
                            assert(row_keys(pre)[m] == x);
                        }
                    }
                    assert forall|x| row_keys(pre).to_set().contains(x) implies row_keys(nxt).to_set().contains(x) by {
                        let m = choose|m: int| 0 <= m < row_keys(pre).len() && row_keys(pre)[m] == x;
                        assert(row_keys(nxt)[m] == x);
                    }
                }
                assert forall|k: int| 0 <= k < best@.len() implies #[trigger] best@[k] == nxt[latest_index(
                    nxt,
                    secret_key(best@[k]),
                )] by {
                    let kk = secret_key(best@[k]);
                    lemma_latest_index_bounds(pre, kk);
                    if k != j {
                        assert(best@[k] == b0[k]);
                        assert(row_keys(b0)[k] == kk);
                        assert(row_keys(b0)[j as int] == key);
                        if kk == key {
                            assert(false);
                        }
                        assert(row_keys(b0).to_set().contains(kk));
                        assert(row_keys(pre).to_set().contains(kk));
                        assert(nxt[latest_index(pre, kk)] == pre[latest_index(pre, kk)]);
                    } else {
                        assert(row_keys(b0)[j as int] == secret_key(b0[j as int]));
                        assert(b0[j as int] == pre[latest_index(pre, key)]);
                        assert(nxt[latest_index(pre, key)] == pre[latest_index(pre, key)]);
                    }
                }
            }
        } else {
            best.push(row);
            proof {
                assert(!row_keys(b0).contains(key)) by {
                    if row_keys(b0).contains(key) {
                        let m = choose|m: int| 0 <= m < row_keys(b0).len() && row_keys(b0)[m] == key;
                        assert(false);
                    }
                }
                assert(!row_keys(b0).to_set().contains(key));
                assert(!row_keys(pre).contains(key));
                lemma_latest_index_bounds(pre, key);
                assert(row_keys(best@) =~= row_keys(b0).push(key));
                assert forall|a: int, c: int|
                    0 <= a < row_keys(best@).len() && 0 <= c < row_keys(best@).len() && a != c implies row_keys(
                    best@,
                )[a] != row_keys(best@)[c] by {
                    if a < b0.len() && c < b0.len() {
                        assert(row_keys(best@)[a] == row_keys(b0)[a]);
                        assert(row_keys(best@)[c] == row_keys(b0)[c]);
                    } else if a < b0.len() {
                        assert(row_keys(best@)[a] == row_keys(b0)[a]);
                        assert(row_keys(b0).contains(row_keys(b0)[a]));
                    } else {
                        assert(row_keys(best@)[c] == row_keys(b0)[c]);
                        assert(row_keys(b0).contains(row_keys(b0)[c]));
                    }
                }
                assert(row_keys(best@).to_set() =~= row_keys(nxt).to_set()) by {
                    assert forall|x| row_keys(best@).to_set().contains(x) implies row_keys(nxt).to_set().contains(x) by {
                        let m = choose|m: int| 0 <= m < row_keys(best@).len() && row_keys(best@)[m] == x;
                        if m < b0.len() {
                            assert(row_keys(b0)[m] == x);
                            assert(row_keys(b0).to_set().contains(x));
                            let q = choose|q: int| 0 <= q < row_keys(pre).len() && row_keys(pre)[q] == x;
                            assert(row_keys(nxt)[q] == x);
                        } else {
                            assert(row_keys(nxt)[n as int] == x);
                        }
                    }
                    assert forall|x| row_keys(nxt).to_set().contains(x) implies row_keys(best@).to_set().contains(x) by {
                        let m = choose|m: int| 0 <= m < row_keys(nxt).len() && row_keys(nxt)[m] == x;
                        if m < pre.len() {
                            assert(row_keys(pre)[m] == x);
                            assert(row_keys(pre).to_set().contains(x));
                            let q = choose|q: int| 0 <= q < row_keys(b0).len() && row_keys(b0)[q] == x;
                            assert(row_keys(best@)[q] == x);
                        } else {
                            assert(row_keys(best@)[b0.len() as int] == x);
                        }
                    }
                }
                assert forall|k: int| 0 <= k < best@.len() implies #[trigger] best@[k] == nxt[latest_index(
                    nxt,
                    secret_key(best@[k]),
                )] by {
                    let kk = secret_key(best@[k]);
                    if k < b0.len() {
                        assert(best@[k] == b0[k]);
                        assert(row_keys(b0)[k] == kk);
                        if kk == key {
                            assert(row_keys(b0).contains(key));
                        }
                        assert(row_keys(b0).to_set().contains(kk));
                        assert(row_keys(pre).to_set().contains(kk));
                        lemma_latest_index_bounds(pre, kk);
                        assert(nxt[latest_index(pre, kk)] == pre[latest_index(pre, kk)]);
                    } else {
                        assert(best@[k] == row);
                    }
                }
            }
        }
        n = n + 1;
    }
    assert(all.take(n as int) =~= all);
    // Pass 2: stable insertion by path.
    let ghost b = best@;
    let total2 = best.len();
    let mut out: Vec<BuiltinSecretMetaRow> = Vec::new();
    let mut m: usize = 0;
    while best.len() > 0
        invariant
            m <= b.len(),
            b.len() == total2,
            best@ == b.subrange(m as int, b.len() as int),
            row_keys(b).no_duplicates(),
            row_keys(out@).no_duplicates(),
            row_keys(out@).to_set() == row_keys(b.take(m as int)).to_set(),
            forall|k: int| 0 <= k < out@.len() ==> b.contains(#[trigger] out@[k]),
            forall|a: int, c: int| 0 <= a < c < out@.len() ==> !seq_lt(#[trigger] out@[c].path@, #[trigger] out@[a].path@),
        decreases best.len(),
    {
        let row = best.remove(0);
        assert(row == b[m as int]);
        assert(best@ =~= b.subrange(m + 1, b.len() as int));
        let ghost o0 = out@;
        let mut j: usize = 0;
        while j < out.len() && !str_lt(row.path.as_str(), out[j].path.as_str())
            invariant
                j <= out@.len(),
                out@ == o0,
                forall|q: int| 0 <= q < j ==> !seq_lt(row.path@, #[trigger] o0[q].path@),
            decreases out.len() - j,
        {
            j = j + 1;
        }
        out.insert(j, row);
        proof {
            let o1 = out@;
            assert(o1 =~= o0.insert(j as int, row));
            let key = secret_key(row);
            assert(row_keys(b)[m as int] == key);
            assert(b.take(m + 1) =~= b.take(m as int).push(row));
            assert(!row_keys(o0).to_set().contains(key)) by {
                if row_keys(o0).to_set().contains(key) {
                    assert(row_keys(b.take(m as int)).to_set().contains(key));
                    let q = choose|q: int| 0 <= q < row_keys(b.take(m as int)).len() && row_keys(b.take(m as int))[q] == key;
                    assert(row_keys(b)[q] == row_keys(b.take(m as int))[q]);
                }
            }
            assert(row_keys(o1) =~= row_keys(o0).insert(j as int, key));
            assert forall|a: int, c: int|
                0 <= a < row_keys(o1).len() && 0 <= c < row_keys(o1).len() && a != c implies row_keys(
                o1,
            )[a] != row_keys(o1)[c] by {
                let ko = row_keys(o0);
                let k1 = row_keys(o1);
                if a == j as int {
                    let cc = if c < j { c } else { c - 1 };
                    assert(k1[c] == ko[cc]);
                    assert(ko.to_set().contains(ko[cc]));
                } else if c == j as int {
                    let aa = if a < j { a } else { a - 1 };
                    assert(k1[a] == ko[aa]);
                    assert(ko.to_set().contains(ko[aa]));
                } else {
                    let aa = if a < j { a } else { a - 1 };
                    let cc = if c < j { c } else { c - 1 };
                    assert(k1[a] == ko[aa] && k1[c] == ko[cc]);
                }
            }
            assert(row_keys(o1).to_set() =~= row_keys(b.take(m + 1)).to_set()) by {
                let ko = row_keys(o0);
                let k1 = row_keys(o1);
                let bp = row_keys(b.take(m as int));
                let bn = row_keys(b.take(m + 1));
                assert(bn =~= bp.push(key));
                assert forall|x| k1.to_set().contains(x) implies bn.to_set().contains(x) by {
                    let q = choose|q: int| 0 <= q < k1.len() && k1[q] == x;
                    if q == j as int {
                        assert(bn[m as int] == x);
                    } else {
                        let qq = if q < j { q } else { q - 1 };
                        assert(ko[qq] == x);
                        assert(ko.to_set().contains(x));
                        let z = choose|z: int| 0 <= z < bp.len() && bp[z] == x;
                        assert(bn[z] == x);
                    }
                }
                assert forall|x| bn.to_set().contains(x) implies k1.to_set().contains(x) by {
                    let q = choose|q: int| 0 <= q < bn.len() && bn[q] == x;
                    if q == m as int {
                        assert(k1[j as int] == x);
                    } else {
                        assert(bp[q] == x);
                        assert(bp.to_set().contains(x));
                        let z = choose|z: int| 0 <= z < ko.len() && ko[z] == x;
                        if z < j {
                            assert(k1[z] == x);
                        } else {
                            assert(k1[z + 1] == x);
                        }
                    }
                }
            }
            assert forall|k: int| 0 <= k < o1.len() implies b.contains(#[trigger] o1[k]) by {
                if k == j as int {
                    assert(b[m as int] == o1[k]);
                } else if k < j {
                    assert(o1[k] == o0[k]);
                } else {
                    assert(o1[k] == o0[k - 1]);
                }
            }
            assert forall|a: int, c: int| 0 <= a < c < o1.len() implies !seq_lt(
                #[trigger] o1[c].path@,
                #[trigger] o1[a].path@,
            ) by {
                if c < j {
                    assert(o1[a] == o0[a] && o1[c] == o0[c]);
                } else if c == j as int {
                    assert(o1[a] == o0[a]);
                } else if a < j {
                    assert(o1[a] == o0[a] && o1[c] == o0[c - 1]);
                } else if a == j as int {
                    assert(o1[c] == o0[c - 1]);
                    if j < o0.len() {
                        assert(seq_lt(row.path@, o0[j as int].path@));
                        if c - 1 > j {
                            assert(!seq_lt(o0[c - 1].path@, o0[j as int].path@));
                        }
                        if seq_lt(o0[c - 1].path@, row.path@) {
                            if c - 1 == j as int {
                                lemma_lt_asymmetric(row.path@, o0[j as int].path@);
                            } else {
                                lemma_lt_transitive(o0[c - 1].path@, row.path@, o0[j as int].path@);
                            }
                        }
                    }
                } else {
                    assert(o1[a] == o0[a - 1] && o1[c] == o0[c - 1]);
                }
            }
        }
        m = m + 1;
    }
    proof {
        assert(b.take(m as int) =~= b);
        assert forall|k: int| 0 <= k < out@.len() implies #[trigger] out@[k] == all[latest_index(
            all,
            secret_key(out@[k]),
        )] by {
            assert(b.contains(out@[k]));
            let q = choose|q: int| 0 <= q < b.len() && b[q] == out@[k];
            assert(b[q] == all.take(all.len() as int)[latest_index(all.take(all.len() as int), secret_key(b[q]))]);
        }
    }
    out
}

} // verus!
