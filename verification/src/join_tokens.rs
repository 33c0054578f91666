//! Agent join tokens: their scopes, how a request places a new token, and how a stored
//! token is shown.
use vstd::prelude::*;
use crate::error::{ApiError, ErrorKind};
use crate::text::{copy_strings, 
    lemma_utf8_len_push, owned, str_eq, trim, trim_str, utf8_len, utf8_width, utf8_width_of, views,
};
use crate::dto_admin::{JoinTokenDescriptionHistoryEntry, JoinTokenResponse};
use crate::webhook_payloads::{clone_opt, opt_view};

verus! {

/// What an agent joining with the token may serve.
#[derive(Debug, Clone, Copy, PartialEq, Eq, Structural)]
pub enum JoinTokenScope {
    Platform,
    Tenant,
    Project,
    Pipeline,
}

/// Name of a scope in requests and responses.
pub open spec fn scope_name(s: JoinTokenScope) -> Seq<char> {
    match s {
        JoinTokenScope::Platform => "platform"@,
        JoinTokenScope::Tenant => "tenant"@,
        JoinTokenScope::Project => "project"@,
        JoinTokenScope::Pipeline => "pipeline"@,
    }
}

pub fn join_token_scope_str(scope: JoinTokenScope) -> (r: &'static str)
    ensures
        r@ == scope_name(scope),
{
    match scope {
        JoinTokenScope::Platform => "platform",
        JoinTokenScope::Tenant => "tenant",
        JoinTokenScope::Project => "project",
        JoinTokenScope::Pipeline => "pipeline",
    }
}

/// Scope a creation request asks for: its `scope` (`tenant` when absent), by name.
pub fn parse_join_token_scope(scope: Option<&str>) -> (r: Result<JoinTokenScope, ApiError>)
    ensures
        forall|s: JoinTokenScope|
            #![trigger scope_name(s)]
            scope_name(s) == (match scope {
                Some(x) => x@,
                None => "tenant"@,
            }) ==> r == Ok::<JoinTokenScope, ApiError>(s),
        (forall|s: JoinTokenScope|
            #![trigger scope_name(s)]
            scope_name(s) != (match scope {
                Some(x) => x@,
                None => "tenant"@,
            })) ==> (r matches Err(e) && e.is(
            ErrorKind::BadRequest,
            "invalid scope, must be: platform, tenant, project, or pipeline"@,
        )),
{
    proof {
        reveal_strlit("platform");
        reveal_strlit("tenant");
        reveal_strlit("project");
        reveal_strlit("pipeline");
        assert("platform"@[1] != "pipeline"@[1]);
        assert("platform"@[0] != "project"@[0] || "platform"@[1] != "project"@[1]);
        assert("project"@.len() != "pipeline"@.len());
        assert("tenant"@.len() != "platform"@.len());
        assert("tenant"@.len() != "project"@.len());
        assert("tenant"@.len() != "pipeline"@.len());
        assert(scope_name(JoinTokenScope::Platform) == "platform"@);
        assert(scope_name(JoinTokenScope::Tenant) == "tenant"@);
        assert(scope_name(JoinTokenScope::Project) == "project"@);
        assert(scope_name(JoinTokenScope::Pipeline) == "pipeline"@);
    }
    let s: &str = match scope {
        Some(x) => x,
        None => "tenant",
    };
    if str_eq(s, "platform") {
        Ok(JoinTokenScope::Platform)
    } else if str_eq(s, "tenant") {
        Ok(JoinTokenScope::Tenant)
    } else if str_eq(s, "project") {
        Ok(JoinTokenScope::Project)
    } else if str_eq(s, "pipeline") {
        Ok(JoinTokenScope::Pipeline)
    } else {
        proof {
            assert(scope_name(JoinTokenScope::Platform) != s@);
            assert(scope_name(JoinTokenScope::Tenant) != s@);
            assert(scope_name(JoinTokenScope::Project) != s@);
            assert(scope_name(JoinTokenScope::Pipeline) != s@);
        }
        Err(ApiError::bad_request("invalid scope, must be: platform, tenant, project, or pipeline"))
    }
}

/// A token needs a description: the trimmed text, which must not be blank.
pub fn join_token_description(description: &Option<String>) -> (r: Result<String, ApiError>)
    ensures
        ({
            let d = trim(
                match opt_view(*description) {
                    Some(t) => t,
                    None => Seq::empty(),
                },
            );
            &&& d.len() > 0 ==> (r matches Ok(s) && s@ == d)
            &&& d.len() == 0 ==> (r matches Err(e) && e.is(
                ErrorKind::BadRequest,
                "description is required"@,
            ))
        }),
{
    let raw: &str = match description {
        Some(t) => t.as_str(),
        None => "",
    };
    proof {
        reveal_strlit("");
    }
    let d = trim_str(raw);
    if d.is_empty() {
        return Err(ApiError::bad_request("description is required"));
    }
    Ok(owned(d))
}

/// Where a new token is recorded: the id it is scoped to and the organization column.
pub struct JoinTokenPlacement {
    pub scope_id: Option<String>,
    pub org_id: Option<String>,
}

/// Placement of an admin-created token: a platform token has no scope id; a tenant token is
/// scoped to (and recorded under) the admin's organization; project and pipeline tokens need
/// the requested `scope_id`.
pub fn place_join_token(scope: JoinTokenScope, admin_org_id: &str, requested_scope_id: &Option<
    String,
>) -> (r: Result<JoinTokenPlacement, ApiError>)
    ensures
        scope == JoinTokenScope::Platform ==> (r matches Ok(p) && p.scope_id is None
            && p.org_id is None),
        scope == JoinTokenScope::Tenant ==> (r matches Ok(p) && opt_view(p.scope_id) == Some(
            admin_org_id@,
        ) && opt_view(p.org_id) == Some(admin_org_id@)),
        (scope == JoinTokenScope::Project || scope == JoinTokenScope::Pipeline) ==> match opt_view(
            *requested_scope_id,
        ) {
            Some(id) => r matches Ok(p) && opt_view(p.scope_id) == Some(id) && p.org_id is None,
            None => r matches Err(e) && e.is(
                ErrorKind::BadRequest,
                "scope_id is required for project and pipeline scopes"@,
            ),
        },
{
    match scope {
        JoinTokenScope::Platform => Ok(JoinTokenPlacement { scope_id: None, org_id: None }),
        JoinTokenScope::Tenant => Ok(
            JoinTokenPlacement {
                scope_id: Some(owned(admin_org_id)),
                org_id: Some(owned(admin_org_id)),
            },
        ),
        JoinTokenScope::Project | JoinTokenScope::Pipeline => match requested_scope_id {
            Some(id) => Ok(JoinTokenPlacement { scope_id: Some(owned(id.as_str())), org_id: None }),
            None => Err(
                ApiError::bad_request("scope_id is required for project and pipeline scopes"),
            ),
        },
    }
}

/// The installation holds `*` or the permission `p`.
fn installation_grants(permissions: &Vec<String>, p: &str) -> (r: bool)
    ensures
        r == (views(permissions@).contains("*"@) || views(permissions@).contains(p@)),
{
    let mut i: usize = 0;
    while i < permissions.len()
        invariant
            i <= permissions@.len(),
            forall|j: int|
                0 <= j < i ==> #[trigger] permissions@[j]@ != "*"@ && permissions@[j]@ != p@,
        decreases permissions.len() - i,
    {
        if str_eq(permissions[i].as_str(), "*") || str_eq(permissions[i].as_str(), p) {
            proof {
                assert(views(permissions@)[i as int] == permissions@[i as int]@);
            }
            return true;
        }
        i = i + 1;
    }
    proof {
        assert forall|j: int| 0 <= j < views(permissions@).len() implies views(permissions@)[j]
            != "*"@ && views(permissions@)[j] != p@ by {
            assert(views(permissions@)[j] == permissions@[j]@);
        }
    }
    false
}

/// An app installation creates join tokens only when it holds `*` or `join_tokens:create`.
pub fn check_installation_may_create_join_tokens(permissions: &Vec<String>) -> (r: Result<
    (),
    ApiError,
>)
    ensures
        r is Ok <==> (views(permissions@).contains("*"@) || views(permissions@).contains(
            "join_tokens:create"@,
        )),
        r matches Err(e) ==> e.is(
            ErrorKind::Forbidden,
            "installation does not grant join_tokens:create"@,
        ),
{
    if !installation_grants(permissions, "join_tokens:create") {
        return Err(ApiError::forbidden("installation does not grant join_tokens:create"));
    }
    Ok(())
}

/// An app installation revokes join tokens only when it holds `*` or `join_tokens:revoke`.
pub fn check_installation_may_revoke_join_tokens(permissions: &Vec<String>) -> (r: Result<
    (),
    ApiError,
>)
    ensures
        r is Ok <==> (views(permissions@).contains("*"@) || views(permissions@).contains(
            "join_tokens:revoke"@,
        )),
        r matches Err(e) ==> e.is(
            ErrorKind::Forbidden,
            "installation does not grant join_tokens:revoke"@,
        ),
{
    if !installation_grants(permissions, "join_tokens:revoke") {
        return Err(ApiError::forbidden("installation does not grant join_tokens:revoke"));
    }
    Ok(())
}

/// An app installation deletes agents only when it holds `*` or `agents:delete`.
pub fn check_installation_may_delete_agents(permissions: &Vec<String>) -> (r: Result<
    (),
    ApiError,
>)
    ensures
        r is Ok <==> (views(permissions@).contains("*"@) || views(permissions@).contains(
            "agents:delete"@,
        )),
        r matches Err(e) ==> e.is(ErrorKind::Forbidden, "installation does not grant agents:delete"@),
{
    if !installation_grants(permissions, "agents:delete") {
        return Err(ApiError::forbidden("installation does not grant agents:delete"));
    }
    Ok(())
}

/// An installation revokes only project-scoped tokens of its own project.
pub fn check_token_in_installation_project(
    project_scoped: bool,
    scope_id: &Option<String>,
    installation_project_id: &str,
) -> (r: Result<(), ApiError>)
    ensures
        r is Ok <==> (project_scoped && opt_view(*scope_id) == Some(installation_project_id@)),
        r matches Err(e) ==> e.is(
            ErrorKind::Forbidden,
            "join token is not scoped to this installation project"@,
        ),
{
    let in_project = match scope_id {
        Some(id) => str_eq(id.as_str(), installation_project_id),
        None => false,
    };
    if !project_scoped || !in_project {
        return Err(ApiError::forbidden("join token is not scoped to this installation project"));
    }
    Ok(())
}

/// The Kubernetes pod UID of an agent cleanup request, trimmed; it must not be blank.
pub fn kubernetes_pod_uid(raw: &str) -> (r: Result<String, ApiError>)
    ensures
        trim(raw@).len() == 0 ==> (r matches Err(e) && e.is(
            ErrorKind::BadRequest,
            "kubernetes_pod_uid is required"@,
        )),
        trim(raw@).len() > 0 ==> (r matches Ok(u) && u@ == trim(raw@)),
{
    let t = trim_str(raw);
    if t.is_empty() {
        return Err(ApiError::bad_request("kubernetes_pod_uid is required"));
    }
    Ok(owned(t))
}

/// An installation deletes only agents of its project's organization.
pub fn check_agent_in_installation_org(agent_org_id: &str, org_id: &str) -> (r: Result<
    (),
    ApiError,
>)
    ensures
        r is Ok <==> agent_org_id@ == org_id@,
        r matches Err(e) ==> e.is(ErrorKind::Forbidden, "agent is outside this installation org"@),
{
    if !str_eq(agent_org_id, org_id) {
        return Err(ApiError::forbidden("agent is outside this installation org"));
    }
    Ok(())
}

/// An installation's tokens are project tokens for its own project: `scope` may only be
/// omitted or `project`, and a `scope_id` must be the installation's project.
pub fn check_integration_join_token_scope(
    scope: Option<&str>,
    scope_id: &Option<String>,
    installation_project_id: &str,
) -> (r: Result<(), ApiError>)
    ensures
        (match scope {
            Some(s) => s@ != "project"@,
            None => false,
        }) ==> (r matches Err(e) && e.is(
            ErrorKind::BadRequest,
            "integration join tokens must use project scope only (omit scope to use the installation project)"@,
        )),
        (match scope {
            Some(s) => s@ == "project"@,
            None => true,
        }) ==> match opt_view(*scope_id) {
            Some(id) => if id == installation_project_id@ {
                r is Ok
            } else {
                r matches Err(e) && e.is(
                    ErrorKind::Forbidden,
                    "scope_id must match the installation project"@,
                )
            },
            None => r is Ok,
        },
{
    if let Some(s) = scope {
        if !str_eq(s, "project") {
            return Err(
                ApiError::bad_request(
                    "integration join tokens must use project scope only (omit scope to use the installation project)",
                ),
            );
        }
    }
    if let Some(id) = scope_id {
        if !str_eq(id.as_str(), installation_project_id) {
            return Err(ApiError::forbidden("scope_id must match the installation project"));
        }
    }
    Ok(())
}

/// The longest prefix of `s` whose encoding fits in `n` bytes.
pub open spec fn prefix_within_bytes(s: Seq<char>, n: int) -> Seq<char>
    decreases s.len(),
{
    if s.len() == 0 || utf8_width(s[0]) > n {
        Seq::empty()
    } else {
        seq![s[0]] + prefix_within_bytes(s.drop_first(), n - utf8_width(s[0]))
    }
}

proof fn lemma_prefix_step(s: Seq<char>, k: int, n: int)
    requires
        0 <= k < s.len(),
        prefix_within_bytes(s, n) == s.take(k) + prefix_within_bytes(
            s.skip(k),
            n - utf8_len(s.take(k)),
        ),
        utf8_width(s[k]) <= n - utf8_len(s.take(k)),
    ensures
        prefix_within_bytes(s, n) == s.take(k + 1) + prefix_within_bytes(
            s.skip(k + 1),
            n - utf8_len(s.take(k + 1)),
        ),
{
    let rest = s.skip(k);
    assert(rest[0] == s[k]);
    assert(rest.drop_first() =~= s.skip(k + 1));
    lemma_utf8_len_push(s.take(k), s[k]);
    assert(s.take(k + 1) =~= s.take(k).push(s[k]));
    assert(s.take(k) + (seq![s[k]] + prefix_within_bytes(s.skip(k + 1), n - utf8_len(s.take(k)) - utf8_width(s[k])))
        =~= s.take(k + 1) + prefix_within_bytes(s.skip(k + 1), n - utf8_len(s.take(k + 1))));
}

/// Shown prefix of a stored token: `met_join_`, the first 8 bytes of its hash (all of it
/// when shorter), and `...`. The hash must not have a multi-byte character across byte 8.
pub fn join_token_prefix(token_hash: &str) -> (r: String)
    requires
        utf8_len(token_hash@) <= 8 || utf8_len(prefix_within_bytes(token_hash@, 8)) == 8,
    ensures
        r@ == "met_join_"@ + prefix_within_bytes(token_hash@, 8) + "..."@,
{
    let n = token_hash.unicode_len();
    let mut k: usize = 0;
    let mut used: usize = 0;
    let ghost s = token_hash@;
    assert(s.take(0) =~= Seq::<char>::empty());
    assert(s.skip(0) =~= s);
    while k < n && utf8_width_of(token_hash.get_char(k)) <= 8 - used
        invariant
            n == s.len(),
            s == token_hash@,
            k <= n,
            used == utf8_len(s.take(k as int)),
            used <= 8,
            prefix_within_bytes(s, 8) == s.take(k as int) + prefix_within_bytes(
                s.skip(k as int),
                8 - used,
            ),
        decreases n - k,
    {
        let c = token_hash.get_char(k);
        let w = utf8_width_of(c);
        proof {
            lemma_prefix_step(s, k as int, 8);
            lemma_utf8_len_push(s.take(k as int), c);
            assert(s.take(k + 1) =~= s.take(k as int).push(c));
        }
        used = used + w;
        k = k + 1;
    }
    proof {
        if k == n {
            assert(s.skip(k as int) =~= Seq::<char>::empty());
        } else {
            let rest = s.skip(k as int);
            assert(rest[0] == s[k as int]);
        }
        assert(prefix_within_bytes(s, 8) =~= s.take(k as int));
    }
    let mut r = owned("met_join_");
    r.append(token_hash.substring_char(0, k));
    r.append("...");
    r
}

/// A stored join token (times as RFC 3339 text).
#[derive(Debug)]
pub struct JoinToken {
    pub id: String,
    pub token_hash: String,
    pub scope: JoinTokenScope,
    pub scope_id: Option<String>,
    pub description: String,
    /// Organization column: set for tenant tokens.
    pub org_id: Option<String>,
    pub max_uses: i32,
    pub current_uses: i32,
    pub labels: Vec<String>,
    pub pool_tags: Vec<String>,
    pub expires_at: Option<String>,
    pub revoked: bool,
    pub created_by: String,
    pub created_at: String,
    pub consumed_at: Option<String>,
    pub consumed_by_agent_id: Option<String>,
}

/// The scope a creation request names: its `scope`, or `tenant` when absent.
pub open spec fn requested_scope_name(scope: Option<&str>) -> Seq<char> {
    match scope {
        Some(x) => x@,
        None => "tenant"@,
    }
}

/// The trimmed description of a creation request (empty when absent).
pub open spec fn requested_description(description: Option<String>) -> Seq<char> {
    trim(
        match opt_view(description) {
            Some(t) => t,
            None => Seq::empty(),
        },
    )
}

/// The token an admin creates: the trimmed description (required), the scope by name
/// (`tenant` when absent), its placement (see [`place_join_token`]), one use allowed, none
/// made, not revoked, not consumed, created now by the admin, with the given id, hash,
/// labels, pool tags and expiry. Errors, in this order: a blank description, an unknown
/// scope, a project or pipeline scope without a scope id.
pub fn new_admin_join_token(
    id: String,
    token_hash: String,
    description: &Option<String>,
    scope: Option<&str>,
    requested_scope_id: &Option<String>,
    admin_org_id: &str,
    labels: Vec<String>,
    pool_tags: Vec<String>,
    expires_at: Option<String>,
    created_by: String,
    now: String,
) -> (r: Result<JoinToken, ApiError>)
    ensures
        ({
            let d = requested_description(*description);
            let n = requested_scope_name(scope);
            &&& d.len() == 0 ==> (r matches Err(e) && e.is(
                ErrorKind::BadRequest,
                "description is required"@,
            ))
            &&& d.len() > 0 && (forall|s: JoinTokenScope| #![trigger scope_name(s)] scope_name(s) != n)
                ==> (r matches Err(e) && e.is(
                ErrorKind::BadRequest,
                "invalid scope, must be: platform, tenant, project, or pipeline"@,
            ))
            &&& forall|s: JoinTokenScope|
                #![trigger scope_name(s)]
                d.len() > 0 && scope_name(s) == n ==> if (s == JoinTokenScope::Project || s
                    == JoinTokenScope::Pipeline) && requested_scope_id is None {
                    r matches Err(e) && e.is(
                        ErrorKind::BadRequest,
                        "scope_id is required for project and pipeline scopes"@,
                    )
                } else {
                    r matches Ok(t) && t.scope == s && t.description@ == d && t.max_uses == 1
                        && t.current_uses == 0 && !t.revoked && t.consumed_at is None
                        && t.consumed_by_agent_id is None && t.id == id && t.token_hash
                        == token_hash && t.labels == labels && t.pool_tags == pool_tags
                        && t.expires_at == expires_at && t.created_by == created_by
                        && t.created_at == now && (match s {
                        JoinTokenScope::Platform => t.scope_id is None && t.org_id is None,
                        JoinTokenScope::Tenant => opt_view(t.scope_id) == Some(admin_org_id@)
                            && opt_view(t.org_id) == Some(admin_org_id@),
                        _ => opt_view(t.scope_id) == opt_view(*requested_scope_id)
                            && t.org_id is None,
                    })
                }
        }),
{
    let d = match join_token_description(description) {
        Ok(d) => d,
        Err(e) => return Err(e),
    };
    let s = match parse_join_token_scope(scope) {
        Ok(s) => s,
        Err(e) => {
            proof {
                assert(scope_name(JoinTokenScope::Platform) != requested_scope_name(scope));
                assert(scope_name(JoinTokenScope::Tenant) != requested_scope_name(scope));
                assert(scope_name(JoinTokenScope::Project) != requested_scope_name(scope));
                assert(scope_name(JoinTokenScope::Pipeline) != requested_scope_name(scope));
            }
            return Err(e);
        },
    };
    proof {
        reveal_strlit("platform");
        reveal_strlit("tenant");
        reveal_strlit("project");
        reveal_strlit("pipeline");
        assert("platform"@[1] != "pipeline"@[1]);
        assert("platform"@[0] != "project"@[0] || "platform"@[1] != "project"@[1]);
        assert("project"@.len() != "pipeline"@.len());
        assert("tenant"@.len() != "platform"@.len());
        assert("tenant"@.len() != "project"@.len());
        assert("tenant"@.len() != "pipeline"@.len());
    }
    let p = match place_join_token(s, admin_org_id, requested_scope_id) {
        Ok(p) => p,
        Err(e) => return Err(e),
    };
    Ok(JoinToken {
        id,
        token_hash,
        scope: s,
        scope_id: p.scope_id,
        description: d,
        org_id: p.org_id,
        max_uses: 1,
        current_uses: 0,
        labels,
        pool_tags,
        expires_at,
        revoked: false,
        created_by,
        created_at: now,
        consumed_at: None,
        consumed_by_agent_id: None,
    })
}

/// The response for a stored token: its fields, the shown prefix instead of the hash, the
/// scope by name, and no creator name, history or agents yet.
pub fn join_token_response(t: &JoinToken) -> (r: JoinTokenResponse)
    requires
        utf8_len(t.token_hash@) <= 8 || utf8_len(prefix_within_bytes(t.token_hash@, 8)) == 8,
    ensures
        r.id@ == t.id@,
        r.prefix@ == "met_join_"@ + prefix_within_bytes(t.token_hash@, 8) + "..."@,
        r.description@ == t.description@,
        r.scope@ == scope_name(t.scope),
        opt_view(r.scope_id) == opt_view(t.scope_id),
        r.max_uses == t.max_uses,
        r.current_uses == t.current_uses,
        views(r.labels@) == views(t.labels@),
        views(r.pool_tags@) == views(t.pool_tags@),
        opt_view(r.expires_at) == opt_view(t.expires_at),
        r.revoked == t.revoked,
        r.created_by@ == t.created_by@,
        r.created_by_name is None,
        r.created_at@ == t.created_at@,
        opt_view(r.consumed_at) == opt_view(t.consumed_at),
        opt_view(r.consumed_by_agent_id) == opt_view(t.consumed_by_agent_id),
        r.description_history@.len() == 0,
        r.agents@.len() == 0,
{
    JoinTokenResponse {
        id: owned(t.id.as_str()),
        prefix: join_token_prefix(t.token_hash.as_str()),
        description: owned(t.description.as_str()),
        scope: owned(join_token_scope_str(t.scope)),
        scope_id: clone_opt(&t.scope_id),
        max_uses: t.max_uses,
        current_uses: t.current_uses,
        labels: copy_strings(&t.labels),
        pool_tags: copy_strings(&t.pool_tags),
        expires_at: clone_opt(&t.expires_at),
        revoked: t.revoked,
        created_by: owned(t.created_by.as_str()),
        created_by_name: None,
        created_at: owned(t.created_at.as_str()),
        consumed_at: clone_opt(&t.consumed_at),
        consumed_by_agent_id: clone_opt(&t.consumed_by_agent_id),
        description_history: Vec::new(),
        agents: Vec::new(),
    }
}

/// A user's names, as looked up for display.
pub struct UserNameRow {
    pub id: String,
    pub username: String,
    pub display_name: Option<String>,
}

/// Name shown for user `id`: the display name of the first row for it, else its username;
/// `None` when no row is for it.
pub open spec fn shown_user_name(users: Seq<UserNameRow>, id: Seq<char>) -> Option<Seq<char>>
    decreases users.len(),
{
    if users.len() == 0 {
        None
    } else if users[0].id@ == id {
        match opt_view(users[0].display_name) {
            Some(d) => Some(d),
            None => Some(users[0].username@),
        }
    } else {
        shown_user_name(users.drop_first(), id)
    }
}

pub fn user_display_name(users: &Vec<UserNameRow>, id: &str) -> (r: Option<String>)
    ensures
        opt_view(r) == shown_user_name(users@, id@),
{
    let mut k: usize = 0;
    assert(users@.subrange(0, users@.len() as int) =~= users@);
    while k < users.len()
        invariant
            k <= users@.len(),
            shown_user_name(users@, id@) == shown_user_name(
                users@.subrange(k as int, users@.len() as int),
                id@,
            ),
        decreases users.len() - k,
    {
        let ghost t = users@.subrange(k as int, users@.len() as int);
        assert(t[0] == users@[k as int]);
        if str_eq(users[k].id.as_str(), id) {
            return match &users[k].display_name {
                Some(d) => Some(owned(d.as_str())),
                None => Some(owned(users[k].username.as_str())),
            };
        }
        assert(t.drop_first() =~= users@.subrange(k + 1, users@.len() as int));
        k = k + 1;
    }
    None
}

/// An entry of a token's description history (times as RFC 3339 text).
pub struct JoinTokenDescriptionHistory {
    pub description: String,
    pub changed_at: String,
    pub changed_by: Option<String>,
}

/// History entries with the name of whoever made each change, when known.
pub fn join_token_history_to_api_entries(
    rows: &Vec<JoinTokenDescriptionHistory>,
    users: &Vec<UserNameRow>,
) -> (r: Vec<JoinTokenDescriptionHistoryEntry>)
    ensures
        r@.len() == rows@.len(),
        forall|i: int|
            0 <= i < rows@.len() ==> {
                let e = #[trigger] r@[i];
                &&& e.description@ == rows@[i].description@
                &&& e.changed_at@ == rows@[i].changed_at@
                &&& opt_view(e.changed_by) == opt_view(rows@[i].changed_by)
                &&& opt_view(e.changed_by_name) == match opt_view(rows@[i].changed_by) {
                    Some(u) => shown_user_name(users@, u),
                    None => None,
                }
            },
{
    let mut out: Vec<JoinTokenDescriptionHistoryEntry> = Vec::new();
    let mut i: usize = 0;
    while i < rows.len()
        invariant
            i <= rows@.len(),
            out@.len() == i,
            forall|j: int|
                0 <= j < i ==> {
                    let e = #[trigger] out@[j];
                    &&& e.description@ == rows@[j].description@
                    &&& e.changed_at@ == rows@[j].changed_at@
                    &&& opt_view(e.changed_by) == opt_view(rows@[j].changed_by)
                    &&& opt_view(e.changed_by_name) == match opt_view(rows@[j].changed_by) {
                        Some(u) => shown_user_name(users@, u),
                        None => None,
                    }
                },
        decreases rows.len() - i,
    {
        let r = &rows[i];
        let name = match &r.changed_by {
            Some(u) => user_display_name(users, u.as_str()),
            None => None,
        };
        out.push(
            JoinTokenDescriptionHistoryEntry {
                description: owned(r.description.as_str()),
                changed_at: owned(r.changed_at.as_str()),
                changed_by: clone_opt(&r.changed_by),
                changed_by_name: name,
            },
        );
        i = i + 1;
    }
    out
}

/// An administrator reaches a tenant-scoped join token only when it belongs to the
/// administrator's organization; tokens of the other scopes are not checked here.
/// `refusal` is what the caller is told.
pub fn check_join_token_org(
    scope: JoinTokenScope,
    scope_id: &Option<String>,
    org_id: &str,
    refusal: &str,
) -> (r: Result<(), ApiError>)
    ensures
        r is Ok <==> (scope != JoinTokenScope::Tenant || opt_view(*scope_id) == Some(org_id@)),
        r matches Err(e) ==> e.is(ErrorKind::Forbidden, refusal@),
{
    if scope == JoinTokenScope::Tenant {
        let same = match scope_id {
            Some(id) => str_eq(id.as_str(), org_id),
            None => false,
        };
        if !same {
            return Err(ApiError::forbidden(refusal));
        }
    }
    Ok(())
}

} // verus!
