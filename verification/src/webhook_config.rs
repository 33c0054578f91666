//! Rules for configuring project webhook registrations: providers, default events, the
//! inbound authentication of `generic` registrations and their query parameter names.
use vstd::prelude::*;
use crate::error::{ApiError, ErrorKind};
use crate::text::{copy_strings, 
    concat3, eq_ascii_ci, eq_ignore_ascii_case, is_ascii_alnum, is_ascii_alpha, owned, str_eq,
    to_lowercase, trim, trim_str, unicode_lowercase, views,
};
use crate::webhook_payloads::opt_view;
use crate::webhooks::contains_string;
use crate::crypto::{inbound_secret_hash_of, sha256_hex_of};
use crate::text::lower_hex_text;
use crate::workspace_cursor::{random_uuid_v4, uuid_text, uuid_to_text};

verus! {

/// The inbound authentication modes a `generic` registration can use.
pub open spec fn is_auth_mode(m: Seq<char>) -> bool {
    m == "none"@ || m == "hmac"@ || m == "query"@
}

/// Requested mode lowercased; `hmac` when absent or blank.
pub open spec fn requested_auth_mode(raw: Option<Seq<char>>) -> Seq<char> {
    match raw {
        Some(r) => if trim(r).len() > 0 {
            unicode_lowercase(r)
        } else {
            "hmac"@
        },
        None => "hmac"@,
    }
}

/// Normalises a requested `generic_inbound_auth`: absent or blank means `hmac`; the value is
/// lowercased and must then be `none`, `hmac` or `query`.
pub fn normalize_generic_inbound_auth(raw: Option<String>) -> (r: Result<String, ApiError>)
    ensures
        r is Ok <==> is_auth_mode(requested_auth_mode(opt_view(raw))),
        r matches Ok(v) ==> v@ == requested_auth_mode(opt_view(raw)),
        r matches Err(e) ==> e.is(
            ErrorKind::BadRequest,
            "generic_inbound_auth must be none, hmac, or query"@,
        ),
{
    proof {
        reveal_strlit("none");
        reveal_strlit("hmac");
        reveal_strlit("query");
    }
    let v = match &raw {
        Some(s) => if trim_str(s.as_str()).is_empty() {
            owned("hmac")
        } else {
            to_lowercase(s.as_str())
        },
        None => owned("hmac"),
    };
    if str_eq(v.as_str(), "none") || str_eq(v.as_str(), "hmac") || str_eq(v.as_str(), "query") {
        Ok(v)
    } else {
        Err(ApiError::bad_request("generic_inbound_auth must be none, hmac, or query"))
    }
}

/// A query parameter name: an ASCII letter, then ASCII letters, digits, `_` or `-`.
pub open spec fn query_param_name_ok(name: Seq<char>) -> bool {
    name.len() > 0 && is_ascii_alpha(name[0]) && forall|i: int|
        0 <= i < name.len() ==> is_ascii_alnum(#[trigger] name[i]) || name[i] == '_' || name[i]
            == '-'
}

/// Whether `name` may be used as the query parameter of `query` authentication.
pub fn generic_query_param_name_valid(name: &str) -> (ok: bool)
    ensures
        ok == query_param_name_ok(name@),
{
    let n = name.unicode_len();
    if n == 0 {
        return false;
    }
    let first = name.get_char(0);
    if !(('A' <= first && first <= 'Z') || ('a' <= first && first <= 'z')) {
        return false;
    }
    let mut i: usize = 0;
    while i < n
        invariant
            n == name@.len(),
            i <= n,
            forall|j: int|
                0 <= j < i ==> is_ascii_alnum(#[trigger] name@[j]) || name@[j] == '_' || name@[j]
                    == '-',
        decreases n - i,
    {
        let c = name.get_char(i);
        if !(('A' <= c && c <= 'Z') || ('a' <= c && c <= 'z') || ('0' <= c && c <= '9') || c
            == '_' || c == '-') {
            return false;
        }
        i = i + 1;
    }
    true
}

/// `Some(trimmed)` when the trimmed text is non-empty.
pub open spec fn trimmed_non_empty(o: Option<Seq<char>>) -> Option<Seq<char>> {
    match o {
        Some(s) => if trim(s).len() > 0 {
            Some(trim(s))
        } else {
            None
        },
        None => None,
    }
}

/// `o.map(|s| s.trim().to_string()).filter(|s| !s.is_empty())`.
pub fn trim_non_empty(o: &Option<String>) -> (r: Option<String>)
    ensures
        opt_view(r) == trimmed_non_empty(opt_view(*o)),
{
    match o {
        Some(s) => {
            let t = trim_str(s.as_str());
            if t.is_empty() {
                None
            } else {
                Some(owned(t))
            }
        },
        None => None,
    }
}

/// What a registration request resolves to before anything is stored.
pub struct ScmWebhookSetupPlan {
    /// The provider, lowercased.
    pub provider: String,
    pub events: Vec<String>,
    pub generic_inbound_auth: String,
    pub generic_query_param_name: Option<String>,
    /// Whether an inbound secret is generated and stored.
    pub store_secret: bool,
    /// Whether the generated secret is shown to the caller.
    pub reveal_secret: bool,
}

/// The SCM providers with a dedicated inbound route.
pub open spec fn is_scm_provider(p: Seq<char>) -> bool {
    p == "github"@ || p == "gitlab"@ || p == "bitbucket"@
}

/// Events of an SCM registration created without an explicit list.
pub open spec fn default_scm_events() -> Seq<Seq<char>> {
    seq!["push"@, "pull_request"@]
}

/// The rules of registration: the lowercased provider must be `generic` or an SCM provider;
/// SCM registrations default to `push` and `pull_request` and use `hmac`; a `generic`
/// registration normalises its mode, needs a valid query parameter name exactly when the
/// mode is `query`; a secret is stored unless a `generic` registration uses `none`, and it is
/// shown only to `generic` registrations.
pub open spec fn setup_plan_holds(
    provider_raw: Seq<char>,
    events: Option<Seq<String>>,
    auth_raw: Option<Seq<char>>,
    qn_raw: Option<Seq<char>>,
    r: Result<ScmWebhookSetupPlan, ApiError>,
) -> bool {
    let p = unicode_lowercase(provider_raw);
    let generic = p == "generic"@;
    let mode = requested_auth_mode(auth_raw);
    let qn = trimmed_non_empty(qn_raw);
    if !generic && !is_scm_provider(p) {
        r matches Err(e) && e.is(
            ErrorKind::BadRequest,
            "Unsupported provider: "@ + provider_raw + ". Supported: github, gitlab, bitbucket, generic"@,
        )
    } else if generic && !is_auth_mode(mode) {
        r matches Err(e) && e.is(ErrorKind::BadRequest, "generic_inbound_auth must be none, hmac, or query"@)
    } else if generic && mode == "query"@ && qn is None {
        r matches Err(e) && e.is(
            ErrorKind::BadRequest,
            "generic_query_param_name is required when generic_inbound_auth is query"@,
        )
    } else if generic && mode == "query"@ && !query_param_name_ok(qn->0) {
        r matches Err(e) && e.is(
            ErrorKind::BadRequest,
            "generic_query_param_name must start with a letter and use only letters, digits, hyphen, or underscore"@,
        )
    } else if generic && mode != "query"@ && qn is Some {
        r matches Err(e) && e.is(
            ErrorKind::BadRequest,
            "generic_query_param_name is only allowed when generic_inbound_auth is query"@,
        )
    } else {
        r matches Ok(plan) && {
            &&& plan.provider@ == p
            &&& views(plan.events@) == (match events {
                Some(ev) => views(ev),
                None => if generic {
                    Seq::empty()
                } else {
                    default_scm_events()
                },
            })
            &&& plan.generic_inbound_auth@ == (if generic {
                mode
            } else {
                "hmac"@
            })
            &&& opt_view(plan.generic_query_param_name) == (if generic {
                qn
            } else {
                None
            })
            &&& plan.store_secret == !(generic && mode == "none"@)
            &&& plan.reveal_secret == (generic && mode != "none"@)
        }
    }
}

/// Resolves a webhook registration request (provider, events, generic inbound settings).
pub fn plan_scm_webhook_setup(
    provider: &str,
    events: &Option<Vec<String>>,
    generic_inbound_auth: &Option<String>,
    generic_query_param_name: &Option<String>,
) -> (r: Result<ScmWebhookSetupPlan, ApiError>)
    ensures
        setup_plan_holds(
            provider@,
            match events {
                Some(ev) => Some(ev@),
                None => None,
            },
            opt_view(*generic_inbound_auth),
            opt_view(*generic_query_param_name),
            r,
        ),
{
    proof {
        reveal_strlit("generic");
        reveal_strlit("github");
        reveal_strlit("gitlab");
        reveal_strlit("bitbucket");
        reveal_strlit("none");
        reveal_strlit("hmac");
        reveal_strlit("query");
        reveal_strlit("push");
        reveal_strlit("pull_request");
    }
    let p = to_lowercase(provider);
    let generic = str_eq(p.as_str(), "generic");
    if !generic && !(str_eq(p.as_str(), "github") || str_eq(p.as_str(), "gitlab") || str_eq(
        p.as_str(),
        "bitbucket",
    )) {
        return Err(
            ApiError::new(
                ErrorKind::BadRequest,
                concat3(
                    "Unsupported provider: ",
                    provider,
                    ". Supported: github, gitlab, bitbucket, generic",
                ),
            ),
        );
    }
    let ev: Vec<String> = match events {
        Some(e) => copy_strings(e),
        None => if generic {
            Vec::new()
        } else {
            let mut d: Vec<String> = Vec::new();
            d.push(owned("push"));
            d.push(owned("pull_request"));
            assert(views(d@) =~= default_scm_events());
            d
        },
    };
    proof {
        if events is None && generic {
            assert(views(ev@) =~= Seq::<Seq<char>>::empty());
        }
    }
    if generic {
        let auth = normalize_generic_inbound_auth(clone_opt_string(generic_inbound_auth))?;
        let qn = trim_non_empty(generic_query_param_name);
        if str_eq(auth.as_str(), "query") {
            match &qn {
                None => {
                    return Err(
                        ApiError::bad_request(
                            "generic_query_param_name is required when generic_inbound_auth is query",
                        ),
                    );
                },
                Some(n) => {
                    if !generic_query_param_name_valid(n.as_str()) {
                        return Err(
                            ApiError::bad_request(
                                "generic_query_param_name must start with a letter and use only letters, digits, hyphen, or underscore",
                            ),
                        );
                    }
                },
            }
        } else if qn.is_some() {
            return Err(
                ApiError::bad_request(
                    "generic_query_param_name is only allowed when generic_inbound_auth is query",
                ),
            );
        }
        let none = str_eq(auth.as_str(), "none");
        Ok(
            ScmWebhookSetupPlan {
                provider: p,
                events: ev,
                generic_inbound_auth: auth,
                generic_query_param_name: qn,
                store_secret: !none,
                reveal_secret: !none,
            },
        )
    } else {
        Ok(
            ScmWebhookSetupPlan {
                provider: p,
                events: ev,
                generic_inbound_auth: owned("hmac"),
                generic_query_param_name: None,
                store_secret: true,
                reveal_secret: false,
            },
        )
    }
}

fn clone_opt_string(o: &Option<String>) -> (r: Option<String>)
    ensures
        opt_view(r) == opt_view(*o),
{
    match o {
        Some(s) => Some(s.clone()),
        None => None,
    }
}

/// Optional description: trimmed, and dropped when blank.
pub fn normalize_description(raw: &Option<String>) -> (r: Option<String>)
    ensures
        opt_view(r) == trimmed_non_empty(opt_view(*raw)),
{
    trim_non_empty(raw)
}

/// Inbound path of a registration: `/api/v1/webhooks/{org}/{id}` for `generic`, else
/// `/api/v1/webhooks/{provider}/{org}/{id}` (provider as given, expected lowercase).
pub open spec fn inbound_path_spec(provider: Seq<char>, org_id: Seq<char>, id: Seq<char>) -> Seq<char> {
    if provider == "generic"@ {
        "/api/v1/webhooks/"@ + org_id + "/"@ + id
    } else {
        "/api/v1/webhooks/"@ + provider + "/"@ + org_id + "/"@ + id
    }
}

/// The URL path a registration receives deliveries on.
pub fn webhook_inbound_path(provider: &str, org_id: &str, id: &str) -> (r: String)
    ensures
        r@ == inbound_path_spec(provider@, org_id@, id@),
{
    proof {
        reveal_strlit("generic");
    }
    let mut r = owned("/api/v1/webhooks/");
    if !str_eq(provider, "generic") {
        r.append(provider);
        r.append("/");
    }
    r.append(org_id);
    r.append("/");
    r.append(id);
    r
}

/// Generic-only fields of a registration listing: the auth mode and parameter name, shown
/// for `generic` registrations (provider compared after lowercasing) and hidden otherwise.
pub fn registration_generic_fields(
    provider: &str,
    generic_inbound_auth: &str,
    generic_query_param_name: &Option<String>,
) -> (r: (Option<String>, Option<String>))
    ensures
        unicode_lowercase(provider@) == "generic"@ ==> opt_view(r.0) == Some(
            generic_inbound_auth@,
        ) && opt_view(r.1) == opt_view(*generic_query_param_name),
        unicode_lowercase(provider@) != "generic"@ ==> r.0 is None && r.1 is None,
{
    let p = to_lowercase(provider);
    if str_eq(p.as_str(), "generic") {
        (Some(owned(generic_inbound_auth)), clone_opt_string(generic_query_param_name))
    } else {
        (None, None)
    }
}

/// What becomes of the stored inbound secret when generic inbound settings change.
#[derive(Debug, Clone, Copy, PartialEq, Eq, Structural)]
pub enum SecretAction {
    /// Store an empty secret (mode `none`).
    Clear,
    /// Generate a new secret and show it once.
    Generate,
    /// Keep the stored secret.
    Keep,
}

/// New generic inbound settings of a registration.
pub struct GenericInboundPatch {
    pub generic_inbound_auth: String,
    pub generic_query_param_name: Option<String>,
    pub secret: SecretAction,
}

/// Rules for changing a registration's generic inbound settings.
pub open spec fn inbound_patch_holds(
    provider: Seq<char>,
    current_auth: Seq<char>,
    current_qn: Option<Seq<char>>,
    current_secret_empty: bool,
    req_auth: Option<Seq<char>>,
    req_qn: Option<Seq<char>>,
    r: Result<GenericInboundPatch, ApiError>,
) -> bool {
    let new_auth = match req_auth {
        Some(a) => requested_auth_mode(Some(a)),
        None => unicode_lowercase(current_auth),
    };
    let fallback = match trimmed_non_empty(current_qn) {
        Some(q) => q,
        None => "token"@,
    };
    if !eq_ascii_ci(provider, "generic"@) {
        r matches Err(e) && e.is(
            ErrorKind::BadRequest,
            "generic_inbound_auth and generic_query_param_name apply only to generic webhooks"@,
        )
    } else if req_auth is Some && !is_auth_mode(new_auth) {
        r matches Err(e) && e.is(ErrorKind::BadRequest, "generic_inbound_auth must be none, hmac, or query"@)
    } else if req_qn is Some && new_auth != "query"@ {
        r matches Err(e) && e.is(
            ErrorKind::BadRequest,
            "generic_query_param_name is only valid when generic_inbound_auth is query (set auth to query in the same request)"@,
        )
    } else if new_auth == "query"@ && req_qn is Some && trim(req_qn->0).len() == 0 {
        r matches Err(e) && e.is(
            ErrorKind::BadRequest,
            "generic_query_param_name must be non-empty for query authentication"@,
        )
    } else if new_auth == "query"@ && req_qn is Some && !query_param_name_ok(trim(req_qn->0)) {
        r matches Err(e) && e.is(
            ErrorKind::BadRequest,
            "generic_query_param_name must start with a letter and use only letters, digits, hyphen, or underscore"@,
        )
    } else if new_auth == "query"@ && req_qn is None && !query_param_name_ok(fallback) {
        r matches Err(e) && e.is(
            ErrorKind::BadRequest,
            "existing generic_query_param_name is invalid; set generic_query_param_name explicitly"@,
        )
    } else {
        r matches Ok(plan) && {
            &&& plan.generic_inbound_auth@ == new_auth
            &&& opt_view(plan.generic_query_param_name) == (if new_auth == "query"@ {
                match req_qn {
                    Some(q) => Some(trim(q)),
                    None => Some(fallback),
                }
            } else {
                None
            })
            &&& plan.secret == (if new_auth == "none"@ {
                SecretAction::Clear
            } else if current_secret_empty || eq_ascii_ci(current_auth, "none"@) {
                SecretAction::Generate
            } else {
                SecretAction::Keep
            })
        }
    }
}

/// Resolves a change of a registration's `generic_inbound_auth` / `generic_query_param_name`.
pub fn plan_generic_inbound_patch(
    provider: &str,
    current_auth: &str,
    current_query_param_name: &Option<String>,
    current_secret_empty: bool,
    req_auth: &Option<String>,
    req_query_param_name: &Option<String>,
) -> (r: Result<GenericInboundPatch, ApiError>)
    ensures
        inbound_patch_holds(
            provider@,
            current_auth@,
            opt_view(*current_query_param_name),
            current_secret_empty,
            opt_view(*req_auth),
            opt_view(*req_query_param_name),
            r,
        ),
{
    proof {
        reveal_strlit("generic");
        reveal_strlit("none");
        reveal_strlit("hmac");
        reveal_strlit("query");
        reveal_strlit("token");
    }
    if !eq_ignore_ascii_case(provider, "generic") {
        return Err(
            ApiError::bad_request(
                "generic_inbound_auth and generic_query_param_name apply only to generic webhooks",
            ),
        );
    }
    let new_auth = match req_auth {
        Some(raw) => normalize_generic_inbound_auth(Some(raw.clone()))?,
        None => to_lowercase(current_auth),
    };
    let is_query = str_eq(new_auth.as_str(), "query");
    if req_query_param_name.is_some() && !is_query {
        return Err(
            ApiError::bad_request(
                "generic_query_param_name is only valid when generic_inbound_auth is query (set auth to query in the same request)",
            ),
        );
    }
    let qn: Option<String> = if is_query {
        match req_query_param_name {
            Some(raw) => {
                let t = trim_str(raw.as_str());
                if t.is_empty() {
                    return Err(
                        ApiError::bad_request(
                            "generic_query_param_name must be non-empty for query authentication",
                        ),
                    );
                }
                if !generic_query_param_name_valid(t) {
                    return Err(
                        ApiError::bad_request(
                            "generic_query_param_name must start with a letter and use only letters, digits, hyphen, or underscore",
                        ),
                    );
                }
                Some(owned(t))
            },
            None => {
                let fallback = match trim_non_empty(current_query_param_name) {
                    Some(q) => q,
                    None => owned("token"),
                };
                if !generic_query_param_name_valid(fallback.as_str()) {
                    return Err(
                        ApiError::bad_request(
                            "existing generic_query_param_name is invalid; set generic_query_param_name explicitly",
                        ),
                    );
                }
                Some(fallback)
            },
        }
    } else {
        None
    };
    let secret = if str_eq(new_auth.as_str(), "none") {
        SecretAction::Clear
    } else if current_secret_empty || eq_ignore_ascii_case(current_auth, "none") {
        SecretAction::Generate
    } else {
        SecretAction::Keep
    };
    Ok(GenericInboundPatch { generic_inbound_auth: new_auth, generic_query_param_name: qn, secret })
}

/// A registration update must change at least one of its fields.
pub fn check_patch_has_changes(
    has_description: bool,
    has_targets: bool,
    has_auth: bool,
    has_query_param_name: bool,
) -> (r: Result<(), ApiError>)
    ensures
        r is Ok <==> (has_description || has_targets || has_auth || has_query_param_name),
        r matches Err(e) ==> e.is(
            ErrorKind::BadRequest,
            "provide description, target_pipeline_ids, generic_inbound_auth, and/or generic_query_param_name to update"@,
        ),
{
    if !has_description && !has_targets && !has_auth && !has_query_param_name {
        return Err(
            ApiError::bad_request(
                "provide description, target_pipeline_ids, generic_inbound_auth, and/or generic_query_param_name to update",
            ),
        );
    }
    Ok(())
}

/// A `generic` registration with authentication `none` has no secret to rotate.
pub fn check_rotate_allowed(provider: &str, generic_inbound_auth: &str) -> (r: Result<(), ApiError>)
    ensures
        r is Ok <==> !(eq_ascii_ci(provider@, "generic"@) && eq_ascii_ci(
            generic_inbound_auth@,
            "none"@,
        )),
        r matches Err(e) ==> e.is(
            ErrorKind::BadRequest,
            "cannot rotate secret while inbound authentication is disabled"@,
        ),
{
    if eq_ignore_ascii_case(provider, "generic") && eq_ignore_ascii_case(generic_inbound_auth, "none") {
        return Err(
            ApiError::bad_request("cannot rotate secret while inbound authentication is disabled"),
        );
    }
    Ok(())
}

/// First occurrences of each element, in order.
pub open spec fn dedup_first(s: Seq<Seq<char>>) -> Seq<Seq<char>>
    decreases s.len(),
{
    if s.len() == 0 {
        Seq::empty()
    } else {
        let d = dedup_first(s.drop_last());
        if d.contains(s.last()) {
            d
        } else {
            d.push(s.last())
        }
    }
}

/// Target pipeline ids with later repeats removed (the first occurrence keeps its place).
pub fn dedupe_target_ids(ids: &Vec<String>) -> (r: Vec<String>)
    ensures
        views(r@) == dedup_first(views(ids@)),
{
    let mut r: Vec<String> = Vec::new();
    let mut i: usize = 0;
    while i < ids.len()
        invariant
            i <= ids@.len(),
            views(r@) == dedup_first(views(ids@.subrange(0, i as int))),
        decreases ids.len() - i,
    {
        let ghost pre = views(ids@.subrange(0, i as int));
        let ghost nxt = views(ids@.subrange(0, i + 1));
        assert(nxt.drop_last() =~= pre);
        assert(nxt.last() == ids@[i as int]@);
        let seen = contains_string(&r, ids[i].as_str());
        proof {
            if seen {
                let k = choose|k: int| 0 <= k < r@.len() && #[trigger] r@[k]@ == ids@[i as int]@;
                assert(views(r@)[k] == ids@[i as int]@);
            } else {
                assert forall|k: int| 0 <= k < views(r@).len() implies views(r@)[k] != ids@[
                    i as int
                ]@ by {
                    assert(r@[k]@ != ids@[i as int]@);
                }
            }
        }
        if !seen {
            r.push(ids[i].clone());
            assert(views(r@) =~= views(r@).drop_last().push(ids@[i as int]@));
        }
        i = i + 1;
    }
    assert(ids@.subrange(0, ids@.len() as int) =~= ids@);
    r
}

/// The stored verifier and the secret shown for a registration, from the secret text: the
/// verifier is the hex SHA-256 of the text, and a `generic` registration is shown that
/// verifier as its signing secret (SCM providers are shown nothing).
pub fn inbound_secret_material(secret_text: &str, generic: bool) -> (r: (String, Option<String>))
    ensures
        r.0@ == sha256_hex_of(secret_text@),
        r.0@.len() == 64,
        lower_hex_text(r.0@),
        opt_view(r.1) == (if generic {
            Some(sha256_hex_of(secret_text@))
        } else {
            None
        }),
{
    let h = inbound_secret_hash_of(secret_text);
    let shown = if generic {
        Some(owned(h.as_str()))
    } else {
        None
    };
    (h, shown)
}

/// The secret of a new registration: none for a `generic` registration without inbound
/// auth (an empty verifier, nothing shown); otherwise a fresh random UUID's text is the
/// secret (see [`inbound_secret_material`]).
pub fn new_inbound_secret(generic: bool, generic_auth_none: bool) -> (r: (String, Option<String>))
    ensures
        generic && generic_auth_none ==> r.0@.len() == 0 && r.1 is None,
        !(generic && generic_auth_none) ==> r.0@.len() == 64 && lower_hex_text(r.0@) && (
        r.1 matches Some(shown) ==> shown@ == r.0@),
        !(generic && generic_auth_none) ==> exists|v: u128|
            r.0@ == sha256_hex_of(#[trigger] uuid_text(v)) && opt_view(r.1) == (if generic {
                Some(sha256_hex_of(uuid_text(v)))
            } else {
                None
            }),
{
    if generic && generic_auth_none {
        return (String::new(), None);
    }
    let v = random_uuid_v4();
    let text = uuid_to_text(v);
    let r = inbound_secret_material(text.as_str(), generic);
    assert(r.0@ == sha256_hex_of(uuid_text(v)));
    r
}

/// A registration target: the pipeline it names and the project that pipeline is in.
pub struct TargetPipeline {
    pub pipeline_id: String,
    pub project_id: String,
}

/// Every target of a new registration must be a pipeline of the registration's project;
/// the first one that is not is refused.
pub fn check_targets_in_project(targets: &Vec<TargetPipeline>, project_id: &str) -> (r: Result<
    (),
    ApiError,
>)
    ensures
        (forall|i: int| 0 <= i < targets@.len() ==> (#[trigger] targets@[i]).project_id@ == project_id@)
            ==> r is Ok,
        r matches Err(e) ==> exists|i: int|
            0 <= i < targets@.len() && (#[trigger] targets@[i]).project_id@ != project_id@ && (
            forall|j: int| 0 <= j < i ==> (#[trigger] targets@[j]).project_id@ == project_id@)
                && e.is(
                ErrorKind::Unprocessable,
                "pipeline "@ + targets@[i].pipeline_id@ + " does not belong to this project"@,
            ),
        r is Ok ==> forall|i: int| 0 <= i < targets@.len() ==> (#[trigger] targets@[i]).project_id@ == project_id@,
{
    let mut i: usize = 0;
    while i < targets.len()
        invariant
            i <= targets@.len(),
            forall|j: int| 0 <= j < i ==> (#[trigger] targets@[j]).project_id@ == project_id@,
        decreases targets.len() - i,
    {
        if !str_eq(targets[i].project_id.as_str(), project_id) {
            let m = concat3("pipeline ", targets[i].pipeline_id.as_str(), " does not belong to this project");
            let e = ApiError::unprocessable(m.as_str());
            assert(targets@[i as int].project_id@ != project_id@);
            return Err(e);
        }
        i = i + 1;
    }
    Ok(())
}

} // verus!
