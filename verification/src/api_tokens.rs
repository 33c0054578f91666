//! Personal API tokens: what a creation request must satisfy, what is stored for it, and
//! who may manage a token.
use vstd::prelude::*;
use crate::access::CurrentUser;
use crate::error::{ApiError, ErrorKind};
use crate::text::{concat3, owned, str_eq, trim, trim_str, utf8_len, utf8_len_exceeds, views};
use crate::webhook_payloads::opt_view;
use crate::webhooks::{contains_string, contains_view};

verus! {

/// A token needs a name that is not blank and has at most 100 bytes.
pub fn check_token_name(name: &str) -> (r: Result<(), ApiError>)
    ensures
        trim(name@).len() == 0 ==> (r matches Err(e) && e.is(
            ErrorKind::BadRequest,
            "token name is required"@,
        )),
        (trim(name@).len() > 0 && utf8_len(name@) > 100) ==> (r matches Err(e) && e.is(
            ErrorKind::BadRequest,
            "token name must be 100 characters or less"@,
        )),
        (trim(name@).len() > 0 && utf8_len(name@) <= 100) ==> r is Ok,
{
    if trim_str(name).is_empty() {
        return Err(ApiError::bad_request("token name is required"));
    }
    if utf8_len_exceeds(name, 100) {
        return Err(ApiError::bad_request("token name must be 100 characters or less"));
    }
    Ok(())
}

/// Token scopes are `read`, `write`, `admin` or `*`.
pub open spec fn token_scope_valid(s: Seq<char>) -> bool {
    s == "read"@ || s == "write"@ || s == "admin"@ || s == "*"@
}

/// Index of the first invalid scope.
pub open spec fn first_invalid_scope(scopes: Seq<Seq<char>>) -> Option<int>
    decreases scopes.len(),
{
    if scopes.len() == 0 {
        None
    } else if !token_scope_valid(scopes[0]) {
        Some(0)
    } else {
        match first_invalid_scope(scopes.drop_first()) {
            Some(i) => Some(i + 1),
            None => None,
        }
    }
}

proof fn lemma_first_invalid_scope(scopes: Seq<Seq<char>>, k: int)
    requires
        0 <= k <= scopes.len(),
        forall|j: int| 0 <= j < k ==> token_scope_valid(#[trigger] scopes[j]),
    ensures
        match first_invalid_scope(scopes.subrange(k, scopes.len() as int)) {
            Some(i) => first_invalid_scope(scopes) == Some(i + k),
            None => first_invalid_scope(scopes) is None,
        },
    decreases k,
{
    if k > 0 {
        let t = scopes.drop_first();
        assert forall|j: int| 0 <= j < k - 1 implies token_scope_valid(#[trigger] t[j]) by {
            assert(t[j] == scopes[j + 1]);
        }
        lemma_first_invalid_scope(t, k - 1);
        assert(t.subrange(k - 1, t.len() as int) =~= scopes.subrange(k, scopes.len() as int));
        assert(token_scope_valid(scopes[0]));
    } else {
        assert(scopes.subrange(0, scopes.len() as int) =~= scopes);
    }
}

/// The requested scopes must all be valid; the first invalid one is reported.
pub fn check_token_scopes(scopes: &Vec<String>) -> (r: Result<(), ApiError>)
    ensures
        match first_invalid_scope(views(scopes@)) {
            None => r is Ok,
            Some(i) => r matches Err(e) && e.is(
                ErrorKind::BadRequest,
                "invalid scope '"@ + scopes@[i]@ + "', must be one of: read, write, admin, *"@,
            ),
        },
{
    let mut k: usize = 0;
    while k < scopes.len()
        invariant
            k <= scopes@.len(),
            forall|j: int| 0 <= j < k ==> token_scope_valid(#[trigger] views(scopes@)[j]),
        decreases scopes.len() - k,
    {
        let s = scopes[k].as_str();
        assert(views(scopes@)[k as int] == s@);
        if !(str_eq(s, "read") || str_eq(s, "write") || str_eq(s, "admin") || str_eq(s, "*")) {
            proof {
                lemma_first_invalid_scope(views(scopes@), k as int);
                assert(views(scopes@).subrange(k as int, scopes@.len() as int)[0] == s@);
            }
            return Err(
                ApiError::new(
                    ErrorKind::BadRequest,
                    concat3("invalid scope '", s, "', must be one of: read, write, admin, *"),
                ),
            );
        }
        k = k + 1;
    }
    proof {
        lemma_first_invalid_scope(views(scopes@), k as int);
        assert(views(scopes@).subrange(k as int, scopes@.len() as int).len() == 0);
    }
    Ok(())
}

/// Where enforced, a user has at most two active tokens.
pub fn check_active_token_cap(enforce: bool, active_tokens: i64) -> (r: Result<(), ApiError>)
    ensures
        r is Ok <==> !(enforce && active_tokens >= 2),
        r matches Err(e) ==> e.is(
            ErrorKind::BadRequest,
            "at most two active API tokens are allowed per user; deactivate or revoke an existing token first"@,
        ),
{
    if enforce && active_tokens >= 2 {
        return Err(
            ApiError::bad_request(
                "at most two active API tokens are allowed per user; deactivate or revoke an existing token first",
            ),
        );
    }
    Ok(())
}

/// Lifetime of a new token in seconds: `None` without an expiry; otherwise the days must be
/// positive and at most the organization's maximum.
pub fn token_expiry_seconds(expires_in_days: Option<i64>, max_days: i64) -> (r: Result<
    Option<i64>,
    ApiError,
>)
    requires
        match expires_in_days {
            Some(d) => 0 < d <= max_days ==> d * 86400 <= i64::MAX,
            None => true,
        },
    ensures
        match expires_in_days {
            None => r == Ok::<Option<i64>, ApiError>(None),
            Some(d) => if d <= 0 {
                r matches Err(e) && e.is(ErrorKind::BadRequest, "expires_in_days must be positive"@)
            } else if d > max_days {
                r matches Err(e) && e.kind == ErrorKind::BadRequest && e.message@
                    == "expires_in_days cannot exceed organization maximum ("@ + crate::text::signed_decimal(
                    max_days as int,
                ) + " days)"@
            } else {
                r matches Ok(Some(secs)) && secs == d * 86400
            },
        },
{
    match expires_in_days {
        None => Ok(None),
        Some(d) => {
            if d <= 0 {
                return Err(ApiError::bad_request("expires_in_days must be positive"));
            }
            if d > max_days {
                return Err(
                    ApiError::new(
                        ErrorKind::BadRequest,
                        concat3(
                            "expires_in_days cannot exceed organization maximum (",
                            crate::text::i64_to_string(max_days).as_str(),
                            " days)",
                        ),
                    ),
                );
            }
            Ok(Some(d * 86400))
        },
    }
}

/// The stored description: the given one, unless it is blank.
pub fn token_description(description: &Option<String>) -> (r: Option<String>)
    ensures
        opt_view(r) == match opt_view(*description) {
            Some(d) => if trim(d).len() > 0 {
                Some(d)
            } else {
                None
            },
            None => None,
        },
{
    match description {
        Some(d) => if trim_str(d.as_str()).is_empty() {
            None
        } else {
            Some(owned(d.as_str()))
        },
        None => None,
    }
}

/// The stored scopes: those requested, `read` when none are.
pub fn token_scopes_or_default(scopes: &Vec<String>) -> (r: Vec<String>)
    ensures
        views(r@) == (if scopes@.len() == 0 {
            seq!["read"@]
        } else {
            views(scopes@)
        }),
{
    let mut r: Vec<String> = Vec::new();
    if scopes.len() == 0 {
        r.push(owned("read"));
        assert(views(r@) =~= seq!["read"@]);
        return r;
    }
    let mut i: usize = 0;
    while i < scopes.len()
        invariant
            i <= scopes@.len(),
            r@.len() == i,
            forall|j: int| 0 <= j < i ==> #[trigger] r@[j]@ == scopes@[j]@,
        decreases scopes.len() - i,
    {
        r.push(owned(scopes[i].as_str()));
        i = i + 1;
    }
    assert(views(r@) =~= views(scopes@));
    r
}

/// A pipeline restriction, when given, must name at least one pipeline.
pub fn check_token_pipeline_ids(pipeline_ids: &Vec<String>) -> (r: Result<(), ApiError>)
    ensures
        r is Ok <==> pipeline_ids@.len() > 0,
        r matches Err(e) ==> e.is(
            ErrorKind::BadRequest,
            "pipeline_ids cannot be empty; omit the field to allow all pipelines within project scope"@,
        ),
{
    if pipeline_ids.len() == 0 {
        return Err(
            ApiError::bad_request(
                "pipeline_ids cannot be empty; omit the field to allow all pipelines within project scope",
            ),
        );
    }
    Ok(())
}

/// Each restricted pipeline must be in the caller's organization.
pub fn check_token_pipeline_org(pipeline_org_id: &str, org_id: &str) -> (r: Result<(), ApiError>)
    ensures
        r is Ok <==> pipeline_org_id@ == org_id@,
        r matches Err(e) ==> e.is(ErrorKind::BadRequest, "pipeline is not in your organization"@),
{
    if !str_eq(pipeline_org_id, org_id) {
        return Err(ApiError::bad_request("pipeline is not in your organization"));
    }
    Ok(())
}

/// Project restriction of a token limited to pipelines, given the projects of those
/// pipelines: without a project restriction it becomes those projects (each once); with one,
/// every such project must be listed.
pub fn token_project_scope(pipeline_projects: &Vec<String>, project_ids: &Option<Vec<String>>) -> (r:
    Result<Option<Vec<String>>, ApiError>)
    ensures
        match *project_ids {
            None => r matches Ok(Some(v)) && views(v@).no_duplicates() && views(v@).to_set()
                == views(pipeline_projects@).to_set(),
            Some(allowed) => if (forall|i: int|
                0 <= i < pipeline_projects@.len() ==> contains_view(
                    allowed@,
                    #[trigger] pipeline_projects@[i]@,
                )) {
                r matches Ok(Some(v)) && views(v@) == views(allowed@)
            } else {
                r matches Err(e) && e.is(
                    ErrorKind::BadRequest,
                    "each pipeline must belong to a project listed in project_ids"@,
                )
            },
        },
{
    match project_ids {
        None => {
            let mut v: Vec<String> = Vec::new();
            let mut i: usize = 0;
            while i < pipeline_projects.len()
                invariant
                    i <= pipeline_projects@.len(),
                    views(v@).no_duplicates(),
                    views(v@).to_set() == views(pipeline_projects@).subrange(0, i as int).to_set(),
                decreases pipeline_projects.len() - i,
            {
                let ghost pre = views(pipeline_projects@).subrange(0, i as int);
                let ghost x = pipeline_projects@[i as int]@;
                let ghost before = views(v@);
                assert(views(pipeline_projects@).subrange(0, i + 1) =~= pre.push(x));
                if !contains_string(&v, pipeline_projects[i].as_str()) {
                    v.push(owned(pipeline_projects[i].as_str()));
                    proof {
                        assert(views(v@) =~= before.push(x));
                        assert(!before.contains(x)) by {
                            if before.contains(x) {
                                let k = choose|k: int| 0 <= k < before.len() && before[k] == x;
                                assert(v@[k]@ == x);
                            }
                        }
                        assert forall|a: int, b: int|
                            0 <= a < views(v@).len() && 0 <= b < views(v@).len() && a != b implies views(
                            v@,
                        )[a] != views(v@)[b] by {
                            if a < before.len() && b < before.len() {
                            } else if a < before.len() {
                                assert(before.contains(before[a]));
                            } else {
                                assert(before.contains(before[b]));
                            }
                        }
                        assert(views(v@).to_set() =~= pre.push(x).to_set()) by {
                            assert forall|e: Seq<char>| views(v@).to_set().contains(e) implies pre.push(
                                x,
                            ).to_set().contains(e) by {
                                let k = choose|k: int| 0 <= k < views(v@).len() && views(v@)[k] == e;
                                if k < before.len() {
                                    assert(before.to_set().contains(e));
                                    let m = choose|m: int| 0 <= m < pre.len() && pre[m] == e;
                                    assert(pre.push(x)[m] == e);
                                } else {
                                    assert(pre.push(x)[pre.len() as int] == e);
                                }
                            }
                            assert forall|e: Seq<char>| pre.push(x).to_set().contains(e) implies views(
                                v@,
                            ).to_set().contains(e) by {
                                let k = choose|k: int| 0 <= k < pre.push(x).len() && pre.push(x)[k] == e;
                                if k < pre.len() {
                                    assert(pre.to_set().contains(e));
                                    let m = choose|m: int| 0 <= m < before.len() && before[m] == e;
                                    assert(views(v@)[m] == e);
                                } else {
                                    assert(views(v@)[before.len() as int] == e);
                                }
                            }
                        }
                    }
                } else {
                    proof {
                        let k = choose|k: int| 0 <= k < v@.len() && #[trigger] v@[k]@ == x;
                        assert(before[k] == x);
                        assert(before.to_set().contains(x));
                        assert(pre.push(x).to_set() =~= pre.to_set().insert(x)) by {
                            assert forall|e: Seq<char>| pre.push(x).to_set().contains(e) implies pre.to_set().insert(
                                x,
                            ).contains(e) by {
                                let m = choose|m: int| 0 <= m < pre.push(x).len() && pre.push(x)[m] == e;
                                if m < pre.len() {
                                    assert(pre[m] == e);
                                }
                            }
                            assert forall|e: Seq<char>| pre.to_set().insert(x).contains(e) implies pre.push(
                                x,
                            ).to_set().contains(e) by {
                                if e == x {
                                    assert(pre.push(x)[pre.len() as int] == e);
                                } else {
                                    let m = choose|m: int| 0 <= m < pre.len() && pre[m] == e;
                                    assert(pre.push(x)[m] == e);
                                }
                            }
                        }
                        assert(pre.to_set().insert(x) =~= pre.to_set());
                    }
                }
                i = i + 1;
            }
            assert(views(pipeline_projects@).subrange(0, pipeline_projects@.len() as int) =~= views(
                pipeline_projects@,
            ));
            Ok(Some(v))
        },
        Some(allowed) => {
            let mut i: usize = 0;
            while i < pipeline_projects.len()
                invariant
                    i <= pipeline_projects@.len(),
                    *project_ids == Some::<Vec<String>>(*allowed),
                    forall|j: int|
                        0 <= j < i ==> contains_view(allowed@, #[trigger] pipeline_projects@[j]@),
                decreases pipeline_projects.len() - i,
            {
                if !contains_string(allowed, pipeline_projects[i].as_str()) {
                    assert(!contains_view(allowed@, pipeline_projects@[i as int]@));
                    return Err(
                        ApiError::bad_request(
                            "each pipeline must belong to a project listed in project_ids",
                        ),
                    );
                }
                i = i + 1;
            }
            let mut v: Vec<String> = Vec::new();
            let mut k: usize = 0;
            while k < allowed.len()
                invariant
                    k <= allowed@.len(),
                    v@.len() == k,
                    forall|j: int| 0 <= j < k ==> #[trigger] v@[j]@ == allowed@[j]@,
                decreases allowed.len() - k,
            {
                v.push(owned(allowed[k].as_str()));
                k = k + 1;
            }
            assert(views(v@) =~= views(allowed@));
            Ok(Some(v))
        },
    }
}

/// First step of managing a token: the owner always may (`Ok(false)`); otherwise only a
/// super-admin, whose right then depends on the owner's organization (`Ok(true)`).
pub fn token_manage_needs_owner_check(token_user_id: &str, user: &CurrentUser) -> (r: Result<
    bool,
    ApiError,
>)
    ensures
        token_user_id@ == user.user_id@ ==> r == Ok::<bool, ApiError>(false),
        (token_user_id@ != user.user_id@ && user.holds("*"@)) ==> r == Ok::<bool, ApiError>(true),
        (token_user_id@ != user.user_id@ && !user.holds("*"@)) ==> (r matches Err(e) && e.is(
            ErrorKind::Forbidden,
            "you can only manage your own tokens"@,
        )),
{
    if str_eq(token_user_id, user.user_id.as_str()) {
        return Ok(false);
    }
    if !user.has_permission("*") {
        return Err(ApiError::forbidden("you can only manage your own tokens"));
    }
    Ok(true)
}

/// Second step: a super-admin manages tokens of users in their own organization only.
pub fn check_token_owner_org(owner_org_id: &str, user: &CurrentUser) -> (r: Result<(), ApiError>)
    ensures
        r is Ok <==> owner_org_id@ == user.org_id@,
        r matches Err(e) ==> e.is(
            ErrorKind::Forbidden,
            "cannot manage tokens for users outside your organization"@,
        ),
{
    if !str_eq(owner_org_id, user.org_id.as_str()) {
        return Err(ApiError::forbidden("cannot manage tokens for users outside your organization"));
    }
    Ok(())
}

/// A token is deleted for good only once it has been deactivated, and never after it was
/// revoked.
pub fn check_token_deletable(revoked: bool, deactivated: bool) -> (r: Result<(), ApiError>)
    ensures
        revoked ==> (r matches Err(e) && e.is(ErrorKind::BadRequest, "token is already revoked"@)),
        (!revoked && !deactivated) ==> (r matches Err(e) && e.is(
            ErrorKind::BadRequest,
            "deactivate the token before deleting it permanently"@,
        )),
        (!revoked && deactivated) ==> r is Ok,
{
    if revoked {
        return Err(ApiError::bad_request("token is already revoked"));
    }
    if !deactivated {
        return Err(ApiError::bad_request("deactivate the token before deleting it permanently"));
    }
    Ok(())
}

/// Tokens an administrator creates for another user are for service accounts only.
pub fn check_admin_token_target(service_account: bool) -> (r: Result<(), ApiError>)
    ensures
        r is Ok <==> service_account,
        r matches Err(e) ==> e.is(
            ErrorKind::BadRequest,
            "admin-created API tokens are limited to service account users"@,
        ),
{
    if !service_account {
        return Err(ApiError::bad_request("admin-created API tokens are limited to service account users"));
    }
    Ok(())
}

} // verus!
