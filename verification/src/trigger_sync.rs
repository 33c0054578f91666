//! Webhook triggers declared in a pipeline definition, as stored trigger configuration.
use vstd::prelude::*;
use crate::error::{ApiError, ErrorKind};
use crate::text::{copy_strings, owned, str_eq, views};
use crate::webhooks::{contains_string, contains_view};
use crate::webhook_payloads::{clone_opt, opt_view};

verus! {

/// Repository events a declared webhook trigger listens to.
#[derive(Debug, Clone, Copy, PartialEq, Eq, Structural)]
pub enum WebhookEvent {
    Push,
    PullRequest,
    PullRequestReview,
    PullRequestComment,
    Release,
}

/// Stored name of an event.
pub open spec fn event_name(e: WebhookEvent) -> Seq<char> {
    match e {
        WebhookEvent::Push => "push"@,
        WebhookEvent::PullRequest => "pull_request"@,
        WebhookEvent::PullRequestReview => "pull_request_review"@,
        WebhookEvent::PullRequestComment => "pull_request_comment"@,
        WebhookEvent::Release => "release"@,
    }
}

pub fn event_as_str(e: &WebhookEvent) -> (r: &'static str)
    ensures
        r@ == event_name(*e),
{
    match e {
        WebhookEvent::Push => "push",
        WebhookEvent::PullRequest => "pull_request",
        WebhookEvent::PullRequestReview => "pull_request_review",
        WebhookEvent::PullRequestComment => "pull_request_comment",
        WebhookEvent::Release => "release",
    }
}

/// A webhook trigger as declared in a pipeline definition.
pub struct WebhookTrigger {
    pub events: Vec<WebhookEvent>,
    pub branches: Vec<String>,
    pub paths: Vec<String>,
    pub paths_ignore: Vec<String>,
    /// Key that ties the stored trigger to its declaration.
    pub sync_key: Option<String>,
}

/// Stored configuration of a repository-managed webhook trigger.
pub struct RepoWebhookConfig {
    pub secret: Option<String>,
    pub branches: Vec<String>,
    pub paths: Vec<String>,
    pub paths_ignore: Vec<String>,
    pub events: Vec<String>,
    /// Top-level payload fields become variables.
    pub flatten_top_level: bool,
    /// Variable that receives the raw body, if any.
    pub include_raw_body_variable: Option<String>,
    pub sync_key: Option<String>,
    /// `repo` for triggers owned by a pipeline definition.
    pub managed_by: Option<String>,
}

/// Configuration stored for a declared trigger: its filters, its events by name, top-level
/// flattening on, no raw-body variable, the sync key, `managed_by: repo`, and no secret.
pub fn build_repo_webhook_config(w: &WebhookTrigger, sync_key: &str) -> (c: RepoWebhookConfig)
    ensures
        views(c.branches@) == views(w.branches@),
        views(c.paths@) == views(w.paths@),
        views(c.paths_ignore@) == views(w.paths_ignore@),
        views(c.events@) == w.events@.map_values(|e: WebhookEvent| event_name(e)),
        c.flatten_top_level,
        c.include_raw_body_variable is None,
        opt_view(c.sync_key) == Some(sync_key@),
        opt_view(c.managed_by) == Some("repo"@),
        c.secret is None,
{
    let mut events: Vec<String> = Vec::new();
    let mut i: usize = 0;
    while i < w.events.len()
        invariant
            i <= w.events@.len(),
            events@.len() == i,
            forall|j: int| 0 <= j < i ==> #[trigger] events@[j]@ == event_name(w.events@[j]),
        decreases w.events.len() - i,
    {
        events.push(owned(event_as_str(&w.events[i])));
        i = i + 1;
    }
    assert(views(events@) =~= w.events@.map_values(|e: WebhookEvent| event_name(e)));
    RepoWebhookConfig {
        secret: None,
        branches: copy_strings(&w.branches),
        paths: copy_strings(&w.paths),
        paths_ignore: copy_strings(&w.paths_ignore),
        events,
        flatten_top_level: true,
        include_raw_body_variable: None,
        sync_key: Some(owned(sync_key)),
        managed_by: Some(owned("repo")),
    }
}

/// Configuration that replaces a stored repository-managed trigger: rebuilt from the
/// declaration, keeping the secret of the stored configuration.
pub fn repo_webhook_config_keeping_secret(
    w: &WebhookTrigger,
    sync_key: &str,
    stored_secret: &Option<String>,
) -> (c: RepoWebhookConfig)
    ensures
        views(c.branches@) == views(w.branches@),
        views(c.paths@) == views(w.paths@),
        views(c.paths_ignore@) == views(w.paths_ignore@),
        views(c.events@) == w.events@.map_values(|e: WebhookEvent| event_name(e)),
        c.flatten_top_level,
        c.include_raw_body_variable is None,
        opt_view(c.sync_key) == Some(sync_key@),
        opt_view(c.managed_by) == Some("repo"@),
        opt_view(c.secret) == opt_view(*stored_secret),
{
    let mut c = build_repo_webhook_config(w, sync_key);
    c.secret = clone_opt(stored_secret);
    c
}

/// Sync keys of the declared webhook triggers, in order, skipping those without a
/// non-empty key.
pub open spec fn declared_sync_keys(ws: Seq<WebhookTrigger>) -> Seq<Seq<char>>
    decreases ws.len(),
{
    if ws.len() == 0 {
        Seq::empty()
    } else {
        let p = declared_sync_keys(ws.drop_last());
        match opt_view(ws.last().sync_key) {
            Some(k) => if k.len() > 0 {
                p.push(k)
            } else {
                p
            },
            None => p,
        }
    }
}

/// The sync keys that stay; stored repository-managed triggers with other keys are deleted.
pub fn repo_webhook_sync_keys(ws: &Vec<WebhookTrigger>) -> (r: Vec<String>)
    ensures
        views(r@) == declared_sync_keys(ws@),
{
    let mut r: Vec<String> = Vec::new();
    let mut i: usize = 0;
    while i < ws.len()
        invariant
            i <= ws@.len(),
            views(r@) == declared_sync_keys(ws@.subrange(0, i as int)),
        decreases ws.len() - i,
    {
        let ghost nxt = ws@.subrange(0, i + 1);
        assert(nxt.drop_last() =~= ws@.subrange(0, i as int));
        if let Some(k) = &ws[i].sync_key {
            if !k.as_str().is_empty() {
                r.push(owned(k.as_str()));
            }
        }
        assert(views(r@) =~= declared_sync_keys(nxt));
        i = i + 1;
    }
    assert(ws@.subrange(0, ws@.len() as int) =~= ws@);
    r
}

/// Only webhook triggers are created through the API.
pub fn check_trigger_kind_webhook(is_webhook: bool) -> (r: Result<(), ApiError>)
    ensures
        r is Ok <==> is_webhook,
        r matches Err(e) ==> e.is(
            ErrorKind::BadRequest,
            "only webhook triggers can be created via this API for now"@,
        ),
{
    if !is_webhook {
        return Err(ApiError::bad_request("only webhook triggers can be created via this API for now"));
    }
    Ok(())
}

/// A trigger is repository-managed when its configuration says `managed_by: repo`.
pub open spec fn repo_managed(managed_by: Option<Seq<char>>) -> bool {
    managed_by == Some("repo"@)
}

/// A configuration patch (given by its keys) may not set `sync_key` or `managed_by`, and
/// may not change the declarative filters (`branches`, `paths`, `paths_ignore`, `events`)
/// of a repository-managed trigger.
pub fn check_trigger_patch(patch_keys: &Vec<String>, managed_by: Option<&str>) -> (r: Result<
    (),
    ApiError,
>)
    ensures
        (contains_view(patch_keys@, "sync_key"@) || contains_view(patch_keys@, "managed_by"@)) ==> (
        r matches Err(e) && e.is(
            ErrorKind::BadRequest,
            "sync_key and managed_by cannot be set via API; they are managed by Git sync"@,
        )),
        (!(contains_view(patch_keys@, "sync_key"@) || contains_view(patch_keys@, "managed_by"@))
            && repo_managed(
            match managed_by {
                Some(m) => Some(m@),
                None => None,
            },
        ) && (contains_view(patch_keys@, "branches"@) || contains_view(patch_keys@, "paths"@)
            || contains_view(patch_keys@, "paths_ignore"@) || contains_view(patch_keys@, "events"@)))
            ==> (r matches Err(e) && e.is(
            ErrorKind::BadRequest,
            "declarative webhook filters on repo-managed triggers are owned by pipeline YAML; edit the repo or delete this trigger"@,
        )),
        (!(contains_view(patch_keys@, "sync_key"@) || contains_view(patch_keys@, "managed_by"@))
            && !(repo_managed(
            match managed_by {
                Some(m) => Some(m@),
                None => None,
            },
        ) && (contains_view(patch_keys@, "branches"@) || contains_view(patch_keys@, "paths"@)
            || contains_view(patch_keys@, "paths_ignore"@) || contains_view(patch_keys@, "events"@))))
            ==> r is Ok,
{
    if contains_string(patch_keys, "sync_key") || contains_string(patch_keys, "managed_by") {
        return Err(
            ApiError::bad_request(
                "sync_key and managed_by cannot be set via API; they are managed by Git sync",
            ),
        );
    }
    let managed = match managed_by {
        Some(m) => str_eq(m, "repo"),
        None => false,
    };
    if managed && (contains_string(patch_keys, "branches") || contains_string(patch_keys, "paths")
        || contains_string(patch_keys, "paths_ignore") || contains_string(patch_keys, "events")) {
        return Err(
            ApiError::bad_request(
                "declarative webhook filters on repo-managed triggers are owned by pipeline YAML; edit the repo or delete this trigger",
            ),
        );
    }
    Ok(())
}

/// Repository-managed triggers are removed by changing the pipeline definition, not
/// through the API.
pub fn check_trigger_deletable(managed_by: Option<&str>) -> (r: Result<(), ApiError>)
    ensures
        r is Ok <==> !repo_managed(
            match managed_by {
                Some(m) => Some(m@),
                None => None,
            },
        ),
        r matches Err(e) ==> e.is(
            ErrorKind::BadRequest,
            "repo-managed triggers are deleted when removed from pipeline YAML or when the pipeline syncs"@,
        ),
{
    let managed = match managed_by {
        Some(m) => str_eq(m, "repo"),
        None => false,
    };
    if managed {
        return Err(
            ApiError::bad_request(
                "repo-managed triggers are deleted when removed from pipeline YAML or when the pipeline syncs",
            ),
        );
    }
    Ok(())
}

/// How an API-created trigger's configuration is edited before it is stored: the entry set
/// (key and value) when a secret was generated, written into the configuration object (or
/// replacing a configuration that is not an object), then the keys that are removed.
pub struct TriggerConfigEdit {
    pub set: Option<(String, String)>,
    pub remove_keys: Vec<String>,
}

/// A trigger created through the API stores a generated secret under `secret`, and never
/// keeps the keys that Git sync owns (`sync_key`, `managed_by`), so that sync does not treat
/// it as managed.
pub fn trigger_config_create_edit(generated_secret: Option<String>) -> (r: TriggerConfigEdit)
    ensures
        match generated_secret {
            Some(g) => r.set matches Some(kv) && kv.0@ == "secret"@ && kv.1@ == g@,
            None => r.set is None,
        },
        views(r.remove_keys@) == seq!["sync_key"@, "managed_by"@],
{
    let set = match generated_secret {
        Some(g) => Some((owned("secret"), g)),
        None => None,
    };
    let mut remove_keys: Vec<String> = Vec::new();
    remove_keys.push(owned("sync_key"));
    remove_keys.push(owned("managed_by"));
    assert(views(remove_keys@) =~= seq!["sync_key"@, "managed_by"@]);
    TriggerConfigEdit { set, remove_keys }
}

/// The keys removed from a trigger's configuration before it is shown to API callers: the
/// secret.
pub fn trigger_config_hidden_keys() -> (r: Vec<String>)
    ensures
        views(r@) == seq!["secret"@],
{
    let mut r: Vec<String> = Vec::new();
    r.push(owned("secret"));
    assert(views(r@) =~= seq!["secret"@]);
    r
}

/// A trigger's secret counts as configured when its `secret` entry is a non-empty string.
pub fn secret_configured(secret_entry: Option<&str>) -> (r: bool)
    ensures
        r == (match secret_entry {
            Some(s) => s@.len() > 0,
            None => false,
        }),
{
    match secret_entry {
        Some(s) => !s.is_empty(),
        None => false,
    }
}

} // verus!
