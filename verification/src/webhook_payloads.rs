//! SCM webhook payloads and what the dispatcher reads from them (branch, commit, event).
use vstd::prelude::*;
use crate::text::{has_prefix, strip_prefix, owned};

verus! {

/// Body of a generic (provider-neutral) webhook call.
pub struct GenericWebhookPayload {
    pub event: Option<String>,
    pub branch: Option<String>,
    pub commit: Option<String>,
    pub ref_name: Option<String>,
}

/// GitHub `push` / `pull_request` delivery.
pub struct GitHubWebhookPayload {
    pub ref_name: Option<String>,
    pub after: Option<String>,
    pub before: Option<String>,
    pub repository: Option<GitHubRepository>,
    pub pusher: Option<GitHubPusher>,
    pub head_commit: Option<GitHubCommit>,
    pub action: Option<String>,
    pub pull_request: Option<GitHubPullRequest>,
}

pub struct GitHubRepository {
    pub id: i64,
    pub name: String,
    pub full_name: String,
    pub clone_url: Option<String>,
}

pub struct GitHubPusher {
    pub name: String,
    pub email: Option<String>,
}

pub struct GitHubCommit {
    pub id: String,
    pub message: String,
    pub author: Option<GitHubAuthor>,
}

pub struct GitHubAuthor {
    pub name: String,
    pub email: String,
}

pub struct GitHubPullRequest {
    pub number: i64,
    pub title: String,
    pub head: GitHubPRRef,
    pub base: GitHubPRRef,
}

pub struct GitHubPRRef {
    pub ref_name: String,
    pub sha: String,
}

/// GitLab push / merge request delivery.
pub struct GitLabWebhookPayload {
    pub object_kind: Option<String>,
    pub ref_name: Option<String>,
    pub checkout_sha: Option<String>,
    pub before: Option<String>,
    pub after: Option<String>,
    pub project: Option<GitLabProject>,
    pub user_name: Option<String>,
    pub user_email: Option<String>,
    pub object_attributes: Option<GitLabMergeRequest>,
}

pub struct GitLabProject {
    pub id: i64,
    pub name: String,
    pub path_with_namespace: String,
    pub git_http_url: Option<String>,
}

pub struct GitLabMergeRequest {
    pub iid: i64,
    pub title: String,
    pub source_branch: String,
    pub target_branch: String,
    pub state: String,
    pub last_commit: Option<GitLabCommit>,
}

pub struct GitLabCommit {
    pub id: String,
    pub message: String,
}

/// Bitbucket push / pull request delivery.
pub struct BitbucketWebhookPayload {
    pub push: Option<BitbucketPush>,
    pub pullrequest: Option<BitbucketPullRequest>,
    pub repository: Option<BitbucketRepository>,
    pub actor: Option<BitbucketActor>,
}

pub struct BitbucketPush {
    pub changes: Vec<BitbucketChange>,
}

pub struct BitbucketChange {
    pub new: Option<BitbucketRef>,
    pub old: Option<BitbucketRef>,
}

pub struct BitbucketRef {
    pub name: String,
    pub target: Option<BitbucketTarget>,
}

pub struct BitbucketTarget {
    pub hash: String,
}

pub struct BitbucketPullRequest {
    pub id: i64,
    pub title: String,
    pub source: BitbucketPRRef,
    pub destination: BitbucketPRRef,
}

pub struct BitbucketPRRef {
    pub branch: BitbucketBranch,
}

pub struct BitbucketBranch {
    pub name: String,
}

pub struct BitbucketRepository {
    pub uuid: String,
    pub full_name: String,
}

pub struct BitbucketActor {
    pub display_name: String,
}

/// The view of an optional string.
pub open spec fn opt_view(o: Option<String>) -> Option<Seq<char>> {
    match o {
        Some(s) => Some(s@),
        None => None,
    }
}

/// Copies an optional string.
pub fn clone_opt(o: &Option<String>) -> (r: Option<String>)
    ensures
        opt_view(r) == opt_view(*o),
{
    match o {
        Some(s) => Some(s.clone()),
        None => None,
    }
}

/// Keeps an optional string only when it is non-empty.
pub open spec fn non_empty(o: Option<Seq<char>>) -> Option<Seq<char>> {
    match o {
        Some(s) => if s.len() > 0 {
            Some(s)
        } else {
            None
        },
        None => None,
    }
}

/// `Option::filter(|s| !s.is_empty())` on a cloned optional string.
pub fn clone_non_empty(o: &Option<String>) -> (r: Option<String>)
    ensures
        opt_view(r) == non_empty(opt_view(*o)),
{
    match o {
        Some(s) => if s.as_str().is_empty() {
            None
        } else {
            Some(s.clone())
        },
        None => None,
    }
}

/// Branch named by a `refs/heads/<branch>` reference, if it has that form.
pub open spec fn heads_branch(r: Option<Seq<char>>) -> Option<Seq<char>> {
    match r {
        Some(s) => if has_prefix(s, "refs/heads/"@) {
            Some(s.subrange(11, s.len() as int))
        } else {
            None
        },
        None => None,
    }
}

fn heads_branch_of(r: &Option<String>) -> (b: Option<String>)
    ensures
        opt_view(b) == heads_branch(opt_view(*r)),
{
    proof {
        reveal_strlit("refs/heads/");
    }
    match r {
        Some(s) => match strip_prefix(s.as_str(), "refs/heads/") {
            Some(rest) => Some(owned(rest)),
            None => None,
        },
        None => None,
    }
}

/// Branch and commit that a GitHub delivery refers to, by event:
/// `push` reads `ref` (under `refs/heads/`) and `after`; `pull_request` reads the head ref and
/// sha; other events carry neither.
pub open spec fn github_refs_spec(event: Seq<char>, p: GitHubWebhookPayload) -> (
    Option<Seq<char>>,
    Option<Seq<char>>,
) {
    if event == "push"@ {
        (heads_branch(opt_view(p.ref_name)), opt_view(p.after))
    } else if event == "pull_request"@ {
        match p.pull_request {
            Some(pr) => (Some(pr.head.ref_name@), Some(pr.head.sha@)),
            None => (None, None),
        }
    } else {
        (None, None)
    }
}

/// Branch and commit of a GitHub delivery for event `event`.
pub fn github_event_refs(event: &str, payload: &GitHubWebhookPayload) -> (r: (
    Option<String>,
    Option<String>,
))
    ensures
        (opt_view(r.0), opt_view(r.1)) == github_refs_spec(event@, *payload),
{
    proof {
        reveal_strlit("push");
        reveal_strlit("pull_request");
    }
    if crate::text::str_eq(event, "push") {
        (heads_branch_of(&payload.ref_name), clone_opt(&payload.after))
    } else if crate::text::str_eq(event, "pull_request") {
        match &payload.pull_request {
            Some(pr) => (Some(pr.head.ref_name.clone()), Some(pr.head.sha.clone())),
            None => (None, None),
        }
    } else {
        (None, None)
    }
}

/// What a GitLab delivery is dispatched as.
pub struct GitLabEventInfo {
    /// `object_kind` of the payload, `unknown` when absent.
    pub object_kind: String,
    /// Event name matched against filters (`merge_request` is filtered as `pull_request`).
    pub event_for_filters: String,
    pub branch: Option<String>,
    pub commit_sha: Option<String>,
}

pub open spec fn gitlab_object_kind(p: GitLabWebhookPayload) -> Seq<char> {
    match p.object_kind {
        Some(k) => k@,
        None => "unknown"@,
    }
}

/// GitLab: `push` reads `ref` (under `refs/heads/`) and `after`; `merge_request` reads the
/// source branch and the id of the last commit.
pub open spec fn gitlab_info_holds(p: GitLabWebhookPayload, info: GitLabEventInfo) -> bool {
    let kind = gitlab_object_kind(p);
    &&& info.object_kind@ == kind
    &&& info.event_for_filters@ == (if kind == "merge_request"@ {
        "pull_request"@
    } else {
        kind
    })
    &&& (opt_view(info.branch), opt_view(info.commit_sha)) == (if kind == "push"@ {
        (heads_branch(opt_view(p.ref_name)), opt_view(p.after))
    } else if kind == "merge_request"@ {
        match p.object_attributes {
            Some(mr) => (
                Some(mr.source_branch@),
                match mr.last_commit {
                    Some(c) => Some(c.id@),
                    None => None,
                },
            ),
            None => (None, None),
        }
    } else {
        (None, None)
    })
}

/// Reads the object kind, filter event, branch and commit of a GitLab delivery.
pub fn gitlab_event_info(payload: &GitLabWebhookPayload) -> (info: GitLabEventInfo)
    ensures
        gitlab_info_holds(*payload, info),
{
    proof {
        reveal_strlit("push");
        reveal_strlit("merge_request");
        reveal_strlit("pull_request");
        reveal_strlit("unknown");
    }
    let kind: String = match &payload.object_kind {
        Some(k) => k.clone(),
        None => owned("unknown"),
    };
    let (branch, commit_sha) = if crate::text::str_eq(kind.as_str(), "push") {
        (heads_branch_of(&payload.ref_name), clone_opt(&payload.after))
    } else if crate::text::str_eq(kind.as_str(), "merge_request") {
        match &payload.object_attributes {
            Some(mr) => (
                Some(mr.source_branch.clone()),
                match &mr.last_commit {
                    Some(c) => Some(c.id.clone()),
                    None => None,
                },
            ),
            None => (None, None),
        }
    } else {
        (None, None)
    };
    let event_for_filters = if crate::text::str_eq(kind.as_str(), "merge_request") {
        owned("pull_request")
    } else {
        kind.clone()
    };
    GitLabEventInfo { object_kind: kind, event_for_filters, branch, commit_sha }
}

/// Bitbucket: a push reads the first change's new ref (name and target hash) and is filtered
/// as `push`; a pull request reads the source branch and is filtered as `pull_request`;
/// anything else keeps the `X-Event-Key` header as its filter event.
pub open spec fn bitbucket_info_spec(p: BitbucketWebhookPayload, event: Seq<char>) -> (
    Option<Seq<char>>,
    Option<Seq<char>>,
    Seq<char>,
) {
    match p.push {
        Some(push) => {
            let new_ref = if push.changes@.len() > 0 {
                push.changes@[0].new
            } else {
                None
            };
            (
                match new_ref {
                    Some(r) => Some(r.name@),
                    None => None,
                },
                match new_ref {
                    Some(r) => match r.target {
                        Some(t) => Some(t.hash@),
                        None => None,
                    },
                    None => None,
                },
                "push"@,
            )
        },
        None => match p.pullrequest {
            Some(pr) => (Some(pr.source.branch.name@), None, "pull_request"@),
            None => (None, None, event),
        },
    }
}

/// Branch, commit and filter event of a Bitbucket delivery whose `X-Event-Key` is `event`.
pub fn bitbucket_event_info(payload: &BitbucketWebhookPayload, event: &str) -> (r: (
    Option<String>,
    Option<String>,
    String,
))
    ensures
        (opt_view(r.0), opt_view(r.1), r.2@) == bitbucket_info_spec(*payload, event@),
{
    match &payload.push {
        Some(push) => {
            let (branch, commit) = if push.changes.len() > 0 {
                match &push.changes[0].new {
                    Some(r) => (
                        Some(r.name.clone()),
                        match &r.target {
                            Some(t) => Some(t.hash.clone()),
                            None => None,
                        },
                    ),
                    None => (None, None),
                }
            } else {
                (None, None)
            };
            (branch, commit, owned("push"))
        },
        None => match &payload.pullrequest {
            Some(pr) => (Some(pr.source.branch.name.clone()), None, owned("pull_request")),
            None => (None, None, owned(event)),
        },
    }
}

/// Fields a generic webhook body contributes to dispatch.
pub struct GenericEventFields {
    /// `event` when non-empty, else `webhook`.
    pub event_type: String,
    pub branch: Option<String>,
    pub commit_sha: Option<String>,
    pub ref_name: Option<String>,
}

/// Reads the non-empty `event`, `branch`, `commit` and `ref_name` of a generic body.
pub fn generic_event_fields(payload: &GenericWebhookPayload) -> (f: GenericEventFields)
    ensures
        f.event_type@ == (match non_empty(opt_view(payload.event)) {
            Some(e) => e,
            None => "webhook"@,
        }),
        opt_view(f.branch) == non_empty(opt_view(payload.branch)),
        opt_view(f.commit_sha) == non_empty(opt_view(payload.commit)),
        opt_view(f.ref_name) == non_empty(opt_view(payload.ref_name)),
{
    let event_type = match clone_non_empty(&payload.event) {
        Some(e) => e,
        None => owned("webhook"),
    };
    GenericEventFields {
        event_type,
        branch: clone_non_empty(&payload.branch),
        commit_sha: clone_non_empty(&payload.commit),
        ref_name: clone_non_empty(&payload.ref_name),
    }
}

} // verus!
