//! Inbound webhook handling: authentication of deliveries, registration checks, fan-out
//! to target pipelines, and the configuration rules for project webhook registrations.
use vstd::prelude::*;
use vstd::utf8::encode_utf8;
use crate::crypto::{constant_time_eq, github_signature_valid, str_bytes, verify_github_signature};
use crate::error::{ApiError, ErrorKind};
use crate::text::{copy_strings, 
    concat2, concat3, decimal, eq_ascii_ci, eq_ignore_ascii_case,
    join, join_seq, owned, str_eq, to_lowercase, trim, trim_str, unicode_lowercase,
    usize_to_string, views,
};
use crate::webhook_payloads::opt_view;
use crate::keyed::{distinct_keys, has_key, keyed_map, lemma_keyed_lookup, lemma_keyed_push, lemma_keyed_update};

verus! {

// ---------------------------------------------------------------------------
// Registration context and responses
// ---------------------------------------------------------------------------

/// What the dispatcher knows about a project webhook registration.
pub struct WebhookRegistrationContext {
    pub registration_id: String,
    pub org_id: String,
    pub project_id: String,
    /// `github`, `gitlab`, `bitbucket` or `generic` (any case).
    pub provider: String,
    /// Event names the registration accepts.
    pub events: Vec<String>,
    /// Stored inbound verifier (HMAC key / query value / GitLab token); empty when none.
    pub secret_verifier: String,
    /// For `generic`: `none`, `hmac` or `query` (any case).
    pub generic_inbound_auth: String,
    pub generic_query_param_name: Option<String>,
}

/// Answer to a webhook delivery.
pub struct WebhookResponse {
    pub accepted: bool,
    pub run_id: Option<String>,
    pub run_ids: Vec<String>,
    pub duplicate: bool,
    pub targets_matched: Option<usize>,
    pub target_errors: Vec<String>,
    pub message: String,
}

/// New inbound secret, shown once.
pub struct RotateInboundSecretResponse {
    pub signing_secret: String,
}

/// Result of configuring an SCM webhook registration.
pub struct SetupScmWebhookResponse {
    pub webhook_id: String,
    pub webhook_url: String,
    pub provider: String,
    pub events: Vec<String>,
    pub signing_secret: Option<String>,
}

/// `v` occurs among the strings of `vs`.
pub open spec fn contains_view(vs: Seq<String>, v: Seq<char>) -> bool {
    exists|i: int| 0 <= i < vs.len() && #[trigger] vs[i]@ == v
}

/// `vs.iter().any(|e| e == v)`.
pub fn contains_string(vs: &Vec<String>, v: &str) -> (r: bool)
    ensures
        r == contains_view(vs@, v@),
{
    let mut i: usize = 0;
    while i < vs.len()
        invariant
            i <= vs@.len(),
            forall|j: int| 0 <= j < i ==> #[trigger] vs@[j]@ != v@,
        decreases vs.len() - i,
    {
        if str_eq(vs[i].as_str(), v) {
            return true;
        }
        i = i + 1;
    }
    false
}

/// A registration accepts an event when it lists it; a `generic` registration with no
/// events accepts every event.
pub open spec fn event_allowed_spec(provider: Seq<char>, events: Seq<String>, event: Seq<char>) -> bool {
    if eq_ascii_ci(provider, "generic"@) {
        events.len() == 0 || contains_view(events, event)
    } else {
        contains_view(events, event)
    }
}

/// Whether the registration's event filter lets `event_type` through.
pub fn registration_event_allowed(ctx: &WebhookRegistrationContext, event_type: &str) -> (r: bool)
    ensures
        r == event_allowed_spec(ctx.provider@, ctx.events@, event_type@),
        eq_ascii_ci(ctx.provider@, "generic"@) && ctx.events@.len() == 0 ==> r,
        (exists|i: int| 0 <= i < ctx.events@.len() && #[trigger] ctx.events@[i]@ == event_type@) ==> r,
{
    if eq_ignore_ascii_case(ctx.provider.as_str(), "generic") {
        ctx.events.len() == 0 || contains_string(&ctx.events, event_type)
    } else {
        contains_string(&ctx.events, event_type)
    }
}

fn first_string(v: &Vec<String>) -> (r: Option<String>)
    ensures
        opt_view(r) == (if v@.len() > 0 {
            Some(v@[0]@)
        } else {
            None
        }),
{
    if v.len() > 0 {
        Some(v[0].clone())
    } else {
        None
    }
}

/// Answer to a delivery that was already claimed: the existing runs, no new dispatch.
pub fn scm_webhook_response_duplicate(run_ids: Vec<String>) -> (r: WebhookResponse)
    ensures
        r.accepted,
        r.duplicate,
        views(r.run_ids@) == views(run_ids@),
        opt_view(r.run_id) == (if run_ids@.len() > 0 {
            Some(run_ids@[0]@)
        } else {
            None
        }),
        r.targets_matched == Some(0usize),
        r.target_errors@.len() == 0,
        r.message@ == "Duplicate delivery; returning existing run ids"@,
{
    let run_id = first_string(&run_ids);
    WebhookResponse {
        accepted: true,
        run_id,
        run_ids: copy_strings(&run_ids),
        duplicate: true,
        targets_matched: Some(0),
        target_errors: Vec::new(),
        message: owned("Duplicate delivery; returning existing run ids"),
    }
}

/// Message of a dispatch answer: the joined target errors when nothing ran and something
/// failed, the fallback when nothing ran, else how many runs were enqueued.
pub open spec fn dispatched_message(
    n_runs: nat,
    errors: Seq<String>,
    fallback: Seq<char>,
) -> Seq<char> {
    if n_runs == 0 && errors.len() > 0 {
        join_seq(views(errors), "; "@)
    } else if n_runs == 0 {
        fallback
    } else {
        "Enqueued "@ + decimal(n_runs) + " run(s)"@
    }
}

/// Answer to a dispatched delivery.
pub fn scm_webhook_response_dispatched(
    run_ids: Vec<String>,
    targets_matched: usize,
    target_errors: Vec<String>,
    fallback_message: &str,
) -> (r: WebhookResponse)
    ensures
        r.accepted,
        !r.duplicate,
        views(r.run_ids@) == views(run_ids@),
        opt_view(r.run_id) == (if run_ids@.len() > 0 {
            Some(run_ids@[0]@)
        } else {
            None
        }),
        r.targets_matched == Some(targets_matched),
        views(r.target_errors@) == views(target_errors@),
        r.message@ == dispatched_message(run_ids@.len(), target_errors@, fallback_message@),
{
    let msg = if run_ids.len() == 0 && target_errors.len() > 0 {
        join(&target_errors, "; ")
    } else if run_ids.len() == 0 {
        owned(fallback_message)
    } else {
        let n = usize_to_string(run_ids.len());
        concat3("Enqueued ", n.as_str(), " run(s)")
    };
    let run_id = first_string(&run_ids);
    let ids = copy_strings(&run_ids);
    WebhookResponse {
        accepted: true,
        run_id,
        run_ids: ids,
        duplicate: false,
        targets_matched: Some(targets_matched),
        target_errors,
        message: msg,
    }
}

/// `"<label> event accepted"`, the fallback message of a registration dispatch.
pub fn event_accepted_label(log_label: &str) -> (r: String)
    ensures
        r@ == log_label@ + " event accepted"@,
{
    concat2(log_label, " event accepted")
}

// ---------------------------------------------------------------------------
// Fan-out to target pipelines
// ---------------------------------------------------------------------------

/// How the fan-out treats one registration target.
pub enum TargetDecision {
    /// Filtered out silently (disabled, event or branch filter).
    Skip,
    /// Reported in `target_errors` with this message.
    Reject(String),
    /// Counted as matched and dispatched.
    Dispatch,
}

/// What the fan-out knows of one target before dispatching it. The filter answers come from
/// the target's `filter_config`, the pipeline facts from the pipeline row (when it exists).
pub struct TargetFacts {
    pub pipeline_id: String,
    pub enabled: bool,
    pub event_allowed: bool,
    pub branch_allowed: bool,
    pub requires_branch: bool,
    pub pipeline_found: bool,
    pub pipeline_in_project: bool,
    pub pipeline_enabled: bool,
}

/// Order of the checks: target enabled, event filter, branch filter (or, without a branch,
/// a filter that requires one), then pipeline existence, project and enablement.
pub open spec fn target_decision_spec(t: TargetFacts, has_branch: bool) -> TargetDecision {
    if !t.enabled || !t.event_allowed {
        TargetDecision::Skip
    } else if has_branch && !t.branch_allowed {
        TargetDecision::Skip
    } else if !has_branch && t.requires_branch {
        TargetDecision::Skip
    } else if !t.pipeline_found {
        TargetDecision::Reject(arbitrary())
    } else if !t.pipeline_in_project {
        TargetDecision::Reject(arbitrary())
    } else if !t.pipeline_enabled {
        TargetDecision::Reject(arbitrary())
    } else {
        TargetDecision::Dispatch
    }
}

/// The message of a rejected target.
pub open spec fn reject_message(t: TargetFacts) -> Seq<char> {
    if !t.pipeline_found {
        "pipeline "@ + t.pipeline_id@ + " not found"@
    } else if !t.pipeline_in_project {
        "pipeline "@ + t.pipeline_id@ + " is not in the webhook project"@
    } else {
        "pipeline "@ + t.pipeline_id@ + " is disabled"@
    }
}

/// Decides what the fan-out does with one target.
pub fn target_decision(t: &TargetFacts, has_branch: bool) -> (d: TargetDecision)
    ensures
        match (d, target_decision_spec(*t, has_branch)) {
            (TargetDecision::Skip, TargetDecision::Skip) => true,
            (TargetDecision::Dispatch, TargetDecision::Dispatch) => true,
            (TargetDecision::Reject(m), TargetDecision::Reject(_)) => m@ == reject_message(*t),
            _ => false,
        },
        !t.enabled || !t.event_allowed ==> d is Skip,
        (d is Dispatch) ==> t.enabled && t.event_allowed && (if has_branch {
            t.branch_allowed
        } else {
            !t.requires_branch
        }) && t.pipeline_found && t.pipeline_in_project && t.pipeline_enabled,
{
    if !t.enabled || !t.event_allowed {
        TargetDecision::Skip
    } else if has_branch && !t.branch_allowed {
        TargetDecision::Skip
    } else if !has_branch && t.requires_branch {
        TargetDecision::Skip
    } else if !t.pipeline_found {
        TargetDecision::Reject(concat3("pipeline ", t.pipeline_id.as_str(), " not found"))
    } else if !t.pipeline_in_project {
        TargetDecision::Reject(
            concat3("pipeline ", t.pipeline_id.as_str(), " is not in the webhook project"),
        )
    } else if !t.pipeline_enabled {
        TargetDecision::Reject(concat3("pipeline ", t.pipeline_id.as_str(), " is disabled"))
    } else {
        TargetDecision::Dispatch
    }
}

/// After the loop: when the event passed and targets existed but nothing ran and nothing
/// failed, one error explains that no target matched.
pub fn finish_fanout_errors(
    event_ok: bool,
    had_targets: bool,
    runs_dispatched: usize,
    target_errors: &mut Vec<String>,
)
    ensures
        (event_ok && had_targets && runs_dispatched == 0 && old(target_errors)@.len() == 0) ==> (
        views(final(target_errors)@) == seq!["no targets matched branch or event filters"@]),
        !(event_ok && had_targets && runs_dispatched == 0 && old(target_errors)@.len() == 0)
            ==> final(target_errors)@ == old(target_errors)@,
{
    if event_ok && had_targets && runs_dispatched == 0 && target_errors.len() == 0 {
        target_errors.push(owned("no targets matched branch or event filters"));
        assert(views(target_errors@) =~= seq!["no targets matched branch or event filters"@]);
    }
}

/// Variables every registration dispatch starts from: the branch and commit when non-empty,
/// and the event type, in that order.
pub fn dispatch_vars_base(branch: Option<&str>, commit_sha: Option<&str>, event_type: &str) -> (r:
    Vec<(String, String)>)
    ensures
        r@.map_values(|p: (String, String)| (p.0@, p.1@)) == (match branch {
            Some(b) => if b@.len() > 0 {
                seq![("webhook_branch"@, b@)]
            } else {
                seq![]
            },
            None => seq![],
        }) + (match commit_sha {
            Some(c) => if c@.len() > 0 {
                seq![("webhook_commit"@, c@)]
            } else {
                seq![]
            },
            None => seq![],
        }) + seq![("webhook_event"@, event_type@)],
{
    let mut r: Vec<(String, String)> = Vec::new();
    let ghost bpart: Seq<(Seq<char>, Seq<char>)> = seq![];
    let ghost cpart: Seq<(Seq<char>, Seq<char>)> = seq![];
    if let Some(b) = branch {
        if !b.is_empty() {
            r.push((owned("webhook_branch"), owned(b)));
            proof {
                bpart = seq![("webhook_branch"@, b@)];
            }
        }
    }
    if let Some(c) = commit_sha {
        if !c.is_empty() {
            r.push((owned("webhook_commit"), owned(c)));
            proof {
                cpart = seq![("webhook_commit"@, c@)];
            }
        }
    }
    r.push((owned("webhook_event"), owned(event_type)));
    assert(r@.map_values(|p: (String, String)| (p.0@, p.1@)) =~= bpart + cpart + seq![
        ("webhook_event"@, event_type@),
    ]);
    r
}

/// What the fan-out has gathered so far: the runs it started, the targets it matched and the
/// errors it reports.
pub struct FanoutAcc {
    pub run_ids: Vec<String>,
    pub matched: usize,
    pub target_errors: Vec<String>,
}

/// A fan-out state as plain values: (run ids, matched count, errors).
pub open spec fn acc_view(a: FanoutAcc) -> (Seq<Seq<char>>, nat, Seq<Seq<char>>) {
    (views(a.run_ids@), a.matched as nat, views(a.target_errors@))
}

/// The error reported for a target whose dispatch failed.
pub open spec fn dispatch_error_message(pipeline_id: Seq<char>, e: Seq<char>) -> Seq<char> {
    "pipeline "@ + pipeline_id + ": "@ + e
}

/// One target's effect on the fan-out: skipped targets change nothing, rejected ones add
/// their message, dispatched ones are counted as matched and add either the new run's id or
/// the dispatch error. The dispatch result is read only for a dispatched target.
pub open spec fn fanout_after(
    v: (Seq<Seq<char>>, nat, Seq<Seq<char>>),
    t: TargetFacts,
    has_branch: bool,
    outcome: Result<Seq<char>, Seq<char>>,
) -> (Seq<Seq<char>>, nat, Seq<Seq<char>>) {
    match target_decision_spec(t, has_branch) {
        TargetDecision::Skip => v,
        TargetDecision::Reject(_) => (v.0, v.1, v.2.push(reject_message(t))),
        TargetDecision::Dispatch => match outcome {
            Ok(run) => (v.0.push(run), v.1 + 1, v.2),
            Err(e) => (v.0, v.1 + 1, v.2.push(dispatch_error_message(t.pipeline_id@, e))),
        },
    }
}

/// The fan-out over targets in order, each with the result its dispatch would have.
pub open spec fn fanout_fold(
    targets: Seq<TargetFacts>,
    outcomes: Seq<Result<Seq<char>, Seq<char>>>,
    has_branch: bool,
) -> (Seq<Seq<char>>, nat, Seq<Seq<char>>)
    decreases targets.len(),
{
    if targets.len() == 0 {
        (Seq::empty(), 0, Seq::empty())
    } else {
        fanout_after(
            fanout_fold(targets.drop_last(), outcomes, has_branch),
            targets.last(),
            has_branch,
            outcomes[targets.len() - 1],
        )
    }
}

/// How many of the targets are enabled.
pub open spec fn enabled_count(targets: Seq<TargetFacts>) -> nat
    decreases targets.len(),
{
    if targets.len() == 0 {
        0
    } else {
        enabled_count(targets.drop_last()) + if targets.last().enabled {
            1nat
        } else {
            0nat
        }
    }
}

/// Along the fan-out, no more runs are started than targets matched, and no more targets
/// match than are enabled.
pub proof fn lemma_fanout_counts(
    targets: Seq<TargetFacts>,
    outcomes: Seq<Result<Seq<char>, Seq<char>>>,
    has_branch: bool,
)
    ensures
        fanout_fold(targets, outcomes, has_branch).0.len() <= fanout_fold(targets, outcomes, has_branch).1,
        fanout_fold(targets, outcomes, has_branch).1 <= enabled_count(targets),
    decreases targets.len(),
{
    if targets.len() > 0 {
        lemma_fanout_counts(targets.drop_last(), outcomes, has_branch);
    }
}

fn string_result_view(o: &Result<String, String>) -> (r: Result<String, String>)
    ensures
        result_view(r) == result_view(*o),
{
    match o {
        Ok(s) => Ok(owned(s.as_str())),
        Err(e) => Err(owned(e.as_str())),
    }
}

/// A dispatch result as plain values.
pub open spec fn result_view(o: Result<String, String>) -> Result<Seq<char>, Seq<char>> {
    match o {
        Ok(s) => Ok(s@),
        Err(e) => Err(e@),
    }
}

/// The dispatch results as plain values.
pub open spec fn results_view(os: Seq<Result<String, String>>) -> Seq<Result<Seq<char>, Seq<char>>> {
    os.map_values(|o: Result<String, String>| result_view(o))
}

/// Applies one target to the fan-out (see [`fanout_after`]); `outcome` is what dispatching
/// the target's pipeline returned, and is read only when the target is dispatched.
pub fn fanout_step(
    acc: &mut FanoutAcc,
    t: &TargetFacts,
    has_branch: bool,
    outcome: &Result<String, String>,
)
    requires
        old(acc).matched < usize::MAX,
    ensures
        acc_view(*final(acc)) == fanout_after(acc_view(*old(acc)), *t, has_branch, result_view(*outcome)),
{
    match target_decision(t, has_branch) {
        TargetDecision::Skip => {},
        TargetDecision::Reject(m) => {
            acc.target_errors.push(m);
            assert(views(acc.target_errors@) =~= views(old(acc).target_errors@).push(reject_message(*t)));
        },
        TargetDecision::Dispatch => {
            acc.matched = acc.matched + 1;
            match outcome {
                Ok(run) => {
                    acc.run_ids.push(owned(run.as_str()));
                    assert(views(acc.run_ids@) =~= views(old(acc).run_ids@).push(run@));
                },
                Err(e) => {
                    let head = concat3("pipeline ", t.pipeline_id.as_str(), ": ");
                    let msg = concat2(head.as_str(), e.as_str());
                    acc.target_errors.push(msg);
                    assert(views(acc.target_errors@) =~= views(old(acc).target_errors@).push(
                        dispatch_error_message(t.pipeline_id@, e@),
                    ));
                },
            }
        },
    }
}

/// `"<provider>:webhook:<delivery id>"`, who the runs of a registration dispatch are
/// triggered by.
pub fn fanout_triggered_by(provider: &str, delivery_id: &str) -> (r: String)
    ensures
        r@ == provider@ + ":webhook:"@ + delivery_id@,
{
    concat3(provider, ":webhook:", delivery_id)
}

/// The error reported when the registration's event filter refuses the delivery.
pub open spec fn event_ignored_error() -> Seq<char> {
    "event type ignored by registration filters"@
}

/// The error reported when the registration has no targets.
pub open spec fn no_targets_error() -> Seq<char> {
    "no pipeline targets configured for this webhook"@
}

/// The answer to a newly claimed registration delivery, given whether its event passes the
/// registration's filter, the registration's targets in order, and for each target what
/// dispatching its pipeline returned (read only for targets that are dispatched):
/// - a filtered event starts nothing and reports only that the event was ignored;
/// - a registration without targets starts nothing and reports only that;
/// - otherwise every target goes through [`fanout_step`], a fan-out that matched nothing
///   and failed nothing reports that no target matched, and the fallback message is
///   `"<label> event accepted"`.
pub fn fanout_response(
    event_ok: bool,
    targets: &Vec<TargetFacts>,
    outcomes: &Vec<Result<String, String>>,
    has_branch: bool,
    log_label: &str,
) -> (r: WebhookResponse)
    requires
        outcomes@.len() == targets@.len(),
    ensures
        r.accepted,
        !r.duplicate,
        opt_view(r.run_id) == (if r.run_ids@.len() > 0 {
            Some(r.run_ids@[0]@)
        } else {
            None
        }),
        !event_ok ==> r.run_ids@.len() == 0 && r.targets_matched == Some(0usize) && views(
            r.target_errors@,
        ) == seq![event_ignored_error()] && r.message@ == event_ignored_error(),
        event_ok && targets@.len() == 0 ==> r.run_ids@.len() == 0 && r.targets_matched == Some(
            0usize,
        ) && views(r.target_errors@) == seq![no_targets_error()] && r.message@
            == no_targets_error(),
        event_ok && targets@.len() > 0 ==> {
            let f = fanout_fold(targets@, results_view(outcomes@), has_branch);
            let errs = if f.0.len() == 0 && f.2.len() == 0 {
                seq!["no targets matched branch or event filters"@]
            } else {
                f.2
            };
            &&& views(r.run_ids@) == f.0
            &&& r.targets_matched == Some(f.1 as usize)
            &&& views(r.target_errors@) == errs
            &&& r.message@ == dispatched_message_views(f.0.len(), errs, log_label@ + " event accepted"@)
        },
        r.targets_matched matches Some(m) && r.run_ids@.len() <= m && m <= enabled_count(targets@),
{
    if !event_ok {
        let mut errs: Vec<String> = Vec::new();
        errs.push(owned("event type ignored by registration filters"));
        proof {
            assert(views(errs@) =~= seq![event_ignored_error()]);
            reveal_with_fuel(join_seq, 2);
        }
        let r = scm_webhook_response_dispatched(Vec::new(), 0, errs, log_label);
        assert(views(r.run_ids@).len() == r.run_ids@.len());
        assert(views(r.target_errors@)[0] == event_ignored_error());
        return r;
    }
    if targets.len() == 0 {
        let mut errs: Vec<String> = Vec::new();
        errs.push(owned("no pipeline targets configured for this webhook"));
        let fallback = event_accepted_label(log_label);
        proof {
            assert(views(errs@) =~= seq![no_targets_error()]);
            reveal_with_fuel(join_seq, 2);
        }
        let r = scm_webhook_response_dispatched(Vec::new(), 0, errs, fallback.as_str());
        assert(views(r.run_ids@).len() == r.run_ids@.len());
        assert(views(r.target_errors@)[0] == no_targets_error());
        return r;
    }
    let mut acc = FanoutAcc { run_ids: Vec::new(), matched: 0, target_errors: Vec::new() };
    let ghost ov = results_view(outcomes@);
    let mut i: usize = 0;
    assert(acc_view(acc) =~= fanout_fold(targets@.subrange(0, 0), ov, has_branch));
    while i < targets.len()
        invariant
            i <= targets@.len(),
            outcomes@.len() == targets@.len(),
            ov == results_view(outcomes@),
            acc.matched <= i,
            acc_view(acc) == fanout_fold(targets@.subrange(0, i as int), ov, has_branch),
        decreases targets.len() - i,
    {
        let ghost before = acc_view(acc);
        proof {
            lemma_fanout_counts(targets@.subrange(0, i as int), ov, has_branch);
        }
        fanout_step(&mut acc, &targets[i], has_branch, &outcomes[i]);
        proof {
            let s = targets@.subrange(0, i as int + 1);
            assert(s.drop_last() =~= targets@.subrange(0, i as int));
            assert(s.last() == targets@[i as int]);
            assert(ov[i as int] == result_view(outcomes@[i as int]));
        }
        i = i + 1;
    }
    assert(targets@.subrange(0, targets@.len() as int) =~= targets@);
    proof {
        lemma_fanout_counts(targets@, ov, has_branch);
    }
    let ghost f = fanout_fold(targets@, ov, has_branch);
    let ghost errs_before = acc.target_errors@;
    finish_fanout_errors(true, true, acc.run_ids.len(), &mut acc.target_errors);
    let fallback = event_accepted_label(log_label);
    let ghost ids = acc.run_ids@;
    let r = scm_webhook_response_dispatched(acc.run_ids, acc.matched, acc.target_errors, fallback.as_str());
    assert(views(r.run_ids@).len() == r.run_ids@.len());
    proof {
        if ids.len() > 0 {
            assert(views(ids)[0] == ids[0]@);
            assert(views(r.run_ids@)[0] == r.run_ids@[0]@);
        }
        if f.0.len() == 0 && f.2.len() == 0 {
            assert(views(errs_before).len() == 0);
        }
    }
    r
}

/// [`dispatched_message`] over the views of the errors.
pub open spec fn dispatched_message_views(n_runs: nat, errors: Seq<Seq<char>>, fallback: Seq<char>) -> Seq<char> {
    if n_runs == 0 && errors.len() > 0 {
        join_seq(errors, "; "@)
    } else if n_runs == 0 {
        fallback
    } else {
        "Enqueued "@ + decimal(n_runs) + " run(s)"@
    }
}

/// The answer when a single webhook trigger started its pipeline run.
pub fn single_trigger_accepted(run_id: &str) -> (r: WebhookResponse)
    ensures
        r.accepted,
        !r.duplicate,
        opt_view(r.run_id) == Some(run_id@),
        views(r.run_ids@) == seq![run_id@],
        r.targets_matched == Some(1usize),
        r.target_errors@.len() == 0,
        r.message@ == "Webhook accepted; pipeline run created"@,
{
    let mut ids: Vec<String> = Vec::new();
    ids.push(owned(run_id));
    assert(views(ids@) =~= seq![run_id@]);
    WebhookResponse {
        accepted: true,
        run_id: Some(owned(run_id)),
        run_ids: ids,
        duplicate: false,
        targets_matched: Some(1),
        target_errors: Vec::new(),
        message: owned("Webhook accepted; pipeline run created"),
    }
}

// ---------------------------------------------------------------------------
// Registration lookups
// ---------------------------------------------------------------------------

/// A registration is served at `/webhooks/{provider}/...` only when it belongs to the org in
/// the path and its lowercased provider is the expected one; otherwise `Webhook not found`.
pub fn check_inbound_registration(
    ctx: Option<&WebhookRegistrationContext>,
    path_org_id: &str,
    expected_provider: &str,
) -> (r: Result<(), ApiError>)
    ensures
        r is Ok <==> (match ctx {
            Some(c) => c.org_id@ == path_org_id@ && unicode_lowercase(c.provider@)
                == expected_provider@,
            None => false,
        }),
        r matches Err(e) ==> e.is(ErrorKind::NotFound, "Webhook not found"@),
{
    match ctx {
        None => Err(ApiError::not_found("Webhook not found")),
        Some(c) => {
            if !str_eq(c.org_id.as_str(), path_org_id) {
                return Err(ApiError::not_found("Webhook not found"));
            }
            let p = to_lowercase(c.provider.as_str());
            if !str_eq(p.as_str(), expected_provider) {
                return Err(ApiError::not_found("Webhook not found"));
            }
            Ok(())
        },
    }
}

/// The generic URL also serves project `generic` registrations: the registration must exist,
/// belong to the path org, and be of provider `generic` (ASCII case-insensitive).
pub fn check_generic_registration(ctx: Option<&WebhookRegistrationContext>, path_org_id: &str) -> (r:
    Result<(), ApiError>)
    ensures
        r is Ok <==> (match ctx {
            Some(c) => c.org_id@ == path_org_id@ && eq_ascii_ci(c.provider@, "generic"@),
            None => false,
        }),
        r matches Err(e) ==> e.is(ErrorKind::NotFound, "trigger"@),
{
    match ctx {
        None => Err(ApiError::not_found("trigger")),
        Some(c) => {
            if !str_eq(c.org_id.as_str(), path_org_id) {
                return Err(ApiError::not_found("trigger"));
            }
            if !eq_ignore_ascii_case(c.provider.as_str(), "generic") {
                return Err(ApiError::not_found("trigger"));
            }
            Ok(())
        },
    }
}

/// A pipeline trigger reached through the generic URL must be a webhook trigger
/// (`NotFound "trigger"`) and enabled (`BadRequest "trigger is disabled"`).
pub fn check_pipeline_trigger(is_webhook_kind: bool, enabled: bool) -> (r: Result<(), ApiError>)
    ensures
        r is Ok <==> is_webhook_kind && enabled,
        !is_webhook_kind ==> (r matches Err(e) && e.is(ErrorKind::NotFound, "trigger"@)),
        is_webhook_kind && !enabled ==> (r matches Err(e) && e.is(
            ErrorKind::BadRequest,
            "trigger is disabled"@,
        )),
{
    if !is_webhook_kind {
        return Err(ApiError::not_found("trigger"));
    }
    if !enabled {
        return Err(ApiError::bad_request("trigger is disabled"));
    }
    Ok(())
}

/// A body larger than `max_bytes` is refused with the limit in the message.
pub fn check_webhook_body_size(len: usize, max_bytes: usize) -> (r: Result<(), ApiError>)
    ensures
        r is Ok <==> len <= max_bytes,
        r matches Err(e) ==> e.is(
            ErrorKind::BadRequest,
            "webhook body exceeds maximum size ("@ + decimal(max_bytes as nat) + " bytes)"@,
        ),
{
    if len > max_bytes {
        let n = usize_to_string(max_bytes);
        return Err(ApiError::new(ErrorKind::BadRequest, concat3("webhook body exceeds maximum size (", n.as_str(), " bytes)")));
    }
    Ok(())
}

// ---------------------------------------------------------------------------
// Caller address
// ---------------------------------------------------------------------------

/// Index of the first `c` in `s`, or its length.
pub open spec fn index_of_or_len(s: Seq<char>, c: char) -> int
    decreases s.len(),
{
    if s.len() == 0 {
        0
    } else if s[0] == c {
        0
    } else {
        1 + index_of_or_len(s.subrange(1, s.len() as int), c)
    }
}

/// The text before the first comma (`split(',').next()`).
pub open spec fn first_comma_field(s: Seq<char>) -> Seq<char> {
    s.subrange(0, index_of_or_len(s, ','))
}

proof fn lemma_index_of_or_len(s: Seq<char>, c: char, k: int)
    requires
        0 <= k <= s.len(),
        forall|j: int| 0 <= j < k ==> s[j] != c,
        k == s.len() || s[k] == c,
    ensures
        index_of_or_len(s, c) == k,
    decreases k,
{
    if k > 0 {
        let t = s.subrange(1, s.len() as int);
        assert forall|j: int| 0 <= j < k - 1 implies t[j] != c by {
            assert(t[j] == s[j + 1]);
        }
        if k < s.len() {
            assert(t[k - 1] == s[k]);
        }
        lemma_index_of_or_len(t, c, k - 1);
    }
}

fn first_comma_field_of(s: &str) -> (r: &str)
    ensures
        r@ == first_comma_field(s@),
{
    let n = s.unicode_len();
    let mut i: usize = 0;
    while i < n && s.get_char(i) != ','
        invariant
            n == s@.len(),
            i <= n,
            forall|j: int| 0 <= j < i ==> s@[j] != ',',
        decreases n - i,
    {
        i = i + 1;
    }
    proof {
        lemma_index_of_or_len(s@, ',', i as int);
    }
    s.substring_char(0, i)
}

/// Address attributed to a webhook caller: the first `X-Forwarded-For` entry (trimmed) when
/// non-empty, else the trimmed `X-Real-IP` when non-empty, else the TCP peer address.
pub open spec fn client_ip_spec(
    forwarded_for: Option<Seq<char>>,
    real_ip: Option<Seq<char>>,
    peer_ip: Seq<char>,
) -> Seq<char> {
    let xff = match forwarded_for {
        Some(raw) => trim(first_comma_field(raw)),
        None => Seq::empty(),
    };
    let real_field = match real_ip {
        Some(raw) => trim(raw),
        None => Seq::empty(),
    };
    if xff.len() > 0 {
        xff
    } else if real_field.len() > 0 {
        real_field
    } else {
        peer_ip
    }
}

/// The caller address of a webhook delivery, preferring proxy headers.
pub fn webhook_client_ip(forwarded_for: Option<&str>, real_ip: Option<&str>, peer_ip: &str) -> (r:
    String)
    ensures
        r@ == client_ip_spec(
            match forwarded_for {
                Some(s) => Some(s@),
                None => None,
            },
            match real_ip {
                Some(s) => Some(s@),
                None => None,
            },
            peer_ip@,
        ),
{
    if let Some(raw) = forwarded_for {
        let first = trim_str(first_comma_field_of(raw));
        if !first.is_empty() {
            return owned(first);
        }
    }
    if let Some(raw) = real_ip {
        let ip = trim_str(raw);
        if !ip.is_empty() {
            return owned(ip);
        }
    }
    owned(peer_ip)
}

// ---------------------------------------------------------------------------
// Query string
// ---------------------------------------------------------------------------

/// Name/value pairs that `url::form_urlencoded::parse` yields for a query string
/// (split on `&`, then on the first `=`, with `+` and percent escapes decoded).
pub uninterp spec fn form_urlencoded_pairs(query: Seq<u8>) -> Seq<(Seq<char>, Seq<char>)>;

/// Calls `url::form_urlencoded::parse` and collects the decoded pairs as owned strings;
/// the pairs, in order, are named `form_urlencoded_pairs(query)`.
#[verifier::external_body]
fn parse_query_pairs(query: &[u8]) -> (r: Vec<(String, String)>)
    ensures
        r@.map_values(|p: (String, String)| (p.0@, p.1@)) == form_urlencoded_pairs(query@),
{
    url::form_urlencoded::parse(query).map(|(k, v)| (k.into_owned(), v.into_owned())).collect()
}

/// Value of the first pair named `key`.
pub open spec fn first_value(pairs: Seq<(Seq<char>, Seq<char>)>, key: Seq<char>) -> Option<
    Seq<char>,
>
    decreases pairs.len(),
{
    if pairs.len() == 0 {
        None
    } else if pairs[0].0 == key {
        Some(pairs[0].1)
    } else {
        first_value(pairs.subrange(1, pairs.len() as int), key)
    }
}

/// The decoded value of the first `key` parameter of a query string.
pub open spec fn query_value_spec(query: Option<Seq<char>>, key: Seq<char>) -> Option<Seq<char>> {
    match query {
        Some(q) => first_value(form_urlencoded_pairs(encode_utf8(q)), key),
        None => None,
    }
}

proof fn lemma_first_value_skip(pairs: Seq<(Seq<char>, Seq<char>)>, key: Seq<char>, i: int)
    requires
        0 <= i <= pairs.len(),
        forall|j: int| 0 <= j < i ==> pairs[j].0 != key,
    ensures
        first_value(pairs, key) == first_value(pairs.subrange(i, pairs.len() as int), key),
    decreases i,
{
    if i > 0 {
        let t = pairs.subrange(1, pairs.len() as int);
        assert forall|j: int| 0 <= j < i - 1 implies t[j].0 != key by {
            assert(t[j] == pairs[j + 1]);
        }
        lemma_first_value_skip(t, key, i - 1);
        assert(t.subrange(i - 1, t.len() as int) =~= pairs.subrange(i, pairs.len() as int));
    } else {
        assert(pairs.subrange(0, pairs.len() as int) =~= pairs);
    }
}

/// First value of the query parameter `key`, decoded.
pub fn query_param_first_raw(query: Option<&str>, key: &str) -> (r: Option<String>)
    ensures
        opt_view(r) == query_value_spec(
            match query {
                Some(q) => Some(q@),
                None => None,
            },
            key@,
        ),
{
    let q = match query {
        Some(q) => q,
        None => {
            return None;
        },
    };
    let pairs = parse_query_pairs(str_bytes(q));
    let ghost pv = pairs@.map_values(|p: (String, String)| (p.0@, p.1@));
    let mut i: usize = 0;
    while i < pairs.len()
        invariant
            i <= pairs@.len(),
            query == Some(q),
            pv == pairs@.map_values(|p: (String, String)| (p.0@, p.1@)),
            pv == form_urlencoded_pairs(encode_utf8(q@)),
            forall|j: int| 0 <= j < i ==> #[trigger] pv[j].0 != key@,
        decreases pairs.len() - i,
    {
        if str_eq(pairs[i].0.as_str(), key) {
            proof {
                assert(pv[i as int] == (pairs@[i as int].0@, pairs@[i as int].1@));
                lemma_first_value_skip(pv, key@, i as int);
                let t = pv.subrange(i as int, pv.len() as int);
                assert(t[0] == pv[i as int]);
            }
            return Some(pairs[i].1.clone());
        }
        i = i + 1;
    }
    proof {
        lemma_first_value_skip(pv, key@, i as int);
    }
    None
}

// ---------------------------------------------------------------------------
// Inbound authentication
// ---------------------------------------------------------------------------

/// Outcome of authenticating a delivery: `None` accepts, `Some((kind, message))` refuses.
pub type AuthOutcome = Option<(ErrorKind, Seq<char>)>;

/// The result value that stands for an [`AuthOutcome`].
pub open spec fn outcome_matches(r: Result<(), ApiError>, o: AuthOutcome) -> bool {
    match o {
        None => r is Ok,
        Some((k, m)) => r matches Err(e) && e.is(k, m),
    }
}

/// HMAC check shared by all modes that sign the body: the signature header is required and
/// must match.
pub open spec fn hmac_outcome(secret: Seq<u8>, signature: Option<Seq<char>>, body: Seq<u8>) -> AuthOutcome {
    match signature {
        None => Some((ErrorKind::BadRequest, "Missing X-Hub-Signature-256 header"@)),
        Some(sig) => if github_signature_valid(secret, body, sig) {
            None
        } else {
            Some((ErrorKind::Forbidden, "Invalid webhook signature"@))
        },
    }
}

/// Query-parameter check: the parameter must be present and equal the secret.
pub open spec fn query_outcome(got: Option<Seq<char>>, secret: Seq<char>) -> AuthOutcome {
    match got {
        None => Some((ErrorKind::Forbidden, "Missing webhook authentication query parameter"@)),
        Some(g) => if g == secret {
            None
        } else {
            Some((ErrorKind::Forbidden, "Invalid webhook query authentication"@))
        },
    }
}

pub open spec fn opt_str_view(o: Option<&str>) -> Option<Seq<char>> {
    match o {
        Some(s) => Some(s@),
        None => None,
    }
}

fn check_hmac(secret: &[u8], signature: Option<&str>, body: &[u8]) -> (r: Result<(), ApiError>)
    ensures
        outcome_matches(r, hmac_outcome(secret@, opt_str_view(signature), body@)),
{
    let sig = match signature {
        Some(s) => s,
        None => {
            return Err(ApiError::bad_request("Missing X-Hub-Signature-256 header"));
        },
    };
    if !verify_github_signature(secret, body, sig) {
        return Err(ApiError::forbidden("Invalid webhook signature"));
    }
    Ok(())
}

fn check_query(query: Option<&str>, param: &str, secret: &str) -> (r: Result<(), ApiError>)
    ensures
        outcome_matches(r, query_outcome(query_value_spec(opt_str_view(query), param@), secret@)),
{
    let got = match query_param_first_raw(query, param) {
        Some(g) => g,
        None => {
            return Err(ApiError::forbidden("Missing webhook authentication query parameter"));
        },
    };
    let same = constant_time_eq(str_bytes(got.as_str()), str_bytes(secret));
    proof {
        vstd::utf8::encode_utf8_decode_utf8(got@);
        vstd::utf8::encode_utf8_decode_utf8(secret@);
    }
    if !same {
        return Err(ApiError::forbidden("Invalid webhook query authentication"));
    }
    Ok(())
}

/// Inbound authentication of a project `generic` registration, by its lowercased mode:
/// `none` accepts; `hmac` accepts when no secret is stored, else checks the signature;
/// `query` needs a parameter name and a secret (else the registration is misconfigured)
/// and compares the parameter with the secret; other modes are unsupported.
pub open spec fn generic_auth_spec(
    ctx: WebhookRegistrationContext,
    query: Option<Seq<char>>,
    signature: Option<Seq<char>>,
    body: Seq<u8>,
) -> AuthOutcome {
    let mode = unicode_lowercase(ctx.generic_inbound_auth@);
    let secret = ctx.secret_verifier@;
    if mode == "none"@ {
        None
    } else if mode == "hmac"@ {
        if secret.len() == 0 {
            None
        } else {
            hmac_outcome(encode_utf8(secret), signature, body)
        }
    } else if mode == "query"@ {
        let param = match opt_view(ctx.generic_query_param_name) {
            Some(p) => trim(p),
            None => Seq::empty(),
        };
        if param.len() == 0 {
            Some((ErrorKind::Internal, "webhook registration is misconfigured (query auth without parameter name)"@)
            )
        } else if secret.len() == 0 {
            Some((ErrorKind::Internal, "webhook registration is misconfigured (query auth without secret)"@))
        } else {
            query_outcome(query_value_spec(query, param), secret)
        }
    } else {
        Some((ErrorKind::Internal, "unsupported generic_inbound_auth"@))
    }
}

/// Authenticates a delivery to a project `generic` registration.
pub fn verify_generic_inbound_auth(
    ctx: &WebhookRegistrationContext,
    query: Option<&str>,
    signature: Option<&str>,
    body: &[u8],
) -> (r: Result<(), ApiError>)
    ensures
        outcome_matches(r, generic_auth_spec(*ctx, opt_str_view(query), opt_str_view(signature), body@)),
{
    proof {
        reveal_strlit("none");
        reveal_strlit("hmac");
        reveal_strlit("query");
        reveal_strlit("");
    }
    let mode = to_lowercase(ctx.generic_inbound_auth.as_str());
    if str_eq(mode.as_str(), "none") {
        Ok(())
    } else if str_eq(mode.as_str(), "hmac") {
        if ctx.secret_verifier.as_str().is_empty() {
            return Ok(());
        }
        check_hmac(str_bytes(ctx.secret_verifier.as_str()), signature, body)
    } else if str_eq(mode.as_str(), "query") {
        let param: &str = match &ctx.generic_query_param_name {
            Some(p) => trim_str(p.as_str()),
            None => "",
        };
        if param.is_empty() {
            return Err(
                ApiError::internal(
                    "webhook registration is misconfigured (query auth without parameter name)",
                ),
            );
        }
        if ctx.secret_verifier.as_str().is_empty() {
            return Err(
                ApiError::internal("webhook registration is misconfigured (query auth without secret)"),
            );
        }
        check_query(query, param, ctx.secret_verifier.as_str())
    } else {
        Err(ApiError::internal("unsupported generic_inbound_auth"))
    }
}

/// Inbound settings of a pipeline webhook trigger.
pub struct WebhookInboundConfig {
    /// The trigger's effective inbound authentication mode.
    pub inbound_auth: String,
    pub secret: Option<String>,
    pub inbound_query_param: Option<String>,
}

/// Inbound authentication of a pipeline webhook trigger, by its mode (compared exactly):
/// `none` accepts; `hmac` needs a non-empty secret and a valid signature; `query` needs a
/// parameter name and a secret and compares the parameter with the secret.
pub open spec fn trigger_auth_spec(
    cfg: WebhookInboundConfig,
    query: Option<Seq<char>>,
    signature: Option<Seq<char>>,
    body: Seq<u8>,
) -> AuthOutcome {
    let mode = cfg.inbound_auth@;
    let secret = match opt_view(cfg.secret) {
        Some(s) => s,
        None => Seq::empty(),
    };
    if mode == "none"@ {
        None
    } else if mode == "hmac"@ {
        if secret.len() == 0 {
            Some((ErrorKind::BadRequest, "webhook trigger misconfigured: hmac inbound_auth without secret"@))
        } else {
            hmac_outcome(encode_utf8(secret), signature, body)
        }
    } else if mode == "query"@ {
        let param = match opt_view(cfg.inbound_query_param) {
            Some(p) => trim(p),
            None => Seq::empty(),
        };
        if param.len() == 0 {
            Some((ErrorKind::Internal, "webhook trigger misconfigured (query auth without inbound_query_param)"@)
            )
        } else if secret.len() == 0 {
            Some((ErrorKind::Internal, "webhook trigger misconfigured (query auth without secret)"@))
        } else {
            query_outcome(query_value_spec(query, param), secret)
        }
    } else {
        Some((ErrorKind::Internal, "unsupported pipeline inbound_auth"@))
    }
}

/// Authenticates a delivery to a pipeline webhook trigger.
pub fn verify_pipeline_trigger_inbound_auth(
    cfg: &WebhookInboundConfig,
    query: Option<&str>,
    signature: Option<&str>,
    body: &[u8],
) -> (r: Result<(), ApiError>)
    ensures
        outcome_matches(r, trigger_auth_spec(*cfg, opt_str_view(query), opt_str_view(signature), body@)),
        cfg.inbound_auth@ == "none"@ ==> r is Ok,
{
    proof {
        reveal_strlit("none");
        reveal_strlit("hmac");
        reveal_strlit("query");
        reveal_strlit("");
    }
    let secret: &str = match &cfg.secret {
        Some(s) => s.as_str(),
        None => "",
    };
    let mode = cfg.inbound_auth.as_str();
    if str_eq(mode, "none") {
        Ok(())
    } else if str_eq(mode, "hmac") {
        if secret.is_empty() {
            return Err(
                ApiError::bad_request("webhook trigger misconfigured: hmac inbound_auth without secret"),
            );
        }
        check_hmac(str_bytes(secret), signature, body)
    } else if str_eq(mode, "query") {
        let param: &str = match &cfg.inbound_query_param {
            Some(p) => trim_str(p.as_str()),
            None => "",
        };
        if param.is_empty() {
            return Err(
                ApiError::internal(
                    "webhook trigger misconfigured (query auth without inbound_query_param)",
                ),
            );
        }
        if secret.is_empty() {
            return Err(ApiError::internal("webhook trigger misconfigured (query auth without secret)"));
        }
        check_query(query, param, secret)
    } else {
        Err(ApiError::internal("unsupported pipeline inbound_auth"))
    }
}

/// GitHub registrations with a stored secret require a valid `X-Hub-Signature-256`.
pub fn check_github_registration_signature(secret: &str, signature: Option<&str>, body: &[u8]) -> (r:
    Result<(), ApiError>)
    ensures
        outcome_matches(
            r,
            if secret@.len() == 0 {
                None
            } else {
                hmac_outcome(encode_utf8(secret@), opt_str_view(signature), body@)
            },
        ),
{
    if secret.is_empty() {
        return Ok(());
    }
    check_hmac(str_bytes(secret), signature, body)
}

/// GitLab registrations with a stored secret require an equal `X-Gitlab-Token`.
pub fn check_gitlab_token(secret: &str, token: Option<&str>) -> (r: Result<(), ApiError>)
    ensures
        outcome_matches(
            r,
            if secret@.len() == 0 {
                None
            } else {
                match token {
                    None => Some((ErrorKind::BadRequest, "Missing X-Gitlab-Token header"@)),
                    Some(t) => if t@ == secret@ {
                        None
                    } else {
                        Some((ErrorKind::Forbidden, "Invalid GitLab webhook token"@))
                    },
                }
            },
        ),
{
    if secret.is_empty() {
        return Ok(());
    }
    let t = match token {
        Some(t) => t,
        None => {
            return Err(ApiError::bad_request("Missing X-Gitlab-Token header"));
        },
    };
    let same = constant_time_eq(str_bytes(t), str_bytes(secret));
    proof {
        vstd::utf8::encode_utf8_decode_utf8(t@);
        vstd::utf8::encode_utf8_decode_utf8(secret@);
    }
    if !same {
        return Err(ApiError::forbidden("Invalid GitLab webhook token"));
    }
    Ok(())
}

/// What claiming a delivery found: it is new (and is now recorded with no runs), or it was
/// claimed before, with the runs recorded for it then.
pub enum DeliveryClaim {
    New,
    Duplicate(Vec<String>),
}

/// The delivery store as plain values: (provider, delivery id) to recorded run ids.
pub type DeliveryMap = Map<(Seq<char>, Seq<char>), Seq<Seq<char>>>;

/// Claiming a delivery: a delivery already claimed leaves the store as it is and reports
/// its recorded runs; a new one is recorded with no runs.
pub open spec fn claim_spec(m: DeliveryMap, k: (Seq<char>, Seq<char>)) -> (DeliveryMap, Option<Seq<Seq<char>>>) {
    if m.dom().contains(k) {
        (m, Some(m[k]))
    } else {
        (m.insert(k, Seq::empty()), None)
    }
}

/// Recording the runs a claimed delivery started (a delivery never claimed is left out).
pub open spec fn record_spec(m: DeliveryMap, k: (Seq<char>, Seq<char>), ids: Seq<Seq<char>>) -> DeliveryMap {
    if m.dom().contains(k) {
        m.insert(k, ids)
    } else {
        m
    }
}

/// Deliveries claimed so far, at most one entry per (provider, delivery id).
pub struct DeliveryClaims {
    entries: Vec<((String, String), Vec<String>)>,
}

/// The entries as a [`DeliveryMap`].
pub open spec fn deliveries_view(e: Seq<((String, String), Vec<String>)>) -> DeliveryMap {
    Map::new(
        |k: (Seq<char>, Seq<char>)| keyed_map(e).dom().contains(k),
        |k: (Seq<char>, Seq<char>)| views(keyed_map(e)[k]@),
    )
}

impl DeliveryClaims {
    /// The claimed deliveries and their recorded runs.
    pub closed spec fn view_map(&self) -> DeliveryMap {
        deliveries_view(self.entries@)
    }

    /// At most one entry per delivery.
    pub closed spec fn wf(&self) -> bool {
        distinct_keys(self.entries@)
    }

    /// No delivery claimed yet.
    pub fn new() -> (r: DeliveryClaims)
        ensures
            r.wf(),
            r.view_map() == DeliveryMap::empty(),
    {
        let r = DeliveryClaims { entries: Vec::new() };
        assert(r.view_map() =~= DeliveryMap::empty());
        r
    }

    fn position(&self, provider: &str, delivery_id: &str) -> (r: Option<usize>)
        ensures
            match r {
                Some(i) => i < self.entries@.len() && self.entries@[i as int].0@ == (
                    provider@,
                    delivery_id@,
                ),
                None => !has_key(self.entries@, (provider@, delivery_id@)),
            },
    {
        let mut i: usize = 0;
        while i < self.entries.len()
            invariant
                i <= self.entries@.len(),
                forall|j: int|
                    0 <= j < i ==> (#[trigger] self.entries@[j]).0@ != (provider@, delivery_id@),
            decreases self.entries.len() - i,
        {
            if str_eq(self.entries[i].0.0.as_str(), provider) && str_eq(
                self.entries[i].0.1.as_str(),
                delivery_id,
            ) {
                return Some(i);
            }
            i = i + 1;
        }
        None
    }

    /// Claims a delivery (see [`claim_spec`]).
    pub fn claim(&mut self, provider: &str, delivery_id: &str) -> (r: DeliveryClaim)
        requires
            old(self).wf(),
        ensures
            final(self).wf(),
            final(self).view_map() == claim_spec(old(self).view_map(), (provider@, delivery_id@)).0,
            match (r, claim_spec(old(self).view_map(), (provider@, delivery_id@)).1) {
                (DeliveryClaim::New, None) => true,
                (DeliveryClaim::Duplicate(ids), Some(s)) => views(ids@) == s,
                _ => false,
            },
    {
        let ghost k = (provider@, delivery_id@);
        match self.position(provider, delivery_id) {
            Some(i) => {
                proof {
                    lemma_keyed_lookup(self.entries@, i as int);
                }
                let ids = copy_strings(&self.entries[i].1);
                DeliveryClaim::Duplicate(ids)
            },
            None => {
                let e = ((owned(provider), owned(delivery_id)), Vec::new());
                proof {
                    lemma_keyed_push(self.entries@, e);
                }
                assert(e.0@ == k);
                assert(views(e.1@) =~= Seq::<Seq<char>>::empty());
                let ghost ev = e;
                self.entries.push(e);
                assert(keyed_map(self.entries@) == keyed_map(old(self).entries@).insert(k, ev.1));
                assert(self.view_map() =~= old(self).view_map().insert(k, Seq::empty()));
                DeliveryClaim::New
            },
        }
    }

    /// Records the runs a claimed delivery started (see [`record_spec`]).
    pub fn record_run_ids(&mut self, provider: &str, delivery_id: &str, run_ids: &Vec<String>)
        requires
            old(self).wf(),
        ensures
            final(self).wf(),
            final(self).view_map() == record_spec(
                old(self).view_map(),
                (provider@, delivery_id@),
                views(run_ids@),
            ),
    {
        let ghost k = (provider@, delivery_id@);
        match self.position(provider, delivery_id) {
            Some(i) => {
                let e = ((owned(provider), owned(delivery_id)), copy_strings(run_ids));
                proof {
                    lemma_keyed_lookup(self.entries@, i as int);
                    lemma_keyed_update(self.entries@, i as int, e);
                }
                self.entries.set(i, e);
                assert(self.view_map() =~= old(self).view_map().insert(k, views(run_ids@)));
            },
            None => {
                assert(!old(self).view_map().dom().contains(k));
            },
        }
    }
}

/// What the dispatcher does once a delivery is claimed.
pub enum ClaimStep {
    /// Answer at once; nothing is dispatched.
    Reply(WebhookResponse),
    /// Go on to the registration's targets.
    Dispatch,
}

/// A delivery claimed before is answered as a duplicate with its recorded runs and
/// dispatches nothing; a new one goes on to dispatch.
pub fn delivery_claim_step(claim: DeliveryClaim) -> (r: ClaimStep)
    ensures
        match claim {
            DeliveryClaim::New => r is Dispatch,
            DeliveryClaim::Duplicate(ids) => r matches ClaimStep::Reply(resp) && resp.accepted
                && resp.duplicate && views(resp.run_ids@) == views(ids@) && opt_view(resp.run_id)
                == (if ids@.len() > 0 {
                Some(ids@[0]@)
            } else {
                None
            }) && resp.targets_matched == Some(0usize) && resp.target_errors@.len() == 0
                && resp.message@ == "Duplicate delivery; returning existing run ids"@,
        },
{
    match claim {
        DeliveryClaim::New => ClaimStep::Dispatch,
        DeliveryClaim::Duplicate(ids) => ClaimStep::Reply(scm_webhook_response_duplicate(ids)),
    }
}

} // verus!
