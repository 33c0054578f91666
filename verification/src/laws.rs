//! Properties that hold across the library's functions.
use vstd::prelude::*;
use crate::crypto::{github_signature_valid, hmac_sha256_spec, sig_prefix};
use crate::diagnostics::{
    any_blocking, blocking_line, blocking_lines, declared_outputs_ok, opt_views,
    WorkflowDiagnosticItem,
};
use crate::join_tokens::{scope_name, JoinTokenScope};
use crate::listing::{cursor_offset, join_token_limit_spec};
use crate::members::{api_role_of, db_role_of};
use crate::oidc::{issuer_base_spec, strip_trailing_slashes};
use crate::ordering::lemma_sorted_listing_unique;
use crate::scheduling::{
    blocker_lines, find_job, is_done, job_name_spec, last_status, scheduling_hint_spec,
    status_label_spec, JobIr, JobRun, JobStatus,
};
use crate::dag::{latest_run, node_status, runs_named, DagJobRun};
use crate::security::{blast_candidates, first_occurrences, has_key, BlastMatches, HitView};
use crate::text::{
    eq_ascii_ci, decimal, hex_lower, join_seq, lemma_decimal_parses, lemma_trim_idempotent, trim,
};
use crate::webhook_config::{dedup_first, trimmed_non_empty};
use crate::webhooks::{
    claim_spec, event_allowed_spec, target_decision_spec, trigger_auth_spec, TargetDecision,
    TargetFacts, WebhookInboundConfig, generic_auth_spec, query_value_spec, record_spec, DeliveryMap,
    WebhookRegistrationContext,
};
use crate::webhook_payloads::opt_view;

verus! {

/// A GitHub-style signature made the documented way (`sha256=` followed by the lowercase hex
/// HMAC-SHA256 of the body under the secret) is accepted.
pub proof fn law_signature_roundtrip(secret: Seq<u8>, body: Seq<u8>)
    ensures
        github_signature_valid(secret, body, sig_prefix() + hex_lower(hmac_sha256_spec(secret, body))),
{
    reveal_strlit("sha256=");
    let s = sig_prefix() + hex_lower(hmac_sha256_spec(secret, body));
    assert(s.subrange(0, sig_prefix().len() as int) =~= sig_prefix());
    assert(s.subrange(sig_prefix().len() as int, s.len() as int) =~= hex_lower(
        hmac_sha256_spec(secret, body),
    ));
}

/// Exactly one signature value is accepted for a given secret and body.
pub proof fn law_signature_unique(secret: Seq<u8>, body: Seq<u8>, s1: Seq<char>, s2: Seq<char>)
    requires
        github_signature_valid(secret, body, s1),
        github_signature_valid(secret, body, s2),
    ensures
        s1 == s2,
{
    let p = sig_prefix().len() as int;
    assert(s1 =~= s1.subrange(0, p) + s1.subrange(p, s1.len() as int));
    assert(s2 =~= s2.subrange(0, p) + s2.subrange(p, s2.len() as int));
}

/// A `generic` registration in `hmac` mode with a stored secret accepts a delivery exactly
/// when it carries the signature computed from that secret and the body.
pub proof fn law_generic_hmac_accepts_iff_signed(
    ctx: WebhookRegistrationContext,
    query: Option<Seq<char>>,
    signature: Seq<char>,
    body: Seq<u8>,
)
    requires
        crate::text::unicode_lowercase(ctx.generic_inbound_auth@) == "hmac"@,
        ctx.secret_verifier@.len() > 0,
    ensures
        generic_auth_spec(ctx, query, Some(signature), body) is None <==> signature == sig_prefix()
            + hex_lower(
            hmac_sha256_spec(vstd::utf8::encode_utf8(ctx.secret_verifier@), body),
        ),
{
    reveal_strlit("none");
    reveal_strlit("hmac");
    assert("hmac"@[0] != "none"@[0]);
    assert(generic_auth_spec(ctx, query, Some(signature), body) == crate::webhooks::hmac_outcome(
        vstd::utf8::encode_utf8(ctx.secret_verifier@),
        Some(signature),
        body,
    ));
    let key = vstd::utf8::encode_utf8(ctx.secret_verifier@);
    law_signature_roundtrip(key, body);
    if github_signature_valid(key, body, signature) {
        law_signature_unique(key, body, signature, sig_prefix() + hex_lower(hmac_sha256_spec(key, body)));
    }
}

/// The next-page cursor handed out with a list page (the decimal offset of the first row
/// after the page) reads back, on the next request, as that offset.
pub proof fn law_next_cursor_reads_back(offset: nat)
    requires
        offset <= i64::MAX,
    ensures
        cursor_offset(Some(decimal(offset))) == offset,
{
    lemma_decimal_parses(offset);
}

/// Join token page sizes are always 20, 50, 100 or 200, and a size already normalised is
/// kept.
pub proof fn law_join_token_limit_canonical(n: u32)
    ensures
        join_token_limit_spec(n) == 20 || join_token_limit_spec(n) == 50 || join_token_limit_spec(n)
            == 100 || join_token_limit_spec(n) == 200,
        join_token_limit_spec(join_token_limit_spec(n)) == join_token_limit_spec(n),
{
}

/// A normalised optional text (trimmed, blank dropped) is normalised again unchanged.
pub proof fn law_trimmed_text_stable(o: Option<Seq<char>>)
    ensures
        trimmed_non_empty(trimmed_non_empty(o)) == trimmed_non_empty(o),
{
    if let Some(s) = o {
        lemma_trim_idempotent(s);
    }
}

proof fn lemma_push_to_set(s: Seq<Seq<char>>, x: Seq<char>)
    ensures
        s.push(x).to_set() == s.to_set().insert(x),
{
    let t = s.push(x);
    assert forall|e: Seq<char>| t.to_set().contains(e) implies s.to_set().insert(x).contains(e) by {
        let i = choose|i: int| 0 <= i < t.len() && t[i] == e;
        if i < s.len() {
            assert(s[i] == e);
        }
    }
    assert forall|e: Seq<char>| s.to_set().insert(x).contains(e) implies t.to_set().contains(e) by {
        if e == x {
            assert(t[s.len() as int] == e);
        } else {
            let i = choose|i: int| 0 <= i < s.len() && s[i] == e;
            assert(t[i] == e);
        }
    }
    assert(t.to_set() =~= s.to_set().insert(x));
}

proof fn lemma_dedup_first(s: Seq<Seq<char>>)
    ensures
        dedup_first(s).no_duplicates(),
        dedup_first(s).to_set() == s.to_set(),
    decreases s.len(),
{
    if s.len() > 0 {
        let p = s.drop_last();
        let d = dedup_first(p);
        lemma_dedup_first(p);
        assert(s =~= p.push(s.last()));
        lemma_push_to_set(p, s.last());
        if d.contains(s.last()) {
            assert(d.to_set().contains(s.last()));
            assert(p.to_set().insert(s.last()) =~= p.to_set());
        } else {
            lemma_push_to_set(d, s.last());
            let e = d.push(s.last());
            assert forall|i: int, j: int| 0 <= i < e.len() && 0 <= j < e.len() && i != j implies e[i]
                != e[j] by {
                if i < d.len() && j < d.len() {
                    assert(e[i] == d[i] && e[j] == d[j]);
                } else if i < d.len() {
                    assert(e[i] == d[i]);
                } else {
                    assert(e[j] == d[j]);
                }
            }
        }
    }
}

proof fn lemma_dedup_first_of_distinct(s: Seq<Seq<char>>)
    requires
        s.no_duplicates(),
    ensures
        dedup_first(s) == s,
    decreases s.len(),
{
    if s.len() > 0 {
        let p = s.drop_last();
        lemma_dedup_first_of_distinct(p);
        if p.contains(s.last()) {
            let i = choose|i: int| 0 <= i < p.len() && p[i] == s.last();
            assert(s[i] == s[s.len() - 1]);
        }
        assert(s =~= p.push(s.last()));
    } else {
        assert(s =~= Seq::<Seq<char>>::empty());
    }
}

/// Target deduplication keeps every target once: the result has no repeats, names exactly
/// the targets given, and deduplicating it again changes nothing.
pub proof fn law_target_dedup(ids: Seq<Seq<char>>)
    ensures
        dedup_first(ids).no_duplicates(),
        dedup_first(ids).to_set() == ids.to_set(),
        dedup_first(dedup_first(ids)) == dedup_first(ids),
{
    lemma_dedup_first(ids);
    lemma_dedup_first_of_distinct(dedup_first(ids));
}

/// The declared outputs of a definition do not depend on the order or repetition of the
/// names it declares: two name lists with the same names give the same result.
pub proof fn law_declared_outputs_order_free(
    a: Seq<Seq<char>>,
    b: Seq<Seq<char>>,
    ra: Option<Vec<String>>,
    rb: Option<Vec<String>>,
)
    requires
        declared_outputs_ok(a, ra),
        declared_outputs_ok(b, rb),
        a.to_set() == b.to_set(),
    ensures
        opt_views(ra) == opt_views(rb),
{
    if a.len() > 0 {
        assert(a.to_set().contains(a[0]));
    }
    if b.len() > 0 {
        assert(b.to_set().contains(b[0]));
    }
    match (ra, rb) {
        (Some(va), Some(vb)) => {
            lemma_sorted_listing_unique(crate::text::views(va@), crate::text::views(vb@));
        },
        _ => {},
    }
}

proof fn lemma_join_nonempty(parts: Seq<Seq<char>>, sep: Seq<char>)
    requires
        forall|i: int| 0 <= i < parts.len() ==> (#[trigger] parts[i]).len() > 0,
    ensures
        (join_seq(parts, sep).len() == 0) <==> parts.len() == 0,
    decreases parts.len(),
{
    if parts.len() > 1 {
        assert(parts.last() == parts[parts.len() - 1]);
    } else if parts.len() == 1 {
        assert(parts[0].len() > 0);
    }
}

proof fn lemma_blocking_lines(items: Seq<WorkflowDiagnosticItem>)
    ensures
        blocking_lines(items).len() > 0 <==> any_blocking(items),
        forall|i: int| 0 <= i < blocking_lines(items).len() ==> (#[trigger] blocking_lines(items)[i]).len() > 0,
    decreases items.len(),
{
    if items.len() > 0 {
        let p = items.drop_last();
        lemma_blocking_lines(p);
        reveal_strlit(" (");
        assert(blocking_line(items.last()).len() > 0);
        if any_blocking(p) {
            let i = choose|i: int| 0 <= i < p.len() && #[trigger] p[i].blocking;
            assert(items[i] == p[i]);
        }
        if any_blocking(items) && !items.last().blocking {
            let i = choose|i: int| 0 <= i < items.len() && #[trigger] items[i].blocking;
            assert(p[i] == items[i]);
        }
        if items.last().blocking {
            assert(items[items.len() - 1].blocking);
        }
    }
}

/// A refused trigger always explains itself: the summary of blocking diagnostics is empty
/// exactly when nothing blocks.
pub proof fn law_trigger_message_empty_iff_nothing_blocks(items: Seq<WorkflowDiagnosticItem>)
    ensures
        (join_seq(blocking_lines(items), "; "@).len() == 0) <==> !any_blocking(items),
{
    lemma_blocking_lines(items);
    lemma_join_nonempty(blocking_lines(items), "; "@);
}

proof fn lemma_strip_trailing_shape(s: Seq<char>)
    ensures
        strip_trailing_slashes(s).len() == 0 || strip_trailing_slashes(s).last() != '/',
    decreases s.len(),
{
    if s.len() > 0 && s[s.len() - 1] == '/' {
        lemma_strip_trailing_shape(s.subrange(0, s.len() - 1));
    }
}

/// The OIDC issuer is never empty and never ends with `/`, whatever is configured.
pub proof fn law_issuer_has_no_trailing_slash(public: Option<Seq<char>>, cors: Seq<String>)
    ensures
        issuer_base_spec(public, cors).len() > 0,
        issuer_base_spec(public, cors).last() != '/',
{
    if let Some(u) = public {
        lemma_strip_trailing_shape(trim(u));
    }
    if cors.len() > 0 {
        lemma_strip_trailing_shape(trim(cors[0]@));
    }
    reveal_strlit("https://meticulous.example.com");
}

/// Every stored role survives a round trip through the API: the role the API shows for it
/// is stored back as the same role.
pub proof fn law_role_round_trip(db_role: Seq<char>)
    requires
        db_role == "admin"@ || db_role == "developer"@ || db_role == "readonly"@,
    ensures
        db_role_of(api_role_of(db_role)) == Some(db_role),
{
    reveal_strlit("admin");
    reveal_strlit("developer");
    reveal_strlit("readonly");
    reveal_strlit("operator");
    reveal_strlit("executor");
    reveal_strlit("read-only");
    assert("readonly"@[0] != "operator"@[0]);
    assert("readonly"@[0] != "executor"@[0]);
    assert("readonly"@[4] != "read-only"@[4]);
    assert("operator"@[0] != "executor"@[0]);
}

/// A `generic` registration in `query` mode, with a parameter name and a stored secret,
/// accepts a delivery exactly when the first value of that query parameter equals the
/// secret.
pub proof fn law_generic_query_accepts_iff_secret(
    ctx: WebhookRegistrationContext,
    query: Option<Seq<char>>,
    signature: Option<Seq<char>>,
    body: Seq<u8>,
)
    requires
        crate::text::unicode_lowercase(ctx.generic_inbound_auth@) == "query"@,
        opt_view(ctx.generic_query_param_name) matches Some(p) && trim(p).len() > 0,
        ctx.secret_verifier@.len() > 0,
    ensures
        generic_auth_spec(ctx, query, signature, body) is None <==> query_value_spec(
            query,
            trim(opt_view(ctx.generic_query_param_name)->0),
        ) == Some(ctx.secret_verifier@),
{
    reveal_strlit("none");
    reveal_strlit("hmac");
    reveal_strlit("query");
    assert("query"@[0] != "none"@[0]);
    assert("query"@[0] != "hmac"@[0]);
}

proof fn lemma_first_occurrences(s: Seq<HitView>)
    ensures
        forall|i: int, j: int|
            0 <= i < j < first_occurrences(s).len() ==> !(#[trigger] first_occurrences(s)[i].0
                == #[trigger] first_occurrences(s)[j].0 && first_occurrences(s)[i].1
                == first_occurrences(s)[j].1),
        forall|k: Seq<char>, id: Seq<char>|
            has_key(s, k, id) <==> #[trigger] has_key(first_occurrences(s), k, id),
        forall|i: int|
            0 <= i < first_occurrences(s).len() ==> s.contains(#[trigger] first_occurrences(s)[i]),
    decreases s.len(),
{
    if s.len() > 0 {
        let p = s.drop_last();
        lemma_first_occurrences(p);
        let fp = first_occurrences(p);
        let x = s.last();
        assert forall|k: Seq<char>, id: Seq<char>|
            has_key(s, k, id) <==> #[trigger] has_key(first_occurrences(s), k, id) by {
            if has_key(s, k, id) {
                let i = choose|i: int| 0 <= i < s.len() && (#[trigger] s[i]).0 == k && s[i].1 == id;
                if i < s.len() - 1 {
                    assert(p[i] == s[i]);
                    assert(has_key(p, k, id));
                    assert(has_key(fp, k, id));
                    let j = choose|j: int| 0 <= j < fp.len() && (#[trigger] fp[j]).0 == k && fp[j].1 == id;
                    if !has_key(fp, x.0, x.1) {
                        assert(first_occurrences(s)[j] == fp[j]);
                    }
                } else if !has_key(fp, x.0, x.1) {
                    assert(first_occurrences(s)[fp.len() as int] == x);
                }
            }
            if has_key(first_occurrences(s), k, id) {
                let fs = first_occurrences(s);
                let j = choose|j: int| 0 <= j < fs.len() && (#[trigger] fs[j]).0 == k && fs[j].1 == id;
                if j < fp.len() {
                    assert(fs[j] == fp[j]);
                    assert(has_key(fp, k, id));
                    assert(has_key(p, k, id));
                    let i = choose|i: int| 0 <= i < p.len() && (#[trigger] p[i]).0 == k && p[i].1 == id;
                    assert(s[i] == p[i]);
                } else {
                    assert(s[s.len() - 1] == x);
                }
            }
        }
        assert forall|i: int| 0 <= i < first_occurrences(s).len() implies s.contains(
            #[trigger] first_occurrences(s)[i],
        ) by {
            if i < fp.len() {
                assert(first_occurrences(s)[i] == fp[i]);
                let w = choose|w: int| 0 <= w < p.len() && p[w] == fp[i];
                assert(s[w] == p[w]);
            } else {
                assert(s[s.len() - 1] == x);
            }
        }
        if !has_key(fp, x.0, x.1) {
            let fs = first_occurrences(s);
            assert forall|i: int, j: int| 0 <= i < j < fs.len() implies !(#[trigger] fs[i].0
                == #[trigger] fs[j].0 && fs[i].1 == fs[j].1) by {
                if j == fs.len() - 1 {
                    assert(fs[i] == fp[i]);
                    if fs[i].0 == fs[j].0 && fs[i].1 == fs[j].1 {
                        assert(has_key(fp, x.0, x.1));
                    }
                } else {
                    assert(fs[i] == fp[i]);
                    assert(fs[j] == fp[j]);
                }
            }
        }
    }
}

/// A blast-radius search reports each kind and id at most once; every kind and id that
/// matched is reported; and every hit reported is one of the matches.
pub proof fn law_blast_hits_unique(m: BlastMatches)
    ensures
        forall|i: int, j: int|
            0 <= i < j < first_occurrences(blast_candidates(m)).len() ==> !(
            #[trigger] first_occurrences(blast_candidates(m))[i].0
                == #[trigger] first_occurrences(blast_candidates(m))[j].0 && first_occurrences(
                blast_candidates(m),
            )[i].1 == first_occurrences(blast_candidates(m))[j].1),
        forall|k: Seq<char>, id: Seq<char>|
            has_key(blast_candidates(m), k, id) <==> #[trigger] has_key(
                first_occurrences(blast_candidates(m)),
                k,
                id,
            ),
        forall|i: int|
            0 <= i < first_occurrences(blast_candidates(m)).len() ==> blast_candidates(m).contains(
                #[trigger] first_occurrences(blast_candidates(m))[i],
            ),
{
    lemma_first_occurrences(blast_candidates(m));
}

/// Join token scopes have distinct names, so a scope's name is read back as that scope.
pub proof fn law_join_token_scope_names_distinct(a: JoinTokenScope, b: JoinTokenScope)
    ensures
        scope_name(a) == scope_name(b) ==> a == b,
{
    reveal_strlit("platform");
    reveal_strlit("tenant");
    reveal_strlit("project");
    reveal_strlit("pipeline");
    if scope_name(a) == scope_name(b) && a != b {
        assert(scope_name(a)[0] == scope_name(b)[0]);
        assert(scope_name(a).len() == scope_name(b).len());
        assert(scope_name(a)[1] == scope_name(b)[1]);
    }
}

/// Scheduling hints explain only jobs that wait: a queued run, or a pending run of a job the
/// pipeline defines; every other job run gets none.
pub proof fn law_hints_only_for_waiting_jobs(jobs: Seq<JobIr>, runs: Seq<JobRun>, jr: JobRun)
    ensures
        scheduling_hint_spec(jobs, runs, jr) is Some <==> (jr.status == JobStatus::Queued || (
        jr.status == JobStatus::Pending && find_job(jobs, jr.job_id@) is Some)),
{
}

/// A webhook delivery is dispatched at most once: claiming a new delivery records it with no
/// runs; once claimed, claiming it again finds it, reports the runs recorded for it and
/// leaves the store unchanged, whether or not its runs were recorded in between.
pub proof fn law_repeated_delivery_is_duplicate(
    m: DeliveryMap,
    k: (Seq<char>, Seq<char>),
    ids: Seq<Seq<char>>,
)
    ensures
        !m.dom().contains(k) ==> claim_spec(m, k).1 is None && claim_spec(m, k).0[k]
            == Seq::<Seq<char>>::empty(),
        ({
            let m1 = claim_spec(m, k).0;
            &&& claim_spec(m1, k) == (m1, Some(m1[k]))
            &&& claim_spec(record_spec(m1, k, ids), k) == (record_spec(m1, k, ids), Some(ids))
        }),
{
}

/// Attempt `i` has the highest attempt number, and no later attempt has the same number.
pub open spec fn highest_attempt_at(runs: Seq<DagJobRun>, i: int) -> bool {
    &&& 0 <= i < runs.len()
    &&& forall|j: int| 0 <= j < runs.len() ==> (#[trigger] runs[j]).attempt <= runs[i].attempt
    &&& forall|j: int| i < j < runs.len() ==> (#[trigger] runs[j]).attempt < runs[i].attempt
}

proof fn lemma_latest_run_is_highest(runs: Seq<DagJobRun>)
    ensures
        runs.len() > 0 ==> (latest_run(runs) matches Some(i) && highest_attempt_at(runs, i)),
    decreases runs.len(),
{
    if runs.len() > 0 {
        let p = runs.drop_last();
        let last = runs.len() - 1;
        assert forall|j: int| 0 <= j < p.len() implies #[trigger] p[j] == runs[j] by {}
        if p.len() == 0 {
            assert(latest_run(p) is None);
            assert(latest_run(runs) == Some(last));
        } else {
            lemma_latest_run_is_highest(p);
            let i = latest_run(p)->0;
            assert(highest_attempt_at(p, i));
            assert(p[i] == runs[i]);
            if runs[last].attempt >= runs[i].attempt {
                assert(latest_run(runs) == Some(last));
                assert forall|j: int| 0 <= j < runs.len() implies (#[trigger] runs[j]).attempt
                    <= runs[last].attempt by {
                    if j < last {
                        assert(p[j] == runs[j]);
                    }
                }
            } else {
                assert(latest_run(runs) == Some(i));
                assert forall|j: int| 0 <= j < runs.len() implies (#[trigger] runs[j]).attempt
                    <= runs[i].attempt by {
                    if j < last {
                        assert(p[j] == runs[j]);
                    }
                }
                assert forall|j: int| i < j < runs.len() implies (#[trigger] runs[j]).attempt
                    < runs[i].attempt by {
                    if j < last {
                        assert(p[j] == runs[j]);
                    }
                }
            }
        }
    }
}

/// A DAG node shows the status of the job's latest attempt: an attempt with the highest
/// attempt number (the last listed among attempts with that number); a job without
/// attempts shows `pending`.
pub proof fn law_dag_node_shows_latest_attempt(runs: Seq<DagJobRun>)
    ensures
        runs.len() == 0 ==> node_status(runs) == "pending"@,
        runs.len() > 0 ==> exists|i: int|
            highest_attempt_at(runs, i) && node_status(runs) == #[trigger] status_label_spec(
                runs[i].status,
            ),
{
    lemma_latest_run_is_highest(runs);
    if runs.len() > 0 {
        let i = latest_run(runs)->0;
        assert(node_status(runs) == status_label_spec(runs[i].status));
    }
}

/// A job run status counts as finished exactly when it is neither pending, queued nor
/// running.
pub proof fn law_finished_statuses(s: JobStatus)
    ensures
        is_done(s) <==> !(s == JobStatus::Pending || s == JobStatus::Queued || s
            == JobStatus::Running),
{
}

/// The line a dependency adds to a scheduling hint: its name and status when its last run
/// is pending, queued or running; nothing when it finished or has no run.
pub open spec fn waiting_dependency_line(jobs: Seq<JobIr>, runs: Seq<JobRun>, d: String) -> Option<
    Seq<char>,
> {
    match last_status(runs, d@) {
        Some(st) => if st == JobStatus::Pending || st == JobStatus::Queued || st
            == JobStatus::Running {
            Some(job_name_spec(jobs, d@) + " ("@ + status_label_spec(st) + ")"@)
        } else {
            None
        },
        None => None,
    }
}

/// The upstream blockers of a scheduling hint are exactly the dependencies, in order, whose
/// last run is pending, queued or running: a dependency that succeeded, failed, was
/// cancelled, timed out or was skipped never blocks.
pub proof fn law_blockers_are_unfinished_dependencies(
    deps: Seq<String>,
    jobs: Seq<JobIr>,
    runs: Seq<JobRun>,
)
    ensures
        blocker_lines(deps, jobs, runs) == deps.filter_map(
            |d: String| waiting_dependency_line(jobs, runs, d),
        ),
    decreases deps.len(),
{
    if deps.len() > 0 {
        law_blockers_are_unfinished_dependencies(deps.drop_last(), jobs, runs);
        let f = |d: String| waiting_dependency_line(jobs, runs, d);
        let prev = deps.drop_last().filter_map(f);
        match f(deps.last()) {
            Some(x) => assert(prev + seq![x] =~= prev.push(x)),
            None => {},
        }
    }
}

/// A pipeline webhook trigger whose inbound auth mode is `none` accepts every delivery,
/// whatever query, signature and body it carries.
pub proof fn law_trigger_without_auth_accepts_all(
    cfg: WebhookInboundConfig,
    query: Option<Seq<char>>,
    signature: Option<Seq<char>>,
    body: Seq<u8>,
)
    requires
        cfg.inbound_auth@ == "none"@,
    ensures
        trigger_auth_spec(cfg, query, signature, body) is None,
{
}

/// A target is dispatched exactly when it is enabled, its event filter allows the event,
/// its branch filter allows the branch (without a branch: it does not require one), and its
/// pipeline exists, is in the webhook's project and is enabled. A disabled target, or one
/// whose event or branch filter refuses the delivery, is skipped silently.
pub proof fn law_target_dispatch_needs_every_filter(t: TargetFacts, has_branch: bool)
    ensures
        (target_decision_spec(t, has_branch) is Dispatch) <==> (t.enabled && t.event_allowed && (
        if has_branch {
            t.branch_allowed
        } else {
            !t.requires_branch
        }) && t.pipeline_found && t.pipeline_in_project && t.pipeline_enabled),
        !t.enabled ==> target_decision_spec(t, has_branch) is Skip,
        !t.event_allowed ==> target_decision_spec(t, has_branch) is Skip,
        has_branch && !t.branch_allowed ==> target_decision_spec(t, has_branch) is Skip,
        !has_branch && t.requires_branch ==> target_decision_spec(t, has_branch) is Skip,
{
}

/// A registration's event filter: every listed event passes; a `generic` registration
/// (in any case) with no events lets every event through; otherwise an event not listed is
/// refused.
pub proof fn law_registration_event_filter(provider: Seq<char>, events: Seq<String>, event: Seq<char>)
    ensures
        (exists|i: int| 0 <= i < events.len() && #[trigger] events[i]@ == event)
            ==> event_allowed_spec(provider, events, event),
        eq_ascii_ci(provider, "generic"@) && events.len() == 0 ==> event_allowed_spec(
            provider,
            events,
            event,
        ),
        !(exists|i: int| 0 <= i < events.len() && #[trigger] events[i]@ == event) && !(eq_ascii_ci(
            provider,
            "generic"@,
        ) && events.len() == 0) ==> !event_allowed_spec(provider, events, event),
{
}

/// A pipeline webhook trigger in `hmac` mode with a secret accepts a delivery exactly when it
/// carries the signature computed from that secret and the body.
pub proof fn law_trigger_hmac_accepts_iff_signed(
    cfg: WebhookInboundConfig,
    query: Option<Seq<char>>,
    signature: Seq<char>,
    body: Seq<u8>,
)
    requires
        cfg.inbound_auth@ == "hmac"@,
        opt_view(cfg.secret) matches Some(s) && s.len() > 0,
    ensures
        trigger_auth_spec(cfg, query, Some(signature), body) is None <==> signature == sig_prefix()
            + hex_lower(hmac_sha256_spec(vstd::utf8::encode_utf8(opt_view(cfg.secret)->0), body)),
{
    reveal_strlit("none");
    reveal_strlit("hmac");
    assert("hmac"@[0] != "none"@[0]);
    let key = vstd::utf8::encode_utf8(opt_view(cfg.secret)->0);
    law_signature_roundtrip(key, body);
    if github_signature_valid(key, body, signature) {
        law_signature_unique(key, body, signature, sig_prefix() + hex_lower(hmac_sha256_spec(key, body)));
    }
}

/// A pipeline webhook trigger in `query` mode, with a parameter name and a secret, accepts a
/// delivery exactly when the first value of that query parameter equals the secret.
pub proof fn law_trigger_query_accepts_iff_secret(
    cfg: WebhookInboundConfig,
    query: Option<Seq<char>>,
    signature: Option<Seq<char>>,
    body: Seq<u8>,
)
    requires
        cfg.inbound_auth@ == "query"@,
        opt_view(cfg.inbound_query_param) matches Some(p) && trim(p).len() > 0,
        opt_view(cfg.secret) matches Some(s) && s.len() > 0,
    ensures
        trigger_auth_spec(cfg, query, signature, body) is None <==> query_value_spec(
            query,
            trim(opt_view(cfg.inbound_query_param)->0),
        ) == Some(opt_view(cfg.secret)->0),
{
    reveal_strlit("none");
    reveal_strlit("hmac");
    reveal_strlit("query");
    assert("query"@[0] != "none"@[0]);
    assert("query"@[0] != "hmac"@[0]);
}

/// A pipeline webhook trigger with a mode other than `none`, `hmac` or `query` refuses every
/// delivery.
pub proof fn law_trigger_unknown_mode_refuses(
    cfg: WebhookInboundConfig,
    query: Option<Seq<char>>,
    signature: Option<Seq<char>>,
    body: Seq<u8>,
)
    requires
        cfg.inbound_auth@ != "none"@,
        cfg.inbound_auth@ != "hmac"@,
        cfg.inbound_auth@ != "query"@,
    ensures
        trigger_auth_spec(cfg, query, signature, body) is Some,
{
}

/// A node gathers exactly the attempts of its job, in the order they were listed.
pub proof fn law_node_gathers_its_attempts(runs: Seq<DagJobRun>, name: Seq<char>)
    ensures
        runs_named(runs, name) == runs.filter(|r: DagJobRun| r.job_name@ == name),
    decreases runs.len(),
{
    reveal_with_fuel(Seq::filter, 1);
    if runs.len() > 0 {
        law_node_gathers_its_attempts(runs.drop_last(), name);
    }
}

/// The status that counts for a dependency is that of its last listed run: some run of that
/// job has it, and no later run is of that job; a job without runs has none.
pub proof fn law_last_run_counts(runs: Seq<JobRun>, id: Seq<char>)
    ensures
        last_status(runs, id) is None <==> (forall|i: int| 0 <= i < runs.len() ==> (#[trigger] runs[i]).job_id@ != id),
        last_status(runs, id) matches Some(st) ==> exists|i: int|
            0 <= i < runs.len() && (#[trigger] runs[i]).job_id@ == id && runs[i].status == st && (
            forall|j: int| i < j < runs.len() ==> (#[trigger] runs[j]).job_id@ != id),
    decreases runs.len(),
{
    if runs.len() > 0 {
        let p = runs.drop_last();
        law_last_run_counts(p, id);
        assert forall|j: int| 0 <= j < p.len() implies #[trigger] p[j] == runs[j] by {}
        let last = runs.len() - 1;
        if runs[last].job_id@ != id {
            if last_status(p, id) is None {
                assert forall|i: int| 0 <= i < runs.len() implies (#[trigger] runs[i]).job_id@ != id by {
                    if i < last {
                        assert(p[i] == runs[i]);
                    }
                }
            } else {
                let st = last_status(p, id)->0;
                let i = choose|i: int|
                    0 <= i < p.len() && (#[trigger] p[i]).job_id@ == id && p[i].status == st && (
                    forall|j: int| i < j < p.len() ==> (#[trigger] p[j]).job_id@ != id);
                assert(p[i] == runs[i]);
                assert forall|j: int| i < j < runs.len() implies (#[trigger] runs[j]).job_id@ != id by {
                    if j < last {
                        assert(p[j] == runs[j]);
                    }
                }
            }
        }
    }
}

} // verus!
