use met_api::dto_admin::{OrgArtifactsSection, PostgresHealthSection, RelationSizeResponse};
use met_api::error::ErrorKind;
use met_api::footprint::job_run_snapshot_key;
use met_api::join_tokens::{new_admin_join_token, JoinTokenScope};
use met_api::listing::{paginate_rows, parse_run_status_filter};
use met_api::oauth::{OAuthPendingState, OAuthStateStore};
use met_api::platform::{platform_health_report, PrefixUsageEstimate};
use met_api::trigger_sync::{secret_configured, trigger_config_create_edit, trigger_config_hidden_keys};
use met_api::webhook_config::{
    check_targets_in_project, inbound_secret_material, new_inbound_secret, TargetPipeline,
};
use met_api::webhooks::{
    delivery_claim_step, fanout_response, fanout_triggered_by, single_trigger_accepted, ClaimStep,
    DeliveryClaim, DeliveryClaims, TargetFacts,
};
use met_api::workflow_sync::{advance_due_schedules, DueSchedule};
use met_api::workspace_cursor::{decode_cursor, encode_cursor};

fn strings(xs: &[&str]) -> Vec<String> {
    xs.iter().map(|s| s.to_string()).collect()
}

fn target(id: &str, enabled: bool, in_project: bool) -> TargetFacts {
    TargetFacts {
        pipeline_id: id.into(),
        enabled,
        event_allowed: true,
        branch_allowed: true,
        requires_branch: false,
        pipeline_found: true,
        pipeline_in_project: in_project,
        pipeline_enabled: true,
    }
}

#[test]
fn fanout_filtered_event_starts_nothing() {
    let r = fanout_response(false, &vec![target("p1", true, true)], &vec![Ok("r1".into())], true, "GitHub push");
    assert!(r.accepted && !r.duplicate);
    assert!(r.run_ids.is_empty() && r.run_id.is_none());
    assert_eq!(r.targets_matched, Some(0));
    assert_eq!(r.target_errors, strings(&["event type ignored by registration filters"]));
    assert_eq!(r.message, "event type ignored by registration filters");
}

#[test]
fn fanout_without_targets() {
    let r = fanout_response(true, &vec![], &vec![], false, "GitLab push");
    assert!(r.run_ids.is_empty());
    assert_eq!(r.targets_matched, Some(0));
    assert_eq!(r.target_errors, strings(&["no pipeline targets configured for this webhook"]));
    assert_eq!(r.message, "no pipeline targets configured for this webhook");
}

#[test]
fn fanout_counts_runs_and_errors() {
    let targets = vec![
        target("p1", true, true),
        target("p2", false, true),
        target("p3", true, false),
        target("p4", true, true),
        target("p5", true, true),
    ];
    let outcomes = vec![
        Ok("r1".to_string()),
        Ok("unused".to_string()),
        Ok("unused".to_string()),
        Err("queue full".to_string()),
        Ok("r5".to_string()),
    ];
    let r = fanout_response(true, &targets, &outcomes, true, "GitHub push");
    assert_eq!(r.run_ids, strings(&["r1", "r5"]));
    assert_eq!(r.run_id.as_deref(), Some("r1"));
    assert_eq!(r.targets_matched, Some(3));
    assert_eq!(
        r.target_errors,
        strings(&["pipeline p3 is not in the webhook project", "pipeline p4: queue full"])
    );
    assert_eq!(r.message, "Enqueued 2 run(s)");
}

#[test]
fn fanout_nothing_matched() {
    let r = fanout_response(true, &vec![target("p1", false, true)], &vec![Ok("x".into())], true, "Bitbucket push");
    assert_eq!(r.targets_matched, Some(0));
    assert_eq!(r.target_errors, strings(&["no targets matched branch or event filters"]));
    assert_eq!(r.message, "no targets matched branch or event filters");
    let ok_none = fanout_response(true, &vec![target("p1", true, true)], &vec![Err("boom".into())], true, "x");
    assert_eq!(ok_none.targets_matched, Some(1));
    assert_eq!(ok_none.message, "pipeline p1: boom");
}

#[test]
fn webhook_answers() {
    assert_eq!(fanout_triggered_by("github", "d-1"), "github:webhook:d-1");
    let r = single_trigger_accepted("run-9");
    assert!(r.accepted && !r.duplicate);
    assert_eq!(r.run_id.as_deref(), Some("run-9"));
    assert_eq!(r.run_ids, strings(&["run-9"]));
    assert_eq!(r.targets_matched, Some(1));
    assert!(r.target_errors.is_empty());
    assert_eq!(r.message, "Webhook accepted; pipeline run created");
}

#[test]
fn health_report_assembly() {
    let pg = PostgresHealthSection {
        database_bytes: 1024,
        top_relations: vec![RelationSizeResponse { schema: "public".into(), name: "runs".into(), total_bytes: 512 }],
    };
    let art = OrgArtifactsSection { total_bytes: 7, artifact_count: 2 };
    let est = PrefixUsageEstimate { bytes_summed: 10, objects_scanned: 3, list_pages: 1, truncated: false };
    let h = platform_health_report(
        "1.2.3", true, None, pg, art, "", "bkt".into(), true, "o1", true,
        Some(Ok(())), Ok(est), None,
    );
    assert_eq!(h.api_version, "1.2.3");
    assert!(h.engine_initialized);
    assert_eq!(h.postgres.database_bytes, 1024);
    assert_eq!(h.org_artifacts.artifact_count, 2);
    assert_eq!(h.object_storage.endpoint_display, "default (AWS)");
    assert!(h.object_storage.client_initialized && h.object_storage.reachable);
    let d = h.object_storage.deep_scan.unwrap();
    assert_eq!(d.prefix, "orgs/o1/");
    assert_eq!(d.bytes_summed, 10);
    assert!(!h.nats_jetstream.available);
    assert!(h.nats_jetstream.streams.is_empty());

    let pg2 = PostgresHealthSection { database_bytes: 0, top_relations: vec![] };
    let art2 = OrgArtifactsSection { total_bytes: 0, artifact_count: 0 };
    let est2 = PrefixUsageEstimate { bytes_summed: 10, objects_scanned: 3, list_pages: 1, truncated: false };
    let h2 = platform_health_report(
        "1.2.3", false, Some("no engine".into()), pg2, art2, "https://minio.local:9000", "b".into(),
        false, "o1", true, None, Ok(est2), Some(vec![]),
    );
    assert_eq!(h2.engine_init_error.as_deref(), Some("no engine"));
    assert_eq!(h2.object_storage.endpoint_display, "minio.local");
    assert!(!h2.object_storage.client_initialized && !h2.object_storage.reachable);
    let d2 = h2.object_storage.deep_scan.unwrap();
    assert_eq!(d2.bytes_summed, 0);
    assert_eq!(d2.error.as_deref(), Some("object store client not initialized"));
    assert!(h2.nats_jetstream.available);

    let pg3 = PostgresHealthSection { database_bytes: 0, top_relations: vec![] };
    let art3 = OrgArtifactsSection { total_bytes: 0, artifact_count: 0 };
    let est3 = PrefixUsageEstimate { bytes_summed: 0, objects_scanned: 0, list_pages: 0, truncated: false };
    let h3 = platform_health_report(
        "v", true, None, pg3, art3, "", "b".into(), false, "o1", false,
        Some(Err("403".into())), Ok(est3), None,
    );
    assert!(h3.object_storage.deep_scan.is_none());
    assert_eq!(h3.object_storage.reachability_error.as_deref(), Some("403"));
}

#[test]
fn admin_join_token_construction() {
    let t = new_admin_join_token(
        "t1".into(), "h".into(), &Some("  gpu runners ".into()), None, &None, "org-1",
        strings(&["gpu"]), vec![], None, "u1".into(), "now".into(),
    )
    .unwrap();
    assert!(matches!(t.scope, JoinTokenScope::Tenant));
    assert_eq!(t.description, "gpu runners");
    assert_eq!((t.max_uses, t.current_uses, t.revoked), (1, 0, false));
    assert_eq!(t.scope_id.as_deref(), Some("org-1"));
    assert_eq!(t.org_id.as_deref(), Some("org-1"));
    assert!(t.consumed_at.is_none() && t.consumed_by_agent_id.is_none());

    let e = new_admin_join_token(
        "t1".into(), "h".into(), &Some("   ".into()), None, &None, "org-1",
        vec![], vec![], None, "u1".into(), "now".into(),
    )
    .unwrap_err();
    assert_eq!((e.kind, e.message.as_str()), (ErrorKind::BadRequest, "description is required"));
    let e = new_admin_join_token(
        "t1".into(), "h".into(), &Some("d".into()), Some("galaxy"), &None, "org-1",
        vec![], vec![], None, "u1".into(), "now".into(),
    )
    .unwrap_err();
    assert_eq!(e.message, "invalid scope, must be: platform, tenant, project, or pipeline");
    let e = new_admin_join_token(
        "t1".into(), "h".into(), &Some("d".into()), Some("pipeline"), &None, "org-1",
        vec![], vec![], None, "u1".into(), "now".into(),
    )
    .unwrap_err();
    assert_eq!(e.message, "scope_id is required for project and pipeline scopes");
    let p = new_admin_join_token(
        "t1".into(), "h".into(), &Some("d".into()), Some("platform"), &None, "org-1",
        vec![], vec![], Some("later".into()), "u1".into(), "now".into(),
    )
    .unwrap();
    assert!(p.scope_id.is_none() && p.org_id.is_none());
    assert_eq!(p.expires_at.as_deref(), Some("later"));
}

#[test]
fn run_list_pages_and_status_filter() {
    let (rows, meta) = paginate_rows(vec![1, 2, 3], 20, 2);
    assert_eq!(rows, vec![1, 2]);
    assert!(meta.has_more);
    assert_eq!(meta.count, 2);
    assert_eq!(meta.next_cursor.as_deref(), Some("22"));
    let (rows, meta) = paginate_rows(vec![1, 2], 0, 2);
    assert_eq!(rows, vec![1, 2]);
    assert!(!meta.has_more && meta.next_cursor.is_none());

    let names = strings(&["queued", "running", "succeeded"]);
    assert_eq!(parse_run_status_filter(None, &names).unwrap(), None);
    assert_eq!(parse_run_status_filter(Some("   "), &names).unwrap(), None);
    assert_eq!(parse_run_status_filter(Some(" running "), &names).unwrap().as_deref(), Some("running"));
    let e = parse_run_status_filter(Some(" sleeping "), &names).unwrap_err();
    assert_eq!((e.kind, e.message.as_str()), (ErrorKind::BadRequest, "invalid run status: sleeping"));
}

#[test]
fn due_schedules_move_forward() {
    let due = vec![
        DueSchedule { org_id: "o1".into(), workflow_name: "build".into(), interval_minutes: 60 },
        DueSchedule { org_id: "o2".into(), workflow_name: "lint".into(), interval_minutes: 5 },
    ];
    let a = advance_due_schedules(&due, 1_000);
    assert_eq!(a.len(), 2);
    assert_eq!((a[0].last_synced_at, a[0].next_sync_at), (1_000, 4_600));
    assert_eq!((a[1].org_id.as_str(), a[1].workflow_name.as_str()), ("o2", "lint"));
    assert_eq!(a[1].next_sync_at, 1_300);
}

#[test]
fn scm_setup_targets_and_secret() {
    let ok = vec![
        TargetPipeline { pipeline_id: "p1".into(), project_id: "proj".into() },
        TargetPipeline { pipeline_id: "p2".into(), project_id: "proj".into() },
    ];
    assert!(check_targets_in_project(&ok, "proj").is_ok());
    let bad = vec![
        TargetPipeline { pipeline_id: "p1".into(), project_id: "proj".into() },
        TargetPipeline { pipeline_id: "p2".into(), project_id: "other".into() },
        TargetPipeline { pipeline_id: "p3".into(), project_id: "other".into() },
    ];
    let e = check_targets_in_project(&bad, "proj").unwrap_err();
    assert_eq!((e.kind, e.message.as_str()), (ErrorKind::Unprocessable, "pipeline p2 does not belong to this project"));

    let abc = "ba7816bf8f01cfea414140de5dae2223b00361a396177a9cb410ff61f20015ad";
    assert_eq!(inbound_secret_material("abc", true), (abc.to_string(), Some(abc.to_string())));
    assert_eq!(inbound_secret_material("abc", false), (abc.to_string(), None));
    assert_eq!(new_inbound_secret(true, true), (String::new(), None));
    let (h, shown) = new_inbound_secret(true, false);
    assert_eq!(h.len(), 64);
    assert_eq!(shown.as_deref(), Some(h.as_str()));
    let (h2, shown2) = new_inbound_secret(false, false);
    assert_eq!(h2.len(), 64);
    assert!(shown2.is_none());
    assert_ne!(h, h2);
}

#[test]
fn oauth_state_is_single_use() {
    let mut store = OAuthStateStore::new();
    let pending = |p: &str| OAuthPendingState {
        provider_id: p.into(),
        pkce_verifier: None,
        nonce: None,
        redirect_uri: "https://ui/cb".into(),
    };
    store.insert("s1".into(), pending("a"));
    store.insert("s2".into(), pending("b"));
    store.insert("s1".into(), pending("c"));
    assert_eq!(store.consume("s1").unwrap().provider_id, "c");
    let e = store.consume("s1").unwrap_err();
    assert_eq!((e.kind, e.message.as_str()), (ErrorKind::BadRequest, "invalid or expired OAuth state"));
    assert_eq!(store.consume("s2").unwrap().provider_id, "b");
    assert!(store.consume("nope").is_err());
}

#[test]
fn trigger_config_decisions() {
    let edit = trigger_config_create_edit(Some("abcd".into()));
    assert_eq!(edit.set, Some(("secret".to_string(), "abcd".to_string())));
    assert_eq!(edit.remove_keys, strings(&["sync_key", "managed_by"]));
    assert!(trigger_config_create_edit(None).set.is_none());
    assert_eq!(trigger_config_hidden_keys(), strings(&["secret"]));
    assert!(secret_configured(Some("x")));
    assert!(!secret_configured(Some("")));
    assert!(!secret_configured(None));
}

#[test]
fn cursor_round_trips_leap_second() {
    let id: u128 = 0x0123_4567_89ab_cdef_0123_4567_89ab_cdef;
    let c = encode_cursor(59, 1_500_000_000, id).unwrap();
    assert_eq!(decode_cursor(&c).unwrap(), (59, 1_500_000_000, id));
    assert!(encode_cursor(58, 1_500_000_000, id).is_none());
}

#[test]
fn snapshot_key_copies_exactly_32_bytes() {
    let bytes: Vec<u8> = (0u8..32).collect();
    assert_eq!(job_run_snapshot_key(&Some(bytes.clone())).unwrap().to_vec(), bytes);
    assert!(job_run_snapshot_key(&Some(vec![1, 2, 3])).is_none());
    assert!(job_run_snapshot_key(&None).is_none());
}

#[test]
fn new_secret_is_64_lowercase_hex() {
    for (generic, none) in [(false, false), (true, false)] {
        let (h, shown) = new_inbound_secret(generic, none);
        assert_eq!(h.len(), 64);
        assert!(h.chars().all(|c| c.is_ascii_digit() || ('a'..='f').contains(&c)));
        if let Some(s) = shown {
            assert_eq!(s, h);
        }
    }
}

#[test]
fn repeated_delivery_is_answered_as_duplicate() {
    let mut claims = DeliveryClaims::new();
    assert!(matches!(claims.claim("github", "d1"), DeliveryClaim::New));
    assert!(matches!(delivery_claim_step(DeliveryClaim::New), ClaimStep::Dispatch));
    claims.record_run_ids("github", "d1", &strings(&["r1", "r2"]));
    claims.record_run_ids("github", "never-claimed", &strings(&["x"]));
    assert!(matches!(claims.claim("gitlab", "d1"), DeliveryClaim::New));
    let again = claims.claim("github", "d1");
    match &again {
        DeliveryClaim::Duplicate(ids) => assert_eq!(ids, &strings(&["r1", "r2"])),
        DeliveryClaim::New => panic!("delivery claimed twice"),
    }
    assert!(matches!(claims.claim("github", "never-claimed"), DeliveryClaim::New));
    match delivery_claim_step(again) {
        ClaimStep::Reply(r) => {
            assert!(r.accepted && r.duplicate);
            assert_eq!(r.run_ids, strings(&["r1", "r2"]));
            assert_eq!(r.run_id.as_deref(), Some("r1"));
            assert_eq!(r.targets_matched, Some(0));
            assert!(r.target_errors.is_empty());
            assert_eq!(r.message, "Duplicate delivery; returning existing run ids");
        }
        ClaimStep::Dispatch => panic!("duplicate dispatched"),
    }
}
