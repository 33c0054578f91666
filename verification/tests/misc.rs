use met_api::artifacts::artifact_might_be_sbom;
use met_api::diagnostics::{
    diagnose_global_row, diagnose_global_versions, diagnose_project_row, resolve_version_string,
    with_invocation, GlobalRowLookup, WorkflowSubmissionStatus, WorkflowTrustState,
};
use met_api::error::ErrorKind;
use met_api::listing::{
    default_recent_limit, default_window, ilike_pattern, join_token_list_default_limit,
    join_token_list_default_page, parse_window, project_filter_for_pipeline, search_pattern,
    WorkspaceScopeLevel,
};
use met_api::log_stream::{
    auth_error_message, auth_step, log_stream_step, sse_log_step, AuthStep, ClientFrame,
    LogStreamState, StreamAction, StreamKind,
};
use met_api::policy::{default_external_kind_policy, is_external_kind_allowed};
use met_api::scheduling::{
    format_pool_hint, scheduling_hint, JobIr, JobRun, JobStatus, PoolSelector, TagValue,
};
use met_api::security::{prepare_blast_query, push_hit};
use met_api::webhook_config::{
    check_patch_has_changes, check_rotate_allowed, generic_query_param_name_valid,
    normalize_generic_inbound_auth, plan_generic_inbound_patch, plan_scm_webhook_setup,
    webhook_inbound_path, SecretAction,
};
use met_api::workspace_cursor::{decode_cursor, encode_cursor};

fn strings(xs: &[&str]) -> Vec<String> {
    xs.iter().map(|s| s.to_string()).collect()
}

#[test]
fn listing_parameters() {
    assert_eq!(parse_window("4h").unwrap(), 14400);
    assert_eq!(parse_window("7d").unwrap(), 604800);
    assert_eq!(
        parse_window("2d").unwrap_err().message,
        "invalid `window`; use 1h, 4h, 12h, 1d, 3d, or 7d"
    );
    assert_eq!(default_window(), "1d");
    assert_eq!(default_recent_limit(), 10);
    assert_eq!(join_token_list_default_page(), 1);
    assert_eq!(join_token_list_default_limit(), 20);
    assert_eq!(ilike_pattern(r"50%_a\b"), r"%50\%\_a\\b%");
    assert_eq!(search_pattern(&Some("  ".into())), None);
    assert_eq!(search_pattern(&Some(" db_url ".into())).as_deref(), Some(r"%db\_url%"));
    assert_eq!(WorkspaceScopeLevel::Pipeline.as_sql_str(), "pipeline");
    assert_eq!(WorkspaceScopeLevel::default(), WorkspaceScopeLevel::All);
    assert_eq!(project_filter_for_pipeline("p1", "o1", "o1", None).unwrap(), "p1");
    assert_eq!(
        project_filter_for_pipeline("p1", "o1", "o1", Some("p2")).unwrap_err().message,
        "pipeline_id does not belong to the given project_id"
    );
    assert_eq!(
        project_filter_for_pipeline("p1", "o2", "o1", None).unwrap_err().kind,
        ErrorKind::Forbidden
    );
}

#[test]
fn workspace_cursors_round_trip() {
    let id = 0x67e5504410b1426f9247bb680e5fe0c8u128;
    let c = encode_cursor(1_700_000_000, 500_000_000, id).unwrap();
    assert_eq!(decode_cursor(&c).unwrap(), (1_700_000_000, 500_000_000, id));
    assert_eq!(decode_cursor(&format!("  {c} ")).unwrap(), (1_700_000_000, 500_000_000, id));
    assert_eq!(decode_cursor("!!!").unwrap_err().message, "invalid pagination cursor");
    // base64 of "2024-01-01T00:00:00Z" without an id
    assert!(decode_cursor("MjAyNC0wMS0wMVQwMDowMDowMFo=").is_err());
    for (secs, nanos) in [(0i64, 0u32), (-62_167_219_200, 1), (253_402_300_799, 999_999_999), (1_234_567_890, 123_000)] {
        let c = encode_cursor(secs, nanos, id).unwrap();
        assert_eq!(decode_cursor(&c).unwrap(), (secs, nanos, id));
    }
}

#[test]
fn log_streams() {
    match auth_step(ClientFrame::AuthText("tok".into())) {
        AuthStep::Validate(t) => assert_eq!(t, "tok"),
        _ => panic!("expected validation"),
    }
    match auth_step(ClientFrame::Error("reset".into())) {
        AuthStep::Fail(m) => assert_eq!(m, "WebSocket error: reset"),
        _ => panic!("expected failure"),
    }
    assert!(matches!(auth_step(ClientFrame::Ping), AuthStep::Continue));
    assert_eq!(auth_error_message(Some("bad token")), "Authentication failed: bad token");
    assert_eq!(
        auth_error_message(None),
        "Authentication timeout - send auth message within 10 seconds"
    );
    let mut s = LogStreamState { kind: StreamKind::Run, from_line: 0, follow: false, line_number: 48 };
    match log_stream_step(&mut s, true, None) {
        StreamAction::SendLog(l) => {
            assert_eq!(l.line_number, 49);
            assert_eq!(l.content, "Processing line 49...");
        }
        _ => panic!("expected a line"),
    }
    match log_stream_step(&mut s, true, None) {
        StreamAction::SendLogThenEnd(l, st) => {
            assert_eq!(l.line_number, 50);
            assert_eq!(st, "completed");
        }
        _ => panic!("expected the end"),
    }
    let mut j = LogStreamState { kind: StreamKind::Job, from_line: 10, follow: true, line_number: 10 };
    match log_stream_step(&mut j, true, None) {
        StreamAction::SendLog(l) => {
            assert_eq!(l.step_name.as_deref(), Some("step-3"));
            assert_eq!(l.content, "Job log line 11...");
            assert!(l.job_name.is_none());
        }
        _ => panic!("expected a line"),
    }
    assert!(matches!(log_stream_step(&mut j, false, Some(ClientFrame::PingText)), StreamAction::PongText));
    assert!(matches!(log_stream_step(&mut j, false, Some(ClientFrame::CloseText)), StreamAction::Stop));
    assert!(matches!(log_stream_step(&mut j, false, None), StreamAction::Ignore));
    assert_eq!(j.line_number, 11);
    assert!(sse_log_step(50, false).is_none());
    assert_eq!(sse_log_step(50, true).unwrap().line_number, 51);
}

#[test]
fn external_kind_policy() {
    let p = default_external_kind_policy();
    assert!(!p.is_empty());
    let mut custom = vec![("vault".to_string(), false)];
    assert!(!is_external_kind_allowed(&custom, true, "vault"));
    assert!(is_external_kind_allowed(&custom, false, "vault"));
    assert!(is_external_kind_allowed(&custom, true, "aws_sm"));
    custom.push(("aws_sm".to_string(), true));
    assert!(is_external_kind_allowed(&custom, true, "aws_sm"));
}

#[test]
fn scheduling_hints() {
    let job = |id: &str, deps: &[&str], pool: Option<&str>, tags: Vec<(String, TagValue)>| JobIr {
        id: id.into(),
        name: format!("{id}-name"),
        depends_on: strings(deps),
        pool_selector: PoolSelector { pool_name: pool.map(|s| s.to_string()), required_tags: tags },
    };
    let jobs = vec![
        job("a", &[], None, vec![]),
        job("b", &["a"], Some("gpu"), vec![("arch".into(), TagValue::String("arm64".into())), ("docker".into(), TagValue::Present)]),
        job("c", &[], Some("_default"), vec![]),
    ];
    let runs = vec![
        JobRun { job_id: "a".into(), status: JobStatus::Running },
        JobRun { job_id: "b".into(), status: JobStatus::Pending },
        JobRun { job_id: "c".into(), status: JobStatus::Pending },
    ];
    assert_eq!(
        scheduling_hint(&jobs, &runs, &runs[1]).as_deref(),
        Some("Waiting for upstream jobs to finish: a-name (running).")
    );
    assert_eq!(
        format_pool_hint(&jobs[1].pool_selector).as_deref(),
        Some("pool 'gpu', arch=arm64, docker")
    );
    assert!(scheduling_hint(&jobs, &runs, &runs[2]).unwrap().starts_with("Waiting for the scheduler"));
    assert!(scheduling_hint(&jobs, &runs, &runs[0]).is_none());
    let queued = JobRun { job_id: "c".into(), status: JobStatus::Queued };
    assert_eq!(
        scheduling_hint(&jobs, &runs, &queued).as_deref(),
        Some("Dispatched to an agent queue; waiting for the agent to start this job.")
    );
}

#[test]
fn blast_radius_queries() {
    let q = prepare_blast_query("  50%_x ", None).unwrap();
    assert_eq!(q.needle, "50%_x");
    assert_eq!(q.like, r"%50\%\_x%");
    assert!(prepare_blast_query(" ab ", None).is_err());
    assert!(prepare_blast_query("10.0.0.1", Some("10.0.0.1/32".into())).is_ok());
    let mut hits = Vec::new();
    let mut seen = Vec::new();
    push_hit(&mut hits, &mut seen, "run", "r1".into(), None, None);
    push_hit(&mut hits, &mut seen, "run", "r1".into(), Some("p".into()), None);
    push_hit(&mut hits, &mut seen, "pipeline", "r1".into(), None, None);
    assert_eq!(hits.len(), 2);
}

#[test]
fn sbom_detection() {
    assert!(artifact_might_be_sbom("app.SPDX.json", "x", None));
    assert!(artifact_might_be_sbom("out.bin", "runs/1/SBOM/", None));
    assert!(artifact_might_be_sbom("a", "b", Some("application/vnd.cyclonedx+json")));
    assert!(!artifact_might_be_sbom("a", "b", Some("application/json")));
}

#[test]
fn webhook_registration_rules() {
    assert_eq!(normalize_generic_inbound_auth(None).unwrap(), "hmac");
    assert_eq!(normalize_generic_inbound_auth(Some("QUERY".into())).unwrap(), "query");
    assert!(normalize_generic_inbound_auth(Some(" QUERY ".into())).is_err());
    assert_eq!(normalize_generic_inbound_auth(Some("  ".into())).unwrap(), "hmac");
    assert!(normalize_generic_inbound_auth(Some("basic".into())).is_err());
    assert!(generic_query_param_name_valid("token_1"));
    assert!(!generic_query_param_name_valid("1token"));
    let plan = plan_scm_webhook_setup("GitHub", &None, &None, &None).unwrap();
    assert_eq!(plan.provider, "github");
    assert_eq!(plan.events, strings(&["push", "pull_request"]));
    assert!(plan.store_secret && !plan.reveal_secret);
    let plan = plan_scm_webhook_setup("generic", &None, &Some("none".into()), &None).unwrap();
    assert!(!plan.store_secret);
    assert!(plan_scm_webhook_setup("generic", &None, &Some("query".into()), &None).is_err());
    assert_eq!(
        plan_scm_webhook_setup("svn", &None, &None, &None).err().unwrap().message,
        "Unsupported provider: svn. Supported: github, gitlab, bitbucket, generic"
    );
    let patch = plan_generic_inbound_patch("generic", "hmac", &None, false, &Some("query".into()), &None)
        .unwrap();
    assert_eq!(patch.generic_query_param_name.as_deref(), Some("token"));
    assert_eq!(patch.secret, SecretAction::Keep);
    let patch = plan_generic_inbound_patch("generic", "none", &None, true, &Some("hmac".into()), &None)
        .unwrap();
    assert_eq!(patch.secret, SecretAction::Generate);
    assert!(plan_generic_inbound_patch("github", "hmac", &None, false, &Some("query".into()), &None).is_err());
    assert!(check_patch_has_changes(false, false, false, false).is_err());
    assert!(check_patch_has_changes(true, false, false, false).is_ok());
    assert!(check_rotate_allowed("Generic", "NONE").is_err());
    assert!(check_rotate_allowed("generic", "hmac").is_ok());
    assert_eq!(webhook_inbound_path("generic", "o", "r"), "/api/v1/webhooks/o/r");
    assert_eq!(webhook_inbound_path("gitlab", "o", "r"), "/api/v1/webhooks/gitlab/o/r");
}

#[test]
fn workflow_reference_diagnostics() {
    let versions = strings(&["2.0.0", "1.0.0"]);
    assert_eq!(resolve_version_string(&versions, "latest", &None).unwrap(), "2.0.0");
    assert_eq!(resolve_version_string(&versions, "1.0.0", &None).unwrap(), "1.0.0");
    assert!(resolve_version_string(&versions, "3.0.0", &None).is_err());
    assert_eq!(resolve_version_string(&versions, "^1", &Some(Some("1.0.0".into()))).unwrap(), "1.0.0");
    assert!(resolve_version_string(&versions, "^3", &Some(None)).is_err());
    let missing = diagnose_global_versions("build", "3.0.0", &Ok(versions.clone()), &None).unwrap_err();
    assert_eq!(missing.status, "version_not_found");
    assert_eq!(missing.detail.as_deref(), Some("no matching version (have: 2.0.0, 1.0.0)"));
    assert!(missing.blocking);
    let err = diagnose_global_versions("build", "latest", &Err("db down".into()), &None).unwrap_err();
    assert_eq!(err.detail.as_deref(), Some("list versions: db down"));
    let row = GlobalRowLookup::Found {
        submission_status: WorkflowSubmissionStatus::Approved,
        trust_state: WorkflowTrustState::Untrusted,
        output_names: strings(&["b", "a"]),
    };
    let it = diagnose_global_row("build", "latest", "2.0.0".into(), &row, false);
    assert_eq!(it.status, "untrusted_blocked");
    assert!(it.blocking);
    let it = diagnose_global_row("build", "latest", "2.0.0".into(), &row, true);
    assert_eq!(it.status, "ok");
    assert!(!it.blocking);
    assert_eq!(it.declared_outputs, Some(strings(&["a", "b"])));
    let it = diagnose_global_row("build", "latest", "2.0.0".into(), &GlobalRowLookup::Deleted, true);
    assert_eq!(it.status, "deleted");
    let it = diagnose_project_row("lint", "1.0.0", "1.0.0".into(), &None);
    assert_eq!(it.status, "project_not_found");
    let it = with_invocation(it, "inv1", "project/lint");
    assert_eq!(it.invocation_id, "inv1");
    assert_eq!(it.reference, "project/lint");
}
