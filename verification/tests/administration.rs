use met_api::platform::{deep_scan_section, nats_section, object_store_reachability, PrefixUsageEstimate};
use met_api::dto_admin::JetStreamStreamRow;
use met_api::security::{collect_blast_hits, search_scope, AgentMatch, BlastMatches, FootprintMatch, PipelineMatch, ProjectMatch, RunMatch, SearchScope};
use met_api::access::OrgSearchMode;
use met_api::agents::{agent_matches_query, drain_outcome, filter_agents, resume_outcome, resumed_status_name, AgentFacts, AgentQuery, ResumedStatus};
use met_api::admin_users::{check_role_revocation, parse_permission_role, PermissionRoleName};
use met_api::artifacts::{inline_sbom_key, sbom_document_format, select_run_sbom, InlineSbomKey, SbomOutcome, SbomProbe};
use met_api::log_stream::{check_job_run_in_run, job_log_page, log_level};
use met_api::sign_in::{check_password_change, stored_password_hash};
use met_api::stored_secrets::check_secret_reference;
use met_api::access::{pipeline_filter_project, require_project_in_user_org, require_same_org, CurrentUser};
use met_api::admin_users::{
    apply_user_update, check_admin_password_reset, check_password_reset_target,
    check_user_admin_action, EditableUser, UserAdminAction,
};
use met_api::error::ErrorKind;
use met_api::members::principal_search_pattern;
use met_api::oauth::{check_new_auth_provider, profile_name, profile_role};
use met_api::runs::{
    check_cancellable, check_retryable, definition_digest_hex, plan_run_list, shows_as_queued,
    RunJobRollup, RunListTarget,
};
use met_api::stored_secrets::{
    check_stored_secret_row_access, secret_version_scope, SecretRowAction,
};

fn caller(perms: &[&str]) -> CurrentUser {
    CurrentUser {
        user_id: "admin-1".to_string(),
        org_id: "org-1".to_string(),
        permissions: perms.iter().map(|s| s.to_string()).collect(),
        is_api_token: false,
        project_ids: None,
        pipeline_ids: None,
    }
}

#[test]
fn run_list_filters() {
    let e = plan_run_list(Some("p".into()), Some("j".into()), None).err().unwrap();
    assert_eq!(e.kind, ErrorKind::BadRequest);
    assert_eq!(e.message, "provide only one of `pipeline_id` or `project_id`");
    let e = plan_run_list(None, Some("j".into()), Some(3)).err().unwrap();
    assert_eq!(e.message, "`run_number` can only be used with `pipeline_id`");
    let e = plan_run_list(None, None, Some(3)).err().unwrap();
    assert_eq!(e.message, "`run_number` requires `pipeline_id`");
    let e = plan_run_list(None, None, None).err().unwrap();
    assert_eq!(e.message, "`pipeline_id` or `project_id` query parameter is required");
    match plan_run_list(Some("p".into()), None, Some(7)).ok().unwrap() {
        RunListTarget::PipelineRunNumber { pipeline_id, run_number } => {
            assert_eq!(pipeline_id, "p");
            assert_eq!(run_number, 7);
        }
        _ => panic!("expected a run-number lookup"),
    }
    assert!(matches!(
        plan_run_list(Some("p".into()), None, None).ok().unwrap(),
        RunListTarget::Pipeline { .. }
    ));
    assert!(matches!(
        plan_run_list(None, Some("j".into()), None).ok().unwrap(),
        RunListTarget::Project { .. }
    ));
}

#[test]
fn running_without_agent_shows_queued() {
    let waiting = RunJobRollup { job_count: 2, any_running: false };
    let busy = RunJobRollup { job_count: 2, any_running: true };
    let empty = RunJobRollup { job_count: 0, any_running: false };
    assert!(shows_as_queued(true, Some(waiting)));
    assert!(!shows_as_queued(true, Some(busy)));
    assert!(!shows_as_queued(true, Some(empty)));
    assert!(!shows_as_queued(true, None));
    assert!(!shows_as_queued(false, Some(waiting)));
}

#[test]
fn digest_rendering() {
    let d: Vec<u8> = (0u8..32).collect();
    let h = definition_digest_hex(&Some(d)).unwrap();
    assert_eq!(h.len(), 64);
    assert!(h.starts_with("000102"));
    assert!(h.ends_with("1e1f"));
    assert_eq!(definition_digest_hex(&Some(vec![1, 2, 3])), None);
    assert_eq!(definition_digest_hex(&None), None);
}

#[test]
fn cancel_and_retry_states() {
    assert!(check_cancellable("r1", false, "Running").is_ok());
    let e = check_cancellable("r1", true, "Succeeded").err().unwrap();
    assert_eq!(e.kind, ErrorKind::Conflict);
    assert_eq!(e.message, "Run r1 is already in terminal state: Succeeded");
    assert!(check_retryable("r1", true, "Failed").is_ok());
    let e = check_retryable("r1", false, "Running").err().unwrap();
    assert_eq!(e.message, "Run r1 is still in progress: Running");
}

#[test]
fn stored_secret_row_guards() {
    let admin = caller(&["org:admin"]);
    let plain = caller(&["run:read"]);
    let project = Some("proj".to_string());
    assert!(check_stored_secret_row_access(SecretRowAction::Rotate, &project, true, "org-1", &plain).is_ok());
    let e = check_stored_secret_row_access(SecretRowAction::Rotate, &project, false, "org-1", &admin)
        .err()
        .unwrap();
    assert_eq!(e.message, "no access to this project");
    let e = check_stored_secret_row_access(SecretRowAction::Purge, &None, true, "org-1", &plain)
        .err()
        .unwrap();
    assert_eq!(e.kind, ErrorKind::Forbidden);
    assert_eq!(e.message, "purging org-wide secrets requires org:admin (or *) permission");
    let e = check_stored_secret_row_access(SecretRowAction::Activate, &None, false, "org-1", &plain)
        .err()
        .unwrap();
    assert_eq!(e.message, "org-wide secret rollback requires org:admin (or *) permission");
    let e = check_stored_secret_row_access(SecretRowAction::Delete, &None, false, "org-2", &admin)
        .err()
        .unwrap();
    assert_eq!(e.message, "wrong organization");
}

#[test]
fn secret_version_listing_scope() {
    let e = secret_version_scope("  ", false, &None, &None, "proj").err().unwrap();
    assert_eq!(e.message, "path is required");
    let e = secret_version_scope("db/pw", true, &Some("pl".into()), &None, "proj").err().unwrap();
    assert_eq!(e.message, "organization_wide conflicts with pipeline_id");
    let s = secret_version_scope(" db/pw ", true, &None, &None, "proj").ok().unwrap();
    assert_eq!(s.path, "db/pw");
    assert_eq!(s.project_id, None);
    let e = secret_version_scope("db/pw", false, &Some("pl".into()), &Some("other".into()), "proj")
        .err()
        .unwrap();
    assert_eq!(e.message, "pipeline does not belong to project");
    let s = secret_version_scope("db/pw", false, &Some("pl".into()), &Some("proj".into()), "proj")
        .ok()
        .unwrap();
    assert_eq!(s.project_id.as_deref(), Some("proj"));
    assert_eq!(s.pipeline_id.as_deref(), Some("pl"));
}

#[test]
fn organization_boundaries() {
    let u = caller(&[]);
    assert!(require_same_org("org-1", &u, "cannot access groups in other organizations").is_ok());
    let e = require_same_org("org-2", &u, "cannot access groups in other organizations").err().unwrap();
    assert_eq!(e.kind, ErrorKind::Forbidden);
    assert_eq!(e.message, "cannot access groups in other organizations");
    let e = require_project_in_user_org("org-2", &u, true).err().unwrap();
    assert_eq!(e.kind, ErrorKind::NotFound);
    assert_eq!(e.message, "Project not found");
    let e = require_project_in_user_org("org-1", &u, false).err().unwrap();
    assert_eq!(e.message, "You do not have access to this project");
    assert!(require_project_in_user_org("org-1", &u, true).is_ok());
}

#[test]
fn workspace_pipeline_filter() {
    let u = caller(&[]);
    assert_eq!(pipeline_filter_project(Some("a".into()), None, &u).ok().unwrap(), Some("a".to_string()));
    assert_eq!(
        pipeline_filter_project(None, Some(("pa".into(), "org-1".into())), &u).ok().unwrap(),
        Some("pa".to_string())
    );
    let e = pipeline_filter_project(None, Some(("pa".into(), "org-9".into())), &u).err().unwrap();
    assert_eq!(e.message, "pipeline not in your organization");
    let e = pipeline_filter_project(Some("b".into()), Some(("pa".into(), "org-1".into())), &u)
        .err()
        .unwrap();
    assert_eq!(e.kind, ErrorKind::BadRequest);
    assert_eq!(e.message, "pipeline_id does not belong to the given project_id");
}

#[test]
fn user_administration_rules() {
    let admin = caller(&["*"]);
    let e = check_user_admin_action(UserAdminAction::Lock, &caller(&[]), "u2", "org-1").err().unwrap();
    assert_eq!(e.message, "admin access required");
    let e = check_user_admin_action(UserAdminAction::Delete, &admin, "u2", "org-2").err().unwrap();
    assert_eq!(e.message, "cannot delete users in other organizations");
    let e = check_user_admin_action(UserAdminAction::Lock, &admin, "admin-1", "org-1").err().unwrap();
    assert_eq!(e.kind, ErrorKind::Forbidden);
    assert!(e.message.starts_with("cannot lock your own account"));
    let e = check_user_admin_action(UserAdminAction::Delete, &admin, "admin-1", "org-1").err().unwrap();
    assert_eq!(e.kind, ErrorKind::BadRequest);
    assert_eq!(e.message, "cannot delete your own account");
    let e = check_user_admin_action(UserAdminAction::Update { demote: true }, &admin, "admin-1", "org-1")
        .err()
        .unwrap();
    assert_eq!(e.message, "cannot remove your own admin status");
    assert!(check_user_admin_action(UserAdminAction::Update { demote: false }, &admin, "admin-1", "org-1").is_ok());
    assert!(check_user_admin_action(UserAdminAction::Unlock, &admin, "admin-1", "org-1").is_ok());
    assert!(check_user_admin_action(UserAdminAction::Lock, &admin, "u2", "org-1").is_ok());

    let u = apply_user_update(
        EditableUser { display_name: Some("Old".into()), is_admin: false },
        None,
        Some(true),
    );
    assert_eq!(u.display_name.as_deref(), Some("Old"));
    assert!(u.is_admin);
    let u = apply_user_update(EditableUser { display_name: None, is_admin: true }, Some("New".into()), None);
    assert_eq!(u.display_name.as_deref(), Some("New"));
    assert!(u.is_admin);
}

#[test]
fn admin_password_reset_rules() {
    let admin = caller(&["*"]);
    let e = check_admin_password_reset(&admin, false, "longenough", 8).err().unwrap();
    assert_eq!(e.message, "password authentication is disabled");
    let e = check_admin_password_reset(&admin, true, "short", 8).err().unwrap();
    assert_eq!(e.kind, ErrorKind::BadRequest);
    assert_eq!(e.message, "password must be at least 8 characters");
    assert!(check_admin_password_reset(&admin, true, "longenough", 8).is_ok());
    assert!(check_password_reset_target(&admin, "org-1").is_ok());
    let e = check_password_reset_target(&admin, "org-3").err().unwrap();
    assert_eq!(e.message, "cannot reset password for users in other organizations");
}

#[test]
fn auth_provider_and_profile() {
    let e = check_new_auth_provider("saml", &None).err().unwrap();
    assert_eq!(e.message, "provider_type must be 'oidc' or 'github'");
    let e = check_new_auth_provider("oidc", &None).err().unwrap();
    assert_eq!(e.message, "issuer_url is required for OIDC providers");
    assert!(check_new_auth_provider("oidc", &Some("https://id.example".into())).is_ok());
    assert!(check_new_auth_provider("github", &None).is_ok());
    assert_eq!(profile_name(None, "jane@example.com"), "jane");
    assert_eq!(profile_name(None, "nobody"), "nobody");
    assert_eq!(profile_name(Some("Jane D".into()), "jane@example.com"), "Jane D");
    assert_eq!(profile_role(&caller(&["*"])), "admin");
    assert_eq!(profile_role(&caller(&["run:read"])), "user");
    assert_eq!(principal_search_pattern(Some("JaNe".into())), "%jane%");
    assert_eq!(principal_search_pattern(None), "%%");
}

#[test]
fn role_names_and_revocation() {
    assert_eq!(parse_permission_role("Security_Lead").ok(), Some(PermissionRoleName::SecurityLead));
    assert_eq!(parse_permission_role("ADMIN").ok(), Some(PermissionRoleName::Admin));
    assert_eq!(parse_permission_role("user").ok(), Some(PermissionRoleName::User));
    let e = parse_permission_role("root").err().unwrap();
    assert_eq!(e.kind, ErrorKind::BadRequest);
    assert_eq!(e.message, "invalid role");
    let admin = caller(&["*"]);
    let e = check_role_revocation(&admin, "admin-1", PermissionRoleName::Admin).err().unwrap();
    assert_eq!(e.message, "cannot revoke your own admin role");
    assert!(check_role_revocation(&admin, "admin-1", PermissionRoleName::Auditor).is_ok());
    assert!(check_role_revocation(&admin, "u2", PermissionRoleName::Admin).is_ok());
}

#[test]
fn run_sbom_selection() {
    let probe = |name: &str, inline: bool| SbomProbe {
        name: name.to_string(),
        storage_path: "runs/1/".to_string(),
        content_type: None,
        has_inline_document: inline,
    };
    assert_eq!(select_run_sbom(&vec![]), SbomOutcome::NotGenerated);
    assert_eq!(select_run_sbom(&vec![probe("app.tar", true)]), SbomOutcome::NotGenerated);
    assert_eq!(select_run_sbom(&vec![probe("app.tar", true), probe("bom.spdx.json", false)]), SbomOutcome::Registered);
    assert_eq!(
        select_run_sbom(&vec![probe("a.spdx.json", false), probe("b.cyclonedx.json", true), probe("c.sbom", true)]),
        SbomOutcome::Inline(1)
    );
    assert_eq!(sbom_document_format(true, true), "cyclonedx");
    assert_eq!(sbom_document_format(false, true), "spdx");
    assert_eq!(sbom_document_format(false, false), "json");
    assert_eq!(inline_sbom_key(true, true), Some(InlineSbomKey::SbomJson));
    assert_eq!(inline_sbom_key(false, true), Some(InlineSbomKey::Sbom));
    assert_eq!(inline_sbom_key(false, false), None);
}

#[test]
fn stored_job_log_pages() {
    let lines: Vec<String> = vec!["a".into(), "b".into(), "c".into()];
    let p = job_log_page(&lines, 2);
    assert!(p.has_more);
    assert_eq!(p.taken, 2);
    assert_eq!(p.content, "a\nb");
    let p = job_log_page(&lines, 3);
    assert!(!p.has_more);
    assert_eq!(p.content, "a\nb\nc");
    let p = job_log_page(&vec![], 10);
    assert_eq!(p.taken, 0);
    assert_eq!(p.content, "");
    assert_eq!(log_level("stderr"), "stderr");
    assert_eq!(log_level("stdout"), "stdout");
    assert_eq!(log_level("other"), "stdout");
    assert!(check_job_run_in_run("r1", "r1").is_ok());
    let e = check_job_run_in_run("r2", "r1").err().unwrap();
    assert_eq!(e.kind, ErrorKind::NotFound);
    assert_eq!(e.message, "job run not found for this pipeline run");
}

#[test]
fn password_change_rules() {
    let e = check_password_change(false, "whatever-long", 8).err().unwrap();
    assert_eq!(e.kind, ErrorKind::Forbidden);
    assert_eq!(e.message, "password authentication is disabled");
    let e = check_password_change(true, "short", 12).err().unwrap();
    assert_eq!(e.message, "new password must be at least 12 characters");
    assert!(check_password_change(true, "twelve-chars", 12).is_ok());
    assert_eq!(stored_password_hash(&Some("$argon".into())).ok().unwrap(), "$argon");
    let e = stored_password_hash(&None).err().unwrap();
    assert_eq!(e.kind, ErrorKind::BadRequest);
    assert_eq!(e.message, "password login not configured for this user");
}

#[test]
fn secret_reference_fields() {
    assert_eq!(check_secret_reference("", "vault", "k").err().unwrap().message, "name is required");
    assert_eq!(check_secret_reference("n", "", "k").err().unwrap().message, "provider is required");
    assert_eq!(check_secret_reference("n", "vault", "").err().unwrap().message, "provider_key is required");
    assert!(check_secret_reference("n", "vault", "k").is_ok());
}

fn agent(status: &str, pool: Option<&str>, tags: &[&str]) -> AgentFacts {
    AgentFacts {
        status: status.to_string(),
        pool: pool.map(|p| p.to_string()),
        tags: tags.iter().map(|t| t.to_string()).collect(),
    }
}

#[test]
fn agent_listing_filters() {
    let agents = vec![
        agent("Online", Some("linux"), &["x86", "docker"]),
        agent("Busy", Some("linux"), &["arm"]),
        agent("Online", None, &["x86"]),
    ];
    let all = AgentQuery { status: None, pool: None, tags: None };
    assert_eq!(filter_agents(&agents, &all), vec![0, 1, 2]);
    let online = AgentQuery { status: Some("ONLINE".into()), pool: None, tags: None };
    assert_eq!(filter_agents(&agents, &online), vec![0, 2]);
    let pooled = AgentQuery { status: None, pool: Some("linux".into()), tags: Some(" x86 , docker".into()) };
    assert_eq!(filter_agents(&agents, &pooled), vec![0]);
    let q = AgentQuery { status: None, pool: None, tags: Some("x86".into()) };
    assert!(agent_matches_query(&agents[2], &q));
    let q = AgentQuery { status: None, pool: None, tags: Some("x86,".into()) };
    assert!(!agent_matches_query(&agents[2], &q));
}

#[test]
fn drain_and_resume() {
    let o = drain_outcome(true);
    assert!(!o.set_draining);
    assert_eq!(o.message, "Agent is already draining");
    let o = drain_outcome(false);
    assert!(o.set_draining);
    assert_eq!(o.message, "Agent will stop accepting new jobs");
    let e = resume_outcome("ag1", false, "Online", 0).err().unwrap();
    assert_eq!(e.kind, ErrorKind::Conflict);
    assert_eq!(e.message, "Agent ag1 is not draining (current status: Online)");
    assert_eq!(resume_outcome("ag1", true, "Draining", 2).ok(), Some(ResumedStatus::Busy));
    assert_eq!(resume_outcome("ag1", true, "Draining", 0).ok(), Some(ResumedStatus::Online));
    assert_eq!(resumed_status_name(ResumedStatus::Busy), "busy");
    assert_eq!(resumed_status_name(ResumedStatus::Online), "online");
}

#[test]
fn blast_radius_hits_without_repeats() {
    let m = BlastMatches {
        runs: vec![
            RunMatch { run_id: "run_1".into(), commit_sha: Some("  ".into()), pipeline_name: Some("build".into()) },
            RunMatch { run_id: "run_2".into(), commit_sha: Some("abc123".into()), pipeline_name: Some("build".into()) },
        ],
        pipelines: vec![PipelineMatch {
            pipeline_id: "pl_1".into(),
            project_id: "pr_1".into(),
            pipeline_name: "build".into(),
            project_name: "core".into(),
        }],
        projects: vec![ProjectMatch { project_id: "pr_1".into(), name: "core".into() }],
        binary_footprints: vec![
            FootprintMatch { run_id: "run_2".into(), commit_sha: None, pipeline_name: None, sample: "/usr/bin/curl".into() },
            FootprintMatch { run_id: "run_3".into(), commit_sha: Some("def".into()), pipeline_name: Some("deploy".into()), sample: "/bin/sh".into() },
        ],
        egress_footprints: vec![FootprintMatch {
            run_id: "run_4".into(),
            commit_sha: None,
            pipeline_name: Some("deploy".into()),
            sample: "10.0.0.1:443".into(),
        }],
        agents: vec![AgentMatch { agent_id: "agt_1".into(), name: "runner-a".into() }],
    };
    let hits = collect_blast_hits(&m);
    let keys: Vec<(String, String)> = hits.iter().map(|h| (h.kind.to_string(), h.id.clone())).collect();
    assert_eq!(
        keys,
        vec![
            ("run".to_string(), "run_1".to_string()),
            ("run".to_string(), "run_2".to_string()),
            ("pipeline".to_string(), "pl_1".to_string()),
            ("project".to_string(), "pr_1".to_string()),
            ("run".to_string(), "run_3".to_string()),
            ("run".to_string(), "run_4".to_string()),
            ("agent".to_string(), "agt_1".to_string()),
        ]
    );
    assert_eq!(hits[0].detail.as_deref(), Some("build"));
    assert_eq!(hits[1].detail.as_deref(), Some("abc123"));
    assert_eq!(hits[2].project_id.as_deref(), Some("pr_1"));
    assert_eq!(hits[2].detail.as_deref(), Some("build · core"));
    assert_eq!(hits[4].detail.as_deref(), Some("def · deploy · footprint (binary): /bin/sh"));
    assert_eq!(hits[5].detail.as_deref(), Some("deploy · footprint (egress): 10.0.0.1:443"));
    assert_eq!(hits[6].detail.as_deref(), Some("runner-a"));
}

#[test]
fn blast_radius_scope() {
    assert!(matches!(search_scope(&OrgSearchMode::FullOrg), SearchScope::Org));
    assert!(matches!(search_scope(&OrgSearchMode::OpenOrg), SearchScope::Org));
    assert!(matches!(search_scope(&OrgSearchMode::ProjectAllowList(vec![])), SearchScope::Nothing));
    assert!(matches!(search_scope(&OrgSearchMode::PipelineAllowList(vec![])), SearchScope::Nothing));
    match search_scope(&OrgSearchMode::ProjectAllowList(vec!["p1".into()])) {
        SearchScope::Projects(v) => assert_eq!(v, vec!["p1".to_string()]),
        _ => panic!("expected a project scope"),
    }
}

#[test]
fn platform_health_sections() {
    assert_eq!(object_store_reachability(Some(Ok(()))), (true, None));
    assert_eq!(
        object_store_reachability(None),
        (false, Some("object store client not initialized".to_string()))
    );
    assert_eq!(
        object_store_reachability(Some(Err("403".into()))),
        (false, Some("403".to_string()))
    );
    let est = PrefixUsageEstimate { bytes_summed: 10, objects_scanned: 2, list_pages: 1, truncated: true };
    let d = deep_scan_section("orgs/o/".into(), Some(Ok(est)));
    assert_eq!((d.bytes_summed, d.objects_scanned, d.list_pages, d.truncated), (10, 2, 1, true));
    assert_eq!(d.error, None);
    let d = deep_scan_section("orgs/o/".into(), None);
    assert_eq!(d.prefix, "orgs/o/");
    assert_eq!(d.bytes_summed, 0);
    assert_eq!(d.error.as_deref(), Some("object store client not initialized"));
    let d = deep_scan_section("orgs/o/".into(), Some(Err("timeout".into())));
    assert_eq!(d.error.as_deref(), Some("timeout"));
    let n = nats_section(None);
    assert!(!n.available);
    assert_eq!(n.unavailable_reason.as_deref(), Some("NATS is not connected"));
    assert!(n.streams.is_empty());
    let n = nats_section(Some(vec![JetStreamStreamRow { name: "RUNS".into(), messages: 3, bytes: 9, error: None }]));
    assert!(n.available);
    assert_eq!(n.streams.len(), 1);
}
