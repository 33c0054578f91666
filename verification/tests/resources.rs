use met_api::catalog::{
    catalog_metadata, github_upstream_url, no_scm_versions_error, repo_slug,
    require_workflow_name, sync_actor, sync_import_request, workflow_version_or_default,
};
use met_api::checks::{
    build_response, environment_diagnostics, lint_diagnostic, missing_secret_diagnostic,
    parse_error_diagnostic, secret_ref_name, CheckedEnvironment, LintSeverity,
};
use met_api::dag::{
    build_dag_nodes_from_db_jobs, build_dag_nodes_from_definition, merge_binaries_for_job_runs,
    DagJobRun, JobDagNode, JobRunBinaries, RunBinaryExecutionAgg,
};
use met_api::debug_sessions::{
    check_debug_ttl, debug_proxy_url, debug_secret_access, parse_optional_uuid, parse_session_id,
};
use met_api::error::ErrorKind;
use met_api::join_tokens::{
    check_installation_may_create_join_tokens, check_integration_join_token_scope,
    join_token_description, join_token_history_to_api_entries, join_token_prefix,
    join_token_response, join_token_scope_str, parse_join_token_scope, place_join_token,
    user_display_name, JoinToken, JoinTokenDescriptionHistory, JoinTokenScope, UserNameRow,
};
use met_api::members::{
    normalize_install_permissions, resolve_add_project_member_principal,
    validate_principal_type, AddProjectMemberRequest, ProjectPrincipalTarget,
};
use met_api::pipeline_matrix::{matrix_view, Environment, MatrixCellRow};
use met_api::platform::{endpoint_display, org_object_prefix};
use met_api::projects::{check_new_project, check_project_update, project_owner_id};
use met_api::scheduling::JobStatus;
use met_api::stored_secrets::{
    check_stored_secret_input, dedupe_latest, stored_secret_placement, BuiltinSecretMetaRow,
};
use met_api::access::CurrentUser;
use met_api::variables::{
    apply_variable_update, check_pipeline_in_project, check_variable_name, check_variable_org,
    variable_response, VariableRow,
};

fn strings(xs: &[&str]) -> Vec<String> {
    xs.iter().map(|s| s.to_string()).collect()
}

#[test]
fn catalog_imports() {
    assert_eq!(repo_slug("acme", "flows"), "acme/flows");
    assert_eq!(
        github_upstream_url("acme", "flows", "abc", "//ci/build.yml"),
        "https://github.com/acme/flows/blob/abc/ci/build.yml"
    );
    assert_eq!(require_workflow_name(Some("build")).unwrap(), "build");
    assert!(require_workflow_name(Some("")).is_err());
    assert!(require_workflow_name(None).is_err());
    assert_eq!(workflow_version_or_default(None), "0.0.0");
    assert_eq!(workflow_version_or_default(Some("1.2.3".into())), "1.2.3");
    let jobs = vec![
        vec![Some("actions/checkout".to_string()), None],
        vec![],
        vec![Some("cargo".to_string())],
    ];
    let m = catalog_metadata(None, Some("build"), &jobs, "https://x");
    assert_eq!(m.summary, "build");
    assert_eq!(m.tools, strings(&["actions/checkout", "cargo"]));
    assert_eq!(catalog_metadata(None, None, &vec![], "u").summary, "workflow");
    assert_eq!(no_scm_versions_error("b"), "no SCM-sourced versions of 'b' found in the catalog");
    let r = sync_import_request(Some("creds"), &Some("a/b".into()), &Some("main".into()), &Some("w.yml".into()))
        .unwrap();
    assert_eq!(r.credentials_path, "creds");
    assert!(sync_import_request(Some(""), &Some("a/b".into()), &Some("main".into()), &Some("w".into())).is_none());
    assert!(sync_import_request(Some("c"), &None, &Some("main".into()), &Some("w".into())).is_none());
    assert_eq!(sync_actor(None), 0);
    assert_eq!(sync_actor(Some(5)), 5);
}

#[test]
fn check_diagnostics() {
    let p = parse_error_diagnostic("bad indent");
    assert_eq!(p.code, "PARSE");
    assert_eq!(p.message, "YAML parse error: bad indent");
    let l = lint_diagnostic("L001", LintSeverity::Warning, "m", &Some("https://doc".into()));
    assert_eq!(l.severity, "warning");
    assert_eq!(l.doc_url.as_deref(), Some("https://doc"));
    assert_eq!(secret_ref_name(None, Some("b")), Some("b"));
    assert_eq!(secret_ref_name(Some("a"), Some("b")), Some("a"));
    let m = missing_secret_diagnostic("TOKEN", "GH_TOKEN", Some("did you mean TOKENS?".into()));
    assert_eq!(m.message, "secret 'TOKEN' not found in project scope (referenced as GH_TOKEN)");
    let d = environment_diagnostics("prod", Some("dev"), &None);
    assert_eq!(d.len(), 1);
    assert_eq!(d[0].code, "CHK-009");
    let env = CheckedEnvironment {
        ref_allowed: Some(false),
        allowed_branches: strings(&["main"]),
        require_approval: true,
        required_approvers: 2,
        approval_timeout_hours: 24,
    };
    let d = environment_diagnostics("prod", Some("dev"), &Some(env));
    assert_eq!(d.len(), 2);
    assert_eq!(d[0].message, "environment 'prod' blocks ref 'dev' (allowed: [\"main\"])");
    assert_eq!(d[1].message, "environment 'prod' requires approval (2 approver(s), 24h timeout)");
    assert_eq!(d[1].severity, "info");
    let r = build_response(d);
    assert!(!r.valid);
    assert_eq!((r.summary.errors, r.summary.warnings, r.summary.info), (1, 0, 1));
}

fn jr(id: &str, job_id: &str, name: &str, attempt: i32, status: JobStatus) -> DagJobRun {
    DagJobRun {
        id: id.into(),
        job_id: job_id.into(),
        job_name: name.into(),
        attempt,
        status,
    }
}

fn agg(path: &str, sha: &str, n: i64) -> RunBinaryExecutionAgg {
    RunBinaryExecutionAgg { binary_path: path.into(), binary_sha256: sha.into(), execution_count: n }
}

#[test]
fn run_graph_nodes() {
    let runs = vec![
        jr("r1", "j1", "build", 1, JobStatus::Failed),
        jr("r2", "j1", "build", 2, JobStatus::Succeeded),
        jr("r3", "j2", "test", 1, JobStatus::Running),
    ];
    let table = vec![
        JobRunBinaries { job_run_id: "r1".into(), rows: vec![agg("/bin/cc", "a", 2), agg("/bin/ld", "b", 1)] },
        JobRunBinaries { job_run_id: "r2".into(), rows: vec![agg("/bin/cc", "a", 3)] },
    ];
    let defs = vec![
        ("build".to_string(), vec![]),
        ("test".to_string(), strings(&["build"])),
        ("deploy".to_string(), strings(&["test"])),
    ];
    let nodes = build_dag_nodes_from_definition(&defs, &runs, &table);
    assert_eq!(nodes.len(), 3);
    assert_eq!(nodes[0].job_id, "def:build");
    assert_eq!(nodes[0].status, "succeeded");
    assert_eq!(nodes[0].executed_binaries.len(), 2);
    assert_eq!(nodes[0].executed_binaries[0].binary_path, "/bin/cc");
    assert_eq!(nodes[0].executed_binaries[0].execution_count, 5);
    assert_eq!(nodes[1].status, "running");
    assert_eq!(nodes[1].depends_on, strings(&["build"]));
    assert_eq!(nodes[2].status, "pending");
    let db = vec![JobDagNode { id: "j2".into(), name: "test".into(), depends_on: vec![] }];
    let nodes = build_dag_nodes_from_db_jobs(&db, &runs, &table);
    assert_eq!(nodes[0].job_id, "j2");
    assert_eq!(nodes[0].status, "running");
    let merged = merge_binaries_for_job_runs(&vec![agg("b", "2", 1), agg("a", "9", 1), agg("b", "2", 4)]);
    let got: Vec<(&str, i64)> = merged.iter().map(|m| (m.binary_path.as_str(), m.execution_count)).collect();
    assert_eq!(got, vec![("a", 1), ("b", 5)]);
}

#[test]
fn debug_sessions() {
    assert!(check_debug_ttl(1).is_ok());
    assert!(check_debug_ttl(480).is_ok());
    assert!(check_debug_ttl(0).is_err());
    assert!(check_debug_ttl(481).is_err());
    let id = parse_session_id("67e55044-10b1-426f-9247-bb680e5fe0c8").unwrap();
    assert_eq!(
        debug_proxy_url(id),
        "/api/v1/debug/sessions/67e55044-10b1-426f-9247-bb680e5fe0c8/secrets"
    );
    assert_eq!(parse_session_id("nope").unwrap_err().message, "invalid session_id");
    assert_eq!(parse_optional_uuid(&None, "invalid project_id").unwrap(), None);
    assert_eq!(
        parse_optional_uuid(&Some("x".into()), "invalid project_id").unwrap_err().message,
        "invalid project_id"
    );
    assert!(debug_secret_access("u", "u", false, None).is_ok());
    assert!(debug_secret_access("u", "u", false, Some(false)).is_ok());
    assert_eq!(debug_secret_access("u", "v", false, None).unwrap_err().kind, ErrorKind::Forbidden);
    assert_eq!(debug_secret_access("u", "u", true, None).unwrap_err().kind, ErrorKind::BadRequest);
    assert_eq!(debug_secret_access("u", "u", false, Some(true)).unwrap_err().kind, ErrorKind::Conflict);
}

#[test]
fn join_tokens() {
    assert_eq!(parse_join_token_scope(None).unwrap(), JoinTokenScope::Tenant);
    assert_eq!(parse_join_token_scope(Some("pipeline")).unwrap(), JoinTokenScope::Pipeline);
    assert!(parse_join_token_scope(Some("global")).is_err());
    assert_eq!(join_token_scope_str(JoinTokenScope::Platform), "platform");
    assert_eq!(join_token_description(&Some("  agent pool ".into())).unwrap(), "agent pool");
    assert!(join_token_description(&None).is_err());
    let p = place_join_token(JoinTokenScope::Tenant, "org1", &None).unwrap();
    assert_eq!(p.scope_id.as_deref(), Some("org1"));
    assert_eq!(p.org_id.as_deref(), Some("org1"));
    assert!(place_join_token(JoinTokenScope::Project, "org1", &None).is_err());
    let p = place_join_token(JoinTokenScope::Project, "org1", &Some("p1".into())).unwrap();
    assert_eq!(p.scope_id.as_deref(), Some("p1"));
    assert!(p.org_id.is_none());
    assert!(check_installation_may_create_join_tokens(&strings(&["agents:delete", "join_tokens:create"])).is_ok());
    assert!(check_installation_may_create_join_tokens(&strings(&["agents:delete"])).is_err());
    assert!(check_integration_join_token_scope(None, &None, "p1").is_ok());
    assert!(check_integration_join_token_scope(Some("tenant"), &None, "p1").is_err());
    assert_eq!(
        check_integration_join_token_scope(Some("project"), &Some("p2".into()), "p1").unwrap_err().kind,
        ErrorKind::Forbidden
    );
    assert_eq!(join_token_prefix("0123456789abcdef"), "met_join_01234567...");
    assert_eq!(join_token_prefix("abc"), "met_join_abc...");
    let t = JoinToken {
        id: "t1".into(),
        token_hash: "deadbeefcafe".into(),
        scope: JoinTokenScope::Project,
        scope_id: Some("p1".into()),
        description: "d".into(),
        org_id: None,
        max_uses: 1,
        current_uses: 0,
        labels: strings(&["gpu"]),
        pool_tags: vec![],
        expires_at: None,
        revoked: false,
        created_by: "u1".into(),
        created_at: "2024-01-01T00:00:00+00:00".into(),
        consumed_at: None,
        consumed_by_agent_id: None,
    };
    let r = join_token_response(&t);
    assert_eq!(r.prefix, "met_join_deadbeef...");
    assert_eq!(r.scope, "project");
    assert!(r.created_by_name.is_none());
    let users = vec![
        UserNameRow { id: "u1".into(), username: "ada".into(), display_name: None },
        UserNameRow { id: "u2".into(), username: "bob".into(), display_name: Some("Bob B".into()) },
    ];
    assert_eq!(user_display_name(&users, "u2").as_deref(), Some("Bob B"));
    assert_eq!(user_display_name(&users, "u1").as_deref(), Some("ada"));
    assert_eq!(user_display_name(&users, "u9"), None);
    let hist = vec![
        JoinTokenDescriptionHistory { description: "a".into(), changed_at: "t".into(), changed_by: Some("u2".into()) },
        JoinTokenDescriptionHistory { description: "b".into(), changed_at: "t".into(), changed_by: None },
    ];
    let e = join_token_history_to_api_entries(&hist, &users);
    assert_eq!(e[0].changed_by_name.as_deref(), Some("Bob B"));
    assert!(e[1].changed_by_name.is_none());
}

#[test]
fn members() {
    assert!(validate_principal_type("group").is_ok());
    assert!(validate_principal_type("team").is_err());
    assert_eq!(
        normalize_install_permissions(&strings(&[" ", "agents:delete", "agents:delete"])).unwrap(),
        strings(&["agents:delete"])
    );
    assert_eq!(normalize_install_permissions(&strings(&[])).unwrap(), strings(&["join_tokens:create"]));
    assert_eq!(
        normalize_install_permissions(&strings(&["root"])).unwrap_err().message,
        "unknown permission 'root', allowed: join_tokens:create, join_tokens:revoke, agents:delete, *"
    );
    let req = |pt: Option<&str>, pid: Option<&str>, uid: Option<&str>| AddProjectMemberRequest {
        user_id: uid.map(|s| s.to_string()),
        principal_type: pt.map(|s| s.to_string()),
        principal_id: pid.map(|s| s.to_string()),
        role: "developer".into(),
    };
    assert!(matches!(resolve_add_project_member_principal(&req(None, None, Some("u1"))).unwrap(), ProjectPrincipalTarget::User(u) if u == "u1"));
    assert!(matches!(resolve_add_project_member_principal(&req(Some(" GROUP "), Some("g1"), None)).unwrap(), ProjectPrincipalTarget::Group(g) if g == "g1"));
    assert_eq!(
        resolve_add_project_member_principal(&req(Some("group"), None, Some("u1"))).err().unwrap().message,
        "group principal requires `principal_id`"
    );
    assert_eq!(
        resolve_add_project_member_principal(&req(Some("bot"), None, None)).err().unwrap().message,
        "principal_type must be user or group"
    );
}

#[test]
fn pipeline_matrix() {
    let envs = vec![
        Environment { id: "e1".into(), name: "staging".into(), tier: "pre".into() },
        Environment { id: "e2".into(), name: "prod".into(), tier: "prod".into() },
    ];
    let row = |wf: Option<&str>, env: Option<&str>, n: i64| MatrixCellRow {
        workflow_invocation_id: wf.map(|s| s.to_string()),
        environment_id: env.map(|s| s.to_string()),
        run_id: format!("r{n}"),
        run_number: n,
        status: "succeeded".into(),
        started_at: None,
        finished_at: None,
        duration_ms: Some(10),
        branch: None,
        triggered_by: "alice".into(),
    };
    let m = matrix_view(&envs, &vec![row(Some("build"), None, 1), row(Some("deploy"), Some("e2"), 2), row(Some("build"), Some("e9"), 3)]);
    assert_eq!(m.workflows, strings(&["build", "deploy"]));
    assert_eq!(m.environments.len(), 3);
    assert_eq!(m.environments[0].name, "Global");
    assert_eq!(m.environments[2].id.as_deref(), Some("e2"));
    assert_eq!(m.cells[1].environment.as_deref(), Some("prod"));
    assert!(m.cells[2].environment.is_none());
    assert_eq!(m.cells[0].run_number, Some(1));
}

#[test]
fn platform_health_display() {
    assert_eq!(endpoint_display(""), "default (AWS)");
    assert_eq!(endpoint_display("https://minio.local:9000/bucket"), "minio.local");
    assert_eq!(endpoint_display("not a url"), "not a url");
    assert_eq!(org_object_prefix("o1"), "orgs/o1/");
}

#[test]
fn project_rules() {
    assert!(check_new_project("Web", "web_app-2").is_ok());
    assert_eq!(check_new_project("", "x").unwrap_err().message, "name is required");
    assert_eq!(check_new_project("Web", "").unwrap_err().message, "slug is required");
    assert!(check_new_project("Web", "web app").is_err());
    assert_eq!(check_project_update(&Some("".into()), &None).unwrap_err().message, "name cannot be empty");
    assert_eq!(check_project_update(&None, &Some("".into())).unwrap_err().message, "slug cannot be empty");
    assert!(check_project_update(&None, &Some("ok-slug".into())).is_ok());
    assert_eq!(project_owner_id(&None, "u1"), "u1");
    assert_eq!(project_owner_id(&Some("team".into()), "u1"), "team");
}

fn user(perms: &[&str]) -> CurrentUser {
    CurrentUser {
        user_id: "u1".into(),
        org_id: "o1".into(),
        permissions: strings(perms),
        is_api_token: false,
        project_ids: None,
        pipeline_ids: None,
    }
}

fn secret(path: &str, project: Option<&str>, version: i32, id: &str) -> BuiltinSecretMetaRow {
    BuiltinSecretMetaRow {
        id: id.into(),
        project_id: project.map(|s| s.to_string()),
        pipeline_id: None,
        path: path.into(),
        kind: "generic".into(),
        version,
        description: None,
        propagate_to_projects: true,
    }
}

#[test]
fn stored_secrets() {
    assert_eq!(check_stored_secret_input(" ", "v").unwrap_err().message, "path is required");
    assert_eq!(check_stored_secret_input("a", "").unwrap_err().message, "value is required");
    assert!(check_stored_secret_input("a", "v").is_ok());
    let p = stored_secret_placement(Some("Organization"), &None, None, &user(&["org:admin"]), "p1").unwrap();
    assert!(p.org_wide && p.project_id.is_none() && p.propagate_to_projects);
    assert_eq!(
        stored_secret_placement(Some("organization"), &None, None, &user(&[]), "p1").err().unwrap().kind,
        ErrorKind::Forbidden
    );
    assert!(stored_secret_placement(Some("organization"), &Some("pl".into()), None, &user(&["*"]), "p1").is_err());
    assert!(stored_secret_placement(None, &None, Some(false), &user(&[]), "p1").is_err());
    let p = stored_secret_placement(None, &Some("pl".into()), None, &user(&[]), "p1").unwrap();
    assert_eq!(p.project_id.as_deref(), Some("p1"));
    assert_eq!(p.pipeline_id.as_deref(), Some("pl"));
    let rows = vec![
        secret("b", Some("p1"), 1, "b1"),
        secret("a", Some("p1"), 2, "a2"),
        secret("b", Some("p1"), 3, "b3"),
        secret("a", Some("p1"), 2, "a2bis"),
        secret("a", None, 1, "a-org"),
        secret("b", Some("p1"), 2, "b2"),
    ];
    let latest = dedupe_latest(rows);
    let ids: Vec<&str> = latest.iter().map(|r| r.id.as_str()).collect();
    assert_eq!(ids.len(), 3);
    assert!(ids[0] == "a2" || ids[0] == "a-org");
    assert!(ids.contains(&"a2") && ids.contains(&"a-org"));
    assert_eq!(ids[2], "b3");
}

#[test]
fn variables() {
    let row = VariableRow {
        id: "v1".into(),
        project_id: "p1".into(),
        org_id: "o1".into(),
        pipeline_id: None,
        environment_id: None,
        name: "TOKEN".into(),
        value: "hunter2".into(),
        scope: "project".into(),
        is_sensitive: true,
        created_at: "t0".into(),
        updated_at: "t1".into(),
    };
    let shown = variable_response(&row);
    assert!(shown.value.is_none());
    assert!(shown.is_sensitive);
    let (n, v, s) = apply_variable_update(&row, &None, &Some("new".into()), Some(false));
    assert_eq!((n.as_str(), v.as_str(), s), ("TOKEN", "new", false));
    assert!(check_variable_name("").is_err());
    assert!(check_variable_org("o2", "o1").is_err());
    assert_eq!(
        check_pipeline_in_project("p2", "p1", "pipeline does not belong to this project").unwrap_err().message,
        "pipeline does not belong to this project"
    );
}
