use met_api::retention::{effective_retention_days, heartbeat_cutoff, run_cutoff, RUN_DELETE_BATCH_SIZE};
use met_api::listing::{dlq_limit, job_queue_limit, recent_runs_limit};
use met_api::projects::{lists_all_projects, visible_projects};
use met_api::projects::{require_project_filter, validate_definition, visible_pipelines, DefinitionShape};
use met_api::join_tokens::{check_join_token_org, JoinTokenScope};
use met_api::policy::{default_external_kind_policy, is_external_kind_allowed, merge_external_kind_policy, policy_set, require_super_admin};
use met_api::access::{check_deprecation_permission, check_moderation_history_permission, CurrentUser};
use met_api::api_tokens::{check_admin_token_target, check_token_deletable};
use met_api::catalog::{check_global_catalog_row, check_new_project_workflow, parse_workflow_id};
use met_api::error::ErrorKind;
use met_api::join_tokens::{
    check_agent_in_installation_org, check_installation_may_create_join_tokens,
    check_installation_may_delete_agents, check_installation_may_revoke_join_tokens,
    check_token_in_installation_project, kubernetes_pod_uid,
};
use met_api::members::{
    admin_project_member_role, check_app_installable, check_member_removal,
    check_member_role_change, check_principal_org, project_install_permissions,
};
use met_api::orgs::{check_org_create, check_org_delete, check_org_read, check_org_update, lists_all_orgs};
use met_api::platform::{database_check, readiness};
use met_api::projects::{
    require_archived, require_project_role, require_unarchive_permission, ProjectAction, Removal,
};
use met_api::scm_source::{
    diagnosis_source, pipeline_sync_checkout, workflow_reimport_checkout, DiagnosisSource,
    PipelineScmLink, WorkflowScmLink,
};
use met_api::sign_in::{login_account, require_org_configured, require_password_match};
use met_api::admin_users::{check_identity_free, service_account_identity};
use met_api::workflow_sync::{plan_sync_schedule, schedule_due};

fn member(perms: &[&str]) -> CurrentUser {
    CurrentUser {
        user_id: "u1".to_string(),
        org_id: "org-a".to_string(),
        permissions: perms.iter().map(|s| s.to_string()).collect(),
        is_api_token: false,
        project_ids: None,
        pipeline_ids: None,
    }
}

fn owned_strings(xs: &[&str]) -> Vec<String> {
    xs.iter().map(|s| s.to_string()).collect()
}

#[test]
fn organization_rules() {
    let admin = member(&["*"]);
    let org_admin = member(&["org:admin"]);
    let plain = member(&[]);
    assert_eq!(check_org_create(&plain, "Acme", "acme").err().unwrap().message, "platform admin access required");
    assert_eq!(check_org_create(&admin, "", "acme").err().unwrap().message, "name is required");
    assert_eq!(check_org_create(&admin, "Acme", "").err().unwrap().message, "slug is required");
    assert_eq!(
        check_org_create(&admin, "Acme", "ac me").err().unwrap().message,
        "slug must contain only alphanumeric characters, hyphens, and underscores"
    );
    assert!(check_org_create(&admin, "Acme", "acme_1-x").is_ok());
    assert!(lists_all_orgs(&admin));
    assert!(!lists_all_orgs(&org_admin));
    assert!(check_org_read(&plain, "org-a").is_ok());
    assert_eq!(check_org_read(&plain, "org-b").err().unwrap().message, "cannot access other organizations");
    assert!(check_org_read(&admin, "org-b").is_ok());
    assert_eq!(check_org_update(&org_admin, "org-b", &None).err().unwrap().message, "cannot modify other organizations");
    assert_eq!(check_org_update(&plain, "org-a", &None).err().unwrap().message, "org admin access required");
    assert_eq!(
        check_org_update(&org_admin, "org-a", &Some(String::new())).err().unwrap().message,
        "name cannot be empty"
    );
    assert!(check_org_update(&org_admin, "org-a", &Some("New".into())).is_ok());
    assert_eq!(check_org_delete(&org_admin, "org-b").err().unwrap().message, "platform admin access required");
    let e = check_org_delete(&admin, "org-a").err().unwrap();
    assert_eq!(e.kind, ErrorKind::BadRequest);
    assert_eq!(e.message, "cannot delete your own organization");
    assert!(check_org_delete(&admin, "org-b").is_ok());
}

#[test]
fn project_roles_and_archiving() {
    assert!(require_project_role(true, ProjectAction::DeletePipelines).is_ok());
    let e = require_project_role(false, ProjectAction::SyncPipelinesFromGit).err().unwrap();
    assert_eq!(e.kind, ErrorKind::Forbidden);
    assert_eq!(e.message, "project administrator role is required to sync pipelines from Git");
    let e = require_project_role(false, ProjectAction::TriggerPipelines).err().unwrap();
    assert_eq!(e.message, "developer or administrator project role is required to trigger pipelines");
    let e = require_project_role(false, ProjectAction::BrowseApps).err().unwrap();
    assert_eq!(e.message, "project administrator role is required to browse Meticulous Apps for install");
    assert!(require_archived(true, Removal::PurgePipeline).is_ok());
    assert_eq!(
        require_archived(false, Removal::PurgePipeline).err().unwrap().message,
        "pipeline must be archived before purge"
    );
    assert_eq!(
        require_archived(false, Removal::DeleteProject).err().unwrap().message,
        "project must be archived before permanent delete (use Admin → Archive)"
    );
    assert!(require_archived(false, Removal::DeletePipeline).err().unwrap().message.starts_with("only archived pipelines"));
    assert!(require_unarchive_permission(&member(&["*"]), true).is_ok());
    assert_eq!(
        require_unarchive_permission(&member(&["org:admin"]), false).err().unwrap().message,
        "only organization administrators may unarchive projects (Admin → Archive)"
    );
}

#[test]
fn token_lifecycle_rules() {
    assert_eq!(check_token_deletable(true, true).err().unwrap().message, "token is already revoked");
    assert_eq!(
        check_token_deletable(false, false).err().unwrap().message,
        "deactivate the token before deleting it permanently"
    );
    assert!(check_token_deletable(false, true).is_ok());
    assert!(check_admin_token_target(true).is_ok());
    assert_eq!(
        check_admin_token_target(false).err().unwrap().message,
        "admin-created API tokens are limited to service account users"
    );
}

#[test]
fn membership_rules() {
    let owner = "67e55044-10b1-426f-9247-bb680e5fe0c8";
    let owner_value: u128 = 0x67e5504410b1426f9247bb680e5fe0c8;
    let e = check_member_removal(owner_value, owner).err().unwrap();
    assert_eq!(e.message, "cannot remove the project owner from membership");
    assert!(check_member_removal(1, owner).is_ok());
    let e = check_member_removal(1, "not-a-uuid").err().unwrap();
    assert_eq!(e.kind, ErrorKind::Internal);
    assert_eq!(e.message, "invalid owner_id");
    assert_eq!(check_member_role_change(None).err().unwrap().kind, ErrorKind::NotFound);
    assert_eq!(
        check_member_role_change(Some(true)).err().unwrap().message,
        "cannot change role of inherited member; manage at project level"
    );
    assert!(check_member_role_change(Some(false)).is_ok());
    assert_eq!(admin_project_member_role("  Developer ").ok().unwrap(), "developer");
    assert_eq!(
        admin_project_member_role("owner").err().unwrap().message,
        "role must be admin, developer, or readonly"
    );
    assert_eq!(check_principal_org(true, "o2", "o1").err().unwrap().message, "user is not in this organization");
    assert_eq!(check_principal_org(false, "o2", "o1").err().unwrap().message, "group is not in this organization");
    assert!(check_principal_org(false, "o1", "o1").is_ok());
    assert_eq!(project_install_permissions(vec![]), owned_strings(&["read"]));
    assert_eq!(project_install_permissions(owned_strings(&["write"])), owned_strings(&["write"]));
    assert_eq!(
        check_app_installable(false, true).err().unwrap().message,
        "project administrator role is required to install Meticulous Apps"
    );
    assert_eq!(
        check_app_installable(true, false).err().unwrap().message,
        "this Meticulous App is disabled by an administrator"
    );
    assert!(check_app_installable(true, true).is_ok());
}

#[test]
fn installation_grants() {
    let star = owned_strings(&["*"]);
    let revoke = owned_strings(&["join_tokens:revoke"]);
    assert!(check_installation_may_create_join_tokens(&star).is_ok());
    assert!(check_installation_may_create_join_tokens(&revoke).is_err());
    assert!(check_installation_may_revoke_join_tokens(&revoke).is_ok());
    assert_eq!(
        check_installation_may_delete_agents(&revoke).err().unwrap().message,
        "installation does not grant agents:delete"
    );
    assert!(check_token_in_installation_project(true, &Some("p1".into()), "p1").is_ok());
    assert!(check_token_in_installation_project(false, &Some("p1".into()), "p1").is_err());
    assert_eq!(
        check_token_in_installation_project(true, &None, "p1").err().unwrap().message,
        "join token is not scoped to this installation project"
    );
    assert_eq!(kubernetes_pod_uid("  uid-1 ").ok().unwrap(), "uid-1");
    assert_eq!(kubernetes_pod_uid("   ").err().unwrap().message, "kubernetes_pod_uid is required");
    assert_eq!(
        check_agent_in_installation_org("o2", "o1").err().unwrap().message,
        "agent is outside this installation org"
    );
}

fn link(provider: Option<&str>, repo: Option<&str>, creds: Option<&str>, path: Option<&str>, r: Option<&str>) -> PipelineScmLink {
    PipelineScmLink {
        provider: provider.map(str::to_string),
        repository: repo.map(str::to_string),
        credentials_secret_path: creds.map(str::to_string),
        path: path.map(str::to_string),
        git_ref: r.map(str::to_string),
    }
}

#[test]
fn git_sources() {
    let full = link(Some("github"), Some("acme/app"), Some("gh/creds"), Some(".ci.yml"), Some("main"));
    let c = pipeline_sync_checkout(&full, &None).ok().unwrap();
    assert_eq!((c.repository.as_str(), c.git_ref.as_str()), ("acme/app", "main"));
    let c = pipeline_sync_checkout(&full, &Some("dev".into())).ok().unwrap();
    assert_eq!(c.git_ref, "dev");
    let gitlab = link(Some("gitlab"), Some("acme/app"), Some("c"), Some("p"), Some("main"));
    assert_eq!(
        pipeline_sync_checkout(&gitlab, &None).err().unwrap().message,
        "pipeline is not linked to GitHub (scm_provider is not github)"
    );
    let no_ref = link(Some("github"), Some("acme/app"), Some("c"), Some("p"), None);
    assert_eq!(pipeline_sync_checkout(&no_ref, &Some("dev".into())).err().unwrap().message, "pipeline is missing scm_ref");
    let no_creds = link(Some("github"), Some("acme/app"), None, Some("p"), Some("main"));
    assert_eq!(
        pipeline_sync_checkout(&no_creds, &None).err().unwrap().message,
        "pipeline is missing scm_credentials_secret_path"
    );
    assert!(matches!(diagnosis_source(&gitlab, &None, &None).ok().unwrap(), DiagnosisSource::Stored));
    match diagnosis_source(&no_ref, &None, &None).ok().unwrap() {
        DiagnosisSource::GitHub(c) => assert_eq!(c.git_ref, "main"),
        DiagnosisSource::Stored => panic!("expected a checkout"),
    }
    match diagnosis_source(&full, &Some("abc".into()), &Some("dev".into())).ok().unwrap() {
        DiagnosisSource::GitHub(c) => assert_eq!(c.git_ref, "abc"),
        DiagnosisSource::Stored => panic!("expected a checkout"),
    }
    let no_path = link(Some("github"), Some("a/b"), Some("c"), None, None);
    assert_eq!(diagnosis_source(&no_path, &None, &None).err().unwrap().message, "Git-backed pipeline missing scm_path");
    let w = WorkflowScmLink {
        repository: Some("acme/wf".into()),
        git_ref: Some("v1".into()),
        path: Some("wf.yml".into()),
        credentials_path: None,
    };
    assert_eq!(
        workflow_reimport_checkout(&w).err().unwrap().message,
        "workflow has no stored credentials path for re-import"
    );
    let w = WorkflowScmLink { credentials_path: Some("gh/c".into()), ..w };
    assert_eq!(workflow_reimport_checkout(&w).ok().unwrap().credentials_path, "gh/c");
}

#[test]
fn catalog_moderation_permissions() {
    assert!(check_deprecation_permission(&member(&["workflow:approve"])).is_ok());
    assert_eq!(
        check_deprecation_permission(&member(&["audit:read"])).err().unwrap().message,
        "setting a deprecation period requires workflow:approve (or *) permission"
    );
    assert!(check_moderation_history_permission(&member(&["read:*"])).is_ok());
    assert!(check_moderation_history_permission(&member(&["audit:read"])).is_ok());
    assert_eq!(
        check_moderation_history_permission(&member(&["run:read"])).err().unwrap().message,
        "insufficient permissions to view moderation events"
    );
    assert_eq!(
        parse_workflow_id("67e55044-10b1-426f-9247-bb680e5fe0c8").ok(),
        Some(0x67e5504410b1426f9247bb680e5fe0c8u128)
    );
    assert_eq!(parse_workflow_id("wf-1").err().unwrap().message, "invalid workflow ID");
    assert_eq!(check_new_project_workflow("", "1").err().unwrap().message, "name is required");
    assert_eq!(check_new_project_workflow("wf", "").err().unwrap().message, "version is required");
    assert!(check_new_project_workflow("wf", "1.0").is_ok());
    assert!(check_global_catalog_row(true).is_ok());
    assert_eq!(check_global_catalog_row(false).err().unwrap().message, "not a global catalog workflow row");
}

#[test]
fn sign_in_steps() {
    assert_eq!(
        require_org_configured(false).err().unwrap().message,
        "no organization configured - run setup first"
    );
    assert!(require_org_configured(true).is_ok());
    assert_eq!(login_account(Some(1), Some(2)).ok(), Some(1));
    assert_eq!(login_account(None, Some(2)).ok(), Some(2));
    let e = login_account::<i32>(None, None).err().unwrap();
    assert_eq!(e.kind, ErrorKind::Unauthorized);
    assert_eq!(e.message, "invalid credentials");
    assert_eq!(require_password_match(false, true).err().unwrap().message, "invalid credentials");
    assert_eq!(require_password_match(false, false).err().unwrap().message, "current password is incorrect");
    assert!(require_password_match(true, false).is_ok());
    let (u, m) = service_account_identity(" bot ", " bot@x.io ").ok().unwrap();
    assert_eq!((u.as_str(), m.as_str()), ("bot", "bot@x.io"));
    assert_eq!(service_account_identity("bot", " ").err().unwrap().message, "username and email are required");
    assert_eq!(check_identity_free(true, true).err().unwrap().message, "username already exists");
    assert_eq!(check_identity_free(false, true).err().unwrap().message, "email already exists");
    assert!(check_identity_free(false, false).is_ok());
}

#[test]
fn workflow_sync_schedules() {
    assert_eq!(plan_sync_schedule(-1, true).err().unwrap().message, "interval_minutes must be >= 0");
    let p = plan_sync_schedule(30, true).ok().unwrap();
    assert!(p.enabled);
    assert_eq!(p.next_sync_in_minutes, 30);
    let p = plan_sync_schedule(0, true).ok().unwrap();
    assert!(!p.enabled);
    assert_eq!(p.next_sync_in_minutes, 525600);
    let p = plan_sync_schedule(30, false).ok().unwrap();
    assert!(!p.enabled);
    assert!(schedule_due(true, 5, 100, 100));
    assert!(!schedule_due(true, 5, 101, 100));
    assert!(!schedule_due(true, 0, 0, 100));
    assert!(!schedule_due(false, 5, 0, 100));
}

#[test]
fn readiness_probe() {
    let ok = database_check(Ok(()));
    assert!(ok.healthy && ok.message.is_none());
    let r = readiness("1.2.3", ok).ok().unwrap();
    assert_eq!(r.status, "ready");
    assert_eq!(r.version, "1.2.3");
    let bad = database_check(Err("connection refused".into()));
    assert_eq!(bad.message.as_deref(), Some("database error: connection refused"));
    let e = readiness("1.2.3", bad).err().unwrap();
    let live = met_api::platform::liveness("0.1.0");
    assert_eq!((live.status, live.version), ("ok", "0.1.0"));
    assert_eq!(e.kind, ErrorKind::Unavailable);
    assert_eq!(e.message, "service not ready");
}

#[test]
fn external_kind_policy_merge() {
    let base = default_external_kind_policy();
    let overrides = vec![
        ("vault".to_string(), false),
        ("custom".to_string(), false),
        ("vault".to_string(), true),
        ("aws_sm".to_string(), false),
    ];
    let merged = merge_external_kind_policy(base, &overrides);
    assert!(is_external_kind_allowed(&merged, true, "vault"));
    assert!(!is_external_kind_allowed(&merged, true, "aws_sm"));
    assert!(!is_external_kind_allowed(&merged, true, "custom"));
    assert!(is_external_kind_allowed(&merged, true, "gcp_sm"));
    assert!(is_external_kind_allowed(&merged, false, "aws_sm"));
    assert_eq!(merged.len(), 6);
    let mut p = vec![("a".to_string(), true)];
    policy_set(&mut p, "a", false);
    policy_set(&mut p, "b", true);
    assert_eq!(p, vec![("a".to_string(), false), ("b".to_string(), true)]);
    assert!(require_super_admin(true).is_ok());
    assert_eq!(require_super_admin(false).err().unwrap().message, "requires super_admin");
    assert_eq!(
        require_project_role(false, ProjectAction::AdministerProject).err().unwrap().message,
        "requires project admin"
    );
    assert_eq!(
        require_project_role(false, ProjectAction::AdministerPipelineMembers).err().unwrap().message,
        "requires pipeline admin"
    );
}

#[test]
fn join_token_org_boundaries() {
    use_join_token_org();
}

fn use_join_token_org() {
    let other = Some("org-b".to_string());
    let own = Some("org-a".to_string());
    assert!(check_join_token_org(JoinTokenScope::Tenant, &own, "org-a", "cannot update tokens from other organizations").is_ok());
    let e = check_join_token_org(JoinTokenScope::Tenant, &other, "org-a", "cannot update tokens from other organizations")
        .err()
        .unwrap();
    assert_eq!(e.kind, ErrorKind::Forbidden);
    assert_eq!(e.message, "cannot update tokens from other organizations");
    assert!(check_join_token_org(JoinTokenScope::Tenant, &None, "org-a", "x").is_err());
    assert!(check_join_token_org(JoinTokenScope::Project, &other, "org-a", "x").is_ok());
    assert!(check_join_token_org(JoinTokenScope::Platform, &None, "org-a", "x").is_ok());
}

#[test]
fn pipeline_definitions_and_listings() {
    let r = validate_definition(DefinitionShape::Null);
    assert!(!r.valid);
    assert_eq!(r.errors, owned_strings(&["definition cannot be null", "definition must be a JSON object"]));
    let r = validate_definition(DefinitionShape::Object { has_jobs_or_steps: false });
    assert!(r.valid);
    assert_eq!(r.warnings, owned_strings(&["definition should contain 'jobs' or 'steps'"]));
    let r = validate_definition(DefinitionShape::Object { has_jobs_or_steps: true });
    assert!(r.valid && r.errors.is_empty() && r.warnings.is_empty());
    let r = validate_definition(DefinitionShape::Other);
    assert_eq!(r.errors, owned_strings(&["definition must be a JSON object"]));
    assert_eq!(require_project_filter(Some("p".into())).ok().unwrap(), "p");
    assert_eq!(
        require_project_filter(None).err().unwrap().message,
        "project_id query parameter is required"
    );
    let ids = owned_strings(&["pl1", "pl2", "pl3"]);
    let mut token = member(&[]);
    token.is_api_token = true;
    token.pipeline_ids = Some(owned_strings(&["pl3", "pl1"]));
    assert_eq!(visible_pipelines(&token, &ids), vec![0, 2]);
    let mut session = member(&[]);
    session.pipeline_ids = Some(owned_strings(&["pl3"]));
    assert_eq!(visible_pipelines(&session, &ids), vec![0, 1, 2]);
    assert_eq!(visible_pipelines(&member(&[]), &ids), vec![0, 1, 2]);
}

#[test]
fn project_listings() {
    assert!(lists_all_projects(&member(&["*"])));
    assert!(!lists_all_projects(&member(&["org:admin"])));
    let ids = owned_strings(&["p1", "p2"]);
    let mut token = member(&[]);
    token.is_api_token = true;
    token.project_ids = Some(owned_strings(&["p2"]));
    assert_eq!(visible_projects(&token, &ids), vec![1]);
    token.is_api_token = false;
    assert_eq!(visible_projects(&token, &ids), vec![0, 1]);
}

#[test]
fn listing_limits() {
    assert_eq!(recent_runs_limit(0), 1);
    assert_eq!(recent_runs_limit(-5), 1);
    assert_eq!(recent_runs_limit(20), 20);
    assert_eq!(recent_runs_limit(99), 50);
    assert_eq!(job_queue_limit(None), 200);
    assert_eq!(job_queue_limit(Some(10)), 10);
    assert_eq!(job_queue_limit(Some(9000)), 500);
    assert_eq!(dlq_limit(None), 50);
    assert_eq!(dlq_limit(Some(7)), 7);
}

#[test]
fn retention_cutoffs() {
    assert_eq!(heartbeat_cutoff(1_000_000, 0), None);
    assert_eq!(heartbeat_cutoff(1_000_000, 48), Some(1_000_000 - 48 * 3600));
    assert_eq!(run_cutoff(10_000_000, 30), 10_000_000 - 30 * 86400);
    assert_eq!(effective_retention_days(Some(7), 90), 7);
    assert_eq!(effective_retention_days(None, 90), 90);
    assert_eq!(RUN_DELETE_BATCH_SIZE, 500);
}
