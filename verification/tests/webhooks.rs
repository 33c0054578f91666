use met_api::error::ErrorKind;
use met_api::run_vars::{add_generic_webhook_vars, insert_var_if_absent};
use met_api::webhook_payloads::{generic_event_fields, github_event_refs, GenericWebhookPayload, GitHubPRRef, GitHubPullRequest, GitHubWebhookPayload};
use met_api::webhooks::{
    check_inbound_registration, check_pipeline_trigger, check_webhook_body_size,
    dispatch_vars_base, event_accepted_label, finish_fanout_errors, query_param_first_raw,
    scm_webhook_response_duplicate, target_decision, webhook_client_ip, TargetDecision,
    TargetFacts, WebhookRegistrationContext,
};

fn facts() -> TargetFacts {
    TargetFacts {
        pipeline_id: "pl1".to_string(),
        enabled: true,
        event_allowed: true,
        branch_allowed: true,
        requires_branch: false,
        pipeline_found: true,
        pipeline_in_project: true,
        pipeline_enabled: true,
    }
}

#[test]
fn fanout_target_decisions() {
    assert!(matches!(target_decision(&facts(), true), TargetDecision::Dispatch));
    let mut f = facts();
    f.enabled = false;
    assert!(matches!(target_decision(&f, true), TargetDecision::Skip));
    let mut f = facts();
    f.branch_allowed = false;
    assert!(matches!(target_decision(&f, true), TargetDecision::Skip));
    assert!(matches!(target_decision(&f, false), TargetDecision::Dispatch));
    let mut f = facts();
    f.requires_branch = true;
    assert!(matches!(target_decision(&f, false), TargetDecision::Skip));
    let mut f = facts();
    f.pipeline_found = false;
    match target_decision(&f, true) {
        TargetDecision::Reject(m) => assert_eq!(m, "pipeline pl1 not found"),
        _ => panic!("expected a rejection"),
    }
    let mut f = facts();
    f.pipeline_in_project = false;
    match target_decision(&f, true) {
        TargetDecision::Reject(m) => assert_eq!(m, "pipeline pl1 is not in the webhook project"),
        _ => panic!("expected a rejection"),
    }
    let mut f = facts();
    f.pipeline_enabled = false;
    match target_decision(&f, true) {
        TargetDecision::Reject(m) => assert_eq!(m, "pipeline pl1 is disabled"),
        _ => panic!("expected a rejection"),
    }
}

#[test]
fn fanout_without_matches_explains_itself() {
    let mut errs = Vec::new();
    finish_fanout_errors(true, true, 0, &mut errs);
    assert_eq!(errs, vec!["no targets matched branch or event filters".to_string()]);
    let mut errs = vec!["pipeline x is disabled".to_string()];
    finish_fanout_errors(true, true, 0, &mut errs);
    assert_eq!(errs.len(), 1);
    let mut errs = Vec::new();
    finish_fanout_errors(true, true, 1, &mut errs);
    assert!(errs.is_empty());
}

#[test]
fn duplicate_deliveries_are_reported() {
    let r = scm_webhook_response_duplicate(vec!["r1".to_string(), "r2".to_string()]);
    assert!(r.duplicate);
    assert!(r.accepted);
    assert_eq!(r.run_id.as_deref(), Some("r1"));
    assert_eq!(event_accepted_label("push"), "push event accepted");
}

#[test]
fn dispatch_variables() {
    let v = dispatch_vars_base(Some("main"), Some(""), "push");
    assert_eq!(
        v,
        vec![
            ("webhook_branch".to_string(), "main".to_string()),
            ("webhook_event".to_string(), "push".to_string())
        ]
    );
}

#[test]
fn generic_payload_variables_do_not_override_mapping() {
    let payload = GenericWebhookPayload {
        event: Some("".to_string()),
        branch: Some("dev".to_string()),
        commit: Some("abc".to_string()),
        ref_name: None,
    };
    let mut vars = vec![("webhook_branch".to_string(), "mapped".to_string())];
    add_generic_webhook_vars(&mut vars, Some(&payload), true);
    assert_eq!(
        vars,
        vec![
            ("webhook_branch".to_string(), "mapped".to_string()),
            ("webhook_commit".to_string(), "abc".to_string()),
            ("webhook_event".to_string(), "webhook".to_string()),
        ]
    );
    let mut vars = Vec::new();
    add_generic_webhook_vars(&mut vars, None, false);
    assert!(vars.is_empty());
    insert_var_if_absent(&mut vars, "a", "1");
    insert_var_if_absent(&mut vars, "a", "2");
    assert_eq!(vars, vec![("a".to_string(), "1".to_string())]);
    let f = generic_event_fields(&payload);
    assert_eq!(f.event_type, "webhook");
    assert_eq!(f.branch.as_deref(), Some("dev"));
}

#[test]
fn github_refs() {
    let p = GitHubWebhookPayload {
        ref_name: Some("refs/heads/feature/x".to_string()),
        after: Some("sha1".to_string()),
        before: None,
        repository: None,
        pusher: None,
        head_commit: None,
        action: None,
        pull_request: Some(GitHubPullRequest {
            number: 7,
            title: "t".to_string(),
            head: GitHubPRRef { ref_name: "topic".to_string(), sha: "sha2".to_string() },
            base: GitHubPRRef { ref_name: "main".to_string(), sha: "sha0".to_string() },
        }),
    };
    let (b, c) = github_event_refs("push", &p);
    assert_eq!(b.as_deref(), Some("feature/x"));
    assert_eq!(c.as_deref(), Some("sha1"));
    let (b, c) = github_event_refs("pull_request", &p);
    assert_eq!(b.as_deref(), Some("topic"));
    assert_eq!(c.as_deref(), Some("sha2"));
    let (b, c) = github_event_refs("release", &p);
    assert!(b.is_none() && c.is_none());
}

#[test]
fn request_guards() {
    let ctx = WebhookRegistrationContext {
        registration_id: "r".to_string(),
        org_id: "o1".to_string(),
        project_id: "p".to_string(),
        provider: "GitHub".to_string(),
        events: vec![],
        secret_verifier: String::new(),
        generic_inbound_auth: "none".to_string(),
        generic_query_param_name: None,
    };
    assert!(check_inbound_registration(Some(&ctx), "o1", "github").is_ok());
    assert_eq!(
        check_inbound_registration(Some(&ctx), "o2", "github").unwrap_err().kind,
        ErrorKind::NotFound
    );
    assert!(check_inbound_registration(None, "o1", "github").is_err());
    assert!(check_pipeline_trigger(true, true).is_ok());
    assert_eq!(check_pipeline_trigger(false, true).unwrap_err().kind, ErrorKind::NotFound);
    assert_eq!(check_pipeline_trigger(true, false).unwrap_err().message, "trigger is disabled");
    assert!(check_webhook_body_size(10, 10).is_ok());
    assert_eq!(check_webhook_body_size(11, 10).unwrap_err().kind, ErrorKind::BadRequest);
}

#[test]
fn client_addresses_and_query_values() {
    assert_eq!(webhook_client_ip(Some(" 10.0.0.1 , 10.0.0.2"), Some("9.9.9.9"), "1.1.1.1"), "10.0.0.1");
    assert_eq!(webhook_client_ip(Some(" "), Some(" 9.9.9.9 "), "1.1.1.1"), "9.9.9.9");
    assert_eq!(webhook_client_ip(None, None, "1.1.1.1"), "1.1.1.1");
    assert_eq!(query_param_first_raw(Some("a=1&b=x%20y&b=2"), "b").as_deref(), Some("x y"));
    assert_eq!(query_param_first_raw(Some("a=1"), "b"), None);
    assert_eq!(query_param_first_raw(None, "b"), None);
}
