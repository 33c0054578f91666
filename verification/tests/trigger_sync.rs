use met_api::trigger_sync::{
    build_repo_webhook_config, check_trigger_deletable, check_trigger_kind_webhook,
    check_trigger_patch, event_as_str, repo_webhook_config_keeping_secret, repo_webhook_sync_keys,
    WebhookEvent, WebhookTrigger,
};
use met_api::error::ErrorKind;

#[test]
fn build_config_from_ir() {
    let w = WebhookTrigger {
        events: vec![WebhookEvent::Push],
        branches: vec!["main".into()],
        paths: vec!["src/**".into()],
        paths_ignore: vec!["*.md".into()],
        sync_key: Some("k1".into()),
    };
    let c = build_repo_webhook_config(&w, "k1");
    assert_eq!(c.sync_key.as_deref(), Some("k1"));
    assert_eq!(c.managed_by.as_deref(), Some("repo"));
    assert!(c.secret.is_none());
    assert_eq!(c.branches, vec!["main"]);
    assert_eq!(c.events, vec!["push"]);
    assert_eq!(c.paths_ignore, vec!["*.md"]);
}

#[test]
fn repo_config_flattens_and_names_every_event() {
    let w = WebhookTrigger {
        events: vec![
            WebhookEvent::Push,
            WebhookEvent::PullRequest,
            WebhookEvent::PullRequestReview,
            WebhookEvent::PullRequestComment,
            WebhookEvent::Release,
        ],
        branches: vec![],
        paths: vec!["a".into(), "b".into()],
        paths_ignore: vec![],
        sync_key: None,
    };
    let c = build_repo_webhook_config(&w, "sk");
    assert_eq!(
        c.events,
        vec!["push", "pull_request", "pull_request_review", "pull_request_comment", "release"]
    );
    assert!(c.flatten_top_level);
    assert!(c.include_raw_body_variable.is_none());
    assert_eq!(c.paths, vec!["a", "b"]);
    assert_eq!(event_as_str(&WebhookEvent::Release), "release");
}

#[test]
fn replacing_a_repo_trigger_keeps_its_secret() {
    let w = WebhookTrigger {
        events: vec![WebhookEvent::Push],
        branches: vec!["main".into()],
        paths: vec![],
        paths_ignore: vec![],
        sync_key: Some("k1".into()),
    };
    let c = repo_webhook_config_keeping_secret(&w, "k1", &Some("s3cret".to_string()));
    assert_eq!(c.secret.as_deref(), Some("s3cret"));
    assert_eq!(c.managed_by.as_deref(), Some("repo"));
    let c2 = repo_webhook_config_keeping_secret(&w, "k1", &None);
    assert!(c2.secret.is_none());
}

#[test]
fn only_non_empty_sync_keys_stay() {
    let mk = |k: Option<&str>| WebhookTrigger {
        events: vec![],
        branches: vec![],
        paths: vec![],
        paths_ignore: vec![],
        sync_key: k.map(|s| s.to_string()),
    };
    let ws = vec![mk(Some("a")), mk(None), mk(Some("")), mk(Some("b")), mk(Some("a"))];
    assert_eq!(repo_webhook_sync_keys(&ws), vec!["a", "b", "a"]);
}

#[test]
fn trigger_api_rules() {
    assert!(check_trigger_kind_webhook(true).is_ok());
    let e = check_trigger_kind_webhook(false).unwrap_err();
    assert_eq!(e.kind, ErrorKind::BadRequest);

    let keys = |ks: &[&str]| ks.iter().map(|s| s.to_string()).collect::<Vec<_>>();
    let e = check_trigger_patch(&keys(&["enabled", "sync_key"]), None).unwrap_err();
    assert_eq!(
        e.message,
        "sync_key and managed_by cannot be set via API; they are managed by Git sync"
    );
    let e = check_trigger_patch(&keys(&["branches"]), Some("repo")).unwrap_err();
    assert!(e.message.starts_with("declarative webhook filters on repo-managed triggers"));
    assert!(check_trigger_patch(&keys(&["branches"]), Some("api")).is_ok());
    assert!(check_trigger_patch(&keys(&["secret"]), Some("repo")).is_ok());

    assert!(check_trigger_deletable(None).is_ok());
    assert!(check_trigger_deletable(Some("user")).is_ok());
    let e = check_trigger_deletable(Some("repo")).unwrap_err();
    assert_eq!(e.kind, ErrorKind::BadRequest);
}
