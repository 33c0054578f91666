use met_api::access::{
    blast_radius_mode, project_access_plan, require_admin, require_workflow_moderator,
    user_may_manage_org_stored_secrets, validate_note, CurrentUser, OrgSearchMode,
};
use met_api::api_tokens::{
    check_active_token_cap, check_token_name, check_token_owner_org, check_token_pipeline_ids,
    check_token_pipeline_org, check_token_scopes, token_description, token_expiry_seconds,
    token_manage_needs_owner_check, token_project_scope, token_scopes_or_default,
};
use met_api::error::ErrorKind;
use met_api::oauth::{
    check_provider_enabled, id_token_payload, oauth_callback_url, oauth_provider_kind,
    oauth_redirect_url,
    pick_github_email, require_issuer_url, session_permissions, username_from_email,
    GitHubEmail, OAuthProviderKind,
};
use met_api::sign_in::{
    check_login_account, check_password_length, check_password_login_enabled,
    check_setup_allowed, org_slug,
};

fn user(perms: &[&str]) -> CurrentUser {
    CurrentUser {
        user_id: "u1".to_string(),
        org_id: "o1".to_string(),
        permissions: perms.iter().map(|s| s.to_string()).collect(),
        is_api_token: false,
        project_ids: None,
        pipeline_ids: None,
    }
}

fn strings(xs: &[&str]) -> Vec<String> {
    xs.iter().map(|s| s.to_string()).collect()
}

#[test]
fn admin_and_moderator_guards() {
    assert!(require_admin(&user(&["*"])).is_ok());
    assert_eq!(require_admin(&user(&["run:read"])).unwrap_err().kind, ErrorKind::Forbidden);
    assert!(require_workflow_moderator(&user(&["catalog:approve"]), "catalog:approve").is_ok());
    let e = require_workflow_moderator(&user(&[]), "catalog:approve").unwrap_err();
    assert_eq!(e.message, "requires 'catalog:approve' (or '*') permission");
    assert!(user_may_manage_org_stored_secrets(&user(&["org:admin"])));
    assert!(!user_may_manage_org_stored_secrets(&user(&["project:admin"])));
}

#[test]
fn moderation_notes() {
    assert_eq!(validate_note(&user(&["*"]), None).unwrap(), None);
    assert_eq!(validate_note(&user(&["*"]), Some("  ok  ".into())).unwrap(), Some("ok".into()));
    assert!(validate_note(&user(&["catalog:approve"]), Some("  ".into())).is_err());
    assert_eq!(
        validate_note(&user(&["catalog:approve"]), Some(" why ".into())).unwrap(),
        Some("why".into())
    );
}

#[test]
fn access_plans() {
    let mut u = user(&[]);
    assert!(!project_access_plan(&u).restricted);
    u.project_ids = Some(strings(&["p1", "p2"]));
    let p = project_access_plan(&u);
    assert!(p.restricted);
    assert_eq!(p.project_uuids, strings(&["p1", "p2"]));
    assert!(matches!(blast_radius_mode(&user(&["*"])), OrgSearchMode::FullOrg));
}

#[test]
fn token_requests() {
    assert_eq!(check_token_name("   ").unwrap_err().message, "token name is required");
    assert!(check_token_name(&"x".repeat(100)).is_ok());
    assert_eq!(
        check_token_name(&"x".repeat(101)).unwrap_err().message,
        "token name must be 100 characters or less"
    );
    // 34 three-byte characters are 102 bytes.
    assert!(check_token_name(&"€".repeat(34)).is_err());
    assert!(check_token_scopes(&strings(&["read", "*", "admin"])).is_ok());
    assert_eq!(
        check_token_scopes(&strings(&["read", "root", "nope"])).unwrap_err().message,
        "invalid scope 'root', must be one of: read, write, admin, *"
    );
    assert!(check_active_token_cap(true, 1).is_ok());
    assert!(check_active_token_cap(true, 2).is_err());
    assert!(check_active_token_cap(false, 5).is_ok());
    assert_eq!(token_expiry_seconds(None, 30).unwrap(), None);
    assert_eq!(token_expiry_seconds(Some(2), 30).unwrap(), Some(172800));
    assert_eq!(
        token_expiry_seconds(Some(0), 30).unwrap_err().message,
        "expires_in_days must be positive"
    );
    assert_eq!(
        token_expiry_seconds(Some(31), 30).unwrap_err().message,
        "expires_in_days cannot exceed organization maximum (30 days)"
    );
    assert_eq!(token_description(&Some("  ".into())), None);
    assert_eq!(token_description(&Some(" ci ".into())), Some(" ci ".into()));
    assert_eq!(token_scopes_or_default(&vec![]), strings(&["read"]));
    assert_eq!(token_scopes_or_default(&strings(&["write"])), strings(&["write"]));
}

#[test]
fn token_pipeline_scope() {
    assert!(check_token_pipeline_ids(&vec![]).is_err());
    assert!(check_token_pipeline_ids(&strings(&["pl1"])).is_ok());
    assert!(check_token_pipeline_org("o1", "o1").is_ok());
    assert_eq!(
        check_token_pipeline_org("o2", "o1").unwrap_err().message,
        "pipeline is not in your organization"
    );
    let inferred = token_project_scope(&strings(&["p1", "p2", "p1"]), &None).unwrap().unwrap();
    let mut sorted = inferred.clone();
    sorted.sort();
    assert_eq!(sorted, strings(&["p1", "p2"]));
    assert_eq!(
        token_project_scope(&strings(&["p1"]), &Some(strings(&["p1", "p9"]))).unwrap(),
        Some(strings(&["p1", "p9"]))
    );
    assert_eq!(
        token_project_scope(&strings(&["p3"]), &Some(strings(&["p1"]))).unwrap_err().message,
        "each pipeline must belong to a project listed in project_ids"
    );
}

#[test]
fn managing_tokens() {
    assert_eq!(token_manage_needs_owner_check("u1", &user(&[])).unwrap(), false);
    assert_eq!(token_manage_needs_owner_check("u2", &user(&["*"])).unwrap(), true);
    assert_eq!(
        token_manage_needs_owner_check("u2", &user(&[])).unwrap_err().message,
        "you can only manage your own tokens"
    );
    assert!(check_token_owner_org("o1", &user(&["*"])).is_ok());
    assert_eq!(check_token_owner_org("o2", &user(&["*"])).unwrap_err().kind, ErrorKind::Forbidden);
}

#[test]
fn oauth_helpers() {
    assert_eq!(oauth_callback_url(None, None), "http://localhost:8080/auth/oauth/callback");
    assert_eq!(
        oauth_callback_url(Some("ci.example:443"), None),
        "https://ci.example:443/auth/oauth/callback"
    );
    assert_eq!(
        oauth_callback_url(Some("ci.example"), Some("https")),
        "https://ci.example/auth/oauth/callback"
    );
    assert_eq!(oauth_provider_kind("oidc").unwrap(), OAuthProviderKind::Oidc);
    assert_eq!(oauth_provider_kind("github").unwrap(), OAuthProviderKind::GitHub);
    assert_eq!(oauth_provider_kind("saml").unwrap_err().message, "unsupported provider type");
    assert!(check_provider_enabled(true).is_ok());
    assert!(check_provider_enabled(false).is_err());
    assert_eq!(require_issuer_url(&Some("https://idp".into())).unwrap(), "https://idp");
    assert!(require_issuer_url(&None).is_err());
    assert_eq!(username_from_email("ada@example.com"), "ada");
    assert_eq!(username_from_email("no-at-sign"), "no-at-sign");
    assert_eq!(session_permissions(true), strings(&["*"]));
    assert_eq!(session_permissions(false), strings(&["pipeline:read", "run:read", "agent:read"]));
}

#[test]
fn github_email_choice() {
    let e = |m: &str, p: bool, v: bool| GitHubEmail { email: m.into(), primary: p, verified: v };
    let emails = vec![e("a@x", false, true), e("b@x", true, false), e("c@x", true, true), e("d@x", true, true)];
    assert_eq!(pick_github_email(&emails).unwrap(), "c@x");
    assert_eq!(
        pick_github_email(&vec![e("a@x", true, false)]).unwrap_err().message,
        "no verified email found on GitHub account"
    );
}

#[test]
fn id_token_payloads() {
    // header.payload.signature, payload = {"groups":["dev"]} base64url without padding
    let jwt = "\"eyJhbGciOiJSUzI1NiJ9.eyJncm91cHMiOlsiZGV2Il19.c2ln\"";
    assert_eq!(id_token_payload(jwt).unwrap(), br#"{"groups":["dev"]}"#.to_vec());
    assert_eq!(id_token_payload("a.b"), None);
    assert_eq!(id_token_payload("a.!!!.c"), None);
}

#[test]
fn sign_in_checks() {
    assert!(check_password_login_enabled(true).is_ok());
    assert_eq!(check_password_login_enabled(false).unwrap_err().kind, ErrorKind::Forbidden);
    assert_eq!(check_login_account(false, false, &None).unwrap_err().message, "account is disabled");
    assert_eq!(check_login_account(true, true, &None).unwrap_err().kind, ErrorKind::Forbidden);
    assert_eq!(
        check_login_account(true, false, &None).unwrap_err().kind,
        ErrorKind::Unauthorized
    );
    assert_eq!(check_login_account(true, false, &Some("h".into())).unwrap(), "h");
    assert!(check_setup_allowed(false).is_ok());
    assert_eq!(check_setup_allowed(true).unwrap_err().kind, ErrorKind::Conflict);
    assert!(check_password_length("12345678", 8).is_ok());
    assert_eq!(
        check_password_length("1234567", 8).unwrap_err().message,
        "password must be at least 8 characters"
    );
    assert!(check_password_length("", 0).is_ok());
    assert_eq!(org_slug("My Org, Inc."), "my-org-inc");
    assert_eq!(org_slug("Équipe Α"), "équipe-α");
}

#[test]
fn oauth_redirect_carries_encoded_token() {
    assert_eq!(
        oauth_redirect_url("https://ui/cb", "a b/\u{e9}"),
        "https://ui/cb?token=a%20b%2F%C3%A9&token_type=Bearer"
    );
    assert_eq!(
        oauth_redirect_url("https://ui/cb", "Az09-._~"),
        "https://ui/cb?token=Az09-._~&token_type=Bearer"
    );
}
