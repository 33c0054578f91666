use hmac::{Hmac, Mac};
use met_api::diagnostics::{
    declared_output_names_from_definition, diagnostics_has_blocking, diagnostics_trigger_message,
    WorkflowDiagnosticItem,
};
use met_api::error::ErrorKind;
use met_api::listing::{normalize_join_token_limit, page_meta, parse_catalog_list_offset, parse_runs_list_offset};
use met_api::members::{normalize_role_for_api, normalize_role_for_db};
use met_api::oidc::{resolve_oidc_issuer_base, ApiConfig};
use met_api::webhook_config::{dedupe_target_ids, normalize_description};
use met_api::webhooks::{verify_generic_inbound_auth, WebhookRegistrationContext};
use sha2::Sha256;

fn strings(xs: &[&str]) -> Vec<String> {
    xs.iter().map(|s| s.to_string()).collect()
}

#[test]
fn next_cursor_reads_back_as_next_offset() {
    // 26 rows fetched for a page of 25 starting at 50: the extra row only signals more.
    let m = page_meta(50, 26, 25);
    assert!(m.has_more);
    assert_eq!(m.count, 25);
    assert_eq!(m.next_cursor.as_deref(), Some("75"));
    assert_eq!(parse_runs_list_offset(m.next_cursor.as_deref()), 75);
    assert_eq!(parse_catalog_list_offset(m.next_cursor.as_deref()), 75);
    // Last page: no cursor.
    let last = page_meta(75, 3, 25);
    assert!(!last.has_more);
    assert_eq!(last.count, 3);
    assert!(last.next_cursor.is_none());
}

#[test]
fn cursor_offsets_ignore_junk() {
    assert_eq!(parse_runs_list_offset(None), 0);
    assert_eq!(parse_runs_list_offset(Some("  12 ")), 12);
    assert_eq!(parse_runs_list_offset(Some("-5")), 0);
    assert_eq!(parse_runs_list_offset(Some("abc")), 0);
    assert_eq!(parse_runs_list_offset(Some("")), 0);
    assert_eq!(parse_runs_list_offset(Some("+7")), 7);
    assert_eq!(parse_runs_list_offset(Some("9223372036854775807")), i64::MAX);
    assert_eq!(parse_runs_list_offset(Some("9223372036854775808")), 0);
}

#[test]
fn join_token_limits_are_canonical() {
    for n in [0u32, 1, 20, 35, 36, 50, 75, 76, 100, 150, 151, 200, 1000, u32::MAX] {
        let r = normalize_join_token_limit(n);
        assert!([20, 50, 100, 200].contains(&r), "{n} -> {r}");
        assert_eq!(normalize_join_token_limit(r), r);
    }
    assert_eq!(normalize_join_token_limit(36), 50);
    assert_eq!(normalize_join_token_limit(151), 200);
}

#[test]
fn normalised_description_is_stable() {
    let once = normalize_description(&Some("  release hook \n".to_string()));
    assert_eq!(once.as_deref(), Some("release hook"));
    assert_eq!(normalize_description(&once), once);
    assert_eq!(normalize_description(&Some(" \t ".to_string())), None);
    assert_eq!(normalize_description(&None), None);
}

#[test]
fn target_dedup_keeps_first_occurrences() {
    let ids = strings(&["p2", "p1", "p2", "p3", "p1"]);
    let once = dedupe_target_ids(&ids);
    assert_eq!(once, strings(&["p2", "p1", "p3"]));
    assert_eq!(dedupe_target_ids(&once), once);
}

#[test]
fn declared_outputs_ignore_order_and_repeats() {
    let a = declared_output_names_from_definition(&strings(&["b", "a", "b", "c"]));
    let b = declared_output_names_from_definition(&strings(&["c", "a", "b"]));
    assert_eq!(a, Some(strings(&["a", "b", "c"])));
    assert_eq!(a, b);
    assert_eq!(declared_output_names_from_definition(&vec![]), None);
}

fn item(inv: &str, status: &str, blocking: bool, detail: Option<&str>) -> WorkflowDiagnosticItem {
    WorkflowDiagnosticItem {
        invocation_id: inv.to_string(),
        reference: format!("global/{inv}"),
        scope: "global".to_string(),
        name: inv.to_string(),
        version_requested: "latest".to_string(),
        version_resolved: None,
        status: status.to_string(),
        detail: detail.map(|d| d.to_string()),
        blocking,
        declared_outputs: None,
    }
}

#[test]
fn trigger_message_is_empty_exactly_when_nothing_blocks() {
    let ok = vec![item("build", "ok", false, None)];
    assert!(!diagnostics_has_blocking(&ok));
    assert_eq!(diagnostics_trigger_message(&ok), "");
    let bad = vec![
        item("build", "ok", false, None),
        item("deploy", "missing", true, Some("not in catalog")),
        item("lint", "rejected", true, None),
    ];
    assert!(diagnostics_has_blocking(&bad));
    assert_eq!(
        diagnostics_trigger_message(&bad),
        "deploy (global/deploy): missing — not in catalog; lint (global/lint): rejected"
    );
}

#[test]
fn issuer_never_ends_with_slash() {
    for public in [None, Some("https://ci.example.com///"), Some("   "), Some("/")] {
        for cors in [vec![], vec!["http://x.example/".to_string()]] {
            let mut c = ApiConfig::default();
            c.public_base_url = public.map(|s| s.to_string());
            c.cors_origins = cors.clone();
            let issuer = resolve_oidc_issuer_base(&c);
            assert!(!issuer.is_empty());
            assert!(!issuer.ends_with('/'), "{issuer}");
        }
    }
}

#[test]
fn stored_roles_round_trip_through_the_api() {
    for stored in ["admin", "developer", "readonly"] {
        let shown = normalize_role_for_api(stored);
        assert_eq!(normalize_role_for_db(&shown).unwrap(), stored);
    }
    assert_eq!(normalize_role_for_api("developer"), "operator");
    assert_eq!(normalize_role_for_db("executor").unwrap(), "developer");
    assert_eq!(normalize_role_for_db("read-only").unwrap(), "readonly");
    let e = normalize_role_for_db("owner").unwrap_err();
    assert_eq!(e.kind, ErrorKind::BadRequest);
    assert_eq!(e.message, "role must be 'admin', 'operator', or 'readonly'");
}

fn ctx(mode: &str, secret: &str, param: Option<&str>) -> WebhookRegistrationContext {
    WebhookRegistrationContext {
        registration_id: "r1".to_string(),
        org_id: "o1".to_string(),
        project_id: "p1".to_string(),
        provider: "generic".to_string(),
        events: vec![],
        secret_verifier: secret.to_string(),
        generic_inbound_auth: mode.to_string(),
        generic_query_param_name: param.map(|s| s.to_string()),
    }
}

fn sign(secret: &[u8], body: &[u8]) -> String {
    let mut mac = Hmac::<Sha256>::new_from_slice(secret).unwrap();
    mac.update(body);
    let hex: String = mac.finalize().into_bytes().iter().map(|b| format!("{:02x}", b)).collect();
    format!("sha256={hex}")
}

#[test]
fn generic_hmac_accepts_exactly_the_signed_body() {
    let c = ctx("HMAC", "k3y", None);
    let body = br#"{"event":"deploy"}"#;
    let good = sign(b"k3y", body);
    assert!(verify_generic_inbound_auth(&c, None, Some(&good), body).is_ok());
    let e = verify_generic_inbound_auth(&c, None, Some(&sign(b"other", body)), body).unwrap_err();
    assert_eq!(e.kind, ErrorKind::Forbidden);
    assert_eq!(e.message, "Invalid webhook signature");
    let e = verify_generic_inbound_auth(&c, None, None, body).unwrap_err();
    assert_eq!(e.kind, ErrorKind::BadRequest);
    assert_eq!(e.message, "Missing X-Hub-Signature-256 header");
    // Without a stored secret nothing is checked.
    assert!(verify_generic_inbound_auth(&ctx("hmac", "", None), None, None, body).is_ok());
}

#[test]
fn generic_query_accepts_exactly_the_secret() {
    let c = ctx("query", "s3", Some(" token "));
    assert!(verify_generic_inbound_auth(&c, Some("a=1&token=s3&token=x"), None, b"").is_ok());
    let e = verify_generic_inbound_auth(&c, Some("token=x&token=s3"), None, b"").unwrap_err();
    assert_eq!(e.message, "Invalid webhook query authentication");
    let e = verify_generic_inbound_auth(&c, Some("a=1"), None, b"").unwrap_err();
    assert_eq!(e.message, "Missing webhook authentication query parameter");
    let e = verify_generic_inbound_auth(&ctx("query", "s3", None), Some("token=s3"), None, b"")
        .unwrap_err();
    assert_eq!(e.kind, ErrorKind::Internal);
    let e = verify_generic_inbound_auth(&ctx("basic", "s3", None), None, None, b"").unwrap_err();
    assert_eq!(e.message, "unsupported generic_inbound_auth");
    assert!(verify_generic_inbound_auth(&ctx("None", "s3", None), None, None, b"").is_ok());
}
