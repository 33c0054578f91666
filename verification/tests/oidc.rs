use met_api::oidc::{resolve_oidc_issuer_base, ApiConfig};

#[test]
fn resolve_issuer_prefers_public_base_url() {
    let mut c = ApiConfig::default();
    c.public_base_url = Some("https://ci.example.com/".to_string());
    assert_eq!(resolve_oidc_issuer_base(&c), "https://ci.example.com");
}

#[test]
fn resolve_issuer_falls_back_to_cors() {
    let mut c = ApiConfig::default();
    c.cors_origins = vec!["http://localhost:8080".to_string()];
    assert_eq!(resolve_oidc_issuer_base(&c), "http://localhost:8080");
}

#[test]
fn resolve_issuer_skips_blank_public_url_and_uses_placeholder() {
    let mut c = ApiConfig::default();
    c.public_base_url = Some("  / ".to_string());
    assert_eq!(resolve_oidc_issuer_base(&c), "https://meticulous.example.com");
    c.cors_origins = vec![" https://a.example//".to_string(), "https://b.example".to_string()];
    assert_eq!(resolve_oidc_issuer_base(&c), "https://a.example");
}
