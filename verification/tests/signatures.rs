use hmac::{Hmac, Mac};
use met_api::crypto::{
    bitbucket_delivery_id, constant_time_eq, github_delivery_id, gitlab_synthetic_delivery_id,
    inbound_secret_hash_of, verify_github_signature,
};
use sha2::Sha256;

fn sign(secret: &[u8], body: &[u8]) -> String {
    type HmacSha256 = Hmac<Sha256>;
    let mut mac = HmacSha256::new_from_slice(secret).unwrap();
    mac.update(body);
    let sig = mac.finalize().into_bytes();
    let hex: String = sig.iter().map(|b| format!("{:02x}", b)).collect();
    format!("sha256={hex}")
}

#[test]
fn github_signature_accepts_valid_hex() {
    let secret = b"test-secret";
    let body = br#"{"action":"opened"}"#;
    type HmacSha256 = Hmac<Sha256>;
    let mut mac = HmacSha256::new_from_slice(secret).unwrap();
    mac.update(body);
    let sig = mac.finalize().into_bytes();
    let hex: String = sig.iter().map(|b| format!("{:02x}", b)).collect();
    let header = format!("sha256={hex}");
    assert!(verify_github_signature(secret, body, &header));
}

#[test]
fn github_signature_rejects_tampered_body() {
    let secret = b"test-secret";
    let body = br#"{"action":"opened"}"#;
    let tampered = br#"{"action":"closed"}"#;
    type HmacSha256 = Hmac<Sha256>;
    let mut mac = HmacSha256::new_from_slice(secret).unwrap();
    mac.update(body);
    let hex: String = mac
        .finalize()
        .into_bytes()
        .iter()
        .map(|b| format!("{:02x}", b))
        .collect();
    let header = format!("sha256={hex}");
    assert!(!verify_github_signature(secret, tampered, &header));
}

#[test]
fn github_signature_rejects_missing_prefix_and_uppercase_hex() {
    let secret = b"k";
    let body = b"payload";
    let good = sign(secret, body);
    assert!(verify_github_signature(secret, body, &good));
    assert!(!verify_github_signature(secret, body, &good["sha256=".len()..]));
    assert!(!verify_github_signature(secret, body, &good.to_uppercase()));
    assert!(!verify_github_signature(b"other", body, &good));
}

#[test]
fn github_signature_known_vector() {
    // RFC 4231 test case 2: key "Jefe", data "what do ya want for nothing?"
    let header =
        "sha256=5bdcc146bf60754e6a042426089575c75a003f089d2739839dec58b964ec3843";
    assert!(verify_github_signature(b"Jefe", b"what do ya want for nothing?", header));
}

#[test]
fn constant_time_eq_compares_all_bytes() {
    assert!(constant_time_eq(b"abc", b"abc"));
    assert!(!constant_time_eq(b"abc", b"abd"));
    assert!(!constant_time_eq(b"abc", b"ab"));
    assert!(constant_time_eq(b"", b""));
}

#[test]
fn delivery_ids_use_sha256_hex() {
    // SHA-256("abc")
    let abc = "ba7816bf8f01cfea414140de5dae2223b00361a396177a9cb410ff61f20015ad";
    assert_eq!(github_delivery_id(None, b"abc"), format!("github-synthetic:{abc}"));
    assert_eq!(github_delivery_id(Some("d-1"), b"abc"), "d-1");
    assert_eq!(bitbucket_delivery_id(b"abc"), format!("bitbucket:{abc}"));
    assert_eq!(gitlab_synthetic_delivery_id("a", b"bc"), format!("gitlab:{abc}"));
    assert_eq!(inbound_secret_hash_of("abc"), abc);
}
