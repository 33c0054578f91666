//! Webhook signature checks and content digests (HMAC-SHA256, SHA-256, constant-time compare).
use vstd::prelude::*;
use vstd::utf8::encode_utf8;
use crate::text::{
    concat2, has_prefix, hex_encode, hex_lower, lemma_hex_lower_shape, lower_hex_text, strip_prefix,
};
use hmac::{Hmac, Mac};
use sha2::Digest;

verus! {

/// What `Hmac<Sha256>` computes for a key and a message (RFC 2104 over SHA-256).
pub uninterp spec fn hmac_sha256_spec(key: Seq<u8>, msg: Seq<u8>) -> Seq<u8>;

/// What `Sha256::digest` computes for a message (FIPS 180-4).
pub uninterp spec fn sha256_spec(data: Seq<u8>) -> Seq<u8>;

/// Computes `Hmac::<Sha256>::new_from_slice(key)`, `update(msg)`, `finalize().into_bytes()`.
/// The contract names the tag `hmac_sha256_spec(key, msg)` and states that it is 32 bytes long
/// (the SHA-256 output size); `new_from_slice` for HMAC accepts keys of every length
/// (hmac 0.12 `HmacCore::new_from_slice` returns `Ok` unconditionally), so the result is `Some`.
#[verifier::external_body]
fn hmac_sha256(key: &[u8], msg: &[u8]) -> (r: Option<Vec<u8>>)
    ensures
        r is Some,
        r matches Some(tag) ==> tag@ == hmac_sha256_spec(key@, msg@) && tag@.len() == 32,
{
    match Hmac::<sha2::Sha256>::new_from_slice(key) {
        Ok(mut mac) => {
            mac.update(msg);
            Some(mac.finalize().into_bytes().to_vec())
        },
        Err(_) => None,
    }
}

/// Computes `Sha256::digest(data)`: the 32-byte digest named `sha256_spec(data)`.
#[verifier::external_body]
fn sha256_digest(data: &[u8]) -> (r: Vec<u8>)
    ensures
        r@ == sha256_spec(data@),
        r@.len() == 32,
{
    sha2::Sha256::digest(data).to_vec()
}

/// The UTF-8 bytes of a string slice.
pub fn str_bytes(s: &str) -> (b: &[u8])
    ensures
        b@ == encode_utf8(s@),
{
    s.as_bytes()
}

proof fn lemma_utf8_injective(a: Seq<char>, b: Seq<char>)
    ensures
        encode_utf8(a) == encode_utf8(b) <==> a == b,
{
    vstd::utf8::encode_utf8_decode_utf8(a);
    vstd::utf8::encode_utf8_decode_utf8(b);
}

/// Equality of two byte strings that looks at every byte whatever the outcome
/// (the XOR of all byte pairs is folded with OR and compared with zero).
pub fn constant_time_eq(a: &[u8], b: &[u8]) -> (r: bool)
    ensures
        r == (a@ == b@),
{
    if a.len() != b.len() {
        return false;
    }
    let mut acc: u8 = 0;
    let mut i: usize = 0;
    while i < a.len()
        invariant
            a@.len() == b@.len(),
            i <= a@.len(),
            (acc == 0) == (forall|j: int| 0 <= j < i ==> a@[j] == b@[j]),
        decreases a.len() - i,
    {
        let x = a[i];
        let y = b[i];
        let prev = acc;
        acc = acc | (x ^ y);
        assert((acc == 0) == (prev == 0 && x == y)) by (bit_vector)
            requires
                acc == prev | (x ^ y),
        ;
        i = i + 1;
    }
    if acc == 0 {
        assert(a@ =~= b@);
    }
    acc == 0
}

/// The prefix that GitHub-style signature headers carry.
pub open spec fn sig_prefix() -> Seq<char> {
    "sha256="@
}

/// `signature` is `sha256=` followed by the lowercase hex HMAC-SHA256 of `body` under `secret`.
pub open spec fn github_signature_valid(secret: Seq<u8>, body: Seq<u8>, signature: Seq<char>) -> bool {
    has_prefix(signature, sig_prefix()) && signature.subrange(
        sig_prefix().len() as int,
        signature.len() as int,
    ) == hex_lower(hmac_sha256_spec(secret, body))
}

/// Checks an `X-Hub-Signature-256` value: `sha256=` and the lowercase hex HMAC-SHA256 of
/// the body under the secret, compared in constant time.
pub fn verify_github_signature(secret: &[u8], body: &[u8], signature: &str) -> (ok: bool)
    ensures
        ok == github_signature_valid(secret@, body@, signature@),
{
    let expected_prefix = "sha256=";
    proof {
        reveal_strlit("sha256=");
    }
    let signature_hex = match strip_prefix(signature, expected_prefix) {
        Some(rest) => rest,
        None => {
            return false;
        },
    };
    let expected = match hmac_sha256(secret, body) {
        Some(tag) => tag,
        None => {
            return false;
        },
    };
    let expected_hex = hex_encode(expected.as_slice());
    let r = constant_time_eq(str_bytes(signature_hex), str_bytes(expected_hex.as_str()));
    proof {
        lemma_utf8_injective(signature_hex@, expected_hex@);
    }
    r
}

/// Lowercase hex SHA-256 of the UTF-8 bytes of `s` (`format!("{:x}", Sha256::digest(s))`).
pub open spec fn sha256_hex_of(s: Seq<char>) -> Seq<char> {
    hex_lower(sha256_spec(encode_utf8(s)))
}

/// The stored verifier for an inbound secret: the hex SHA-256 of the secret text.
pub fn inbound_secret_hash_of(secret: &str) -> (h: String)
    ensures
        h@ == sha256_hex_of(secret@),
        h@.len() == 64,
        lower_hex_text(h@),
{
    let d = sha256_digest(str_bytes(secret));
    proof {
        lemma_hex_lower_shape(d@);
    }
    hex_encode(d.as_slice())
}

/// Delivery id for a GitHub-style request: the `X-GitHub-Delivery` header when present,
/// else `github-synthetic:` and the hex SHA-256 of the body.
pub fn github_delivery_id(delivery_header: Option<&str>, body: &[u8]) -> (id: String)
    ensures
        id@ == (match delivery_header {
            Some(h) => h@,
            None => "github-synthetic:"@ + hex_lower(sha256_spec(body@)),
        }),
{
    match delivery_header {
        Some(h) => h.to_owned(),
        None => {
            let d = sha256_digest(body);
            let hex = hex_encode(d.as_slice());
            concat2("github-synthetic:", hex.as_str())
        },
    }
}

/// Synthetic GitLab delivery id: `gitlab:` and the hex SHA-256 of the secret's bytes
/// followed by the body.
pub fn gitlab_synthetic_delivery_id(secret: &str, body: &[u8]) -> (id: String)
    ensures
        id@ == "gitlab:"@ + hex_lower(sha256_spec(encode_utf8(secret@) + body@)),
{
    let sb = str_bytes(secret);
    let mut data: Vec<u8> = Vec::new();
    let mut i: usize = 0;
    while i < sb.len()
        invariant
            i <= sb@.len(),
            data@ == sb@.subrange(0, i as int),
        decreases sb.len() - i,
    {
        data.push(sb[i]);
        i = i + 1;
    }
    let mut j: usize = 0;
    while j < body.len()
        invariant
            j <= body@.len(),
            data@ == sb@ + body@.subrange(0, j as int),
        decreases body.len() - j,
    {
        data.push(body[j]);
        j = j + 1;
    }
    assert(body@.subrange(0, body@.len() as int) =~= body@);
    let d = sha256_digest(data.as_slice());
    let hex = hex_encode(d.as_slice());
    concat2("gitlab:", hex.as_str())
}

/// Bitbucket delivery id: `bitbucket:` and the hex SHA-256 of the body.
pub fn bitbucket_delivery_id(body: &[u8]) -> (id: String)
    ensures
        id@ == "bitbucket:"@ + hex_lower(sha256_spec(body@)),
{
    let d = sha256_digest(body);
    let hex = hex_encode(d.as_slice());
    concat2("bitbucket:", hex.as_str())
}

} // verus!
