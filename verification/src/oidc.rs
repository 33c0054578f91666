//! Issuer URL of the built-in OIDC identity provider.
use vstd::prelude::*;
use crate::text::{owned, trim, trim_str};

verus! {

/// The part of the API configuration that decides public URLs.
pub struct ApiConfig {
    /// Public origin of the API (e.g. `https://ci.example.com`).
    pub public_base_url: Option<String>,
    /// Allowed CORS origins, in configured order.
    pub cors_origins: Vec<String>,
}

impl Default for ApiConfig {
    fn default() -> (c: Self)
        ensures
            c.public_base_url is None,
            c.cors_origins@.len() == 0,
    {
        ApiConfig { public_base_url: None, cors_origins: Vec::new() }
    }
}

/// `s` without its trailing `/` characters (`trim_end_matches('/')`).
pub open spec fn strip_trailing_slashes(s: Seq<char>) -> Seq<char>
    decreases s.len(),
{
    if s.len() > 0 && s[s.len() - 1] == '/' {
        strip_trailing_slashes(s.subrange(0, s.len() - 1))
    } else {
        s
    }
}

proof fn lemma_strip_skip(s: Seq<char>, k: int)
    requires
        0 <= k <= s.len(),
        forall|j: int| k <= j < s.len() ==> s[j] == '/',
    ensures
        strip_trailing_slashes(s) == strip_trailing_slashes(s.subrange(0, k)),
    decreases s.len() - k,
{
    if k < s.len() {
        let t = s.subrange(0, s.len() - 1);
        lemma_strip_skip(t, k);
        assert(t.subrange(0, k) =~= s.subrange(0, k));
    } else {
        assert(s.subrange(0, k) =~= s);
    }
}

fn trim_end_slashes(s: &str) -> (r: &str)
    ensures
        r@ == strip_trailing_slashes(s@),
{
    let mut n = s.unicode_len();
    let ghost len = s@.len();
    while n > 0 && s.get_char(n - 1) == '/'
        invariant
            n <= s@.len(),
            forall|j: int| n <= j < s@.len() ==> s@[j] == '/',
        decreases n,
    {
        n = n - 1;
    }
    proof {
        lemma_strip_skip(s@, n as int);
        let t = s@.subrange(0, n as int);
        if n > 0 {
            assert(t[t.len() - 1] != '/');
        }
    }
    s.substring_char(0, n)
}

/// A configured URL as an issuer base: trimmed, trailing slashes removed.
pub open spec fn clean_base(u: Seq<char>) -> Seq<char> {
    strip_trailing_slashes(trim(u))
}

/// Issuer: the cleaned public base URL when non-empty, else the cleaned first CORS origin
/// when non-empty, else `https://meticulous.example.com`.
pub open spec fn issuer_base_spec(public: Option<Seq<char>>, cors: Seq<String>) -> Seq<char> {
    let from_public = match public {
        Some(u) => clean_base(u),
        None => Seq::empty(),
    };
    let from_cors = if cors.len() > 0 {
        clean_base(cors[0]@)
    } else {
        Seq::empty()
    };
    if from_public.len() > 0 {
        from_public
    } else if from_cors.len() > 0 {
        from_cors
    } else {
        "https://meticulous.example.com"@
    }
}

/// OIDC issuer URL without trailing slash.
pub fn resolve_oidc_issuer_base(config: &ApiConfig) -> (r: String)
    ensures
        r@ == issuer_base_spec(
            match config.public_base_url {
                Some(u) => Some(u@),
                None => None,
            },
            config.cors_origins@,
        ),
{
    if let Some(u) = &config.public_base_url {
        let s = trim_end_slashes(trim_str(u.as_str()));
        if !s.is_empty() {
            return owned(s);
        }
    }
    if config.cors_origins.len() > 0 {
        let s = trim_end_slashes(trim_str(config.cors_origins[0].as_str()));
        if !s.is_empty() {
            return owned(s);
        }
    }
    owned("https://meticulous.example.com")
}

} // verus!
