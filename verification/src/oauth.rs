//! OAuth and OIDC sign-in: the callback URL, provider kinds, the GitHub e-mail that
//! identifies a user, the raw payload of an ID token, what a new session may do, and the
//! redirect that hands the session token to the front end.
use vstd::prelude::*;
use crate::access::CurrentUser;
use crate::error::{ApiError, ErrorKind};
use crate::keyed::{distinct_keys, has_key, keyed_map, lemma_keyed_lookup, lemma_keyed_push, lemma_keyed_remove};
use vstd::utf8::encode_utf8;
use crate::text::{concat3, contains_str, owned, seq_contains_run, split_char, split_on, str_eq};

verus! {

/// Callback URL given to the provider: `{scheme}://{host}/auth/oauth/callback`. The host
/// defaults to `localhost:8080`; the scheme is `X-Forwarded-Proto`, else `https` when the
/// host names port 443, else `http`.
pub open spec fn callback_url_spec(host: Option<Seq<char>>, forwarded_proto: Option<Seq<char>>) -> Seq<
    char,
> {
    let h = match host {
        Some(h) => h,
        None => "localhost:8080"@,
    };
    let scheme = match forwarded_proto {
        Some(p) => p,
        None => if seq_contains_run(h, ":443"@) {
            "https"@
        } else {
            "http"@
        },
    };
    scheme + "://"@ + h + "/auth/oauth/callback"@
}

/// Callback URL for the `Host` and `X-Forwarded-Proto` headers (each `None` when absent or
/// not visible ASCII).
pub fn oauth_callback_url(host: Option<&str>, forwarded_proto: Option<&str>) -> (r: String)
    ensures
        r@ == callback_url_spec(
            match host {
                Some(h) => Some(h@),
                None => None,
            },
            match forwarded_proto {
                Some(p) => Some(p@),
                None => None,
            },
        ),
{
    let h: &str = match host {
        Some(h) => h,
        None => "localhost:8080",
    };
    let scheme: &str = match forwarded_proto {
        Some(p) => p,
        None => if contains_str(h, ":443") {
            "https"
        } else {
            "http"
        },
    };
    let mut r = owned(scheme);
    r.append("://");
    r.append(h);
    r.append("/auth/oauth/callback");
    r
}

/// A new sign-in provider is of type `oidc` or `github`, and an OIDC provider names its
/// issuer.
pub fn check_new_auth_provider(provider_type: &str, issuer_url: &Option<String>) -> (r: Result<
    (),
    ApiError,
>)
    ensures
        (provider_type@ != "oidc"@ && provider_type@ != "github"@) ==> (r matches Err(e) && e.is(
            ErrorKind::BadRequest,
            "provider_type must be 'oidc' or 'github'"@,
        )),
        (provider_type@ == "oidc"@ && issuer_url is None) ==> (r matches Err(e) && e.is(
            ErrorKind::BadRequest,
            "issuer_url is required for OIDC providers"@,
        )),
        (provider_type@ == "github"@ || (provider_type@ == "oidc"@ && issuer_url is Some)) ==> r is Ok,
{
    proof {
        reveal_strlit("oidc");
        reveal_strlit("github");
        assert("github"@.len() != "oidc"@.len());
    }
    if !str_eq(provider_type, "oidc") && !str_eq(provider_type, "github") {
        return Err(ApiError::bad_request("provider_type must be 'oidc' or 'github'"));
    }
    if str_eq(provider_type, "oidc") && issuer_url.is_none() {
        return Err(ApiError::bad_request("issuer_url is required for OIDC providers"));
    }
    Ok(())
}

/// The provider protocols that can sign users in.
#[derive(Debug, Clone, Copy, PartialEq, Eq, Structural)]
pub enum OAuthProviderKind {
    Oidc,
    GitHub,
}

/// Protocol of a configured provider: `oidc` or `github`; any other type is refused.
pub fn oauth_provider_kind(provider_type: &str) -> (r: Result<OAuthProviderKind, ApiError>)
    ensures
        provider_type@ == "oidc"@ ==> r == Ok::<OAuthProviderKind, ApiError>(OAuthProviderKind::Oidc),
        provider_type@ == "github"@ ==> r == Ok::<OAuthProviderKind, ApiError>(
            OAuthProviderKind::GitHub,
        ),
        (provider_type@ != "oidc"@ && provider_type@ != "github"@) ==> (r matches Err(e) && e.is(
            ErrorKind::BadRequest,
            "unsupported provider type"@,
        )),
{
    proof {
        reveal_strlit("oidc");
        reveal_strlit("github");
        assert("oidc"@.len() != "github"@.len());
    }
    if str_eq(provider_type, "oidc") {
        Ok(OAuthProviderKind::Oidc)
    } else if str_eq(provider_type, "github") {
        Ok(OAuthProviderKind::GitHub)
    } else {
        Err(ApiError::bad_request("unsupported provider type"))
    }
}

/// Sign-in starts only with an enabled provider.
pub fn check_provider_enabled(enabled: bool) -> (r: Result<(), ApiError>)
    ensures
        r is Ok <==> enabled,
        r matches Err(e) ==> e.is(ErrorKind::BadRequest, "this auth provider is not enabled"@),
{
    if !enabled {
        return Err(ApiError::bad_request("this auth provider is not enabled"));
    }
    Ok(())
}

/// An OIDC provider needs its issuer URL.
pub fn require_issuer_url(issuer_url: &Option<String>) -> (r: Result<String, ApiError>)
    ensures
        match issuer_url {
            Some(u) => r matches Ok(s) && s@ == u@,
            None => r matches Err(e) && e.is(
                ErrorKind::BadRequest,
                "OIDC provider missing issuer URL"@,
            ),
        },
{
    match issuer_url {
        Some(u) => Ok(owned(u.as_str())),
        None => Err(ApiError::bad_request("OIDC provider missing issuer URL")),
    }
}

/// Index of the first `c` in `s`, or its length.
pub open spec fn first_index_or_len(s: Seq<char>, c: char) -> int
    decreases s.len(),
{
    if s.len() == 0 {
        0
    } else if s[0] == c {
        0
    } else {
        1 + first_index_or_len(s.drop_first(), c)
    }
}

proof fn lemma_first_index(s: Seq<char>, c: char, k: int)
    requires
        0 <= k <= s.len(),
        forall|j: int| 0 <= j < k ==> s[j] != c,
        k == s.len() || s[k] == c,
    ensures
        first_index_or_len(s, c) == k,
    decreases k,
{
    if k > 0 {
        lemma_first_index(s.drop_first(), c, k - 1);
    }
}

/// Username of a user created by OAuth sign-in: the e-mail up to its first `@`.
pub fn username_from_email(email: &str) -> (r: String)
    ensures
        r@ == email@.take(first_index_or_len(email@, '@')),
{
    let n = email.unicode_len();
    let mut k: usize = 0;
    while k < n && email.get_char(k) != '@'
        invariant
            n == email@.len(),
            k <= n,
            forall|j: int| 0 <= j < k ==> email@[j] != '@',
        decreases n - k,
    {
        k = k + 1;
    }
    proof {
        lemma_first_index(email@, '@', k as int);
    }
    owned(email.substring_char(0, k))
}

/// Name shown for the signed-in user: the display name, else the e-mail up to its first `@`.
pub fn profile_name(display_name: Option<String>, email: &str) -> (r: String)
    ensures
        r@ == (match display_name {
            Some(n) => n@,
            None => email@.take(first_index_or_len(email@, '@')),
        }),
{
    match display_name {
        Some(n) => n,
        None => username_from_email(email),
    }
}

/// Role shown for the signed-in user: `admin` for holders of `*`, else `user`.
pub fn profile_role(user: &CurrentUser) -> (r: String)
    ensures
        r@ == (if user.holds("*"@) {
            "admin"@
        } else {
            "user"@
        }),
{
    if user.has_permission("*") {
        owned("admin")
    } else {
        owned("user")
    }
}

/// Permissions of a session opened by OAuth sign-in: everything for an admin, else read
/// access to pipelines, runs and agents.
pub open spec fn session_permissions_spec(is_admin: bool) -> Seq<Seq<char>> {
    if is_admin {
        seq!["*"@]
    } else {
        seq!["pipeline:read"@, "run:read"@, "agent:read"@]
    }
}

pub fn session_permissions(is_admin: bool) -> (r: Vec<String>)
    ensures
        crate::text::views(r@) == session_permissions_spec(is_admin),
{
    let mut r: Vec<String> = Vec::new();
    if is_admin {
        r.push(owned("*"));
    } else {
        r.push(owned("pipeline:read"));
        r.push(owned("run:read"));
        r.push(owned("agent:read"));
    }
    assert(crate::text::views(r@) =~= session_permissions_spec(is_admin));
    r
}

/// An address listed by GitHub's `user/emails`.
pub struct GitHubEmail {
    pub email: String,
    pub primary: bool,
    pub verified: bool,
}

/// Index of the first primary, verified address.
pub open spec fn first_primary_verified(emails: Seq<GitHubEmail>) -> Option<int>
    decreases emails.len(),
{
    if emails.len() == 0 {
        None
    } else if emails[0].primary && emails[0].verified {
        Some(0)
    } else {
        match first_primary_verified(emails.drop_first()) {
            Some(i) => Some(i + 1),
            None => None,
        }
    }
}

proof fn lemma_first_primary_verified(emails: Seq<GitHubEmail>, k: int)
    requires
        0 <= k <= emails.len(),
        forall|j: int| 0 <= j < k ==> !(#[trigger] emails[j].primary && emails[j].verified),
    ensures
        match first_primary_verified(emails.subrange(k, emails.len() as int)) {
            Some(i) => first_primary_verified(emails) == Some(i + k),
            None => first_primary_verified(emails) is None,
        },
    decreases k,
{
    if k > 0 {
        let t = emails.drop_first();
        assert forall|j: int| 0 <= j < k - 1 implies !(#[trigger] t[j].primary && t[j].verified) by {
            assert(t[j] == emails[j + 1]);
        }
        lemma_first_primary_verified(t, k - 1);
        assert(t.subrange(k - 1, t.len() as int) =~= emails.subrange(k, emails.len() as int));
        assert(!(emails[0].primary && emails[0].verified));
    } else {
        assert(emails.subrange(0, emails.len() as int) =~= emails);
    }
}

/// The address that identifies a GitHub user without a public e-mail: the first one that is
/// primary and verified.
pub fn pick_github_email(emails: &Vec<GitHubEmail>) -> (r: Result<String, ApiError>)
    ensures
        match first_primary_verified(emails@) {
            Some(i) => r matches Ok(s) && s@ == emails@[i].email@,
            None => r matches Err(e) && e.is(
                ErrorKind::BadRequest,
                "no verified email found on GitHub account"@,
            ),
        },
{
    let mut k: usize = 0;
    while k < emails.len()
        invariant
            k <= emails@.len(),
            forall|j: int| 0 <= j < k ==> !(#[trigger] emails@[j].primary && emails@[j].verified),
        decreases emails.len() - k,
    {
        if emails[k].primary && emails[k].verified {
            proof {
                lemma_first_primary_verified(emails@, k as int);
                let t = emails@.subrange(k as int, emails@.len() as int);
                assert(t[0] == emails@[k as int]);
            }
            return Ok(owned(emails[k].email.as_str()));
        }
        k = k + 1;
    }
    proof {
        lemma_first_primary_verified(emails@, k as int);
        assert(emails@.subrange(k as int, emails@.len() as int).len() == 0);
    }
    Err(ApiError::bad_request("no verified email found on GitHub account"))
}

/// `s` with every leading and trailing `"` removed (`trim_matches('"')`).
pub open spec fn trim_quotes(s: Seq<char>) -> Seq<char>
    decreases s.len(),
{
    if s.len() > 0 && s[0] == '"' {
        trim_quotes(s.drop_first())
    } else if s.len() > 0 && s.last() == '"' {
        trim_quotes(s.drop_last())
    } else {
        s
    }
}

/// What `URL_SAFE_NO_PAD.decode` of base64 0.22 returns for a text (`None` on a decode
/// error).
pub uninterp spec fn base64url_nopad_decoded(text: Seq<char>) -> Option<Seq<u8>>;

/// Calls `base64::engine::general_purpose::URL_SAFE_NO_PAD.decode`; its result is named
/// [`base64url_nopad_decoded`].
#[verifier::external_body]
fn base64url_decode(text: &str) -> (r: Option<Vec<u8>>)
    ensures
        match r {
            Some(v) => base64url_nopad_decoded(text@) == Some(v@),
            None => base64url_nopad_decoded(text@) is None,
        },
{
    base64::Engine::decode(&base64::engine::general_purpose::URL_SAFE_NO_PAD, text.as_bytes()).ok()
}

/// Raw JSON payload of an ID token, from its serialized form (a JSON string holding the
/// JWT): quotes trimmed, the JWT must have exactly three dot-separated parts, and the
/// middle one is base64url-decoded. `None` when any step fails.
pub open spec fn id_token_payload_spec(serialized: Seq<char>) -> Option<Seq<u8>> {
    let parts = split_on(trim_quotes(serialized), '.');
    if parts.len() == 3 {
        base64url_nopad_decoded(parts[1])
    } else {
        None
    }
}

fn trim_quotes_of(s: &str) -> (r: &str)
    ensures
        r@ == trim_quotes(s@),
{
    let n = s.unicode_len();
    let mut a: usize = 0;
    let mut b: usize = n;
    assert(s@.subrange(0, n as int) =~= s@);
    while a < b && (s.get_char(a) == '"' || s.get_char(b - 1) == '"')
        invariant
            n == s@.len(),
            a <= b <= n,
            trim_quotes(s@) == trim_quotes(s@.subrange(a as int, b as int)),
        decreases b - a,
    {
        let ghost t = s@.subrange(a as int, b as int);
        if s.get_char(a) == '"' {
            assert(t[0] == s@[a as int]);
            assert(t.drop_first() =~= s@.subrange(a + 1, b as int));
            a = a + 1;
        } else {
            assert(t[0] == s@[a as int]);
            assert(t.last() == s@[b - 1]);
            assert(t.drop_last() =~= s@.subrange(a as int, b - 1));
            b = b - 1;
        }
    }
    proof {
        let t = s@.subrange(a as int, b as int);
        if a < b {
            assert(t[0] == s@[a as int]);
            assert(t.last() == s@[b - 1]);
        }
    }
    s.substring_char(a, b)
}

/// The raw payload of a serialized ID token (see [`id_token_payload_spec`]).
pub fn id_token_payload(serialized: &str) -> (r: Option<Vec<u8>>)
    ensures
        match r {
            Some(v) => id_token_payload_spec(serialized@) == Some(v@),
            None => id_token_payload_spec(serialized@) is None,
        },
{
    let t = trim_quotes_of(serialized);
    let parts = split_char(t, '.');
    if parts.len() != 3 {
        return None;
    }
    assert(crate::text::views(parts@)[1] == parts@[1]@);
    base64url_decode(parts[1].as_str())
}

/// A byte that percent-encoding keeps: ASCII letters, digits, `-`, `.`, `_` and `~`.
pub open spec fn url_unreserved(b: u8) -> bool {
    (0x30 <= b && b <= 0x39) || (0x41 <= b && b <= 0x5A) || (0x61 <= b && b <= 0x7A) || b == 0x2D
        || b == 0x2E || b == 0x5F || b == 0x7E
}

/// Uppercase hexadecimal digit of `d` (0..16).
pub open spec fn hex_upper_digit(d: int) -> char {
    if d < 10 {
        (48 + d) as char
    } else {
        (55 + d) as char
    }
}

/// Every byte but the unreserved ones written as `%` and two uppercase hex digits.
pub open spec fn percent_encoded(bytes: Seq<u8>) -> Seq<char>
    decreases bytes.len(),
{
    if bytes.len() == 0 {
        Seq::empty()
    } else {
        let b = bytes.last();
        percent_encoded(bytes.drop_last()) + if url_unreserved(b) {
            seq![b as char]
        } else {
            seq!['%', hex_upper_digit((b / 16) as int), hex_upper_digit((b % 16) as int)]
        }
    }
}

/// Calls `urlencoding::encode` (2.1): every UTF-8 byte of the text except ASCII letters,
/// digits, `-`, `.`, `_` and `~` becomes `%` and two uppercase hex digits, as the crate's
/// `encode_into` writes them.
#[verifier::external_body]
fn url_encode(s: &str) -> (r: String)
    ensures
        r@ == percent_encoded(encode_utf8(s@)),
{
    urlencoding::encode(s).into_owned()
}

/// Where the browser is sent once OAuth sign-in succeeded: the pending redirect with the
/// session token (percent-encoded) and its type.
pub fn oauth_redirect_url(redirect_uri: &str, token: &str) -> (r: String)
    ensures
        r@ == redirect_uri@ + "?token="@ + percent_encoded(encode_utf8(token@)) + "&token_type=Bearer"@,
{
    let t = url_encode(token);
    let head = concat3(redirect_uri, "?token=", t.as_str());
    let mut r = head;
    r.append("&token_type=Bearer");
    r
}

/// What a sign-in that was started remembers until its callback: the provider, the PKCE
/// verifier and nonce (OIDC), and where to send the browser afterwards.
#[derive(Debug)]
pub struct OAuthPendingState {
    pub provider_id: String,
    pub pkce_verifier: Option<String>,
    pub nonce: Option<String>,
    pub redirect_uri: String,
}

/// Pending sign-ins by their CSRF state. At most one entry per state.
pub struct OAuthStateStore {
    entries: Vec<(String, OAuthPendingState)>,
}

impl OAuthStateStore {
    /// The pending sign-ins by state.
    pub closed spec fn view_map(&self) -> Map<Seq<char>, OAuthPendingState> {
        keyed_map(self.entries@)
    }

    /// At most one entry per state.
    pub closed spec fn wf(&self) -> bool {
        distinct_keys(self.entries@)
    }

    /// An empty store.
    pub fn new() -> (r: OAuthStateStore)
        ensures
            r.wf(),
            r.view_map() == Map::<Seq<char>, OAuthPendingState>::empty(),
    {
        let r = OAuthStateStore { entries: Vec::new() };
        assert(r.view_map() =~= Map::<Seq<char>, OAuthPendingState>::empty());
        r
    }

    fn position(&self, state: &str) -> (r: Option<usize>)
        ensures
            match r {
                Some(i) => i < self.entries@.len() && self.entries@[i as int].0@ == state@,
                None => !has_key(self.entries@, state@),
            },
    {
        let mut i: usize = 0;
        while i < self.entries.len()
            invariant
                i <= self.entries@.len(),
                forall|j: int| 0 <= j < i ==> (#[trigger] self.entries@[j]).0@ != state@,
            decreases self.entries.len() - i,
        {
            if str_eq(self.entries[i].0.as_str(), state) {
                return Some(i);
            }
            i = i + 1;
        }
        None
    }

    /// Remembers a started sign-in under its state, replacing one already stored there.
    pub fn insert(&mut self, state: String, pending: OAuthPendingState)
        requires
            old(self).wf(),
        ensures
            final(self).wf(),
            final(self).view_map() == old(self).view_map().insert(state@, pending),
    {
        let ghost k = state@;
        match self.position(state.as_str()) {
            Some(i) => {
                proof {
                    lemma_keyed_remove(self.entries@, i as int);
                }
                let _ = self.entries.remove(i);
            },
            None => {},
        }
        proof {
            lemma_keyed_push(self.entries@, (state, pending));
        }
        self.entries.push((state, pending));
        assert(self.view_map() =~= old(self).view_map().insert(k, pending));
    }

    /// Takes the sign-in pending under `state` out of the store: the state is removed
    /// whatever comes after, so it can be used once; an unknown state is refused.
    pub fn consume(&mut self, state: &str) -> (r: Result<OAuthPendingState, ApiError>)
        requires
            old(self).wf(),
        ensures
            final(self).wf(),
            final(self).view_map() == old(self).view_map().remove(state@),
            old(self).view_map().dom().contains(state@) ==> r == Ok::<OAuthPendingState, ApiError>(
                old(self).view_map()[state@],
            ),
            !old(self).view_map().dom().contains(state@) ==> (r matches Err(e) && e.is(
                ErrorKind::BadRequest,
                "invalid or expired OAuth state"@,
            )),
    {
        match self.position(state) {
            Some(i) => {
                proof {
                    lemma_keyed_remove(self.entries@, i as int);
                    lemma_keyed_lookup(self.entries@, i as int);
                }
                let (_, p) = self.entries.remove(i);
                Ok(p)
            },
            None => {
                assert(old(self).view_map().remove(state@) =~= old(self).view_map());
                Err(ApiError::bad_request("invalid or expired OAuth state"))
            },
        }
    }
}

} // verus!
