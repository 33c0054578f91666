//! Keyset cursors of the workspace listings: the update time and id of the last row shown,
//! as `base64("{RFC 3339 time}|{uuid}")`.
use vstd::prelude::*;
use vstd::utf8::{decode_utf8, encode_utf8, valid_utf8};
use crate::error::{ApiError, ErrorKind};
use crate::crypto::str_bytes;
use crate::text::{concat3, hex_digit, trim, trim_str};

verus! {

/// The character of the standard base64 alphabet for a 6-bit value.
pub open spec fn base64_symbol(v: int) -> char {
    if v < 26 {
        (('A' as int) + v) as char
    } else if v < 52 {
        (('a' as int) + v - 26) as char
    } else if v < 62 {
        (('0' as int) + v - 52) as char
    } else if v == 62 {
        '+'
    } else {
        '/'
    }
}

/// What `base64::engine::general_purpose::STANDARD.encode` (base64 0.22) returns for
/// these bytes: each group of three bytes as four symbols of the standard alphabet, most
/// significant bits first, and a last group of one or two bytes padded with `=`.
pub open spec fn base64_standard_encoded(bytes: Seq<u8>) -> Seq<char>
    decreases bytes.len(),
{
    if bytes.len() == 0 {
        Seq::empty()
    } else if bytes.len() == 1 {
        seq![base64_symbol((bytes[0] as int) / 4), base64_symbol(((bytes[0] as int) % 4) * 16), '=', '=']
    } else if bytes.len() == 2 {
        seq![
            base64_symbol((bytes[0] as int) / 4),
            base64_symbol(((bytes[0] as int) % 4) * 16 + (bytes[1] as int) / 16),
            base64_symbol(((bytes[1] as int) % 16) * 4),
            '=',
        ]
    } else {
        seq![
            base64_symbol((bytes[0] as int) / 4),
            base64_symbol(((bytes[0] as int) % 4) * 16 + (bytes[1] as int) / 16),
            base64_symbol(((bytes[1] as int) % 16) * 4 + (bytes[2] as int) / 64),
            base64_symbol((bytes[2] as int) % 64),
        ] + base64_standard_encoded(bytes.subrange(3, bytes.len() as int))
    }
}

/// What `STANDARD.decode` (base64 0.22) returns for this text (`None` on a decode error).
pub uninterp spec fn base64_standard_decoded(text: Seq<char>) -> Option<Seq<u8>>;

/// The UTC instant `(seconds, nanoseconds)` as chrono 0.4 renders it with
/// `to_rfc3339_opts(SecondsFormat::AutoSi, true)` (`None` when
/// `DateTime::from_timestamp` refuses it).
pub uninterp spec fn rfc3339_utc_text(secs: i64, nanos: u32) -> Option<Seq<char>>;

/// The UTC instant that chrono 0.4's `DateTime::parse_from_rfc3339` reads from a text, as
/// `(timestamp, timestamp_subsec_nanos)` (`None` when it does not parse).
pub uninterp spec fn rfc3339_instant(text: Seq<char>) -> Option<(i64, u32)>;

/// The value of a UUID as `uuid::Uuid::parse_str` (uuid 1) reads it, by `as_u128`.
pub uninterp spec fn uuid_value(text: Seq<char>) -> Option<u128>;

/// The `i`-th hex digit (from the most significant) of a UUID's value.
pub open spec fn uuid_nibble(value: u128, i: int) -> int {
    ((value >> ((124 - 4 * i) as u128)) & 0xfu128) as int
}

/// The hyphenated text of the UUID with this value (`Display` of uuid 1): its 32 lowercase
/// hex digits, most significant first, in groups of 8, 4, 4, 4 and 12 joined by `-`.
pub open spec fn uuid_text(value: u128) -> Seq<char> {
    let d = Seq::new(32, |i: int| hex_digit(uuid_nibble(value, i)));
    d.subrange(0, 8) + "-"@ + d.subrange(8, 12) + "-"@ + d.subrange(12, 16) + "-"@ + d.subrange(
        16,
        20,
    ) + "-"@ + d.subrange(20, 32)
}

/// A character of the standard base64 alphabet, or the padding `=`.
pub open spec fn base64_char(c: char) -> bool {
    ('A' <= c && c <= 'Z') || ('a' <= c && c <= 'z') || ('0' <= c && c <= '9') || c == '+' || c
        == '/' || c == '='
}

/// Calls `STANDARD.encode`, whose text is [`base64_standard_encoded`]. As the crate
/// documents the `STANDARD` engine (standard alphabet, padding written and required on
/// decoding), the text is made of alphabet characters and `=`, and `STANDARD.decode` gives
/// the bytes back.
#[verifier::external_body]
fn base64_encode(bytes: &[u8]) -> (r: String)
    ensures
        r@ == base64_standard_encoded(bytes@),
        base64_standard_decoded(r@) == Some(bytes@),
        forall|i: int| 0 <= i < r@.len() ==> base64_char(#[trigger] r@[i]),
{
    base64::Engine::encode(&base64::engine::general_purpose::STANDARD, bytes)
}

/// Calls `STANDARD.decode`; the result is named [`base64_standard_decoded`].
#[verifier::external_body]
fn base64_decode(text: &str) -> (r: Option<Vec<u8>>)
    ensures
        match r {
            Some(v) => base64_standard_decoded(text@) == Some(v@),
            None => base64_standard_decoded(text@) is None,
        },
{
    base64::Engine::decode(&base64::engine::general_purpose::STANDARD, text.as_bytes()).ok()
}

/// Calls `String::from_utf8`: a string exactly when the bytes are valid UTF-8, and then
/// the string whose UTF-8 bytes they are.
#[verifier::external_body]
fn utf8_string(bytes: Vec<u8>) -> (r: Option<String>)
    ensures
        r is Some <==> valid_utf8(bytes@),
        r matches Some(s) ==> encode_utf8(s@) == bytes@,
{
    String::from_utf8(bytes).ok()
}

/// The instants chrono accepts whose RFC 3339 text has a four-digit year: from the first
/// second of year 0 to the last second of year 9999 (UTC), with less than a second of
/// nanoseconds, or, at the 59th second of a minute, a leap second (one to two seconds of
/// nanoseconds, written as second 60).
pub open spec fn four_digit_year_instant(secs: i64, nanos: u32) -> bool {
    &&& -62167219200 <= secs <= 253402300799
    &&& (nanos < 1_000_000_000 || (nanos < 2_000_000_000 && secs % 60 == 59))
}

/// Calls `DateTime::from_timestamp` and `to_rfc3339_opts(SecondsFormat::AutoSi, true)`;
/// the result is named [`rfc3339_utc_text`]. The text is made of digits, signs, `:`, `T`,
/// `.` and `Z` (no `|`); for an instant of a four-digit year (a leap second included, which
/// chrono writes as second 60 and reads back as second 59 with the extra second in the
/// nanoseconds), chrono renders every non-zero sub-second digit, so
/// `DateTime::parse_from_rfc3339` reads the same instant back.
#[verifier::external_body]
fn rfc3339_text(secs: i64, nanos: u32) -> (r: Option<String>)
    ensures
        match r {
            Some(t) => rfc3339_utc_text(secs, nanos) == Some(t@) && (forall|i: int|
                0 <= i < t@.len() ==> #[trigger] t@[i] != '|') && (four_digit_year_instant(
                secs,
                nanos,
            ) ==> rfc3339_instant(t@) == Some((secs, nanos))),
            None => rfc3339_utc_text(secs, nanos) is None && !four_digit_year_instant(secs, nanos),
        },
{
    chrono::DateTime::from_timestamp(secs, nanos).map(
        |t| t.to_rfc3339_opts(chrono::SecondsFormat::AutoSi, true),
    )
}

/// Calls `DateTime::parse_from_rfc3339` and reads the instant; the result is named
/// [`rfc3339_instant`].
#[verifier::external_body]
fn parse_rfc3339(text: &str) -> (r: Option<(i64, u32)>)
    ensures
        r == rfc3339_instant(text@),
{
    chrono::DateTime::parse_from_rfc3339(text).ok().map(
        |t| (t.timestamp(), t.timestamp_subsec_nanos()),
    )
}

/// Calls `Uuid::parse_str`; the result is named [`uuid_value`].
#[verifier::external_body]
pub(crate) fn parse_uuid(text: &str) -> (r: Option<u128>)
    ensures
        r == uuid_value(text@),
{
    uuid::Uuid::parse_str(text).ok().map(|u| u.as_u128())
}

/// Calls `Uuid::new_v4` and returns the value as `as_u128` reads it. The value is random:
/// uuid 1.29 masks a random `u128` so that the version nibble (bits 76..80) is 4 and the
/// variant (bits 62..64) is `10`, and that is all the contract states.
#[verifier::external_body]
pub(crate) fn random_uuid_v4() -> (r: u128)
    ensures
        (r >> 76u128) & 0xfu128 == 4,
        (r >> 62u128) & 0x3u128 == 2,
{
    uuid::Uuid::new_v4().as_u128()
}

/// Renders a UUID with `Display` (hyphenated lowercase hex, [`uuid_text`]). `Uuid::parse_str` reads every
/// format the crate renders, so it reads the same value back.
#[verifier::external_body]
pub(crate) fn uuid_to_text(value: u128) -> (r: String)
    ensures
        r@ == uuid_text(value),
        uuid_value(r@) == Some(value),
{
    uuid::Uuid::from_u128(value).to_string()
}

/// The cursor after a row updated at `(secs, nanos)` with id `id`; `None` only for an instant
/// chrono cannot represent. For an instant of a four-digit year, the cursor reads back as
/// the same time and id.
pub fn encode_cursor(secs: i64, nanos: u32, id: u128) -> (r: Option<String>)
    ensures
        match rfc3339_utc_text(secs, nanos) {
            Some(t) => r matches Some(c) && c@ == base64_standard_encoded(
                encode_utf8(t + "|"@ + uuid_text(id)),
            ),
            None => r is None,
        },
        four_digit_year_instant(secs, nanos) ==> (r matches Some(c) && cursor_spec(c@) == Some(
            (secs, nanos, id),
        )),
{
    let t = match rfc3339_text(secs, nanos) {
        Some(t) => t,
        None => {
            return None;
        },
    };
    let id_text = uuid_to_text(id);
    let text = concat3(t.as_str(), "|", id_text.as_str());
    let c = base64_encode(str_bytes(text.as_str()));
    proof {
        reveal_strlit("|");
        lemma_trim_base64(c@);
        vstd::utf8::encode_utf8_valid_utf8(text@);
        vstd::utf8::encode_utf8_decode_utf8(text@);
        let k = t@.len() as int;
        assert forall|j: int| 0 <= j < k implies text@[j] != '|' by {
            assert(text@[j] == t@[j]);
        }
        lemma_first_bar(text@, k);
        let rest = text@.subrange(k, text@.len() as int);
        assert(rest[0] == '|');
        assert(text@.take(k) =~= t@);
        assert(text@.skip(k + 1) =~= id_text@);
    }
    Some(c)
}

proof fn lemma_trim_base64(s: Seq<char>)
    requires
        forall|i: int| 0 <= i < s.len() ==> base64_char(#[trigger] s[i]),
    ensures
        trim(s) == s,
{
    if s.len() > 0 {
        assert(base64_char(s[0]));
        assert(base64_char(s[s.len() - 1]));
    }
}

/// Index of the first `|` in `s`, if any.
pub open spec fn first_bar(s: Seq<char>) -> Option<int>
    decreases s.len(),
{
    if s.len() == 0 {
        None
    } else if s[0] == '|' {
        Some(0)
    } else {
        match first_bar(s.drop_first()) {
            Some(i) => Some(i + 1),
            None => None,
        }
    }
}

proof fn lemma_first_bar(s: Seq<char>, k: int)
    requires
        0 <= k <= s.len(),
        forall|j: int| 0 <= j < k ==> s[j] != '|',
    ensures
        match first_bar(s.subrange(k, s.len() as int)) {
            Some(i) => first_bar(s) == Some(i + k),
            None => first_bar(s) is None,
        },
    decreases k,
{
    if k > 0 {
        let t = s.drop_first();
        assert forall|j: int| 0 <= j < k - 1 implies t[j] != '|' by {
            assert(t[j] == s[j + 1]);
        }
        lemma_first_bar(t, k - 1);
        assert(t.subrange(k - 1, t.len() as int) =~= s.subrange(k, s.len() as int));
    } else {
        assert(s.subrange(0, s.len() as int) =~= s);
    }
}

/// What a cursor reads as: the trimmed text base64-decoded, as UTF-8 text split at its
/// first `|` into an RFC 3339 time and a UUID.
pub open spec fn cursor_spec(cursor: Seq<char>) -> Option<(i64, u32, u128)> {
    match base64_standard_decoded(trim(cursor)) {
        None => None,
        Some(bytes) => if !valid_utf8(bytes) {
            None
        } else {
            let text = decode_utf8(bytes);
            match first_bar(text) {
                None => None,
                Some(i) => match (
                    rfc3339_instant(text.take(i)),
                    uuid_value(text.skip(i + 1)),
                ) {
                    (Some((s, n)), Some(id)) => Some((s, n, id)),
                    _ => None,
                },
            }
        },
    }
}

/// Reads a cursor; anything that is not one is refused.
pub fn decode_cursor(cursor: &str) -> (r: Result<(i64, u32, u128), ApiError>)
    ensures
        match cursor_spec(cursor@) {
            Some(v) => r == Ok::<(i64, u32, u128), ApiError>(v),
            None => r matches Err(e) && e.is(ErrorKind::BadRequest, "invalid pagination cursor"@),
        },
{
    let bytes = match base64_decode(trim_str(cursor)) {
        Some(b) => b,
        None => {
            return Err(ApiError::bad_request("invalid pagination cursor"));
        },
    };
    let ghost bs = bytes@;
    let text = match utf8_string(bytes) {
        Some(t) => t,
        None => {
            return Err(ApiError::bad_request("invalid pagination cursor"));
        },
    };
    proof {
        vstd::utf8::encode_utf8_decode_utf8(text@);
        assert(text@ == decode_utf8(bs));
    }
    let n = text.as_str().unicode_len();
    let mut k: usize = 0;
    while k < n && text.as_str().get_char(k) != '|'
        invariant
            n == text@.len(),
            k <= n,
            forall|j: int| 0 <= j < k ==> text@[j] != '|',
        decreases n - k,
    {
        k = k + 1;
    }
    proof {
        lemma_first_bar(text@, k as int);
        let t = text@.subrange(k as int, text@.len() as int);
        if k < n {
            assert(t[0] == text@[k as int]);
        }
    }
    if k == n {
        return Err(ApiError::bad_request("invalid pagination cursor"));
    }
    let ts = text.as_str().substring_char(0, k);
    let id_str = text.as_str().substring_char(k + 1, n);
    assert(ts@ =~= text@.take(k as int));
    assert(id_str@ =~= text@.skip(k + 1));
    let (secs, nanos) = match parse_rfc3339(ts) {
        Some(t) => t,
        None => {
            return Err(ApiError::bad_request("invalid pagination cursor"));
        },
    };
    let id = match parse_uuid(id_str) {
        Some(u) => u,
        None => {
            return Err(ApiError::bad_request("invalid pagination cursor"));
        },
    };
    Ok((secs, nanos, id))
}

} // verus!
