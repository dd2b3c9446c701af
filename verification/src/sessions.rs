//! Session and API-key tokens: generation, hashing, and the decisions
//! taken on the rows a lookup returns.
//!
//! Tokens are 32 random bytes hex-encoded (64 characters). Only their
//! SHA-256 hashes are stored, so a leaked backup yields no live session.

use crate::crypto::{hex_encode, hex_lower, is_hex_lower_char, lemma_hex_lower_shape, sha256, sha256_spec};
use crate::identity::{
    scope_named, AuthIdentity, AuthSource, IdentityView, KeyScope, Role, role_named,
};
use crate::text::{lower_spec, push_str};
use vstd::prelude::*;
use vstd::utf8::encode_utf8;

verus! {

/// Default session lifetime: thirty days.
pub const DEFAULT_TTL_HOURS: i64 = 720;

/// Prefix of every API key, so that people recognise one in a log.
pub const API_KEY_PREFIX: &'static str = "rl_";

/// `rand::rngs::OsRng.fill_bytes` on a 32-byte buffer. Nothing is stated
/// of the bytes but their number: they are random.
#[verifier::external_body]
fn os_random_32() -> (b: Vec<u8>)
    ensures
        b@.len() == 32,
{
    let mut buf = [0u8; 32];
    rand::RngCore::fill_bytes(&mut rand::rngs::OsRng, &mut buf);
    buf.to_vec()
}

/// A fresh random token: 64 lower-case hex characters.
pub fn random_token() -> (t: String)
    ensures
        t@.len() == 64,
        forall|i: int| 0 <= i < t@.len() ==> #[trigger] is_hex_lower_char(t@[i]),
{
    let b = os_random_32();
    let t = hex_encode(b.as_slice());
    proof {
        lemma_hex_lower_shape(b@);
    }
    t
}

/// The stored form of a token: hex of the SHA-256 of its UTF-8 bytes.
pub open spec fn token_hash_spec(token: Seq<char>) -> Seq<char> {
    hex_lower(sha256_spec(encode_utf8(token)))
}

/// Hash a presented token for storage or lookup.
pub fn hash_token(token: &str) -> (h: String)
    ensures
        h@ == token_hash_spec(token@),
        h@.len() == 64,
{
    let d = sha256(token.as_bytes());
    let h = hex_encode(d.as_slice());
    proof {
        lemma_hex_lower_shape(d@);
    }
    h
}

/// A session lifetime in hours: at least one.
pub fn session_ttl_hours(ttl_hours: i64) -> (h: i64)
    ensures
        h == if ttl_hours < 1 {
            1
        } else {
            ttl_hours
        },
{
    if ttl_hours < 1 {
        1
    } else {
        ttl_hours
    }
}

/// The role stored for a user: its name parsed, Viewer when unknown.
pub open spec fn stored_role(s: Seq<char>) -> Role {
    match role_named(lower_spec(s)) {
        Some(r) => r,
        None => Role::Viewer,
    }
}

/// Parse a stored role, falling back to Viewer.
pub fn role_or_viewer(s: &str) -> (r: Role)
    ensures
        r == stored_role(s@),
{
    match Role::from_name(s) {
        Some(r) => r,
        None => Role::Viewer,
    }
}

/// The user columns a session lookup joins to the session.
pub struct SessionRow {
    pub user_id: String,
    pub username: String,
    pub role: String,
    pub disabled: i64,
}

/// What becomes of a presented session.
pub enum SessionVerdict {
    /// Unknown token or disabled user: no identity.
    Reject,
    /// Past its expiry: no identity, and the row is deleted.
    Expired,
    /// A live session of this identity.
    Accept(AuthIdentity),
}

/// Judge the row found for a session token. `expired` tells whether the
/// stored expiry could be read and lies in the past. A disabled user is
/// refused before expiry is considered.
pub fn judge_session(row: Option<SessionRow>, expired: bool) -> (v: SessionVerdict)
    ensures
        match row {
            None => v is Reject,
            Some(r) => if r.disabled != 0 {
                v is Reject
            } else if expired {
                v is Expired
            } else {
                v matches SessionVerdict::Accept(id) && id@ == (IdentityView {
                    user_id: r.user_id@,
                    username: r.username@,
                    role: stored_role(r.role@),
                    source: AuthSource::Session,
                })
            },
        },
{
    match row {
        None => SessionVerdict::Reject,
        Some(r) => {
            if r.disabled != 0 {
                SessionVerdict::Reject
            } else if expired {
                SessionVerdict::Expired
            } else {
                let role = role_or_viewer(r.role.as_str());
                SessionVerdict::Accept(
                    AuthIdentity {
                        user_id: r.user_id,
                        username: r.username,
                        role,
                        source: AuthSource::Session,
                    },
                )
            }
        },
    }
}

/// Name for `chrono::DateTime::parse_from_str(&format!("{s} +0000"),
/// "%Y-%m-%d %H:%M:%S %z")` read as whole seconds since the Unix epoch;
/// `None` when the text does not parse.
pub uninterp spec fn utc_seconds_of(s: Seq<char>) -> Option<i64>;

/// `chrono::DateTime::parse_from_str` on a stored `YYYY-MM-DD HH:MM:SS`
/// UTC timestamp, as seconds since the Unix epoch (`timestamp`).
/// Trusted: the result is the named function of the text.
#[verifier::external_body]
fn parse_utc_seconds(s: &str) -> (r: Option<i64>)
    ensures
        r == utc_seconds_of(s@),
{
    match chrono::DateTime::parse_from_str(&format!("{} +0000", s), "%Y-%m-%d %H:%M:%S %z") {
        Ok(d) => Some(d.timestamp()),
        Err(_) => None,
    }
}

/// `chrono::Utc::now`, as whole seconds since the Unix epoch and the
/// nanoseconds past that second. Nothing is stated: it depends on the
/// clock.
#[verifier::external_body]
fn utc_now() -> (r: (i64, u32)) {
    let now = chrono::Utc::now();
    (now.timestamp(), now.timestamp_subsec_nanos())
}

/// Whether a whole-second expiry lies before the instant `(secs, nanos)`.
pub open spec fn before_instant(expiry: i64, secs: i64, nanos: u32) -> bool {
    expiry < secs || (expiry == secs && nanos > 0)
}

/// Whether the expiry stored as `expires_at` lies before `(secs, nanos)`:
/// false when it cannot be read.
pub open spec fn expired_at(expires_at: Seq<char>, secs: i64, nanos: u32) -> bool {
    match utc_seconds_of(expires_at) {
        Some(e) => before_instant(e, secs, nanos),
        None => false,
    }
}

/// Whether an expiry read from `expires_at` lies before `(secs, nanos)`;
/// an unreadable expiry never expires.
pub fn expiry_passed_at(expires_at: &str, secs: i64, nanos: u32) -> (b: bool)
    ensures
        b == expired_at(expires_at@, secs, nanos),
{
    match parse_utc_seconds(expires_at) {
        Some(e) => e < secs || (e == secs && nanos > 0),
        None => false,
    }
}

/// Whether the stored expiry lies in the past now.
pub fn expiry_passed(expires_at: &str) -> (b: bool)
    ensures
        b ==> utc_seconds_of(expires_at@) is Some,
        exists|secs: i64, nanos: u32| b == #[trigger] expired_at(expires_at@, secs, nanos),
{
    let (secs, nanos) = utc_now();
    expiry_passed_at(expires_at, secs, nanos)
}

/// The plaintext of a new API key: the prefix, then a token body.
pub open spec fn api_key_text(body: Seq<char>) -> Seq<char> {
    "rl_"@ + body
}

/// The plaintext of an API key with token body `body`.
pub fn api_key_plaintext(body: &str) -> (k: String)
    ensures
        k@ == api_key_text(body@),
{
    let mut k = API_KEY_PREFIX.to_owned();
    push_str(&mut k, body);
    k
}

/// A new API key: its plaintext (shown once) and the hash to store.
pub fn new_api_key() -> (r: (String, String))
    ensures
        r.0@.len() == 67,
        r.0@.take(3) == "rl_"@,
        forall|i: int| 3 <= i < 67 ==> #[trigger] is_hex_lower_char(r.0@[i]),
        r.1@ == token_hash_spec(r.0@),
{
    let body = random_token();
    let k = api_key_plaintext(body.as_str());
    proof {
        reveal_strlit("rl_");
        assert(k@.take(3) =~= "rl_"@);
        assert forall|i: int| 3 <= i < 67 implies #[trigger] is_hex_lower_char(k@[i]) by {
            assert(k@[i] == body@[i - 3]);
        }
    }
    let h = hash_token(k.as_str());
    (k, h)
}

/// Whether a presented key looks like an API key at all; others are not
/// looked up.
pub open spec fn has_key_prefix(s: Seq<char>) -> bool {
    s.len() >= 3 && s.take(3) == "rl_"@
}

/// Every key `new_api_key` hands out is recognised as an API key.
pub proof fn lemma_new_keys_are_recognised(k: Seq<char>)
    requires
        k.len() == 67,
        k.take(3) == "rl_"@,
    ensures
        has_key_prefix(k),
{
}

pub fn looks_like_api_key(s: &str) -> (b: bool)
    ensures
        b == has_key_prefix(s@),
{
    proof {
        reveal_strlit("rl_");
    }
    let n = s.unicode_len();
    if n < 3 {
        return false;
    }
    let head = s.substring_char(0, 3);
    let r = crate::text::str_eq(head, API_KEY_PREFIX);
    proof {
        assert(head@ =~= s@.take(3));
    }
    r
}

/// The columns an API-key lookup returns.
pub struct ApiKeyRow {
    pub user_id: String,
    pub username: String,
    pub role: String,
    pub disabled: i64,
    pub revoked: bool,
    pub scope: String,
}

/// The scope stored for a key: its name parsed, Inherit when unknown.
pub open spec fn stored_scope(s: Seq<char>) -> KeyScope {
    match scope_named(s) {
        Some(k) => k,
        None => KeyScope::Inherit,
    }
}

/// The identity an API key grants: none for a missing row, a disabled
/// user or a revoked key; otherwise the user with the stored role clamped
/// by the key's scope.
pub fn judge_api_key(row: Option<ApiKeyRow>) -> (r: Option<AuthIdentity>)
    ensures
        match row {
            None => r is None,
            Some(k) => if k.disabled != 0 || k.revoked {
                r is None
            } else {
                r matches Some(id) && id@ == (IdentityView {
                    user_id: k.user_id@,
                    username: k.username@,
                    role: stored_scope(k.scope@).spec_effective(stored_role(k.role@)),
                    source: AuthSource::ApiKey,
                })
            },
        },
{
    match row {
        None => None,
        Some(k) => {
            if k.disabled != 0 || k.revoked {
                None
            } else {
                let user_role = role_or_viewer(k.role.as_str());
                let scope = match KeyScope::parse(k.scope.as_str()) {
                    Some(s) => s,
                    None => KeyScope::Inherit,
                };
                Some(
                    AuthIdentity {
                        user_id: k.user_id,
                        username: k.username,
                        role: scope.effective(user_role),
                        source: AuthSource::ApiKey,
                    },
                )
            }
        },
    }
}

/// A key created for a caller, with its plaintext shown once.
pub struct CreatedApiKey {
    pub id: String,
    pub label: String,
    /// Plaintext key, `rl_` followed by 64 hex characters.
    pub plaintext: String,
    pub scope: KeyScope,
}

/// A stored key as listed to admins (never its plaintext).
pub struct ApiKeySummary {
    pub id: String,
    pub label: String,
    pub user_id: String,
    pub created_at: String,
    pub last_used_at: Option<String>,
    pub revoked_at: Option<String>,
    pub scope: String,
}

} // verus!
