use racklog::middleware::{strip_bearer_prefix, strip_bearer_scheme};
use racklog::password::{hash, verify, PasswordError};
use racklog::sessions::{hash_token, random_token};
use racklog::throttle::TokenBucket;

#[test]
fn strips_canonical_bearer() {
    assert_eq!(strip_bearer_prefix("Bearer abc"), "abc");
}

#[test]
fn strips_lowercase_bearer() {
    assert_eq!(strip_bearer_prefix("bearer abc"), "abc");
}

#[test]
fn strips_uppercase_bearer() {
    assert_eq!(strip_bearer_prefix("BEARER abc"), "abc");
}

#[test]
fn rejects_other_schemes() {
    assert_eq!(strip_bearer_prefix("Basic abc"), "");
}

#[test]
fn requires_separator() {
    assert_eq!(strip_bearer_prefix("BearerNoSpace"), "");
}

#[test]
fn handles_short_strings() {
    assert_eq!(strip_bearer_prefix(""), "");
    assert_eq!(strip_bearer_prefix("Bear"), "");
}

#[test]
fn strip_bearer_handles_case_and_separator() {
    assert_eq!(strip_bearer_scheme("Bearer abc"), Some("abc"));
    assert_eq!(strip_bearer_scheme("bearer abc"), Some("abc"));
    assert_eq!(strip_bearer_scheme("BEARER abc"), Some("abc"));
    assert_eq!(strip_bearer_scheme("Bearer\tabc"), Some("abc"));
    assert!(strip_bearer_scheme("Basic abc").is_none());
    assert!(strip_bearer_scheme("BearerNoSpace").is_none());
    assert!(strip_bearer_scheme("Bearer ").is_none());
}

#[test]
fn round_trip() {
    let h = hash("correcthorse").unwrap();
    assert!(h.starts_with("$argon2"), "hash must be PHC-encoded");
    assert!(verify("correcthorse", &h).unwrap());
    assert!(!verify("wrong", &h).unwrap());
}

#[test]
fn rejects_short_password() {
    assert!(matches!(hash("short"), Err(PasswordError::TooShort { .. })));
}

#[test]
fn rejects_empty() {
    assert!(matches!(hash(""), Err(PasswordError::Empty)));
}

#[test]
fn empty_stored_hash_is_clean_false() {
    assert!(!verify("anything", "").unwrap());
}

#[test]
fn malformed_stored_hash_is_error() {
    assert!(verify("anything", "not-a-phc-string").is_err());
}

#[test]
fn random_token_is_64_hex_chars() {
    let t = random_token();
    assert_eq!(t.len(), 64);
    assert!(t.chars().all(|c| c.is_ascii_hexdigit()));
}

#[test]
fn hash_is_deterministic_and_distinct_from_input() {
    let t = "deadbeef";
    assert_eq!(hash_token(t), hash_token(t));
    assert_ne!(hash_token(t), t);
}

#[test]
fn two_random_tokens_are_distinct() {
    assert_ne!(random_token(), random_token());
}

// One token per 60,000,000 units; 0.001 tokens a second is 60
// milli-tokens a minute.
#[test]
fn bucket_allows_initial_burst_then_blocks() {
    let mut b = TokenBucket::with_tokens(3, 3, 60, 0);
    assert!(b.try_take_at(0));
    assert!(b.try_take_at(0));
    assert!(b.try_take_at(0));
    assert!(!b.try_take_at(0), "burst exhausted");
}

// 100 tokens a second is 6,000,000 milli-tokens a minute; the bucket
// was last refilled 50 ms ago.
#[test]
fn bucket_refills_over_time() {
    let mut b = TokenBucket::with_tokens(0, 1, 6_000_000, 0);
    assert!(b.try_take_at(50), "should have refilled");
}
