//! Webhook events from sensors and home automation, appended to the audit
//! chain: the kind whitelist, the field bounds, and the optional HMAC
//! signature with its replay window.

use crate::crypto::ct_eq_bytes;
use crate::errors::ApiError;
use crate::numbers::{i64_text_value, parse_i64};
use crate::text::{opt_str, str_eq};
use vstd::prelude::*;
use vstd::utf8::encode_utf8;

verus! {

/// Longest description, in bytes.
pub const MAX_FIELD_LEN: usize = 2048;

/// Largest payload, in bytes of its JSON encoding.
pub const MAX_PAYLOAD_LEN: usize = 16384;

/// Widest accepted distance, in seconds, between a signed request's
/// timestamp and the server clock.
pub const HMAC_TIMESTAMP_WINDOW_SECS: i64 = 300;

/// Caller-domain prefixes an event kind must start with, so that a stolen
/// sensor key can never impersonate a core inventory event.
pub open spec fn allowed_prefixes() -> Seq<Seq<char>> {
    seq!["ext."@, "sensor."@, "matter."@, "ha."@, "iot."@, "vision."@]
}

/// Whether `kind` starts with an allowed prefix.
pub open spec fn kind_allowed(kind: Seq<char>) -> bool {
    exists|i: int|
        0 <= i < allowed_prefixes().len() && #[trigger] allowed_prefixes()[i].len() <= kind.len()
            && kind.take(allowed_prefixes()[i].len() as int) == allowed_prefixes()[i]
}

fn starts_with(s: &str, p: &str) -> (b: bool)
    ensures
        b == (p@.len() <= s@.len() && s@.take(p@.len() as int) == p@),
{
    let n = s.unicode_len();
    let m = p.unicode_len();
    if m > n {
        return false;
    }
    let head = s.substring_char(0, m);
    assert(head@ =~= s@.take(m as int));
    str_eq(head, p)
}

/// Whether an event kind is on the whitelist.
pub fn is_allowed_kind(kind: &str) -> (b: bool)
    ensures
        b == kind_allowed(kind@),
{
    let ghost ps = allowed_prefixes();
    let r = starts_with(kind, "ext.") || starts_with(kind, "sensor.") || starts_with(kind, "matter.")
        || starts_with(kind, "ha.") || starts_with(kind, "iot.") || starts_with(kind, "vision.");
    proof {
        if r {
            if ps[0].len() <= kind@.len() && kind@.take(ps[0].len() as int) == ps[0] {
                assert(kind_allowed(kind@));
            } else if ps[1].len() <= kind@.len() && kind@.take(ps[1].len() as int) == ps[1] {
                assert(kind_allowed(kind@));
            } else if ps[2].len() <= kind@.len() && kind@.take(ps[2].len() as int) == ps[2] {
                assert(kind_allowed(kind@));
            } else if ps[3].len() <= kind@.len() && kind@.take(ps[3].len() as int) == ps[3] {
                assert(kind_allowed(kind@));
            } else if ps[4].len() <= kind@.len() && kind@.take(ps[4].len() as int) == ps[4] {
                assert(kind_allowed(kind@));
            } else {
                assert(ps[5].len() <= kind@.len() && kind@.take(ps[5].len() as int) == ps[5]);
            }
        } else {
            assert forall|i: int| 0 <= i < ps.len() implies !(#[trigger] ps[i].len() <= kind@.len()
                && kind@.take(ps[i].len() as int) == ps[i]) by {}
        }
    }
    r
}

/// The first failed check of an event's fields, as its message: the kind
/// prefix, then the kind's length (at most 64 bytes) with a non-empty
/// description, the description's length, the reference's length (at
/// most 128 bytes), the payload's encoded length.
pub open spec fn event_problem(
    kind: Seq<char>,
    reference: Option<Seq<char>>,
    description: Seq<char>,
    payload_len: Option<nat>,
) -> Option<Seq<char>> {
    if !kind_allowed(kind) {
        Some("kind must start with one of: ext., sensor., matter., ha., iot., vision."@)
    } else if encode_utf8(kind).len() > 64 || description.len() == 0 {
        Some("kind ≤ 64 chars; description must not be empty"@)
    } else if encode_utf8(description).len() > MAX_FIELD_LEN {
        Some("description must be ≤ 2048 chars"@)
    } else if reference matches Some(r) && encode_utf8(r).len() > 128 {
        Some("ref must be ≤ 128 chars"@)
    } else if payload_len matches Some(n) && n > MAX_PAYLOAD_LEN {
        Some("payload must be ≤ 16 KiB"@)
    } else {
        None
    }
}

/// Check an incoming event. `payload_len` is the length of the payload's
/// JSON encoding, when there is a payload.
pub fn validate_event(
    kind: &str,
    reference: Option<&str>,
    description: &str,
    payload_len: Option<usize>,
) -> (r: Result<(), ApiError>)
    ensures
        match event_problem(
            kind@,
            match reference {
                Some(x) => Some(x@),
                None => None,
            },
            description@,
            match payload_len {
                Some(n) => Some(n as nat),
                None => None,
            },
        ) {
            Some(m) => r matches Err(e) && e.is_bad_request(m),
            None => r is Ok,
        },
{
    if !is_allowed_kind(kind) {
        return Err(
            ApiError::BadRequest(
                "kind must start with one of: ext., sensor., matter., ha., iot., vision.".to_owned(),
            ),
        );
    }
    if kind.as_bytes().len() > 64 || description.is_empty() {
        return Err(ApiError::BadRequest("kind ≤ 64 chars; description must not be empty".to_owned()));
    }
    if description.as_bytes().len() > MAX_FIELD_LEN {
        return Err(ApiError::BadRequest("description must be ≤ 2048 chars".to_owned()));
    }
    match reference {
        Some(x) => {
            if x.as_bytes().len() > 128 {
                return Err(ApiError::BadRequest("ref must be ≤ 128 chars".to_owned()));
            }
        },
        None => {},
    }
    match payload_len {
        Some(n) => {
            if n > MAX_PAYLOAD_LEN {
                return Err(ApiError::BadRequest("payload must be ≤ 16 KiB".to_owned()));
            }
        },
        None => {},
    }
    Ok(())
}

/// Value of one hex digit byte, either case.
pub open spec fn hex_byte_value(b: u8) -> Option<u8> {
    if 48 <= b <= 57 {
        Some((b - 48) as u8)
    } else if 97 <= b <= 102 {
        Some((b - 87) as u8)
    } else if 65 <= b <= 70 {
        Some((b - 55) as u8)
    } else {
        None
    }
}

/// `hex::decode` on the bytes of a text: an even number of hex digits (in
/// either case), read two by two, high nibble first.
pub open spec fn hex_decode_spec(t: Seq<u8>) -> Option<Seq<u8>> {
    if t.len() % 2 == 0 && forall|i: int| 0 <= i < t.len() ==> #[trigger] hex_byte_value(t[i]) is Some {
        Some(
            Seq::new(
                t.len() / 2,
                |i: int|
                    (hex_byte_value(t[2 * i])->0 * 16 + hex_byte_value(t[2 * i + 1])->0) as u8,
            ),
        )
    } else {
        None
    }
}

/// `hex::decode`. Trusted: it fails on an odd length or on any byte that
/// is not a hex digit, and otherwise gives each pair of digits as one
/// byte, high nibble first (`val(a) << 4 | val(b)`).
#[verifier::external_body]
fn hex_decode(s: &str) -> (r: Option<Vec<u8>>)
    ensures
        match r {
            Some(v) => hex_decode_spec(encode_utf8(s@)) == Some(v@),
            None => hex_decode_spec(encode_utf8(s@)) is None,
        },
{
    match hex::decode(s) {
        Ok(v) => Some(v),
        Err(_) => None,
    }
}

/// Name for the HMAC-SHA256 of a message under a key, as the `hmac` and
/// `sha2` crates compute it.
pub uninterp spec fn hmac_sha256_spec(key: Seq<u8>, msg: Seq<u8>) -> Seq<u8>;

/// `Hmac::<Sha256>::new_from_slice(key)`, fed `msg`, finalised. Trusted:
/// the result is the named HMAC of the key and message, 32 bytes long.
/// (`new_from_slice` accepts keys of every length for HMAC; its error
/// branch is never taken.)
#[verifier::external_body]
fn hmac_sha256(key: &[u8], msg: &[u8]) -> (d: Vec<u8>)
    ensures
        d@ == hmac_sha256_spec(key@, msg@),
        d@.len() == 32,
{
    match <hmac::Hmac<sha2::Sha256> as hmac::Mac>::new_from_slice(key) {
        Ok(mut m) => {
            hmac::Mac::update(&mut m, msg);
            hmac::Mac::finalize(m).into_bytes().to_vec()
        },
        Err(_) => Vec::new(),
    }
}

/// `chrono::Utc::now().timestamp()`: the server clock in seconds since the
/// Unix epoch. Nothing is stated: it depends on the clock.
#[verifier::external_body]
fn unix_now() -> i64 {
    chrono::Utc::now().timestamp()
}

/// The signed message: the timestamp's bytes, a dot, the body.
pub open spec fn signed_message(ts: Seq<char>, body: Seq<u8>) -> Seq<u8> {
    encode_utf8(ts) + seq![46u8] + body
}

/// The text after a `sha256=` prefix, if the signature header has it.
pub open spec fn signature_hex(sig: Seq<char>) -> Option<Seq<char>> {
    if sig.len() >= 7 && sig.take(7) == "sha256="@ {
        Some(sig.skip(7))
    } else {
        None
    }
}

/// The outcome of checking a signed event at server time `now`: the
/// first missing or malformed header is a bad request; a timestamp more
/// than the window away from `now`, or a signature that is not the HMAC of
/// `timestamp.body` under the secret, is unauthorized.
pub open spec fn hmac_outcome(
    secret: Seq<char>,
    ts: Option<Seq<char>>,
    sig: Option<Seq<char>>,
    body: Seq<u8>,
    now: int,
) -> Result<(), Seq<char>> {
    match (ts, sig) {
        (None, _) => Err("X-Racklog-Timestamp header required"@),
        (Some(_), None) => Err("X-Racklog-Signature header required"@),
        (Some(t), Some(s)) => match signature_hex(s) {
            None => Err("X-Racklog-Signature must be sha256=<hex>"@),
            Some(h) => match hex_decode_spec(encode_utf8(h)) {
                None => Err("X-Racklog-Signature is not hex"@),
                Some(presented) => match i64_text_value(t) {
                    None => Err("X-Racklog-Timestamp must be unix seconds"@),
                    Some(n) => if now - n > HMAC_TIMESTAMP_WINDOW_SECS || n - now
                        > HMAC_TIMESTAMP_WINDOW_SECS {
                        Err(Seq::empty())
                    } else if hmac_sha256_spec(encode_utf8(secret), signed_message(t, body))
                        == presented {
                        Ok(())
                    } else {
                        Err(Seq::empty())
                    },
                },
            },
        },
    }
}

/// How `hmac_outcome` maps to an error: a message is a bad request, the
/// empty message is unauthorized.
pub open spec fn matches_outcome(r: Result<(), ApiError>, o: Result<(), Seq<char>>) -> bool {
    match o {
        Ok(()) => r is Ok,
        Err(m) => if m.len() == 0 {
            r matches Err(ApiError::Unauthorized)
        } else {
            r matches Err(e) && e.is_bad_request(m)
        },
    }
}

/// Check an event's HMAC signature and timestamp against server time
/// `now` (seconds since the Unix epoch).
pub fn verify_hmac_at(
    secret: &str,
    ts: Option<&str>,
    sig: Option<&str>,
    body: &[u8],
    now: i64,
) -> (r: Result<(), ApiError>)
    ensures
        matches_outcome(
            r,
            hmac_outcome(
                secret@,
                match ts {
                    Some(t) => Some(t@),
                    None => None,
                },
                match sig {
                    Some(s) => Some(s@),
                    None => None,
                },
                body@,
                now as int,
            ),
        ),
{
    proof {
        reveal_strlit("X-Racklog-Timestamp header required");
        reveal_strlit("X-Racklog-Signature header required");
        reveal_strlit("X-Racklog-Signature must be sha256=<hex>");
        reveal_strlit("X-Racklog-Signature is not hex");
        reveal_strlit("X-Racklog-Timestamp must be unix seconds");
    }
    let t = match ts {
        Some(t) => t,
        None => {
            return Err(ApiError::BadRequest("X-Racklog-Timestamp header required".to_owned()));
        },
    };
    let s = match sig {
        Some(s) => s,
        None => {
            return Err(ApiError::BadRequest("X-Racklog-Signature header required".to_owned()));
        },
    };
    proof {
        reveal_strlit("sha256=");
    }
    if !starts_with(s, "sha256=") {
        return Err(ApiError::BadRequest("X-Racklog-Signature must be sha256=<hex>".to_owned()));
    }
    let n = s.unicode_len();
    let h = s.substring_char(7, n);
    assert(h@ =~= s@.skip(7));
    let presented = match hex_decode(h) {
        Some(v) => v,
        None => {
            return Err(ApiError::BadRequest("X-Racklog-Signature is not hex".to_owned()));
        },
    };
    let tn = match parse_i64(t) {
        Some(v) => v,
        None => {
            return Err(ApiError::BadRequest("X-Racklog-Timestamp must be unix seconds".to_owned()));
        },
    };
    let d: i128 = now as i128 - tn as i128;
    if d > HMAC_TIMESTAMP_WINDOW_SECS as i128 || -d > HMAC_TIMESTAMP_WINDOW_SECS as i128 {
        return Err(ApiError::Unauthorized);
    }
    let mut msg: Vec<u8> = Vec::new();
    crate::crypto::append_bytes(&mut msg, t.as_bytes());
    msg.push(46u8);
    crate::crypto::append_bytes(&mut msg, body);
    assert(msg@ =~= signed_message(t@, body@));
    let expected = hmac_sha256(secret.as_bytes(), msg.as_slice());
    if ct_eq_bytes(expected.as_slice(), presented.as_slice()) {
        Ok(())
    } else {
        Err(ApiError::Unauthorized)
    }
}

/// Check an event's HMAC signature and timestamp against the server
/// clock; the outcome is `hmac_outcome` at some server time.
pub fn verify_hmac(secret: &str, ts: Option<&str>, sig: Option<&str>, body: &[u8]) -> (r: Result<
    (),
    ApiError,
>)
    ensures
        exists|now: i64|
            matches_outcome(
                r,
                #[trigger] hmac_outcome(secret@, opt_str(ts), opt_str(sig), body@, now as int),
            ),
{
    let now = unix_now();
    verify_hmac_at(secret, ts, sig, body, now)
}

/// Replay protection: a timestamp more than the window away from the
/// server clock is refused whatever the signature.
pub proof fn lemma_stale_timestamp_refused(
    secret: Seq<char>,
    t: Seq<char>,
    s: Seq<char>,
    body: Seq<u8>,
    now: int,
)
    requires
        signature_hex(s) matches Some(h) && hex_decode_spec(encode_utf8(h)) is Some,
        i64_text_value(t) matches Some(n) && (now - n > HMAC_TIMESTAMP_WINDOW_SECS || n - now
            > HMAC_TIMESTAMP_WINDOW_SECS),
    ensures
        hmac_outcome(secret, Some(t), Some(s), body, now) == Err::<(), Seq<char>>(Seq::empty()),
{
}

} // verus!
