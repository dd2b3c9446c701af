//! Argon2id password hashing, with the length policy checked first.

use crate::numbers::{decimal, u64_to_string};
use crate::text::push_str;
use vstd::prelude::*;
use vstd::utf8::encode_utf8;

verus! {

/// Why a password could not be hashed or checked.
#[derive(Debug)]
pub enum PasswordError {
    Empty,
    TooShort { min: usize },
    TooLong { max: usize },
    Invalid(String),
}

/// Shortest accepted password, in bytes.
pub const MIN_LEN: usize = 8;

/// Longest accepted password, in bytes.
pub const MAX_LEN: usize = 256;

impl PasswordError {
    /// The error's text, as shown to users.
    pub open spec fn spec_message(self) -> Seq<char> {
        match self {
            PasswordError::Empty => "password is empty"@,
            PasswordError::TooShort { min } => "password too short (min "@ + decimal(min as nat)
                + ")"@,
            PasswordError::TooLong { max } => "password too long (max "@ + decimal(max as nat)
                + ")"@,
            PasswordError::Invalid(e) => "invalid hash: "@ + e@,
        }
    }

    pub fn message(&self) -> (m: String)
        ensures
            m@ == self.spec_message(),
    {
        match self {
            PasswordError::Empty => "password is empty".to_owned(),
            PasswordError::TooShort { min } => {
                let mut m = "password too short (min ".to_owned();
                let n = u64_to_string(*min as u64);
                push_str(&mut m, n.as_str());
                push_str(&mut m, ")");
                m
            },
            PasswordError::TooLong { max } => {
                let mut m = "password too long (max ".to_owned();
                let n = u64_to_string(*max as u64);
                push_str(&mut m, n.as_str());
                push_str(&mut m, ")");
                m
            },
            PasswordError::Invalid(e) => {
                let mut m = "invalid hash: ".to_owned();
                push_str(&mut m, e.as_str());
                m
            },
        }
    }
}

/// `argon2::password_hash::SaltString`, a salt in its B64 text form.
#[verifier::external_type_specification]
#[verifier::external_body]
pub struct ExSaltString(argon2::password_hash::SaltString);

/// `argon2::password_hash::PasswordHash`, a parsed PHC string.
#[verifier::external_type_specification]
#[verifier::external_body]
pub struct ExPasswordHash<'a>(argon2::password_hash::PasswordHash<'a>);

/// Name for whether `argon2::password_hash::PasswordHash::new` accepts a text as
/// a PHC string.
pub uninterp spec fn phc_parses(s: Seq<char>) -> bool;

/// Name for the text of the error `argon2::password_hash::PasswordHash::new`
/// gives for a text it refuses.
pub uninterp spec fn phc_error_text(s: Seq<char>) -> Seq<char>;

/// Name for whether `Argon2::default().verify_password` accepts a
/// password's bytes against a parsed PHC string.
pub uninterp spec fn argon2_accepts(password: Seq<u8>, phc: Seq<char>) -> bool;

/// `SaltString::generate(&mut rand_core::OsRng)`: a random salt. Nothing
/// is stated of it: it is random.
#[verifier::external_body]
fn generate_salt() -> argon2::password_hash::SaltString {
    argon2::password_hash::SaltString::generate(&mut rand_core::OsRng)
}

/// `Argon2::default().hash_password(password, &salt)`, serialised as a PHC
/// string; an error becomes its text. Trusted: a hash it returns parses
/// as a PHC string, and `verify_password` accepts the same password
/// against it, since verification recomputes the hash with the
/// algorithm, version, parameters and salt recorded in the string and
/// compares the outputs. The serialised string starts with
/// `$argon2id$v=19$`: the default algorithm's name and version, then the
/// separator before the (never empty) parameters. When hashing fails
/// nothing is stated.
#[verifier::external_body]
fn argon2_hash(password: &[u8], salt: &argon2::password_hash::SaltString) -> (r: Result<String, String>)
    ensures
        r matches Ok(h) ==> h@.len() >= 15 && h@.take(15) == "$argon2id$v=19$"@ && phc_parses(h@)
            && argon2_accepts(password@, h@),
{
    match argon2::password_hash::PasswordHasher::hash_password(
        &argon2::Argon2::default(),
        password,
        salt,
    ) {
        Ok(h) => Ok(h.to_string()),
        Err(e) => Err(e.to_string()),
    }
}

/// A stored PHC string together with its parse.
struct StoredPhc<'a> {
    text: &'a str,
    parsed: argon2::password_hash::PasswordHash<'a>,
}

/// `PasswordHash::new`: parse a stored PHC string, kept beside the text it
/// was parsed from; an error becomes its text. Trusted: it succeeds
/// exactly on the texts named `phc_parses`, and fails with the text named
/// `phc_error_text`; a text that does not start with `$` is refused as a
/// missing field.
#[verifier::external_body]
fn parse_phc<'a>(s: &'a str) -> (r: Result<StoredPhc<'a>, String>)
    ensures
        r is Ok <==> phc_parses(s@),
        r matches Ok(p) ==> p.text@ == s@,
        r matches Err(e) ==> e@ == phc_error_text(s@),
        r is Ok ==> s@.len() > 0 && s@[0] == '$',
        r matches Err(e) ==> (s@.len() > 0 && s@[0] == '$') || e@
            == "password hash string missing field"@,
{
    match argon2::password_hash::PasswordHash::new(s) {
        Ok(h) => Ok(StoredPhc { text: s, parsed: h }),
        Err(e) => Err(e.to_string()),
    }
}

/// `Argon2::default().verify_password(password, &hash).is_ok()`. Trusted:
/// the answer is the named `argon2_accepts` of the password's bytes and
/// the text the hash was parsed from.
#[verifier::external_body]
fn argon2_verify(password: &[u8], stored: &StoredPhc) -> (ok: bool)
    ensures
        ok == argon2_accepts(password@, stored.text@),
{
    argon2::password_hash::PasswordVerifier::verify_password(
        &argon2::Argon2::default(),
        password,
        &stored.parsed,
    ).is_ok()
}

/// The length policy on a password of `n` bytes: `None` when it is
/// acceptable.
pub open spec fn length_problem(n: nat) -> Option<PasswordError> {
    if n == 0 {
        Some(PasswordError::Empty)
    } else if n < MIN_LEN {
        Some(PasswordError::TooShort { min: MIN_LEN })
    } else if n > MAX_LEN {
        Some(PasswordError::TooLong { max: MAX_LEN })
    } else {
        None
    }
}

/// Check the length policy on a password.
pub fn check_length(password: &str) -> (r: Result<(), PasswordError>)
    ensures
        match length_problem(encode_utf8(password@).len()) {
            Some(PasswordError::Empty) => r matches Err(PasswordError::Empty),
            Some(PasswordError::TooShort { min }) => r matches Err(PasswordError::TooShort { min: m })
                && m == min,
            Some(PasswordError::TooLong { max }) => r matches Err(PasswordError::TooLong { max: m })
                && m == max,
            Some(PasswordError::Invalid(_)) => false,
            None => r is Ok,
        },
{
    let n = password.as_bytes().len();
    if n == 0 {
        return Err(PasswordError::Empty);
    }
    if n < MIN_LEN {
        return Err(PasswordError::TooShort { min: MIN_LEN });
    }
    if n > MAX_LEN {
        return Err(PasswordError::TooLong { max: MAX_LEN });
    }
    Ok(())
}

/// Hash a fresh password with Argon2id (the library's default cost) and
/// a random salt, after the length policy. A hash it returns verifies
/// the same password.
pub fn hash(password: &str) -> (r: Result<String, PasswordError>)
    ensures
        length_problem(encode_utf8(password@).len()) matches Some(e) ==> r == Err::<
            String,
            PasswordError,
        >(e),
        length_problem(encode_utf8(password@).len()) is None ==> (r is Ok || r matches Err(
            PasswordError::Invalid(_),
        )),
        r matches Ok(h) ==> h@.len() >= 15 && h@.take(15) == "$argon2id$v=19$"@ && phc_parses(h@)
            && argon2_accepts(
            encode_utf8(password@),
            h@,
        ),
{
    match check_length(password) {
        Err(e) => Err(e),
        Ok(()) => {
            let salt = generate_salt();
            match argon2_hash(password.as_bytes(), &salt) {
                Ok(h) => Ok(h),
                Err(e) => Err(PasswordError::Invalid(e)),
            }
        },
    }
}

/// What verifying `password` against `stored` gives: `Some(answer)`, or
/// `None` for a malformed stored hash.
pub open spec fn verify_outcome(password: Seq<char>, stored: Seq<char>) -> Option<bool> {
    if stored.len() == 0 {
        Some(false)
    } else if !phc_parses(stored) {
        None
    } else {
        Some(argon2_accepts(encode_utf8(password), stored))
    }
}

/// Verify a password against a stored PHC string: `Ok(false)` for an
/// empty stored hash (users provisioned by single sign-on have none), an
/// error only when the stored hash is malformed, else whether it matches.
pub fn verify(password: &str, stored_hash: &str) -> (r: Result<bool, PasswordError>)
    ensures
        match verify_outcome(password@, stored_hash@) {
            Some(b) => r == Ok::<bool, PasswordError>(b),
            None => r matches Err(PasswordError::Invalid(e)) && e@ == phc_error_text(stored_hash@),
        },
        stored_hash@.len() > 0 && stored_hash@[0] != '$' ==> (r matches Err(
            PasswordError::Invalid(e),
        ) && e@ == "password hash string missing field"@),
{
    if stored_hash.is_empty() {
        return Ok(false);
    }
    match parse_phc(stored_hash) {
        Err(e) => Err(PasswordError::Invalid(e)),
        Ok(parsed) => Ok(argon2_verify(password.as_bytes(), &parsed)),
    }
}

/// A password verifies against any hash that hashing it produced.
pub proof fn lemma_hash_then_verify(password: Seq<char>, h: Seq<char>)
    requires
        h.len() > 0,
        phc_parses(h),
        argon2_accepts(encode_utf8(password), h),
    ensures
        verify_outcome(password, h) == Some(true),
{
}

} // verus!
