//! User accounts: records, sign-up and login policy, the admin guards on
//! user management, and the session cookies.

use crate::errors::ApiError;
use crate::identity::{AuthIdentity, AuthSource, IdentityView, KeyScope, Role, role_named, scope_named};
use crate::middleware::SESSION_COOKIE;
use crate::numbers::{push_i64, signed_decimal};
use crate::sessions::stored_role;
use crate::text::{lower_spec, push_str, str_eq, trim, trim_spec};
use vstd::prelude::*;
use vstd::utf8::encode_utf8;

verus! {

/// A user as stored.
#[derive(Debug, Clone)]
pub struct UserRecord {
    pub id: String,
    pub username: String,
    pub role: Role,
    pub disabled: bool,
    pub source: Option<String>,
    pub created_at: String,
    pub updated_at: String,
    pub last_login_at: Option<String>,
}

/// A user as shown to callers.
#[derive(Debug, Clone)]
pub struct UserPublic {
    pub id: String,
    pub username: String,
    pub role: Role,
    pub disabled: bool,
}

impl From<UserRecord> for UserPublic {
    fn from(r: UserRecord) -> (p: UserPublic) {
        UserPublic { id: r.id, username: r.username, role: r.role, disabled: r.disabled }
    }
}

impl vstd::std_specs::convert::FromSpecImpl<UserRecord> for UserPublic {
    open spec fn obeys_from_spec() -> bool {
        true
    }

    open spec fn from_spec(r: UserRecord) -> UserPublic {
        UserPublic { id: r.id, username: r.username, role: r.role, disabled: r.disabled }
    }
}

/// The stored `disabled` column read as a flag.
pub fn disabled_flag(v: i64) -> (b: bool)
    ensures
        b == (v != 0),
{
    v != 0
}

/// A character allowed in a user name.
pub open spec fn is_name_char(c: char) -> bool {
    ('a' <= c && c <= 'z') || ('A' <= c && c <= 'Z') || ('0' <= c && c <= '9') || c == '_' || c
        == '-' || c == '.'
}

/// Why a user name is refused, if it is: empty or longer than 64 bytes
/// once trimmed, or holding a character other than letters, digits,
/// `_ - .`.
pub open spec fn username_problem(s: Seq<char>) -> Option<Seq<char>> {
    let t = trim_spec(s);
    if t.len() == 0 || encode_utf8(t).len() > 64 {
        Some("username must be 1–64 chars"@)
    } else if exists|i: int| 0 <= i < t.len() && !#[trigger] is_name_char(t[i]) {
        Some("username may only contain letters, digits, _, -, ."@)
    } else {
        None
    }
}

/// Validate a user name, giving it back trimmed.
pub fn validate_username(s: &str) -> (r: Result<String, ApiError>)
    ensures
        match username_problem(s@) {
            Some(m) => r matches Err(e) && e.is_bad_request(m),
            None => r matches Ok(t) && t@ == trim_spec(s@),
        },
{
    let t = trim(s);
    let n = t.as_bytes().len();
    if t.is_empty() || n > 64 {
        return Err(ApiError::BadRequest("username must be 1–64 chars".to_owned()));
    }
    let v = crate::text::chars_of(t);
    let mut i: usize = 0;
    while i < v.len()
        invariant
            i <= v@.len(),
            v@ == t@,
            t@ == trim_spec(s@),
            t@.len() > 0 && encode_utf8(t@).len() <= 64,
            forall|j: int| 0 <= j < i ==> #[trigger] is_name_char(v@[j]),
        decreases v.len() - i,
    {
        let c = v[i];
        let ok = ('a' <= c && c <= 'z') || ('A' <= c && c <= 'Z') || ('0' <= c && c <= '9') || c
            == '_' || c == '-' || c == '.';
        if !ok {
            assert(!is_name_char(trim_spec(s@)[i as int]));
            return Err(
                ApiError::BadRequest("username may only contain letters, digits, _, -, .".to_owned()),
            );
        }
        i = i + 1;
    }
    Ok(t.to_owned())
}

/// The role and account source a sign-up gets: the first user becomes
/// admin (bootstrap); later sign-ups are viewers, and only when open
/// sign-up is enabled.
pub fn signup_policy(user_count: i64, open_signup: bool) -> (r: Result<(Role, &'static str), ApiError>)
    ensures
        user_count == 0 ==> (r matches Ok((role, src)) && role == Role::Admin && src@
            == "signup-bootstrap"@),
        user_count != 0 && open_signup ==> (r matches Ok((role, src)) && role == Role::Viewer
            && src@ == "signup-open"@),
        user_count != 0 && !open_signup ==> (r matches Err(ApiError::Forbidden)),
{
    if user_count == 0 {
        Ok((Role::Admin, "signup-bootstrap"))
    } else if open_signup {
        Ok((Role::Viewer, "signup-open"))
    } else {
        Err(ApiError::Forbidden)
    }
}

/// A role named in a request body, in any ASCII case.
pub fn parse_role_input(s: &str) -> (r: Result<Role, ApiError>)
    ensures
        match role_named(lower_spec(s@)) {
            Some(role) => r matches Ok(x) && x == role,
            None => r matches Err(e) && e.is_bad_request("role must be admin/operator/viewer"@),
        },
{
    match Role::from_name(s) {
        Some(r) => Ok(r),
        None => Err(ApiError::BadRequest("role must be admin/operator/viewer".to_owned())),
    }
}

/// Which user-management change an admin asks for.
#[derive(Debug, Clone, Copy, PartialEq, Eq, Structural)]
pub enum UserChange {
    Role,
    Disable,
    Enable,
    Delete,
    ResetPassword,
}

/// Admins may not change their own role, disable or delete themselves:
/// another admin must. Anything else is allowed here.
pub fn guard_self_change(target_id: &str, caller_id: &str, change: UserChange) -> (r: Result<(), ApiError>)
    ensures
        target_id@ == caller_id@ && change == UserChange::Role ==> (r matches Err(e)
            && e.is_bad_request("cannot change your own role; ask another admin"@)),
        target_id@ == caller_id@ && change == UserChange::Disable ==> (r matches Err(e)
            && e.is_bad_request("cannot disable yourself; ask another admin"@)),
        target_id@ == caller_id@ && change == UserChange::Delete ==> (r matches Err(e)
            && e.is_bad_request("cannot delete yourself; ask another admin"@)),
        !(target_id@ == caller_id@ && (change == UserChange::Role || change == UserChange::Disable
            || change == UserChange::Delete)) ==> r is Ok,
{
    if !str_eq(target_id, caller_id) {
        return Ok(());
    }
    match change {
        UserChange::Role => Err(
            ApiError::BadRequest("cannot change your own role; ask another admin".to_owned()),
        ),
        UserChange::Disable => Err(
            ApiError::BadRequest("cannot disable yourself; ask another admin".to_owned()),
        ),
        UserChange::Delete => Err(
            ApiError::BadRequest("cannot delete yourself; ask another admin".to_owned()),
        ),
        _ => Ok(()),
    }
}

/// Whether a change ends the target's sessions at once: a role change,
/// disabling and a password reset do.
pub fn revokes_sessions(change: UserChange) -> (b: bool)
    ensures
        b == (change == UserChange::Role || change == UserChange::Disable || change
            == UserChange::ResetPassword),
{
    matches!(change, UserChange::Role | UserChange::Disable | UserChange::ResetPassword)
}

/// Audit kind and verb for enabling or disabling a user.
pub fn disable_audit(disabled: bool) -> (r: (&'static str, &'static str))
    ensures
        disabled ==> r.0@ == "user.disable"@ && r.1@ == "Disabled"@,
        !disabled ==> r.0@ == "user.enable"@ && r.1@ == "Re-enabled"@,
{
    if disabled {
        ("user.disable", "Disabled")
    } else {
        ("user.enable", "Re-enabled")
    }
}

/// Why an API-key request is refused, if it is: a label that is blank
/// or longer than 128 bytes, or an unknown scope (absent means inherit).
pub fn validate_api_key_request(label: &str, scope: Option<&str>) -> (r: Result<(String, KeyScope), ApiError>)
    ensures
        trim_spec(label@).len() == 0 || encode_utf8(label@).len() > 128 ==> (r matches Err(e)
            && e.is_bad_request("label must be 1–128 chars"@)),
        !(trim_spec(label@).len() == 0 || encode_utf8(label@).len() > 128) ==> match scope_named(
            match scope {
                Some(s) => s@,
                None => "inherit"@,
            },
        ) {
            Some(k) => r matches Ok((l, x)) && l@ == trim_spec(label@) && x == k,
            None => r matches Err(e) && e.is_bad_request(
                "scope must be inherit / viewer / operator"@,
            ),
        },
{
    let t = trim(label);
    if t.is_empty() || label.as_bytes().len() > 128 {
        return Err(ApiError::BadRequest("label must be 1–128 chars".to_owned()));
    }
    let name = match scope {
        Some(s) => s,
        None => "inherit",
    };
    match KeyScope::parse(name) {
        Some(k) => Ok((t.to_owned(), k)),
        None => Err(ApiError::BadRequest("scope must be inherit / viewer / operator".to_owned())),
    }
}

/// The identity a trusted forwarded user gets, and whether the stored
/// role must be updated: none for a disabled user; otherwise the header's
/// role wins, and the stored role is rewritten when it differs.
pub fn forwarded_identity(user: UserRecord, header_role: Role) -> (r: (Option<AuthIdentity>, bool))
    ensures
        user.disabled ==> r.0 is None && !r.1,
        !user.disabled ==> (r.0 matches Some(id) && id@ == (IdentityView {
            user_id: user.id@,
            username: user.username@,
            role: header_role,
            source: AuthSource::TrustedHeader,
        }) && r.1 == (user.role != header_role)),
{
    if user.disabled {
        return (None, false);
    }
    let update = user.role != header_role;
    (
        Some(
            AuthIdentity {
                user_id: user.id,
                username: user.username,
                role: header_role,
                source: AuthSource::TrustedHeader,
            },
        ),
        update,
    )
}

/// Whether a login may go on to password verification: the user must
/// exist and not be disabled. Any other case is answered 401, after the
/// same Argon2 work, so that the answer does not tell whether the name
/// exists.
pub fn login_candidate(found: Option<(UserRecord, String)>) -> (r: Result<(UserRecord, String), ApiError>)
    ensures
        match found {
            Some((u, h)) => if !u.disabled {
                r matches Ok((x, y)) && x == u && y == h
            } else {
                r matches Err(ApiError::Unauthorized)
            },
            None => r matches Err(ApiError::Unauthorized),
        },
{
    match found {
        Some((u, h)) => {
            if !u.disabled {
                Ok((u, h))
            } else {
                Err(ApiError::Unauthorized)
            }
        },
        None => Err(ApiError::Unauthorized),
    }
}

/// The answer to a login once the password was checked: a malformed
/// stored hash counts as a wrong password.
pub fn login_verdict(verified: Option<bool>) -> (r: Result<(), ApiError>)
    ensures
        verified == Some(true) <==> r is Ok,
        r is Err ==> (r matches Err(ApiError::Unauthorized)),
{
    match verified {
        Some(true) => Ok(()),
        _ => Err(ApiError::Unauthorized),
    }
}

/// `Set-Cookie` value for a new session: HttpOnly, SameSite=Strict,
/// path `/`, `Secure`, with `Max-Age` the seconds left (never negative).
pub fn build_session_cookie(token: &str, seconds_left: i64) -> (c: String)
    ensures
        c@ == SESSION_COOKIE@ + "="@ + token@ + "; HttpOnly; SameSite=Strict; Path=/; Max-Age="@
            + signed_decimal(
            if seconds_left < 0 {
                0
            } else {
                seconds_left as int
            },
        ) + "; Secure"@,
{
    let age = if seconds_left < 0 {
        0
    } else {
        seconds_left
    };
    let mut c = SESSION_COOKIE.to_owned();
    push_str(&mut c, "=");
    push_str(&mut c, token);
    push_str(&mut c, "; HttpOnly; SameSite=Strict; Path=/; Max-Age=");
    push_i64(&mut c, age);
    push_str(&mut c, "; Secure");
    c
}

/// `Set-Cookie` value that clears the session cookie.
pub fn build_clear_cookie() -> (c: String)
    ensures
        c@ == SESSION_COOKIE@ + "=; HttpOnly; SameSite=Strict; Path=/; Max-Age=0"@,
{
    let mut c = SESSION_COOKIE.to_owned();
    push_str(&mut c, "=; HttpOnly; SameSite=Strict; Path=/; Max-Age=0");
    c
}

/// The current user as `/auth/me` reports it.
pub struct MeResponse {
    pub user: UserPublic,
    pub source: String,
    /// True on a fresh deployment with no users yet.
    pub bootstrap_open: bool,
    pub open_signup: bool,
}

/// Answer `/auth/me`: 401 without an identity, else the caller (never
/// shown disabled), how it authenticated, and whether sign-up is open.
pub fn me_response(identity: Option<AuthIdentity>, user_count: i64, open_signup: bool) -> (r: Result<
    MeResponse,
    ApiError,
>)
    ensures
        identity is None ==> (r matches Err(ApiError::Unauthorized)),
        identity matches Some(id) ==> (r matches Ok(m) && m.user.id@ == id.user_id@
            && m.user.username@ == id.username@ && m.user.role == id.role && !m.user.disabled
            && m.source@ == match id.source {
                AuthSource::Session => "session"@,
                AuthSource::ApiKey => "apikey"@,
                AuthSource::Bootstrap => "bootstrap"@,
                AuthSource::TrustedHeader => "trustedheader"@,
            } && m.bootstrap_open == (user_count == 0) && m.open_signup == open_signup),
{
    match identity {
        None => Err(ApiError::Unauthorized),
        Some(id) => {
            let source = id.source.as_str().to_owned();
            Ok(
                MeResponse {
                    user: UserPublic {
                        id: id.user_id,
                        username: id.username,
                        role: id.role,
                        disabled: false,
                    },
                    source,
                    bootstrap_open: user_count == 0,
                    open_signup,
                },
            )
        },
    }
}

} // verus!
