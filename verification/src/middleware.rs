//! Request authentication: reading credentials out of the request
//! headers and deciding, step by step, who the caller is.
//!
//! Resolution order: the session cookie, then a bearer token (first as
//! an API key, then as the bootstrap admin token while no user exists),
//! then a trusted `X-Forwarded-User` header, then the open pre-bootstrap
//! mode of a deployment with nothing configured and no users.

use crate::identity::{
    bootstrap_view, groups_role, map_groups_to_role, opt_identity, AuthIdentity, Denial,
    IdentityView, Role,
};
use crate::text::{
    chars_of, lower_spec, lowercase, split_once, split_once_spec, split_spec, split_on, str_eq,
    trim, trim_spec, trimmed,
};
use vstd::prelude::*;
use vstd::utf8::{encode_utf8, is_char_boundary};

verus! {

/// Cookie name for the dashboard session.
pub const SESSION_COOKIE: &'static str = "racklog_session";

/// Paths that bypass authentication: the health probes, and the auth
/// subtree without which no credential could ever be obtained.
pub open spec fn public_paths() -> Seq<Seq<char>> {
    seq![
        "/api/healthz"@,
        "/api/readyz"@,
        "/healthz"@,
        "/readyz"@,
        "/api/auth/signup"@,
        "/auth/signup"@,
        "/api/auth/login"@,
        "/auth/login"@,
        "/api/auth/logout"@,
        "/auth/logout"@,
        "/api/auth/me"@,
        "/auth/me"@,
    ]
}

/// Whether `path` is served without authentication.
pub fn is_public_path(path: &str) -> (b: bool)
    ensures
        b == public_paths().contains(path@),
{
    let ghost p = public_paths();
    let r = str_eq(path, "/api/healthz") || str_eq(path, "/api/readyz") || str_eq(path, "/healthz")
        || str_eq(path, "/readyz") || str_eq(path, "/api/auth/signup") || str_eq(
        path,
        "/auth/signup",
    ) || str_eq(path, "/api/auth/login") || str_eq(path, "/auth/login") || str_eq(
        path,
        "/api/auth/logout",
    ) || str_eq(path, "/auth/logout") || str_eq(path, "/api/auth/me") || str_eq(path, "/auth/me");
    proof {
        if r {
            assert(p.contains(path@)) by {
                if path@ == p[0] {
                } else if path@ == p[1] {
                } else if path@ == p[2] {
                } else if path@ == p[3] {
                } else if path@ == p[4] {
                } else if path@ == p[5] {
                } else if path@ == p[6] {
                } else if path@ == p[7] {
                } else if path@ == p[8] {
                } else if path@ == p[9] {
                } else if path@ == p[10] {
                } else {
                    assert(path@ == p[11]);
                }
            }
        } else {
            assert forall|i: int| 0 <= i < p.len() implies p[i] != path@ by {}
        }
    }
    r
}

/// The value of cookie `name` in a `Cookie` header: the first `;`-piece
/// whose trimmed text splits at its first `=` into a key equal, once
/// trimmed, to `name`; its value, trimmed.
pub open spec fn cookie_value(pieces: Seq<Seq<char>>, name: Seq<char>) -> Option<Seq<char>>
    decreases pieces.len(),
{
    if pieces.len() == 0 {
        None
    } else {
        match split_once_spec(trim_spec(pieces[0]), '=') {
            Some((k, v)) => if trim_spec(k) == name {
                Some(trim_spec(v))
            } else {
                cookie_value(pieces.drop_first(), name)
            },
            None => cookie_value(pieces.drop_first(), name),
        }
    }
}

/// Find cookie `name` in a `Cookie` header value.
pub fn parse_cookie(header_value: &str, name: &str) -> (r: Option<String>)
    ensures
        crate::text::opt_chars(r) == cookie_value(split_spec(header_value@, ';'), name@),
{
    let parts = split_on(header_value, ';');
    let ghost pieces = split_spec(header_value@, ';');
    assert(pieces.skip(0) =~= pieces);
    let mut i: usize = 0;
    while i < parts.len()
        invariant
            i <= parts@.len(),
            parts@.map_values(|p: String| p@) == pieces,
            pieces == split_spec(header_value@, ';'),
            cookie_value(pieces, name@) == cookie_value(pieces.skip(i as int), name@),
        decreases parts.len() - i,
    {
        let ghost rest = pieces.skip(i as int);
        assert(rest[0] == parts@[i as int]@);
        assert(rest.drop_first() =~= pieces.skip(i + 1));
        let kv = trimmed(parts[i].as_str());
        match split_once(kv.as_str(), '=') {
            Some((k, v)) => {
                let kt = trim(k.as_str());
                if str_eq(kt, name) {
                    return Some(trimmed(v.as_str()));
                }
            },
            None => {},
        }
        i = i + 1;
    }
    assert(pieces.skip(i as int).len() == 0);
    None
}

/// The token of an `Authorization` header under the `Bearer` scheme
/// (RFC 6750, scheme name case-insensitive): six letters spelling
/// `bearer` in any case, a space or tab, then the trimmed rest, which
/// must not be empty.
pub open spec fn bearer_token(h: Seq<char>) -> Option<Seq<char>> {
    if h.len() >= 7 && lower_spec(h.take(6)) == "bearer"@ && (h[6] == ' ' || h[6] == '\t')
        && trim_spec(h.skip(7)).len() > 0 {
        Some(trim_spec(h.skip(7)))
    } else {
        None
    }
}

/// Whether splitting the header after its sixth byte is well defined:
/// the header is shorter than seven bytes, or byte six starts a character.
pub open spec fn scheme_split_ok(header: &str) -> bool {
    encode_utf8(header@).len() >= 7 ==> is_char_boundary(encode_utf8(header@), 6)
}

/// RFC 6750 case-insensitive `Bearer <token>` parser.
pub fn strip_bearer_scheme(header: &str) -> (r: Option<&str>)
    requires
        scheme_split_ok(header),
    ensures
        match r {
            Some(t) => bearer_token(header@) == Some(t@),
            None => bearer_token(header@) is None,
        },
{
    let n = header.unicode_len();
    if n < 7 {
        return None;
    }
    let scheme = lowercase(header.substring_char(0, 6));
    if !str_eq(scheme.as_str(), "bearer") {
        return None;
    }
    let sep = header.get_char(6);
    if sep != ' ' && sep != '\t' {
        return None;
    }
    let rest = header.substring_char(7, n);
    assert(rest@ =~= header@.skip(7));
    let token = trim(rest);
    if token.is_empty() {
        None
    } else {
        Some(token)
    }
}

/// The token of the older bearer gate: everything after the scheme and
/// its separator, untrimmed, or the empty string when the header does
/// not use the `Bearer` scheme.
pub open spec fn legacy_bearer_token(h: Seq<char>) -> Seq<char> {
    if h.len() >= 7 && lower_spec(h.take(6)) == "bearer"@ && (h[6] == ' ' || h[6] == '\t') {
        h.skip(7)
    } else {
        Seq::empty()
    }
}

/// Scheme stripping of the bearer-token gate: `""` on any mismatch.
pub fn strip_bearer_prefix(header: &str) -> (t: &str)
    requires
        scheme_split_ok(header),
    ensures
        t@ == legacy_bearer_token(header@),
{
    proof {
        reveal_strlit("");
    }
    let n = header.unicode_len();
    if n < 7 {
        return "";
    }
    let scheme = lowercase(header.substring_char(0, 6));
    if !str_eq(scheme.as_str(), "bearer") {
        return "";
    }
    let sep = header.get_char(6);
    if sep != ' ' && sep != '\t' {
        return "";
    }
    let rest = header.substring_char(7, n);
    assert(rest@ =~= header@.skip(7));
    rest
}

/// A character allowed in a forwarded user name.
pub open spec fn is_username_char(c: char) -> bool {
    ('a' <= c && c <= 'z') || ('A' <= c && c <= 'Z') || ('0' <= c && c <= '9') || c == '_' || c
        == '-' || c == '.' || c == '@'
}

/// A forwarded user name: the header trimmed, non-empty, at most 64
/// characters, all of them letters, digits or `_ - . @`. (Such a name is
/// ASCII, so its length in characters is its length in bytes.)
pub open spec fn forwarded_username(raw: Seq<char>) -> Option<Seq<char>> {
    let t = trim_spec(raw);
    if 0 < t.len() <= 64 && forall|i: int| 0 <= i < t.len() ==> #[trigger] is_username_char(t[i]) {
        Some(t)
    } else {
        None
    }
}

/// Sanitise the `X-Forwarded-User` header.
pub fn sanitize_forwarded_user(raw: &str) -> (r: Option<String>)
    ensures
        crate::text::opt_chars(r) == forwarded_username(raw@),
{
    let t = trimmed(raw);
    let v = chars_of(t.as_str());
    if v.len() == 0 || v.len() > 64 {
        return None;
    }
    let mut i: usize = 0;
    while i < v.len()
        invariant
            i <= v@.len(),
            v@ == trim_spec(raw@),
            forall|j: int| 0 <= j < i ==> #[trigger] is_username_char(v@[j]),
        decreases v.len() - i,
    {
        let c = v[i];
        let ok = ('a' <= c && c <= 'z') || ('A' <= c && c <= 'Z') || ('0' <= c && c <= '9') || c
            == '_' || c == '-' || c == '.' || c == '@';
        if !ok {
            assert(!is_username_char(v@[i as int]));
            return None;
        }
        i = i + 1;
    }
    Some(t)
}

/// Every credential the resolver needs, read from the request up front.
pub struct Credentials {
    pub cookie: Option<String>,
    pub bearer: Option<String>,
    pub forwarded_user: Option<String>,
    pub forwarded_role: Role,
    pub path: String,
}

/// Read the credentials from the request's path and header values (each
/// header `None` when absent or not visible ASCII). The forwarded user
/// and groups count only when forwarded headers are trusted; the role
/// defaults to Viewer.
pub fn snapshot_credentials(
    path: &str,
    cookie_header: Option<&str>,
    authorization: Option<&str>,
    forwarded_user: Option<&str>,
    forwarded_groups: Option<&str>,
    trust_forwarded: bool,
) -> (c: Credentials)
    requires
        authorization matches Some(h) ==> scheme_split_ok(h),
    ensures
        c.path@ == path@,
        crate::text::opt_chars(c.cookie) == match cookie_header {
            Some(h) => cookie_value(split_spec(h@, ';'), SESSION_COOKIE@),
            None => None,
        },
        crate::text::opt_chars(c.bearer) == match authorization {
            Some(h) => bearer_token(h@),
            None => None,
        },
        crate::text::opt_chars(c.forwarded_user) == match forwarded_user {
            Some(u) => if trust_forwarded {
                forwarded_username(u@)
            } else {
                None
            },
            None => None,
        },
        c.forwarded_role == match forwarded_groups {
            Some(g) => if trust_forwarded {
                groups_role(g@)
            } else {
                Role::Viewer
            },
            None => Role::Viewer,
        },
{
    let cookie = match cookie_header {
        Some(h) => parse_cookie(h, SESSION_COOKIE),
        None => None,
    };
    let bearer = match authorization {
        Some(h) => match strip_bearer_scheme(h) {
            Some(t) => Some(t.to_owned()),
            None => None,
        },
        None => None,
    };
    let (user, role) = if trust_forwarded {
        let user = match forwarded_user {
            Some(u) => sanitize_forwarded_user(u),
            None => None,
        };
        let role = match forwarded_groups {
            Some(g) => map_groups_to_role(g),
            None => Role::Viewer,
        };
        (user, role)
    } else {
        (None, Role::Viewer)
    };
    Credentials {
        cookie,
        bearer,
        forwarded_user: user,
        forwarded_role: role,
        path: path.to_owned(),
    }
}

/// What the deployment configures for authentication.
pub struct AuthConfig {
    /// The bootstrap admin token, if one is set.
    pub auth_token: Option<String>,
    /// Whether `X-Forwarded-User` / `X-Forwarded-Groups` are trusted.
    pub trust_forwarded: bool,
}

/// The lookup the resolver waits for.
#[derive(Debug, Clone, Copy, PartialEq, Eq, Structural)]
pub enum ResolveStage {
    /// The session behind the cookie.
    Session,
    /// The API key behind the bearer token.
    ApiKey,
    /// The number of users, the bearer token being the bootstrap token.
    BootstrapCount,
    /// The identity of the forwarded user, provisioned if new.
    Forwarded,
    /// The number of users, for the open pre-bootstrap mode.
    OpenCount,
}

/// What the resolver asks its driver to do next.
pub enum ResolveAction {
    /// Look the session token up.
    LookupSession(String),
    /// Look the presented key up as an API key.
    LookupApiKey(String),
    /// Count the users.
    CountUsers,
    /// Find or provision the forwarded user with the header's role.
    ResolveForwarded(String, Role),
    /// Resolution is over, with this identity or none.
    Finish(Option<AuthIdentity>),
}

/// The abstract value of an action.
pub enum ActionView {
    LookupSession(Seq<char>),
    LookupApiKey(Seq<char>),
    CountUsers,
    ResolveForwarded(Seq<char>, Role),
    Finish(Option<IdentityView>),
}

impl View for ResolveAction {
    type V = ActionView;

    open spec fn view(&self) -> ActionView {
        match self {
            ResolveAction::LookupSession(t) => ActionView::LookupSession(t@),
            ResolveAction::LookupApiKey(t) => ActionView::LookupApiKey(t@),
            ResolveAction::CountUsers => ActionView::CountUsers,
            ResolveAction::ResolveForwarded(u, r) => ActionView::ResolveForwarded(u@, *r),
            ResolveAction::Finish(o) => ActionView::Finish(opt_identity(*o)),
        }
    }
}

/// What the driver reports back.
pub enum ResolveEvent {
    /// The answer of a session, API-key or forwarded-user lookup; a failed
    /// lookup counts as no identity.
    Identity(Option<AuthIdentity>),
    /// The number of users; `None` when counting failed.
    UserCount(Option<i64>),
}

/// Whether `ev` is the kind of answer `stage` waits for.
pub open spec fn answers(stage: ResolveStage, ev: ResolveEvent) -> bool {
    match stage {
        ResolveStage::BootstrapCount | ResolveStage::OpenCount => ev is UserCount,
        _ => ev is Identity,
    }
}

/// A user count that reads as "no users yet"; a failed count reads as
/// zero.
pub open spec fn no_users(n: Option<i64>) -> bool {
    match n {
        Some(k) => k == 0,
        None => true,
    }
}

/// Last step: the open pre-bootstrap mode, available only when no token
/// is configured and forwarded headers are not trusted.
pub open spec fn open_mode_spec(cfg: AuthConfig) -> (Option<ResolveStage>, ActionView) {
    if cfg.auth_token is None && !cfg.trust_forwarded {
        (Some(ResolveStage::OpenCount), ActionView::CountUsers)
    } else {
        (None, ActionView::Finish(None))
    }
}

/// Third step: the trusted forwarded user, when there is one.
pub open spec fn forwarded_spec(c: Credentials, cfg: AuthConfig) -> (Option<ResolveStage>, ActionView) {
    match c.forwarded_user {
        Some(u) => (Some(ResolveStage::Forwarded), ActionView::ResolveForwarded(u@, c.forwarded_role)),
        None => open_mode_spec(cfg),
    }
}

/// Second step: the bearer token, when there is one.
pub open spec fn bearer_spec(c: Credentials, cfg: AuthConfig) -> (Option<ResolveStage>, ActionView) {
    match c.bearer {
        Some(b) => (Some(ResolveStage::ApiKey), ActionView::LookupApiKey(b@)),
        None => forwarded_spec(c, cfg),
    }
}

/// First step: the session cookie, when there is one.
pub open spec fn start_spec(c: Credentials, cfg: AuthConfig) -> (Option<ResolveStage>, ActionView) {
    match c.cookie {
        Some(t) => (Some(ResolveStage::Session), ActionView::LookupSession(t@)),
        None => bearer_spec(c, cfg),
    }
}

/// Whether the presented bearer token is the configured bootstrap token.
pub open spec fn is_bootstrap_token(c: Credentials, cfg: AuthConfig) -> bool {
    match (c.bearer, cfg.auth_token) {
        (Some(b), Some(t)) => b@ == t@,
        _ => false,
    }
}

/// The resolver's move after `stage` got the answer `ev`.
pub open spec fn step_spec(stage: ResolveStage, c: Credentials, cfg: AuthConfig, ev: ResolveEvent) -> (
    Option<ResolveStage>,
    ActionView,
) {
    match (stage, ev) {
        (ResolveStage::Session, ResolveEvent::Identity(Some(id))) => (
            None,
            ActionView::Finish(Some(id@)),
        ),
        (ResolveStage::Session, _) => bearer_spec(c, cfg),
        (ResolveStage::ApiKey, ResolveEvent::Identity(Some(id))) => (
            None,
            ActionView::Finish(Some(id@)),
        ),
        (ResolveStage::ApiKey, _) => if is_bootstrap_token(c, cfg) {
            (Some(ResolveStage::BootstrapCount), ActionView::CountUsers)
        } else {
            forwarded_spec(c, cfg)
        },
        (ResolveStage::BootstrapCount, ResolveEvent::UserCount(n)) => if no_users(n) {
            (None, ActionView::Finish(Some(bootstrap_view())))
        } else {
            forwarded_spec(c, cfg)
        },
        (ResolveStage::BootstrapCount, _) => forwarded_spec(c, cfg),
        (ResolveStage::Forwarded, ResolveEvent::Identity(Some(id))) => (
            None,
            ActionView::Finish(Some(id@)),
        ),
        (ResolveStage::Forwarded, _) => open_mode_spec(cfg),
        (ResolveStage::OpenCount, ResolveEvent::UserCount(n)) => if no_users(n) {
            (None, ActionView::Finish(Some(bootstrap_view())))
        } else {
            (None, ActionView::Finish(None))
        },
        (ResolveStage::OpenCount, _) => (None, ActionView::Finish(None)),
    }
}

fn open_mode(cfg: &AuthConfig) -> (r: (Option<ResolveStage>, ResolveAction))
    ensures
        (r.0, r.1@) == open_mode_spec(*cfg),
{
    if cfg.auth_token.is_none() && !cfg.trust_forwarded {
        (Some(ResolveStage::OpenCount), ResolveAction::CountUsers)
    } else {
        (None, ResolveAction::Finish(None))
    }
}

fn from_forwarded(c: &Credentials, cfg: &AuthConfig) -> (r: (Option<ResolveStage>, ResolveAction))
    ensures
        (r.0, r.1@) == forwarded_spec(*c, *cfg),
{
    match &c.forwarded_user {
        Some(u) => (
            Some(ResolveStage::Forwarded),
            ResolveAction::ResolveForwarded(u.clone(), c.forwarded_role),
        ),
        None => open_mode(cfg),
    }
}

fn from_bearer(c: &Credentials, cfg: &AuthConfig) -> (r: (Option<ResolveStage>, ResolveAction))
    ensures
        (r.0, r.1@) == bearer_spec(*c, *cfg),
{
    match &c.bearer {
        Some(b) => (Some(ResolveStage::ApiKey), ResolveAction::LookupApiKey(b.clone())),
        None => from_forwarded(c, cfg),
    }
}

/// The resolver's first move: the stage it then waits in (`None` once it
/// has finished) and the action to perform.
pub fn resolve_start(c: &Credentials, cfg: &AuthConfig) -> (r: (Option<ResolveStage>, ResolveAction))
    ensures
        (r.0, r.1@) == start_spec(*c, *cfg),
{
    match &c.cookie {
        Some(t) => (Some(ResolveStage::Session), ResolveAction::LookupSession(t.clone())),
        None => from_bearer(c, cfg),
    }
}

/// The resolver's move once the lookup of `stage` answered `ev`.
pub fn resolve_step(stage: ResolveStage, c: &Credentials, cfg: &AuthConfig, ev: ResolveEvent) -> (r: (
    Option<ResolveStage>,
    ResolveAction,
))
    requires
        answers(stage, ev),
    ensures
        (r.0, r.1@) == step_spec(stage, *c, *cfg, ev),
{
    match stage {
        ResolveStage::Session => match ev {
            ResolveEvent::Identity(Some(id)) => (None, ResolveAction::Finish(Some(id))),
            _ => from_bearer(c, cfg),
        },
        ResolveStage::ApiKey => match ev {
            ResolveEvent::Identity(Some(id)) => (None, ResolveAction::Finish(Some(id))),
            _ => {
                let hit = match (&c.bearer, &cfg.auth_token) {
                    (Some(b), Some(t)) => str_eq(b.as_str(), t.as_str()),
                    _ => false,
                };
                if hit {
                    (Some(ResolveStage::BootstrapCount), ResolveAction::CountUsers)
                } else {
                    from_forwarded(c, cfg)
                }
            },
        },
        ResolveStage::BootstrapCount => match ev {
            ResolveEvent::UserCount(n) => {
                let none = match n {
                    Some(k) => k == 0,
                    None => true,
                };
                if none {
                    (None, ResolveAction::Finish(Some(AuthIdentity::bootstrap_admin())))
                } else {
                    from_forwarded(c, cfg)
                }
            },
            _ => from_forwarded(c, cfg),
        },
        ResolveStage::Forwarded => match ev {
            ResolveEvent::Identity(Some(id)) => (None, ResolveAction::Finish(Some(id))),
            _ => open_mode(cfg),
        },
        ResolveStage::OpenCount => match ev {
            ResolveEvent::UserCount(n) => {
                let none = match n {
                    Some(k) => k == 0,
                    None => true,
                };
                if none {
                    (None, ResolveAction::Finish(Some(AuthIdentity::bootstrap_admin())))
                } else {
                    (None, ResolveAction::Finish(None))
                }
            },
            _ => (None, ResolveAction::Finish(None)),
        },
    }
}

/// The outcome of the authentication layer for one request: the request
/// goes on (with its identity, if any) unless it has no identity and its
/// path is not public, in which case it is answered 401.
pub fn gate_request(identity: Option<AuthIdentity>, path: &str) -> (r: Result<Option<AuthIdentity>, Denial>)
    ensures
        identity is None && !public_paths().contains(path@) ==> r == Err::<Option<AuthIdentity>, Denial>(
            Denial::Unauthorized,
        ),
        !(identity is None && !public_paths().contains(path@)) ==> (r matches Ok(o)
            && opt_identity(o) == opt_identity(identity)),
{
    let public = is_public_path(path);
    if identity.is_none() && !public {
        Err(Denial::Unauthorized)
    } else {
        Ok(identity)
    }
}

/// Whether the presented token equals the configured one, compared in
/// constant time over their bytes.
pub fn token_matches(presented: &str, expected: &str) -> (b: bool)
    ensures
        b == (presented@ == expected@),
{
    let x = presented.as_bytes();
    let y = expected.as_bytes();
    proof {
        vstd::utf8::encode_utf8_decode_utf8(presented@);
        vstd::utf8::encode_utf8_decode_utf8(expected@);
    }
    x.len() == y.len() && crate::crypto::ct_eq_bytes(x, y)
}

/// The older bearer-token gate: with no token configured everything
/// passes; a public path passes; otherwise the trimmed presented token
/// must equal the configured one, or the request is answered 401.
pub fn token_gate(expected: Option<&str>, path: &str, authorization: Option<&str>) -> (r: Result<
    (),
    Denial,
>)
    requires
        authorization matches Some(h) ==> scheme_split_ok(h),
    ensures
        r is Ok <==> (expected is None || seq![
            "/api/healthz"@,
            "/api/readyz"@,
            "/healthz"@,
            "/readyz"@,
        ].contains(path@) || (expected matches Some(t) && trim_spec(
            legacy_bearer_token(
                match authorization {
                    Some(h) => h@,
                    None => Seq::<char>::empty(),
                },
            ),
        ) == t@)),
        r is Err ==> r == Err::<(), Denial>(Denial::Unauthorized),
{
    match expected {
        None => Ok(()),
        Some(t) => {
            let ghost probes = seq!["/api/healthz"@, "/api/readyz"@, "/healthz"@, "/readyz"@];
            let probe = str_eq(path, "/api/healthz") || str_eq(path, "/api/readyz") || str_eq(
                path,
                "/healthz",
            ) || str_eq(path, "/readyz");
            proof {
                if probe {
                    assert(probes.contains(path@)) by {
                        if path@ == probes[0] {
                        } else if path@ == probes[1] {
                        } else if path@ == probes[2] {
                        } else {
                            assert(path@ == probes[3]);
                        }
                    }
                } else {
                    assert forall|i: int| 0 <= i < probes.len() implies probes[i] != path@ by {}
                }
            }
            if probe {
                return Ok(());
            }
            let header = match authorization {
                Some(h) => h,
                None => "",
            };
            proof {
                reveal_strlit("");
                if authorization is None {
                    assert(header@ =~= Seq::<char>::empty());
                    assert(encode_utf8(header@).len() == 0);
                }
            }
            let presented = trim(strip_bearer_prefix(header));
            if token_matches(presented, t) {
                Ok(())
            } else {
                Err(Denial::Unauthorized)
            }
        },
    }
}

} // verus!
