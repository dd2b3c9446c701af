use racklog::accounts::{
    build_clear_cookie, build_session_cookie, guard_self_change, login_verdict, signup_policy,
    validate_api_key_request, validate_username, UserChange,
};
use racklog::admin::{
    integrity_report, metrics_text, retention_description, sqlite_path, truthy, MetricsInput,
};
use racklog::audit::{chain_entry, entry_hash, verify_chain};
use racklog::csv::{csv_line, parse_csv_row};
use racklog::errors::ApiError;
use racklog::events::{validate_event, verify_hmac_at};
use racklog::identity::{require_role, AuthIdentity, AuthSource, Denial, KeyScope, Role};
use racklog::mcp::{client_base, is_silent_notification, route_method, tool_path, RpcRoute, ToolArgs};
use racklog::middleware::{
    gate_request, is_public_path, resolve_start, resolve_step, sanitize_forwarded_user,
    snapshot_credentials, token_gate, AuthConfig, Credentials, ResolveAction, ResolveEvent,
    ResolveStage,
};
use racklog::models::record_id;
use racklog::pagination::{LimitQuery, ListFilter};
use racklog::sessions::{hash_token, judge_api_key, looks_like_api_key, new_api_key, ApiKeyRow};
use racklog::sku::{chain_end, chain_step, digikey_next, token_cache_secs, validate_barcode, ChainStep, DigiKeyNext, LookupError, UpcItemDb};
use racklog::throttle::{limit_setting, LoginThrottle, TokenBucket, TOKEN_UNITS};
use racklog::trackers::{sync_description, valid_provider};
use racklog::web::{asset_headers, asset_path_allowed, render_index};

fn is_bad_request(r: &Result<(), ApiError>, msg: &str) -> bool {
    matches!(r, Err(ApiError::BadRequest(m)) if m == msg)
}

#[test]
fn role_names_parse_in_any_case() {
    assert_eq!(Role::from_name("ADMIN"), Some(Role::Admin));
    assert_eq!(Role::from_name("Operator"), Some(Role::Operator));
    assert_eq!(Role::from_name("viewer"), Some(Role::Viewer));
    assert_eq!(Role::from_name("root"), None);
    assert_eq!(Role::default(), Role::Viewer);
}

#[test]
fn key_scope_names_round_trip_and_are_case_sensitive() {
    for s in [KeyScope::Inherit, KeyScope::Viewer, KeyScope::Operator] {
        assert_eq!(KeyScope::parse(s.as_str()), Some(s));
    }
    assert_eq!(KeyScope::parse("Viewer"), None);
}

#[test]
fn key_scope_never_raises_the_owner_role() {
    assert_eq!(KeyScope::Operator.effective(Role::Admin), Role::Operator);
    assert_eq!(KeyScope::Operator.effective(Role::Viewer), Role::Viewer);
    assert_eq!(KeyScope::Viewer.effective(Role::Admin), Role::Viewer);
    assert_eq!(KeyScope::Inherit.effective(Role::Operator), Role::Operator);
}

fn ident(role: Role) -> AuthIdentity {
    AuthIdentity {
        user_id: "u-1".to_string(),
        username: "alice".to_string(),
        role,
        source: AuthSource::Session,
    }
}

#[test]
fn role_gate_answers_401_then_403() {
    assert!(matches!(require_role(None, Role::Viewer), Err(Denial::Unauthorized)));
    assert!(matches!(
        require_role(Some(ident(Role::Viewer)), Role::Operator),
        Err(Denial::Forbidden)
    ));
    let ok = require_role(Some(ident(Role::Admin)), Role::Operator);
    assert!(matches!(ok, Ok(ref i) if i.username == "alice"));
}

#[test]
fn bootstrap_admin_is_admin() {
    let b = AuthIdentity::bootstrap_admin();
    assert_eq!(b.user_id, "bootstrap");
    assert_eq!(b.role, Role::Admin);
    assert_eq!(b.source, AuthSource::Bootstrap);
}

#[test]
fn forwarded_user_is_sanitised() {
    assert_eq!(sanitize_forwarded_user("  bob@example.com "), Some("bob@example.com".to_string()));
    assert_eq!(sanitize_forwarded_user("   "), None);
    assert_eq!(sanitize_forwarded_user("bob smith"), None);
    assert_eq!(sanitize_forwarded_user(&"a".repeat(65)), None);
    assert_eq!(sanitize_forwarded_user(&"a".repeat(64)), Some("a".repeat(64)));
}

#[test]
fn credentials_ignore_forwarded_headers_unless_trusted() {
    let c = snapshot_credentials(
        "/api/items",
        Some("racklog_session=tok"),
        Some("Bearer key"),
        Some("carol"),
        Some("admins"),
        false,
    );
    assert_eq!(c.cookie.as_deref(), Some("tok"));
    assert_eq!(c.bearer.as_deref(), Some("key"));
    assert_eq!(c.forwarded_user, None);
    assert_eq!(c.forwarded_role, Role::Viewer);
    let t = snapshot_credentials("/", None, None, Some("carol"), Some("admins"), true);
    assert_eq!(t.forwarded_user.as_deref(), Some("carol"));
    assert_eq!(t.forwarded_role, Role::Admin);
}

fn creds(cookie: Option<&str>, bearer: Option<&str>, fwd: Option<&str>) -> Credentials {
    Credentials {
        cookie: cookie.map(|s| s.to_string()),
        bearer: bearer.map(|s| s.to_string()),
        forwarded_user: fwd.map(|s| s.to_string()),
        forwarded_role: Role::Operator,
        path: "/api/items".to_string(),
    }
}

#[test]
fn resolution_tries_session_then_key_then_bootstrap_token() {
    let cfg = AuthConfig { auth_token: Some("boot".to_string()), trust_forwarded: false };
    let c = creds(Some("sess"), Some("boot"), None);
    let (stage, act) = resolve_start(&c, &cfg);
    assert_eq!(stage, Some(ResolveStage::Session));
    assert!(matches!(act, ResolveAction::LookupSession(ref t) if t == "sess"));
    let (stage, act) = resolve_step(ResolveStage::Session, &c, &cfg, ResolveEvent::Identity(None));
    assert_eq!(stage, Some(ResolveStage::ApiKey));
    assert!(matches!(act, ResolveAction::LookupApiKey(ref t) if t == "boot"));
    let (stage, act) = resolve_step(ResolveStage::ApiKey, &c, &cfg, ResolveEvent::Identity(None));
    assert_eq!(stage, Some(ResolveStage::BootstrapCount));
    assert!(matches!(act, ResolveAction::CountUsers));
    let (stage, act) = resolve_step(ResolveStage::BootstrapCount, &c, &cfg, ResolveEvent::UserCount(Some(0)));
    assert_eq!(stage, None);
    assert!(matches!(act, ResolveAction::Finish(Some(ref i)) if i.role == Role::Admin && i.user_id == "bootstrap"));
    // With users present the bootstrap token is worthless.
    let (stage, act) = resolve_step(ResolveStage::BootstrapCount, &c, &cfg, ResolveEvent::UserCount(Some(3)));
    assert_eq!(stage, None);
    assert!(matches!(act, ResolveAction::Finish(None)));
}

#[test]
fn resolution_session_hit_wins() {
    let cfg = AuthConfig { auth_token: None, trust_forwarded: false };
    let c = creds(Some("sess"), Some("key"), None);
    let (stage, act) = resolve_step(
        ResolveStage::Session,
        &c,
        &cfg,
        ResolveEvent::Identity(Some(ident(Role::Operator))),
    );
    assert_eq!(stage, None);
    assert!(matches!(act, ResolveAction::Finish(Some(ref i)) if i.role == Role::Operator));
}

#[test]
fn open_mode_only_without_configuration_and_users() {
    let open = AuthConfig { auth_token: None, trust_forwarded: false };
    let c = creds(None, None, None);
    let (stage, act) = resolve_start(&c, &open);
    assert_eq!(stage, Some(ResolveStage::OpenCount));
    assert!(matches!(act, ResolveAction::CountUsers));
    let (_, act) = resolve_step(ResolveStage::OpenCount, &c, &open, ResolveEvent::UserCount(Some(0)));
    assert!(matches!(act, ResolveAction::Finish(Some(_))));
    let closed = AuthConfig { auth_token: None, trust_forwarded: true };
    let (stage, act) = resolve_start(&c, &closed);
    assert_eq!(stage, None);
    assert!(matches!(act, ResolveAction::Finish(None)));
}

#[test]
fn forwarded_user_is_resolved_with_header_role() {
    let cfg = AuthConfig { auth_token: None, trust_forwarded: true };
    let c = creds(None, None, Some("dave"));
    let (stage, act) = resolve_start(&c, &cfg);
    assert_eq!(stage, Some(ResolveStage::Forwarded));
    assert!(matches!(act, ResolveAction::ResolveForwarded(ref u, Role::Operator) if u == "dave"));
}

#[test]
fn refused_requests_get_401_except_public_paths() {
    assert!(is_public_path("/api/healthz"));
    assert!(is_public_path("/auth/login"));
    assert!(!is_public_path("/api/items"));
    assert!(matches!(gate_request(None, "/api/items"), Err(Denial::Unauthorized)));
    assert!(matches!(gate_request(None, "/api/auth/me"), Ok(None)));
    assert!(matches!(gate_request(Some(ident(Role::Viewer)), "/api/items"), Ok(Some(_))));
}

#[test]
fn bearer_token_gate() {
    assert!(token_gate(None, "/api/items", None).is_ok());
    assert!(token_gate(Some("s3cret"), "/healthz", None).is_ok());
    assert!(token_gate(Some("s3cret"), "/api/items", Some("Bearer s3cret")).is_ok());
    assert!(token_gate(Some("s3cret"), "/api/items", Some("bearer  s3cret ")).is_ok());
    assert!(matches!(token_gate(Some("s3cret"), "/api/items", Some("Bearer nope")), Err(Denial::Unauthorized)));
    assert!(matches!(token_gate(Some("s3cret"), "/api/items", None), Err(Denial::Unauthorized)));
}

#[test]
fn login_throttle_burst_then_block_at_one_instant() {
    let mut t = LoginThrottle::new(5000, 3000);
    assert!(t.allow_attempt_at("eve", 1000));
    assert!(t.allow_attempt_at("eve", 1000));
    assert!(t.allow_attempt_at("eve", 1000));
    assert!(!t.allow_attempt_at("eve", 1000));
    // Another user is untouched.
    assert!(t.allow_attempt_at("frank", 1000));
    // Five tokens a minute: one token after twelve seconds.
    assert!(!t.allow_attempt_at("eve", 12_999));
    assert!(t.allow_attempt_at("eve", 13_000));
    t.note_success_at("eve", 13_000);
    assert!(t.allow_attempt_at("eve", 13_000));
}

#[test]
fn fractional_login_rate_refills_slower() {
    // 2.5 attempts a minute, burst 1.5: one whole token at first, and the
    // next after 24 seconds.
    let mut t = LoginThrottle::from_settings(Some(2500), Some(1500));
    assert!(t.allow_attempt_at("gus", 0));
    assert!(!t.allow_attempt_at("gus", 0));
    assert!(!t.allow_attempt_at("gus", 11_999));
    assert!(t.allow_attempt_at("gus", 12_000));
}

#[test]
fn bucket_never_exceeds_capacity() {
    let mut b = TokenBucket::full(2000, 1000, 0);
    assert!(b.try_take_at(1_000_000_000));
    assert_eq!(b.tokens, TOKEN_UNITS);
    assert_eq!(b.capacity, 2 * TOKEN_UNITS);
}

#[test]
fn limit_settings_parse_and_clamp() {
    assert_eq!(limit_setting(Some(7000), 5000, 100000), 7000);
    assert_eq!(limit_setting(Some(0), 5000, 100000), 1000);
    assert_eq!(limit_setting(Some(999), 5000, 100000), 1000);
    assert_eq!(limit_setting(None, 5000, 100000), 5000);
    assert_eq!(limit_setting(Some(1_000_000), 5000, 100000), 100000);
    assert_eq!(limit_setting(Some(2500), 5000, 100000), 2500);
}

#[test]
fn token_hash_is_sha256_hex() {
    assert_eq!(
        hash_token("deadbeef"),
        "2baf1f40105d9501fe319a8ec463fdf4325a2a5df445adf3f572f626253678c9"
    );
}

#[test]
fn api_keys_have_prefix_and_stored_hash() {
    let (k, h) = new_api_key();
    assert!(k.starts_with("rl_"));
    assert_eq!(k.len(), 67);
    assert_eq!(h, hash_token(&k));
    assert!(looks_like_api_key(&k));
    assert!(!looks_like_api_key("sess-token"));
}

#[test]
fn api_key_rows_grant_clamped_roles() {
    let row = |disabled: i64, revoked: bool, scope: &str| ApiKeyRow {
        user_id: "u-2".to_string(),
        username: "svc".to_string(),
        role: "ADMIN".to_string(),
        disabled,
        revoked,
        scope: scope.to_string(),
    };
    assert_eq!(judge_api_key(Some(row(0, false, "viewer"))).map(|i| i.role), Some(Role::Viewer));
    assert_eq!(judge_api_key(Some(row(0, false, "bogus"))).map(|i| i.role), Some(Role::Admin));
    assert!(judge_api_key(Some(row(1, false, "inherit"))).is_none());
    assert!(judge_api_key(Some(row(0, true, "inherit"))).is_none());
    assert!(judge_api_key(None).is_none());
}

#[test]
fn usernames_are_validated_and_trimmed() {
    assert!(matches!(validate_username("  alice_1 "), Ok(ref s) if s == "alice_1"));
    assert!(matches!(validate_username(""), Err(ApiError::BadRequest(ref m)) if m == "username must be 1–64 chars"));
    assert!(matches!(validate_username("bob smith"), Err(ApiError::BadRequest(ref m)) if m == "username may only contain letters, digits, _, -, ."));
}

#[test]
fn first_signup_is_admin_later_ones_need_open_signup() {
    assert!(matches!(signup_policy(0, false), Ok((Role::Admin, "signup-bootstrap"))));
    assert!(matches!(signup_policy(2, true), Ok((Role::Viewer, "signup-open"))));
    assert!(matches!(signup_policy(2, false), Err(ApiError::Forbidden)));
}

#[test]
fn admins_cannot_demote_disable_or_delete_themselves() {
    assert!(is_bad_request(&guard_self_change("u-1", "u-1", UserChange::Role), "cannot change your own role; ask another admin"));
    assert!(is_bad_request(&guard_self_change("u-1", "u-1", UserChange::Disable), "cannot disable yourself; ask another admin"));
    assert!(is_bad_request(&guard_self_change("u-1", "u-1", UserChange::Delete), "cannot delete yourself; ask another admin"));
    assert!(guard_self_change("u-1", "u-1", UserChange::Enable).is_ok());
    assert!(guard_self_change("u-2", "u-1", UserChange::Delete).is_ok());
}

#[test]
fn api_key_request_checks() {
    assert!(matches!(validate_api_key_request(" ci ", None), Ok((ref l, KeyScope::Inherit)) if l == "ci"));
    assert!(matches!(validate_api_key_request("ci", Some("operator")), Ok((_, KeyScope::Operator))));
    assert!(matches!(validate_api_key_request("  ", None), Err(ApiError::BadRequest(ref m)) if m == "label must be 1–128 chars"));
    assert!(matches!(validate_api_key_request("ci", Some("root")), Err(ApiError::BadRequest(ref m)) if m == "scope must be inherit / viewer / operator"));
}

#[test]
fn login_verdict_only_on_verified_password() {
    assert!(login_verdict(Some(true)).is_ok());
    assert!(matches!(login_verdict(Some(false)), Err(ApiError::Unauthorized)));
    assert!(matches!(login_verdict(None), Err(ApiError::Unauthorized)));
}

#[test]
fn session_cookies() {
    assert_eq!(
        build_session_cookie("tok", 3600),
        "racklog_session=tok; HttpOnly; SameSite=Strict; Path=/; Max-Age=3600; Secure"
    );
    assert_eq!(
        build_session_cookie("tok", -5),
        "racklog_session=tok; HttpOnly; SameSite=Strict; Path=/; Max-Age=0; Secure"
    );
    assert_eq!(build_clear_cookie(), "racklog_session=; HttpOnly; SameSite=Strict; Path=/; Max-Age=0");
}

#[test]
fn event_fields_are_bounded() {
    assert!(validate_event("ha.door", None, "opened", None).is_ok());
    assert!(is_bad_request(&validate_event("item.create", None, "x", None), "kind must start with one of: ext., sensor., matter., ha., iot., vision."));
    assert!(is_bad_request(&validate_event("ha.door", None, "", None), "kind ≤ 64 chars; description must not be empty"));
    assert!(is_bad_request(&validate_event("ha.door", None, &"d".repeat(2049), None), "description must be ≤ 2048 chars"));
    assert!(is_bad_request(&validate_event("ha.door", Some(&"r".repeat(129)), "d", None), "ref must be ≤ 128 chars"));
    assert!(is_bad_request(&validate_event("ha.door", None, "d", Some(16 * 1024 + 1)), "payload must be ≤ 16 KiB"));
}

#[test]
fn event_hmac_checks() {
    let body = br#"{"kind":"ha.x"}"#;
    let sig = "sha256=8c2d3f648add27e9d9853caa2a19bdebbce0f0533b367d9c713bd7a84d1f8655";
    assert!(verify_hmac_at("topsecret", Some("1700000000"), Some(sig), body, 1_700_000_100).is_ok());
    // Upper-case hex is accepted too.
    let upper = format!("sha256={}", sig[7..].to_uppercase());
    assert!(verify_hmac_at("topsecret", Some("1700000000"), Some(&upper), body, 1_700_000_000).is_ok());
    // Stale timestamp.
    assert!(matches!(verify_hmac_at("topsecret", Some("1700000000"), Some(sig), body, 1_700_000_301), Err(ApiError::Unauthorized)));
    // Wrong secret.
    assert!(matches!(verify_hmac_at("other", Some("1700000000"), Some(sig), body, 1_700_000_000), Err(ApiError::Unauthorized)));
    assert!(is_bad_request(&verify_hmac_at("k", None, Some(sig), body, 0), "X-Racklog-Timestamp header required"));
    assert!(is_bad_request(&verify_hmac_at("k", Some("1"), None, body, 0), "X-Racklog-Signature header required"));
    assert!(is_bad_request(&verify_hmac_at("k", Some("1"), Some("md5=00"), body, 0), "X-Racklog-Signature must be sha256=<hex>"));
    assert!(is_bad_request(&verify_hmac_at("k", Some("1"), Some("sha256=zz"), body, 0), "X-Racklog-Signature is not hex"));
    assert!(is_bad_request(&verify_hmac_at("k", Some("soon"), Some("sha256=00"), body, 0), "X-Racklog-Timestamp must be unix seconds"));
}

#[test]
fn sqlite_paths() {
    assert_eq!(sqlite_path("sqlite:///data/racklog.db?mode=rwc"), Some("/data/racklog.db".to_string()));
    assert_eq!(sqlite_path("sqlite:racklog.db"), Some("racklog.db".to_string()));
    assert_eq!(sqlite_path("sqlite::memory:"), None);
    assert_eq!(sqlite_path("sqlite://"), None);
    assert_eq!(sqlite_path("plain.db"), Some("plain.db".to_string()));
}

#[test]
fn truthy_flags() {
    assert!(truthy(Some("yes")));
    assert!(!truthy(Some("YES")));
    assert!(!truthy(None));
}

#[test]
fn integrity_reports() {
    assert_eq!(integrity_report(&vec!["OK".to_string()]), (true, "ok".to_string()));
    let (ok, msg) = integrity_report(&vec!["bad page".to_string(), "bad index".to_string()]);
    assert!(!ok);
    assert_eq!(msg, "bad page; bad index");
    let many: Vec<String> = (0..25).map(|i| format!("e{i}")).collect();
    let (_, msg) = integrity_report(&many);
    assert_eq!(msg.split("; ").count(), 20);
}

#[test]
fn retention_text() {
    assert_eq!(
        retention_description(12, "2024-01-01 00:00:00", None),
        "Pruned 12 activity rows older than 2024-01-01 00:00:00 (anchor: none)"
    );
}

#[test]
fn metrics_page_format() {
    let m = MetricsInput {
        uptime_seconds: 5,
        pool_size: 2,
        pool_idle: 1,
        audit: Some((3, true)),
        table_counts: vec![1, 2, 3, 4, 5, 6, 7],
        database_bytes: 4096,
        wal_bytes: 0,
    };
    let s = metrics_text(&m);
    assert!(s.starts_with("# HELP racklog_uptime_seconds Process uptime in seconds.\n# TYPE racklog_uptime_seconds counter\nracklog_uptime_seconds 5\n"));
    assert!(s.contains("racklog_audit_chain_valid 1\n"));
    assert!(s.contains("# HELP racklog_counts_total Number of rows in counts.\n# TYPE racklog_counts_total gauge\nracklog_counts_total 7\n"));
    assert!(s.ends_with("racklog_wal_bytes 0\n"));
}

#[test]
fn item_list_sql_and_page() {
    let f = ListFilter {
        category: Some("cables".to_string()),
        supplier: None,
        barcode: None,
        q: Some("usb".to_string()),
        limit: Some(0),
        offset: Some(-3),
    };
    assert!(f.sql().ends_with(" WHERE 1=1 AND category = ? AND (sku LIKE ? OR name LIKE ?) ORDER BY sku LIMIT ? OFFSET ?"));
    assert_eq!(f.page(), (1, 0));
    assert_eq!(ListFilter::like_pattern("usb"), "%usb%");
    assert_eq!(LimitQuery { limit: None }.resolve(), 200);
    assert_eq!(LimitQuery { limit: Some(9999) }.resolve(), 5000);
}

#[test]
fn barcodes_are_trimmed_and_checked() {
    assert!(matches!(validate_barcode("  ABC-123_x "), Ok("ABC-123_x")));
    assert!(matches!(validate_barcode("abc/def"), Err(LookupError::InvalidBarcode)));
    assert!(matches!(validate_barcode(""), Err(LookupError::InvalidBarcode)));
    assert!(matches!(validate_barcode(&"1".repeat(33)), Err(LookupError::InvalidBarcode)));
}

#[test]
fn provider_chain_first_hit_wins_else_last_error() {
    let s: ChainStep<u8> = chain_step(None, Ok(vec![]));
    assert!(matches!(s, ChainStep::Next(None)));
    let s: ChainStep<u8> = chain_step(None, Err(LookupError::Provider("down".to_string())));
    let last = match s {
        ChainStep::Next(e) => e,
        ChainStep::Found(_) => panic!("no hits expected"),
    };
    let s = chain_step(last, Ok(vec![7u8]));
    assert!(matches!(s, ChainStep::Found(ref v) if v == &vec![7u8]));
    let end: Result<Vec<u8>, LookupError> = chain_end(Some(LookupError::NoProvider));
    assert!(matches!(end, Err(LookupError::NoProvider)));
}

#[test]
fn digikey_policies() {
    assert!(matches!(digikey_next(200, 1), DigiKeyNext::ReadBody));
    assert!(matches!(digikey_next(404, 1), DigiKeyNext::NoHits));
    assert!(matches!(digikey_next(401, 1), DigiKeyNext::Retry));
    assert!(matches!(digikey_next(401, 2), DigiKeyNext::Fail(ref m) if m == "digikey: unauthorised (token rotation failed)"));
    assert!(matches!(digikey_next(503, 1), DigiKeyNext::Fail(ref m) if m == "digikey: status 503"));
    assert_eq!(token_cache_secs(None), 510);
    assert_eq!(token_cache_secs(Some(10)), 0);
    let u = UpcItemDb::new(None);
    assert_eq!(u.lookup_url("0123"), "https://api.upcitemdb.com/prod/trial/lookup?upc=0123");
}

#[test]
fn tracker_checks_and_texts() {
    assert!(valid_provider("airtag"));
    assert!(!valid_provider("AirTag"));
    assert_eq!(sync_description(None, Some(80)), "Sync · (no label) · 80%");
    assert_eq!(sync_description(Some("desk"), None), "Sync · desk · ?%");
}

#[test]
fn record_ids() {
    assert_eq!(record_id(None, "TR-", 1700000000), "TR-1700000000");
    assert_eq!(record_id(Some("X".to_string()), "TR-", 1), "X");
}

#[test]
fn mcp_tool_paths() {
    let mut a = ToolArgs {
        category: Some("hand tools".to_string()),
        supplier: None,
        q: None,
        limit: Some(10),
        offset: None,
        id: None,
        barcode: None,
        lookback: None,
    };
    assert_eq!(tool_path("list_items", &a).ok(), Some("/api/items?category=hand%20tools&limit=10&".to_string()));
    assert_eq!(tool_path("get_item", &a).err(), Some("id is required".to_string()));
    a.id = Some("I-1/2".to_string());
    assert_eq!(tool_path("get_item", &a).ok(), Some("/api/items/I-1%2F2".to_string()));
    assert_eq!(tool_path("recent_activity", &a).ok(), Some("/api/activity?limit=10".to_string()));
    assert_eq!(tool_path("forecast_reorder", &a).ok(), Some("/api/forecast/reorder?lookback=90".to_string()));
    assert_eq!(tool_path("nope", &a).err(), Some("unknown tool: nope".to_string()));
    assert_eq!(route_method("tools/call"), RpcRoute::ToolsCall);
    assert_eq!(route_method("whatever"), RpcRoute::NotFound);
    assert!(is_silent_notification(false, "notifications/initialized"));
    assert!(!is_silent_notification(true, "notifications/initialized"));
    assert_eq!(client_base(Some("http://h:1//")), "http://h:1");
    assert_eq!(client_base(None), "http://127.0.0.1:8080");
}

#[test]
fn web_assets_and_index() {
    assert!(asset_path_allowed("app.jsx"));
    assert!(!asset_path_allowed("../etc/passwd"));
    assert!(!asset_path_allowed("/etc/passwd"));
    assert_eq!(asset_headers("styles.css"), ("text/css".to_string(), "public, max-age=300"));
    assert_eq!(asset_headers("app.jsx").1, "public, max-age=300");
    assert_eq!(
        render_index("<head><!-- RACKLOG_BOOTSTRAP --></head>", "{}"),
        "<head><script>window.__RACKLOG_BOOTSTRAP__ = {};</script></head>"
    );
}

#[test]
fn audit_chain_links_and_detects_tampering() {
    let h = entry_hash("", "2024-01-01 00:00:00", "alice", "item.create", "I-1", "Created item", "");
    assert_eq!(h, "f5fb6adc2490efcfd59611ae370b78f3d3c58207a2e5616fd47d2c5e0d9a5ace");
    let a = chain_entry(None, "2024-01-01 00:00:00".into(), "alice".into(), "item.create".into(), Some("I-1".into()), "Created item".into(), String::new());
    assert_eq!(a.hash, h);
    let b = chain_entry(Some(a.hash.clone()), "2024-01-02 00:00:00".into(), "bob".into(), "item.update".into(), None, "Updated".into(), String::new());
    let rows = vec![a, b];
    let st = verify_chain(&rows);
    assert!(st.valid);
    assert_eq!(st.entries, 2);
    assert_eq!(st.head.as_deref(), Some(rows[1].hash.as_str()));
    let mut tampered = rows;
    tampered[0].description = "Deleted item".to_string();
    let st = verify_chain(&tampered);
    assert!(!st.valid);
    assert_eq!(st.broken_at, Some(0));
}

#[test]
fn csv_write_then_read_gives_back_cells() {
    let cells = vec!["a,b".to_string(), "say \"hi\"".to_string(), "plain".to_string()];
    let line = csv_line(&cells);
    assert_eq!(parse_csv_row(&line), cells);
}
