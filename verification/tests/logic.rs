use racklog::accounts::{disable_audit, forwarded_identity, login_candidate, me_response, parse_role_input, UserRecord};
use racklog::admin::{retain_request, retention_deletes, RetainQuery};
use racklog::audit::StoredEntry;
use racklog::config::{resolve_settings, AllowOrigin, ConfigError, LogFormat, RawEnv};
use racklog::errors::ApiError;
use racklog::forecast::{
    apply_targets, clamp_lookback, plan_reorder, reorder_qty, urgency, Consumption, ReorderCandidate, Urgency,
};
use racklog::identity::{AuthIdentity, AuthSource, Role};
use racklog::import::{plan_import, sanitise_row_error, ImportRow, ImportSummary, RowError, RowPlan};
use racklog::mcp::{method_not_found_message, tool_path, ToolArgs, TOOLS_DESCRIPTOR};
use racklog::models::{
    placeholders, validate_code_name, validate_item, ActivityEntry, Count, CountInput, Transfer,
};
use racklog::seed::{seed_activity, should_seed};
use racklog::sessions::{expiry_passed_at, judge_session, role_or_viewer, SessionRow, SessionVerdict};
use racklog::sku::{canonical_barcode, lookup_answer, provider_plan, upc_code_has_hits, LookupError};
use racklog::text::split_once;
use racklog::vision::{drift_fits_exec, tally_vision, validate_vision_request, CatalogQty, VisionObservation};

fn is_bad<T>(r: &Result<T, ApiError>, msg: &str) -> bool {
    matches!(r, Err(ApiError::BadRequest(m)) if m == msg)
}

fn cand(id: &str, supplier: Option<&str>, min: i64, max: i64, qty: i64, lead: Option<i64>) -> ReorderCandidate {
    ReorderCandidate {
        item_id: id.to_string(),
        sku: format!("SKU-{id}"),
        name: format!("Item {id}"),
        supplier: supplier.map(str::to_string),
        min,
        max,
        qty,
        lead_time: lead,
    }
}

#[test]
fn reorder_quantity_refills_to_max_at_least_one() {
    assert_eq!(reorder_qty(5, 20, 3), 17);
    assert_eq!(reorder_qty(5, 0, 3), 2);
    assert_eq!(reorder_qty(0, 0, 10), 1);
    assert_eq!(reorder_qty(4, 10, -2), 12);
}

#[test]
fn lookback_is_clamped() {
    assert_eq!(clamp_lookback(3), 7);
    assert_eq!(clamp_lookback(400), 365);
    assert_eq!(clamp_lookback(30), 30);
}

#[test]
fn urgency_follows_stockout_within_lead_time() {
    assert_eq!(urgency(0, None, 0, 90), Urgency::Urgent);
    // 5 on hand, 90 picked in 90 days: 5 days left, lead 7 -> urgent.
    assert_eq!(urgency(5, Some(7), 90, 90), Urgency::Urgent);
    // 10 on hand at 1/day lasts 10 days, longer than 7.
    assert_eq!(urgency(10, Some(7), 90, 90), Urgency::Low);
    // Exactly at the lead time is urgent.
    assert_eq!(urgency(7, None, 90, 90), Urgency::Urgent);
    // No consumption signal: not urgent unless out of stock.
    assert_eq!(urgency(1, Some(30), 0, 90), Urgency::Low);
}

#[test]
fn plan_groups_by_supplier_and_applies_routable_drafts() {
    let cands = vec![
        cand("a", Some("S2"), 5, 10, 0, Some(3)),
        cand("b", None, 5, 10, 2, None),
        cand("c", Some("S1"), 5, 10, 4, Some(14)),
        cand("d", Some("S2"), 5, 10, 1, Some(3)),
    ];
    let cons = vec![
        Consumption { sku: "SKU-c".to_string(), picked: 1 },
        Consumption { sku: "SKU-c".to_string(), picked: 90 },
    ];
    let plan = plan_reorder(&cands, &cons, 1000);
    assert_eq!(plan.lookback_days, 365);
    assert_eq!(plan.items_below_min, 4);
    let qtys: Vec<i64> = plan.suggestions.iter().map(|s| s.reorder_qty).collect();
    assert_eq!(qtys, vec![10, 8, 6, 9]);
    // The later consumption record for SKU-c is the one used.
    assert_eq!(plan.suggestions[2].picked, 90);
    let urg: Vec<Urgency> = plan.suggestions.iter().map(|s| s.urgency).collect();
    assert_eq!(urg, vec![Urgency::Urgent, Urgency::Low, Urgency::Low, Urgency::Low]);
    assert_eq!(plan.urgent, 1);
    let groups: Vec<(Option<String>, Vec<usize>)> =
        plan.groups.iter().map(|g| (g.supplier_id.clone(), g.members.clone())).collect();
    assert_eq!(
        groups,
        vec![
            (Some("S1".to_string()), vec![2]),
            (Some("S2".to_string()), vec![0, 3]),
            (None, vec![1]),
        ]
    );
    let (routable, covered) = apply_targets(&plan);
    assert_eq!(routable, vec![0, 1]);
    assert_eq!(covered, 3);
}

#[test]
fn empty_plan_applies_nothing() {
    let plan = plan_reorder(&vec![], &vec![], 90);
    assert_eq!(plan.items_below_min, 0);
    assert!(plan.groups.is_empty());
    assert_eq!(apply_targets(&plan), (vec![], 0));
}

#[test]
fn csv_import_plans_rows() {
    let body = "SKU,Name,cat,qty,unit\nA-1, Widget ,Tools,5,\n\n,Nameless,,1,\nB-2,,,,\nC-3,Cable,,x,m\n";
    let plan = plan_import(body).ok().expect("plan");
    assert_eq!(plan.len(), 5);
    match &plan[0] {
        RowPlan::Ready(r) => {
            assert_eq!(r.line, 2);
            assert_eq!(r.sku, "A-1");
            assert_eq!(r.name, "Widget");
            assert_eq!(r.category, "Tools");
            assert_eq!(r.qty, 5);
            assert_eq!(r.unit, "ea");
            assert_eq!(r.brand, None);
        }
        _ => panic!("row 2 should be ready"),
    }
    assert!(matches!(plan[1], RowPlan::Blank));
    assert!(matches!(&plan[2], RowPlan::Rejected(e) if e.line == 4 && e.sku.is_none() && e.message == "missing sku"));
    assert!(matches!(&plan[3], RowPlan::Rejected(e) if e.line == 5 && e.sku.as_deref() == Some("B-2") && e.message == "missing name"));
    match &plan[4] {
        RowPlan::Ready(r) => {
            assert_eq!(r.qty, 0);
            assert_eq!(r.unit, "m");
            assert_eq!(r.category, "");
        }
        _ => panic!("row 6 should be ready"),
    }
    let (summary, rows) = ImportSummary::from_plan(plan);
    assert_eq!(summary.processed, 4);
    assert_eq!(summary.skipped, 1);
    assert_eq!(summary.created, 0);
    assert_eq!(summary.updated, 0);
    let lines: Vec<usize> = summary.errors.iter().map(|e| e.line).collect();
    assert_eq!(lines, vec![4, 5]);
    let skus: Vec<&str> = rows.iter().map(|r: &ImportRow| r.sku.as_str()).collect();
    assert_eq!(skus, vec!["A-1", "C-3"]);
}

#[test]
fn csv_import_refuses_bad_bodies() {
    assert!(is_bad(&plan_import("   \n"), "empty CSV body"));
    assert!(is_bad(&plan_import("name,qty\nx,1"), "missing column: sku"));
    assert!(is_bad(&plan_import("sku,qty\nx,1"), "missing column: name"));
}

#[test]
fn row_errors_never_leak_storage_detail() {
    assert_eq!(sanitise_row_error(&RowError::UniqueViolation), "row violates a uniqueness constraint");
    assert_eq!(sanitise_row_error(&RowError::ForeignKeyViolation), "row references a record that does not exist");
    assert_eq!(sanitise_row_error(&RowError::NotFound), "referenced record not found");
    assert_eq!(sanitise_row_error(&RowError::Other), "row could not be saved");
    assert_eq!(sanitise_row_error(&RowError::Conflict("dup".to_string())), "dup");
}

fn empty_env() -> RawEnv {
    RawEnv {
        data_dir: None,
        database_url: None,
        static_dir: None,
        auth_token: None,
        seed_on_empty: None,
        open_signup: None,
        request_timeout_secs: None,
        max_body_bytes: None,
        log_format: None,
        allow_origin: None,
        trust_forwarded_headers: None,
        events_hmac_secret: None,
        max_sessions_per_user: None,
        trusted_proxy_cidr: None,
    }
}

#[test]
fn settings_defaults() {
    let s = resolve_settings(&empty_env()).ok().expect("defaults resolve");
    assert_eq!(s.data_dir, "./data");
    assert_eq!(s.database_url, "sqlite://./data/racklog.db?mode=rwc");
    assert!(s.seed_on_empty);
    assert!(!s.open_signup);
    assert_eq!(s.request_timeout_secs, 30);
    assert_eq!(s.max_body_bytes, 2097152);
    assert_eq!(s.log_format, LogFormat::Pretty);
    assert!(matches!(s.allow_origin, AllowOrigin::SameOrigin));
    assert!(!s.trust_forwarded_headers);
    assert_eq!(s.max_sessions_per_user, 10);
    assert!(s.trusted_proxy_cidrs.is_empty());
    assert_eq!(s.auth_token, None);
}

#[test]
fn test_settings_read_no_environment() {
    let s = racklog::config::Settings::for_test("sqlite::memory:".to_string(), Some("t".to_string()));
    assert_eq!(s.database_url, "sqlite::memory:");
    assert_eq!(s.auth_token.as_deref(), Some("t"));
    assert_eq!(s.data_dir, "./data");
    assert_eq!(s.max_sessions_per_user, 10);
    assert!(s.seed_on_empty && !s.open_signup);
}

#[test]
fn settings_from_values() {
    let mut env = empty_env();
    env.data_dir = Some("/srv/rl/".to_string());
    env.seed_on_empty = Some("no".to_string());
    env.open_signup = Some("yes".to_string());
    env.request_timeout_secs = Some("abc".to_string());
    env.log_format = Some("json".to_string());
    env.allow_origin = Some("https://a.example, https://b.example".to_string());
    env.max_sessions_per_user = Some("0".to_string());
    env.auth_token = Some(String::new());
    env.trusted_proxy_cidr = Some("10.0.0.0/8, ,192.168.1.0/24".to_string());
    let s = resolve_settings(&env).ok().expect("resolves");
    assert_eq!(s.database_url, "sqlite:///srv/rl/racklog.db?mode=rwc");
    assert!(!s.seed_on_empty);
    assert!(s.open_signup);
    assert_eq!(s.request_timeout_secs, 30);
    assert_eq!(s.log_format, LogFormat::Json);
    match &s.allow_origin {
        AllowOrigin::List(l) => assert_eq!(l, &vec!["https://a.example".to_string(), "https://b.example".to_string()]),
        AllowOrigin::SameOrigin => panic!("list expected"),
    }
    assert_eq!(s.max_sessions_per_user, 10);
    assert_eq!(s.auth_token, None);
    assert_eq!(s.trusted_proxy_cidrs.len(), 2);
    assert_eq!(s.trusted_proxy_cidrs[0].addr, vec![10, 0, 0, 0]);
    assert_eq!(s.trusted_proxy_cidrs[0].prefix, 8);
    assert_eq!(s.trusted_proxy_cidrs[1].addr, vec![192, 168, 1, 0]);
    assert_eq!(s.trusted_proxy_cidrs[1].prefix, 24);
}

#[test]
fn settings_refuse_a_bad_proxy_network() {
    let mut env = empty_env();
    env.trusted_proxy_cidr = Some("10.0.0.0/8,bogus".to_string());
    match resolve_settings(&env) {
        Err(ConfigError::Invalid(var, msg)) => {
            assert_eq!(var, "RACKLOG_TRUSTED_PROXY_CIDR");
            assert_eq!(msg, "bogus: invalid IP address syntax");
        }
        Ok(_) => panic!("bogus network accepted"),
    }
}

fn obs(sku: &str, qty: i64) -> VisionObservation {
    VisionObservation { sku: sku.to_string(), qty }
}

fn cat(sku: &str, qty: i64) -> CatalogQty {
    CatalogQty { sku: sku.to_string(), qty }
}

#[test]
fn vision_counts_match_and_drift() {
    let o = vec![obs("A", 5), obs("B", 3), obs("Z", 1)];
    let c = vec![cat("A", 4), cat("B", 3), cat("C", 9)];
    assert!(drift_fits_exec(&o, &c));
    let t = tally_vision(&o, &c, &Some("m1".to_string()), "LOC-1", &Some("bin7".to_string()));
    assert_eq!(t.matched, 2);
    assert_eq!(t.total_delta, 1);
    assert_eq!(t.description, "Vision count by m1 at LOC-1 bin7 · 2 SKUs · Δ A: +1");
    let exact = vec![obs("A", 4)];
    let t = tally_vision(&exact, &c, &None, "LOC-1", &None);
    assert_eq!(t.description, "Vision count by (unspecified) at LOC-1  — 1 SKUs match catalog exactly");
}

#[test]
fn vision_description_lists_ten_drifts_then_counts_the_rest() {
    let o: Vec<VisionObservation> = (0..12).map(|i| obs(&format!("S{i}"), i + 1)).collect();
    let c: Vec<CatalogQty> = (0..12).map(|i| cat(&format!("S{i}"), 0)).collect();
    let t = tally_vision(&o, &c, &Some("m".to_string()), "L", &Some("b".to_string()));
    assert_eq!(t.matched, 12);
    assert_eq!(t.total_delta, 78);
    let head: Vec<String> = (0..10).map(|i| format!("S{}: +{}", i, i + 1)).collect();
    assert_eq!(t.description, format!("Vision count by m at L b · 12 SKUs · Δ {} (+2 more)", head.join(", ")));
    assert!(!drift_fits_exec(&vec![obs("A", i64::MIN)], &vec![cat("A", 1)]));
}

#[test]
fn vision_request_checks() {
    assert!(is_bad(&validate_vision_request(0, &None), "observations must not be empty"));
    assert!(is_bad(&validate_vision_request(1025, &None), "≤ 1024 observations per request"));
    assert!(is_bad(&validate_vision_request(1, &Some("x".repeat(1025))), "evidence_url too long"));
    assert!(validate_vision_request(1024, &Some("x".repeat(1024))).is_ok());
}

fn user(role: Role, disabled: bool) -> UserRecord {
    UserRecord {
        id: "u1".to_string(),
        username: "ada".to_string(),
        role,
        disabled,
        source: None,
        created_at: "2024-01-01 00:00:00".to_string(),
        updated_at: "2024-01-01 00:00:00".to_string(),
        last_login_at: None,
    }
}

#[test]
fn account_decisions() {
    assert!(matches!(parse_role_input("Operator"), Ok(Role::Operator)));
    assert!(is_bad(&parse_role_input("root"), "role must be admin/operator/viewer"));
    assert_eq!(disable_audit(true), ("user.disable", "Disabled"));
    assert_eq!(disable_audit(false), ("user.enable", "Re-enabled"));
    let (id, update) = forwarded_identity(user(Role::Viewer, false), Role::Admin);
    let id = id.expect("identity");
    assert_eq!(id.role, Role::Admin);
    assert_eq!(id.source, AuthSource::TrustedHeader);
    assert!(update);
    let (id, update) = forwarded_identity(user(Role::Viewer, true), Role::Admin);
    assert!(id.is_none() && !update);
    assert!(matches!(login_candidate(None), Err(ApiError::Unauthorized)));
    assert!(matches!(login_candidate(Some((user(Role::Admin, true), "h".to_string()))), Err(ApiError::Unauthorized)));
    let ok = login_candidate(Some((user(Role::Admin, false), "h".to_string())));
    assert!(matches!(ok, Ok((ref u, ref h)) if u.username == "ada" && h == "h"));
}

#[test]
fn me_answers() {
    assert!(matches!(me_response(None, 0, false), Err(ApiError::Unauthorized)));
    let id = AuthIdentity {
        user_id: "u1".to_string(),
        username: "ada".to_string(),
        role: Role::Operator,
        source: AuthSource::ApiKey,
    };
    let m = me_response(Some(id), 0, true).ok().expect("me");
    assert_eq!(m.user.username, "ada");
    assert_eq!(m.source, "apikey");
    assert!(m.bootstrap_open);
    assert!(m.open_signup);
    assert!(!m.user.disabled);
}

#[test]
fn session_rows_are_judged() {
    let row = |disabled: i64| SessionRow {
        user_id: "u1".to_string(),
        username: "ada".to_string(),
        role: "bogus".to_string(),
        disabled,
    };
    assert!(matches!(judge_session(None, false), SessionVerdict::Reject));
    assert!(matches!(judge_session(Some(row(1)), true), SessionVerdict::Reject));
    assert!(matches!(judge_session(Some(row(0)), true), SessionVerdict::Expired));
    match judge_session(Some(row(0)), false) {
        SessionVerdict::Accept(id) => {
            assert_eq!(id.role, Role::Viewer);
            assert_eq!(id.source, AuthSource::Session);
        }
        _ => panic!("live session refused"),
    }
    assert_eq!(role_or_viewer("ADMIN"), Role::Admin);
    assert_eq!(role_or_viewer("nope"), Role::Viewer);
}

#[test]
fn session_expiry_is_read_as_utc() {
    // 2024-01-01 00:00:00 UTC is 1704067200.
    assert!(expiry_passed_at("2024-01-01 00:00:00", 1704067201, 0));
    assert!(expiry_passed_at("2024-01-01 00:00:00", 1704067200, 5));
    assert!(!expiry_passed_at("2024-01-01 00:00:00", 1704067200, 0));
    assert!(!expiry_passed_at("2024-01-01 00:00:00", 1704067199, 999));
    assert!(!expiry_passed_at("not a date", 1704067201, 0));
}

#[test]
fn retention_requests() {
    let q = RetainQuery { days: None, confirm: None, dry_run: None };
    assert!(is_bad(&retain_request(&q), "retain_activity is destructive; pass ?confirm=1 to proceed"));
    let q = RetainQuery { days: Some(-3), confirm: None, dry_run: Some("1".to_string()) };
    assert!(matches!(retain_request(&q), Ok((true, 1))));
    let q = RetainQuery { days: None, confirm: Some("yes".to_string()), dry_run: None };
    assert!(matches!(retain_request(&q), Ok((false, 365))));
    assert!(retention_deletes(false, 3));
    assert!(!retention_deletes(true, 3));
    assert!(!retention_deletes(false, 0));
}

#[test]
fn seeding_rules() {
    assert!(should_seed(0));
    assert!(!should_seed(3));
    let (u, k, r, d) = seed_activity(None, None, Some("PO-1".to_string()), None);
    assert_eq!((u.as_str(), k.as_str(), r.as_deref(), d.as_str()), ("system", "seed", Some("PO-1"), ""));
    let (u, k, _, d) = seed_activity(Some("ada".to_string()), Some("pick".to_string()), None, Some("x".to_string()));
    assert_eq!((u.as_str(), k.as_str(), d.as_str()), ("ada", "pick", "x"));
}

#[test]
fn model_checks_and_texts() {
    assert!(is_bad(&validate_item(" ", "n", 0, 0), "sku and name are required"));
    assert!(is_bad(&validate_item("s", "n", -1, 0), "qty and allocated must be ≥ 0"));
    assert!(validate_item("s", "n", 0, 0).is_ok());
    assert!(is_bad(&validate_code_name("c", ""), "code and name are required"));
    assert!(validate_code_name("c", "n").is_ok());
    assert_eq!(placeholders(0), "");
    assert_eq!(placeholders(3), "?,?,?");
    assert_eq!(Transfer::created_description("TR-1", Some("A"), None), "Created transfer TR-1 (A → ?)");
    assert_eq!(Count::updated_description("CYC-1", -4), "Updated count CYC-1 (variance -4)");
    let c = Count::from_input(
        "CYC-9".to_string(),
        CountInput {
            id: None,
            loc: Some("L1".to_string()),
            date: "2024-02-02".to_string(),
            status: "scheduled".to_string(),
            counted: 3,
            variance: 1,
            by: None,
        },
    );
    assert_eq!(c.id, "CYC-9");
    assert_eq!(c.counted, 3);
    let a = ActivityEntry::from_stored(StoredEntry {
        ts: "t".to_string(),
        user: "u".to_string(),
        kind: "k".to_string(),
        reference: None,
        description: "d".to_string(),
        payload: None,
        prev_hash: None,
        hash: "h".to_string(),
    });
    assert_eq!(a.desc, "d");
    assert_eq!(a.hash.as_deref(), Some("h"));
}

#[test]
fn lookup_decisions() {
    assert!(matches!(canonical_barcode(" 0123 "), Ok(ref s) if s == "0123"));
    assert!(is_bad(&canonical_barcode("a b"), "barcode must be 1–32 chars, alphanumeric/_/- only"));
    assert!(matches!(lookup_answer(Ok(vec![1u8])), Ok(ref v) if v == &vec![1u8]));
    assert!(is_bad(&lookup_answer::<u8>(Err(LookupError::InvalidBarcode)), "invalid barcode"));
    assert!(matches!(lookup_answer::<u8>(Err(LookupError::NoProvider)), Ok(ref v) if v.is_empty()));
    assert!(upc_code_has_hits(None));
    assert!(upc_code_has_hits(Some("FOUND")));
    assert!(!upc_code_has_hits(Some("INVALID_UPC")));
    assert_eq!(provider_plan(None, true, true), (true, true));
    assert_eq!(provider_plan(Some("1"), true, false), (false, false));
    assert_eq!(provider_plan(Some("0"), false, true), (true, false));
}

#[test]
fn small_texts() {
    assert_eq!(split_once("a=b=c", '='), Some(("a".to_string(), "b=c".to_string())));
    assert_eq!(split_once("abc", '='), None);
    assert_eq!(method_not_found_message("foo/bar"), "method not found: foo/bar");
}

#[test]
fn tool_list_names_every_routed_tool() {
    let doc: serde_json::Value = serde_json::from_str(TOOLS_DESCRIPTOR).expect("tool list is JSON");
    let tools = doc["tools"].as_array().expect("tools array");
    assert_eq!(tools.len(), 9);
    let args = ToolArgs {
        category: None,
        supplier: None,
        q: None,
        limit: None,
        offset: None,
        id: Some("I-1".to_string()),
        barcode: Some("0123".to_string()),
        lookback: None,
    };
    for t in tools {
        let name = t["name"].as_str().expect("name");
        assert!(tool_path(name, &args).is_ok(), "{name} has no path");
        assert!(t["inputSchema"]["type"] == "object");
    }
}

#[test]
fn leading_tab_or_carriage_return_is_neutralised() {
    assert_eq!(racklog::csv::escape("\tabc"), "\"'\tabc\"");
    assert_eq!(racklog::csv::escape("\rabc"), "\"'\rabc\"");
    assert_eq!(racklog::csv::escape(" abc"), " abc");
}

#[test]
fn group_order_and_separator_do_not_matter() {
    use_groups("admins,viewers", "viewers|admins");
    use_groups("operators|x", "x,operators");
    use_groups("a,b", "b|a");
}

fn use_groups(a: &str, b: &str) {
    assert_eq!(racklog::identity::map_groups_to_role(a), racklog::identity::map_groups_to_role(b));
}

#[test]
fn ipv6_proxy_networks_are_kept_as_bytes() {
    let mut env = empty_env();
    env.trusted_proxy_cidr = Some("::1/128".to_string());
    let s = resolve_settings(&env).ok().expect("resolves");
    let mut want = vec![0u8; 16];
    want[15] = 1;
    assert_eq!(s.trusted_proxy_cidrs[0].addr, want);
    assert_eq!(s.trusted_proxy_cidrs[0].prefix, 128);
}

#[test]
fn import_counts_add_up() {
    let body = "sku,name\nA,One\n\nB,Two\n,Missing\n";
    let plan = plan_import(body).ok().expect("plan");
    let (summary, rows) = ImportSummary::from_plan(plan);
    assert_eq!(summary.skipped, 1);
    assert_eq!(summary.processed, 3);
    assert_eq!(rows.len(), 2);
    // Line by line, as the server runs it: the row on line 4 fails.
    let plan = plan_import(body).ok().expect("plan");
    let mut s = ImportSummary::empty();
    for line in plan {
        if let Some(row) = s.take_line(line) {
            if row.line == 4 {
                s.note_failed(&row, &RowError::UniqueViolation);
            } else {
                s.note_created();
            }
        }
    }
    assert_eq!(s.skipped, 1);
    assert_eq!(s.processed, s.created + s.updated + s.errors.len());
    let lines: Vec<usize> = s.errors.iter().map(|e| e.line).collect();
    assert_eq!(lines, vec![4, 5]);
}

#[test]
fn argon2_hashes_name_their_algorithm_and_version() {
    let h = racklog::password::hash("correct horse").ok().expect("hash");
    assert!(h.starts_with("$argon2id$v=19$"));
    assert!(matches!(racklog::password::verify("correct horse", &h), Ok(true)));
    assert!(matches!(
        racklog::password::verify("x", "argon2id"),
        Err(racklog::password::PasswordError::Invalid(ref m)) if m == "password hash string missing field"
    ));
}

#[test]
fn import_audit_texts() {
    assert_eq!(
        racklog::import::import_audit(true, "A-1"),
        ("item.import_create", "Imported (create) item A-1".to_string())
    );
    assert_eq!(
        racklog::import::import_audit(false, "B"),
        ("item.import_update", "Imported (update) item B".to_string())
    );
    assert_eq!(racklog::import::IMPORT_USER, "import");
}
