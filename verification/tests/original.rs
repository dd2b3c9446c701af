use racklog::admin::{require_confirm, ConfirmQuery};
use racklog::csv::{escape, parse_csv_row};
use racklog::identity::{map_groups_to_role, Role};
use racklog::middleware::parse_cookie;
use racklog::pagination::{PageQuery, DEFAULT_LIMIT, MAX_LIMIT};
use racklog::throttle::LoginThrottle;

#[test]
fn role_ordering_is_admin_strongest() {
    assert!(Role::Admin.at_least(Role::Operator));
    assert!(Role::Admin.at_least(Role::Viewer));
    assert!(Role::Operator.at_least(Role::Viewer));
    assert!(!Role::Viewer.at_least(Role::Operator));
    assert!(!Role::Operator.at_least(Role::Admin));
}

#[test]
fn permission_helpers_are_consistent() {
    assert!(Role::Admin.can_admin());
    assert!(Role::Admin.can_write());
    assert!(!Role::Operator.can_admin());
    assert!(Role::Operator.can_write());
    assert!(!Role::Viewer.can_write());
}

#[test]
fn from_str_round_trips() {
    for r in [Role::Admin, Role::Operator, Role::Viewer] {
        assert_eq!(r.as_str().parse::<Role>().unwrap(), r);
    }
    assert!("nonsense".parse::<Role>().is_err());
}

#[test]
fn parses_session_cookie() {
    let v = "foo=bar; racklog_session=abcdef; baz=qux";
    assert_eq!(
        parse_cookie(v, "racklog_session").as_deref(),
        Some("abcdef")
    );
    assert!(parse_cookie(v, "missing").is_none());
}

#[test]
fn group_mapping_picks_strongest() {
    assert_eq!(map_groups_to_role("racklog-admin"), Role::Admin);
    assert_eq!(map_groups_to_role("operators,viewers"), Role::Operator);
    assert_eq!(map_groups_to_role("viewers"), Role::Viewer);
    assert_eq!(map_groups_to_role("ops,admins"), Role::Admin);
    assert_eq!(map_groups_to_role("nothing-known"), Role::Viewer);
}

fn default_throttle() -> LoginThrottle {
    LoginThrottle::from_settings(None, None)
}

#[test]
fn bucket_allows_burst_then_blocks() {
    let mut t = default_throttle();
    t.reset_for_tests();
    // Burst of 10 by default; first 10 succeed, 11th fails.
    for _ in 0..10 {
        assert!(t.allow_attempt("brute_target"));
    }
    assert!(!t.allow_attempt("brute_target"));
}

#[test]
fn buckets_are_per_username() {
    let mut t = default_throttle();
    t.reset_for_tests();
    for _ in 0..10 {
        t.allow_attempt("alice");
    }
    assert!(t.allow_attempt("bob"));
}

#[test]
fn note_success_resets_bucket() {
    let mut t = default_throttle();
    t.reset_for_tests();
    for _ in 0..10 {
        t.allow_attempt("carol");
    }
    assert!(!t.allow_attempt("carol"));
    t.note_success("carol");
    assert!(t.allow_attempt("carol"));
}

#[test]
fn require_confirm_accepts_truthy() {
    let q = ConfirmQuery {
        confirm: Some("1".into()),
    };
    assert!(require_confirm(&q, "x").is_ok());
    let q = ConfirmQuery {
        confirm: Some("true".into()),
    };
    assert!(require_confirm(&q, "x").is_ok());
}

#[test]
fn require_confirm_rejects_missing() {
    let q = ConfirmQuery { confirm: None };
    assert!(require_confirm(&q, "x").is_err());
}

#[test]
fn require_confirm_rejects_falsy() {
    let q = ConfirmQuery {
        confirm: Some("no".into()),
    };
    assert!(require_confirm(&q, "x").is_err());
}

#[test]
fn plain_row() {
    assert_eq!(parse_csv_row("a,b,c"), vec!["a", "b", "c"]);
}

#[test]
fn empty_cells_preserved() {
    assert_eq!(parse_csv_row("a,,c"), vec!["a", "", "c"]);
}

#[test]
fn trailing_empty_cell_preserved() {
    assert_eq!(parse_csv_row("a,b,"), vec!["a", "b", ""]);
}

#[test]
fn quoted_cell_with_comma() {
    assert_eq!(parse_csv_row(r#"a,"b,c",d"#), vec!["a", "b,c", "d"]);
}

#[test]
fn doubled_quote_inside_quoted_cell() {
    assert_eq!(parse_csv_row(r#""he said ""hi""""#), vec![r#"he said "hi""#]);
}

#[test]
fn quote_only_inside_already_quoted() {
    assert_eq!(parse_csv_row(r#"abc,"de"f""#), vec!["abc", r#"def""#]);
}

#[test]
fn empty_string_yields_one_empty_cell() {
    assert_eq!(parse_csv_row(""), vec![""]);
}

#[test]
fn plain_value_passes_through() {
    assert_eq!(escape("hello"), "hello");
}

#[test]
fn leading_equals_neutralised() {
    assert!(escape("=HYPERLINK(\"x\")").starts_with("\"'="));
}

#[test]
fn leading_space_then_equals_neutralised() {
    let escaped = escape(" =1+2");
    assert!(
        escaped.starts_with('\'') || escaped.starts_with("\"'"),
        "expected single-quote prefix, got {:?}",
        escaped
    );
}

#[test]
fn leading_tab_then_equals_neutralised() {
    let escaped = escape("\t=1+2");
    assert!(
        escaped.contains('\''),
        "expected single-quote prefix, got {:?}",
        escaped
    );
}

#[test]
fn pipe_triggers_dde_escape() {
    let escaped = escape("|cmd|");
    assert!(escaped.contains('\''), "got {:?}", escaped);
}

#[test]
fn comma_value_quoted() {
    assert_eq!(escape("a,b"), "\"a,b\"");
}

#[test]
fn embedded_quote_doubled() {
    assert_eq!(escape("a\"b"), "\"a\"\"b\"");
}

#[test]
fn defaults_when_none() {
    let p = PageQuery::default();
    assert_eq!(p.resolve(), (DEFAULT_LIMIT, 0));
}

#[test]
fn clamps_high_limit() {
    let p = PageQuery {
        limit: Some(99_999),
        offset: None,
    };
    assert_eq!(p.resolve(), (MAX_LIMIT, 0));
}

#[test]
fn clamps_negative_offset_to_zero() {
    let p = PageQuery {
        limit: None,
        offset: Some(-50),
    };
    assert_eq!(p.resolve(), (DEFAULT_LIMIT, 0));
}

#[test]
fn clamps_low_limit_to_one() {
    let p = PageQuery {
        limit: Some(0),
        offset: None,
    };
    assert_eq!(p.resolve(), (1, 0));
}
