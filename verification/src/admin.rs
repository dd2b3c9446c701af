//! Server administration: confirmation of destructive operations,
//! activity-log retention, the database location, integrity reports and
//! the Prometheus metrics page.

use crate::errors::ApiError;
use crate::numbers::{decimal, push_decimal, push_i64, signed_decimal};
use crate::text::{lower_spec, lowercase, push_str, str_eq};
use vstd::prelude::*;

verus! {

/// The `?confirm=` query of a destructive operation.
pub struct ConfirmQuery {
    pub confirm: Option<String>,
}

/// A query flag that reads as yes: `1`, `true` or `yes`.
pub open spec fn is_truthy(v: Option<Seq<char>>) -> bool {
    match v {
        Some(s) => s == "1"@ || s == "true"@ || s == "yes"@,
        None => false,
    }
}

/// Whether a query flag reads as yes.
pub fn truthy(v: Option<&str>) -> (b: bool)
    ensures
        b == is_truthy(crate::text::opt_str(v)),
{
    match v {
        Some(s) => str_eq(s, "1") || str_eq(s, "true") || str_eq(s, "yes"),
        None => false,
    }
}

/// Refuse a destructive operation unless `?confirm` is truthy.
pub fn require_confirm(q: &ConfirmQuery, op: &str) -> (r: Result<(), ApiError>)
    ensures
        is_truthy(crate::text::opt_chars(q.confirm)) ==> r is Ok,
        !is_truthy(crate::text::opt_chars(q.confirm)) ==> (r matches Err(e) && e.is_bad_request(
            op@ + " is destructive; pass ?confirm=1 to proceed"@,
        )),
{
    let ok = match &q.confirm {
        Some(s) => truthy(Some(s.as_str())),
        None => truthy(None),
    };
    if ok {
        Ok(())
    } else {
        let mut m = op.to_owned();
        push_str(&mut m, " is destructive; pass ?confirm=1 to proceed");
        Err(ApiError::BadRequest(m))
    }
}

/// The query of the retention endpoint.
pub struct RetainQuery {
    /// Keep entries strictly newer than this many days; default 365.
    pub days: Option<i64>,
    pub confirm: Option<String>,
    /// `?dry_run=1` reports what would be deleted without deleting.
    pub dry_run: Option<String>,
}

/// Default retention, in days.
pub const DEFAULT_RETAIN_DAYS: i64 = 365;

/// Decide a retention request: whether it is a dry run and how many days
/// to keep (default 365, at least 1). A real run needs `?confirm`.
pub fn retain_request(q: &RetainQuery) -> (r: Result<(bool, i64), ApiError>)
    ensures
        ({
            let dry = is_truthy(crate::text::opt_chars(q.dry_run));
            let days = match q.days {
                Some(d) => if d < 1 {
                    1
                } else {
                    d
                },
                None => DEFAULT_RETAIN_DAYS,
            };
            if !dry && !is_truthy(crate::text::opt_chars(q.confirm)) {
                r matches Err(e) && e.is_bad_request(
                    "retain_activity is destructive; pass ?confirm=1 to proceed"@,
                )
            } else {
                r == Ok::<(bool, i64), ApiError>((dry, days))
            }
        }),
{
    let dry = match &q.dry_run {
        Some(s) => truthy(Some(s.as_str())),
        None => truthy(None),
    };
    if !dry {
        let confirmed = match &q.confirm {
            Some(s) => truthy(Some(s.as_str())),
            None => truthy(None),
        };
        if !confirmed {
            proof {
                reveal_strlit("retain_activity");
                reveal_strlit(" is destructive; pass ?confirm=1 to proceed");
                reveal_strlit("retain_activity is destructive; pass ?confirm=1 to proceed");
            }
            return Err(
                ApiError::BadRequest(
                    "retain_activity is destructive; pass ?confirm=1 to proceed".to_owned(),
                ),
            );
        }
    }
    let days = match q.days {
        Some(d) => if d < 1 {
            1
        } else {
            d
        },
        None => DEFAULT_RETAIN_DAYS,
    };
    Ok((dry, days))
}

/// Whether a retention run deletes anything: not on a dry run, and not
/// when no row is old enough.
pub fn retention_deletes(dry_run: bool, candidates: i64) -> (b: bool)
    ensures
        b == (!dry_run && candidates != 0),
{
    !dry_run && candidates != 0
}

/// The audit description of a retention run.
pub fn retention_description(deleted: i64, cutoff_ts: &str, anchor: Option<&str>) -> (d: String)
    ensures
        d@ == "Pruned "@ + signed_decimal(deleted as int) + " activity rows older than "@
            + cutoff_ts@ + " (anchor: "@ + match anchor {
            Some(a) => a@,
            None => "none"@,
        } + ")"@,
{
    let mut d = "Pruned ".to_owned();
    push_i64(&mut d, deleted);
    push_str(&mut d, " activity rows older than ");
    push_str(&mut d, cutoff_ts);
    push_str(&mut d, " (anchor: ");
    match anchor {
        Some(a) => push_str(&mut d, a),
        None => push_str(&mut d, "none"),
    }
    push_str(&mut d, ")");
    d
}

/// The file path of an SQLite database URL: the URL without its
/// `sqlite://` or `sqlite:` scheme, cut at the first `?`; none for an
/// empty path or an in-memory database.
pub open spec fn sqlite_path_spec(url: Seq<char>) -> Option<Seq<char>> {
    let raw = if url.len() >= 9 && url.take(9) == "sqlite://"@ {
        url.skip(9)
    } else if url.len() >= 7 && url.take(7) == "sqlite:"@ {
        url.skip(7)
    } else {
        url
    };
    let path = crate::text::split_spec(raw, '?')[0];
    if path.len() == 0 || path == ":memory:"@ {
        None
    } else {
        Some(path)
    }
}

fn has_prefix(s: &str, p: &str) -> (b: bool)
    ensures
        b == (p@.len() <= s@.len() && s@.take(p@.len() as int) == p@),
{
    let n = s.unicode_len();
    let m = p.unicode_len();
    if m > n {
        return false;
    }
    let head = s.substring_char(0, m);
    assert(head@ =~= s@.take(m as int));
    str_eq(head, p)
}

/// The database file behind a `DATABASE_URL`, if it is a file.
pub fn sqlite_path(database_url: &str) -> (p: Option<String>)
    ensures
        crate::text::opt_chars(p) == sqlite_path_spec(database_url@),
{
    proof {
        reveal_strlit("sqlite://");
        reveal_strlit("sqlite:");
    }
    let n = database_url.unicode_len();
    let raw = if has_prefix(database_url, "sqlite://") {
        database_url.substring_char(9, n)
    } else if has_prefix(database_url, "sqlite:") {
        database_url.substring_char(7, n)
    } else {
        database_url
    };
    proof {
        if "sqlite://"@.len() <= database_url@.len() && database_url@.take(9) == "sqlite://"@ {
            assert(raw@ =~= database_url@.skip(9));
        } else if "sqlite:"@.len() <= database_url@.len() && database_url@.take(7) == "sqlite:"@ {
            assert(raw@ =~= database_url@.skip(7));
        }
    }
    let parts = crate::text::split_on(raw, '?');
    assert(crate::text::split_spec(raw@, '?').len() >= 1);
    assert(parts@.map_values(|q: String| q@).len() == parts@.len());
    assert(parts@.map_values(|q: String| q@)[0] == parts@[0]@);
    let path = &parts[0];
    if path.as_str().is_empty() || str_eq(path.as_str(), ":memory:") {
        None
    } else {
        Some(path.clone())
    }
}

/// Whether SQLite's integrity report is healthy: exactly one row, saying
/// `ok` in any ASCII case.
pub open spec fn integrity_ok(lines: Seq<Seq<char>>) -> bool {
    lines.len() == 1 && lower_spec(lines[0]) == "ok"@
}

/// The message shown for an integrity check: `ok` when healthy, else the
/// first 20 rows joined with `; `.
pub open spec fn integrity_message(lines: Seq<Seq<char>>) -> Seq<char> {
    if integrity_ok(lines) {
        "ok"@
    } else {
        crate::text::join_with(
            lines.take(if lines.len() < 20 {
                lines.len() as int
            } else {
                20
            }),
            "; "@,
        )
    }
}

/// Summarise the rows of SQLite's integrity report.
pub fn integrity_report(lines: &Vec<String>) -> (r: (bool, String))
    ensures
        r.0 == integrity_ok(lines@.map_values(|l: String| l@)),
        r.1@ == integrity_message(lines@.map_values(|l: String| l@)),
{
    let ghost ls = lines@.map_values(|l: String| l@);
    let ok = if lines.len() == 1 {
        let low = lowercase(lines[0].as_str());
        assert(ls[0] == lines@[0]@);
        str_eq(low.as_str(), "ok")
    } else {
        false
    };
    if ok {
        return (true, "ok".to_owned());
    }
    proof {
        reveal_strlit("");
        assert(ls.take(0) =~= Seq::<Seq<char>>::empty());
    }
    let k: usize = if lines.len() < 20 {
        lines.len()
    } else {
        20
    };
    let mut out = String::new();
    let mut i: usize = 0;
    while i < k
        invariant
            i <= k <= lines@.len(),
            ls == lines@.map_values(|l: String| l@),
            out@ == crate::text::join_with(ls.take(i as int), "; "@),
        decreases k - i,
    {
        if i > 0 {
            push_str(&mut out, "; ");
        }
        push_str(&mut out, lines[i].as_str());
        i = i + 1;
        assert(ls.take(i as int).drop_last() =~= ls.take(i - 1));
        assert(ls[i - 1] == lines@[i - 1]@);
        assert(out@ =~= crate::text::join_with(ls.take(i as int), "; "@));
    }
    (false, out)
}

/// One metric in the Prometheus text format: its help line, its type
/// line, and its sample.
pub open spec fn metric(name: Seq<char>, help: Seq<char>, kind: Seq<char>, value: Seq<char>) -> Seq<
    char,
> {
    "# HELP "@ + name + " "@ + help + "\n# TYPE "@ + name + " "@ + kind + "\n"@ + name + " "@ + value
        + "\n"@
}

fn push_metric(s: &mut String, name: &str, help: &str, kind: &str, value: &str)
    ensures
        final(s)@ == old(s)@ + metric(name@, help@, kind@, value@),
{
    push_str(s, "# HELP ");
    push_str(s, name);
    push_str(s, " ");
    push_str(s, help);
    push_str(s, "\n# TYPE ");
    push_str(s, name);
    push_str(s, " ");
    push_str(s, kind);
    push_str(s, "\n");
    push_str(s, name);
    push_str(s, " ");
    push_str(s, value);
    push_str(s, "\n");
    assert(final(s)@ =~= old(s)@ + metric(name@, help@, kind@, value@));
}

/// The tables whose row counts the metrics page reports.
pub open spec fn metric_tables() -> Seq<Seq<char>> {
    seq![
        "items"@,
        "locations"@,
        "suppliers"@,
        "purchase_orders"@,
        "sales_orders"@,
        "transfers"@,
        "counts"@,
    ]
}

/// The tables whose row counts the metrics page reports, in order.
pub fn metric_table_names() -> (v: Vec<&'static str>)
    ensures
        v@.map_values(|t: &'static str| t@) == metric_tables(),
{
    let v = vec!["items", "locations", "suppliers", "purchase_orders", "sales_orders", "transfers", "counts"];
    assert(v@.map_values(|t: &'static str| t@) =~= metric_tables());
    v
}

/// The row-count metrics of the tables, in order.
pub open spec fn table_metrics(tables: Seq<Seq<char>>, counts: Seq<i64>) -> Seq<char>
    decreases tables.len(),
{
    if tables.len() == 0 || counts.len() == 0 {
        Seq::empty()
    } else {
        let k = (tables.len() - 1) as int;
        let t = tables[k];
        table_metrics(tables.take(k), counts.take(k)) + metric(
            "racklog_"@ + t + "_total"@,
            "Number of rows in "@ + t + "."@,
            "gauge"@,
            signed_decimal(counts[k] as int),
        )
    }
}

/// Figures shown on the metrics page.
pub struct MetricsInput {
    pub uptime_seconds: u64,
    pub pool_size: u64,
    pub pool_idle: u64,
    /// Entry count and validity of the audit chain, when it could be read.
    pub audit: Option<(i64, bool)>,
    /// Row counts of `metric_tables()`, in order.
    pub table_counts: Vec<i64>,
    pub database_bytes: u64,
    pub wal_bytes: u64,
}

/// The uptime and pool metrics.
pub open spec fn process_metrics(uptime: u64, size: u64, idle: u64) -> Seq<char> {
    metric("racklog_uptime_seconds"@, "Process uptime in seconds."@, "counter"@, decimal(uptime as nat))
        + metric("racklog_pool_size"@, "Open SQLite pool connections."@, "gauge"@, decimal(size as nat))
        + metric("racklog_pool_idle"@, "Idle SQLite pool connections."@, "gauge"@, decimal(idle as nat))
}

/// The audit-chain metrics, present when the chain could be read.
pub open spec fn audit_metrics(audit: Option<(i64, bool)>) -> Seq<char> {
    match audit {
        Some((entries, valid)) => metric(
            "racklog_audit_entries"@,
            "Number of activity log entries."@,
            "gauge"@,
            signed_decimal(entries as int),
        ) + metric(
            "racklog_audit_chain_valid"@,
            "1 if the audit chain verifies."@,
            "gauge"@,
            if valid {
                "1"@
            } else {
                "0"@
            },
        ),
        None => Seq::empty(),
    }
}

/// The database file-size metrics.
pub open spec fn file_metrics(db: u64, wal: u64) -> Seq<char> {
    metric(
        "racklog_database_bytes"@,
        "On-disk size of the SQLite main file."@,
        "gauge"@,
        decimal(db as nat),
    ) + metric(
        "racklog_wal_bytes"@,
        "On-disk size of the SQLite write-ahead log."@,
        "gauge"@,
        decimal(wal as nat),
    )
}

/// The metrics page.
pub open spec fn metrics_spec(m: MetricsInput) -> Seq<char> {
    process_metrics(m.uptime_seconds, m.pool_size, m.pool_idle) + audit_metrics(m.audit)
        + table_metrics(metric_tables(), m.table_counts@) + file_metrics(
        m.database_bytes,
        m.wal_bytes,
    )
}

fn push_process_metrics(s: &mut String, uptime: u64, size: u64, idle: u64)
    ensures
        final(s)@ == old(s)@ + process_metrics(uptime, size, idle),
{
    let n = crate::numbers::u64_to_string(uptime);
    push_metric(s, "racklog_uptime_seconds", "Process uptime in seconds.", "counter", n.as_str());
    let n = crate::numbers::u64_to_string(size);
    push_metric(s, "racklog_pool_size", "Open SQLite pool connections.", "gauge", n.as_str());
    let n = crate::numbers::u64_to_string(idle);
    push_metric(s, "racklog_pool_idle", "Idle SQLite pool connections.", "gauge", n.as_str());
    assert(final(s)@ =~= old(s)@ + process_metrics(uptime, size, idle));
}

fn push_audit_metrics(s: &mut String, audit: Option<(i64, bool)>)
    ensures
        final(s)@ == old(s)@ + audit_metrics(audit),
{
    match audit {
        Some((entries, valid)) => {
            let mut e = String::new();
            push_i64(&mut e, entries);
            assert(e@ =~= signed_decimal(entries as int));
            push_metric(
                s,
                "racklog_audit_entries",
                "Number of activity log entries.",
                "gauge",
                e.as_str(),
            );
            push_metric(
                s,
                "racklog_audit_chain_valid",
                "1 if the audit chain verifies.",
                "gauge",
                if valid {
                    "1"
                } else {
                    "0"
                },
            );
            assert(final(s)@ =~= old(s)@ + audit_metrics(audit));
        },
        None => {
            assert(s@ =~= old(s)@ + Seq::<char>::empty());
        },
    }
}

fn push_table_metrics(s: &mut String, counts: &Vec<i64>)
    requires
        counts@.len() == metric_tables().len(),
    ensures
        final(s)@ == old(s)@ + table_metrics(metric_tables(), counts@),
{
    let ghost mid = s@;
    let names = metric_table_names();
    let ghost tables = metric_tables();
    let mut i: usize = 0;
    while i < names.len()
        invariant
            i <= names@.len(),
            names@.len() == tables.len(),
            tables == metric_tables(),
            names@.map_values(|t: &'static str| t@) == tables,
            counts@.len() == tables.len(),
            s@ == mid + table_metrics(tables.take(i as int), counts@.take(i as int)),
        decreases names.len() - i,
    {
        let t = names[i];
        assert(t@ == tables[i as int]);
        let mut name = "racklog_".to_owned();
        push_str(&mut name, t);
        push_str(&mut name, "_total");
        let mut help = "Number of rows in ".to_owned();
        push_str(&mut help, t);
        push_str(&mut help, ".");
        let mut v = String::new();
        push_i64(&mut v, counts[i]);
        assert(v@ =~= signed_decimal(counts@[i as int] as int));
        push_metric(s, name.as_str(), help.as_str(), "gauge", v.as_str());
        proof {
            let tk = tables.take(i + 1);
            let ck = counts@.take(i + 1);
            assert(tk.take(i as int) =~= tables.take(i as int));
            assert(ck.take(i as int) =~= counts@.take(i as int));
            assert(tk[i as int] == tables[i as int]);
            assert(ck[i as int] == counts@[i as int]);
        }
        i = i + 1;
        assert(s@ =~= mid + table_metrics(tables.take(i as int), counts@.take(i as int)));
    }
    assert(tables.take(tables.len() as int) =~= tables);
    assert(counts@.take(tables.len() as int) =~= counts@);
}

fn push_file_metrics(s: &mut String, db: u64, wal: u64)
    ensures
        final(s)@ == old(s)@ + file_metrics(db, wal),
{
    let n = crate::numbers::u64_to_string(db);
    push_metric(s, "racklog_database_bytes", "On-disk size of the SQLite main file.", "gauge", n.as_str());
    let n = crate::numbers::u64_to_string(wal);
    push_metric(
        s,
        "racklog_wal_bytes",
        "On-disk size of the SQLite write-ahead log.",
        "gauge",
        n.as_str(),
    );
    assert(final(s)@ =~= old(s)@ + file_metrics(db, wal));
}

/// Render the metrics page.
pub fn metrics_text(m: &MetricsInput) -> (s: String)
    requires
        m.table_counts@.len() == metric_tables().len(),
    ensures
        s@ == metrics_spec(*m),
{
    let mut s = String::new();
    push_process_metrics(&mut s, m.uptime_seconds, m.pool_size, m.pool_idle);
    push_audit_metrics(&mut s, m.audit);
    push_table_metrics(&mut s, &m.table_counts);
    push_file_metrics(&mut s, m.database_bytes, m.wal_bytes);
    assert(s@ =~= metrics_spec(*m));
    s
}

/// The tables whose row counts the statistics page reports, in order.
pub fn stats_table_names() -> (v: Vec<&'static str>)
    ensures
        v@.len() == 12,
        v@[0]@ == "items"@,
        v@[11]@ == "activity_log"@,
{
    vec![
        "items",
        "item_stock",
        "locations",
        "suppliers",
        "purchase_orders",
        "purchase_order_lines",
        "sales_orders",
        "sales_order_lines",
        "transfers",
        "transfer_lines",
        "counts",
        "activity_log",
    ]
}

} // verus!
