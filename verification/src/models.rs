//! Domain records without money amounts: locations, stock lines, pick
//! orders, transfers, cycle counts and activity entries, with the rules
//! that turn a request body into a stored record.

use crate::audit::StoredEntry;
use crate::errors::ApiError;
use crate::numbers::{push_i64, signed_decimal};
use crate::text::{opt_chars, push_str, trim, trim_spec};
use vstd::prelude::*;

verus! {

/// A storage location.
pub struct Location {
    pub id: String,
    pub code: String,
    pub name: String,
    pub kind: String,
    pub parent: Option<String>,
    pub bins: Vec<String>,
}

/// A location as a request gives it; the id is optional.
pub struct LocationInput {
    pub id: Option<String>,
    pub code: String,
    pub name: String,
    pub kind: String,
    pub parent: Option<String>,
    pub bins: Vec<String>,
}

/// Quantity of an item at one bin of one location.
pub struct StockLine {
    /// Location id.
    pub l: String,
    /// Bin code within the location.
    pub b: String,
    /// On-hand quantity at this bin.
    pub q: i64,
    pub serial: Option<Vec<String>>,
}

/// A variant of an item.
pub struct Variant {
    pub name: String,
    pub sku: Option<String>,
    pub q: i64,
}

/// A lot of an item, with its expiry.
pub struct Lot {
    pub lot: String,
    pub exp: Option<String>,
    pub q: i64,
}

/// One line of a pick order.
pub struct SalesLine {
    pub sku: String,
    pub qty: i64,
}

/// A pick (sales) order.
pub struct SalesOrder {
    pub id: String,
    pub proj: Option<String>,
    pub status: String,
    pub created: String,
    pub priority: Option<String>,
    pub lines: Vec<SalesLine>,
}

/// A pick order as a request gives it.
pub struct SalesOrderInput {
    pub id: Option<String>,
    pub proj: Option<String>,
    pub status: String,
    pub created: String,
    pub priority: Option<String>,
    pub lines: Vec<SalesLine>,
}

/// One line of a transfer.
pub struct TransferLine {
    pub sku: String,
    pub qty: i64,
}

/// A transfer of stock between locations.
pub struct Transfer {
    pub id: String,
    pub from: Option<String>,
    pub to: Option<String>,
    pub date: String,
    pub status: String,
    pub lines: Vec<TransferLine>,
}

/// A transfer as a request gives it.
pub struct TransferInput {
    pub id: Option<String>,
    pub from: Option<String>,
    pub to: Option<String>,
    pub date: String,
    pub status: String,
    pub lines: Vec<TransferLine>,
}

/// A cycle count.
pub struct Count {
    pub id: String,
    pub loc: Option<String>,
    pub date: String,
    pub status: String,
    pub counted: i64,
    pub variance: i64,
    pub by: Option<String>,
}

/// A cycle count as a request gives it.
pub struct CountInput {
    pub id: Option<String>,
    pub loc: Option<String>,
    pub date: String,
    pub status: String,
    pub counted: i64,
    pub variance: i64,
    pub by: Option<String>,
}

/// One entry of the activity log as the API shows it.
pub struct ActivityEntry {
    pub ts: String,
    pub user: String,
    pub kind: String,
    pub reference: Option<String>,
    pub desc: String,
    /// Hex SHA-256 for the chain.
    pub hash: Option<String>,
    pub prev_hash: Option<String>,
}

impl ActivityEntry {
    /// The API view of a stored log row.
    pub fn from_stored(e: StoredEntry) -> (a: ActivityEntry)
        ensures
            a.ts@ == e.ts@,
            a.user@ == e.user@,
            a.kind@ == e.kind@,
            opt_chars(a.reference) == opt_chars(e.reference),
            a.desc@ == e.description@,
            opt_chars(a.hash) == Some(e.hash@),
            opt_chars(a.prev_hash) == opt_chars(e.prev_hash),
    {
        ActivityEntry {
            ts: e.ts,
            user: e.user,
            kind: e.kind,
            reference: e.reference,
            desc: e.description,
            hash: Some(e.hash),
            prev_hash: e.prev_hash,
        }
    }
}

/// The unit of an item when none is given.
pub fn default_unit() -> (u: String)
    ensures
        u@ == "ea"@,
{
    "ea".to_owned()
}

/// The id of a new record: the one given, else `prefix` followed by the
/// decimal `stamp` (a clock reading).
pub fn record_id(given: Option<String>, prefix: &str, stamp: i64) -> (id: String)
    ensures
        id@ == match given {
            Some(g) => g@,
            None => prefix@ + signed_decimal(stamp as int),
        },
{
    match given {
        Some(g) => g,
        None => {
            let mut s = prefix.to_owned();
            push_i64(&mut s, stamp);
            s
        },
    }
}

impl Location {
    /// The stored location of a request, under `id`.
    pub fn from_input(id: String, input: LocationInput) -> (l: Location)
        ensures
            l.id@ == id@,
            l.code@ == input.code@,
            l.name@ == input.name@,
            l.kind@ == input.kind@,
            opt_chars(l.parent) == opt_chars(input.parent),
            l.bins@ == input.bins@,
    {
        Location {
            id,
            code: input.code,
            name: input.name,
            kind: input.kind,
            parent: input.parent,
            bins: input.bins,
        }
    }
}

impl SalesOrder {
    /// The stored pick order of a request, under `id`.
    pub fn from_input(id: String, input: SalesOrderInput) -> (o: SalesOrder)
        ensures
            o.id@ == id@,
            opt_chars(o.proj) == opt_chars(input.proj),
            o.status@ == input.status@,
            o.created@ == input.created@,
            opt_chars(o.priority) == opt_chars(input.priority),
            o.lines@ == input.lines@,
    {
        SalesOrder {
            id,
            proj: input.proj,
            status: input.status,
            created: input.created,
            priority: input.priority,
            lines: input.lines,
        }
    }
}

impl Transfer {
    /// The stored transfer of a request, under `id`.
    pub fn from_input(id: String, input: TransferInput) -> (t: Transfer)
        ensures
            t.id@ == id@,
            opt_chars(t.from) == opt_chars(input.from),
            opt_chars(t.to) == opt_chars(input.to),
            t.date@ == input.date@,
            t.status@ == input.status@,
            t.lines@ == input.lines@,
    {
        Transfer {
            id,
            from: input.from,
            to: input.to,
            date: input.date,
            status: input.status,
            lines: input.lines,
        }
    }

    /// Audit description of a new transfer: its id and its two ends (`?`
    /// for an end left open).
    pub fn created_description(id: &str, from: Option<&str>, to: Option<&str>) -> (d: String)
        ensures
            d@ == "Created transfer "@ + id@ + " ("@ + match from {
                Some(f) => f@,
                None => "?"@,
            } + " \u{2192} "@ + match to {
                Some(t) => t@,
                None => "?"@,
            } + ")"@,
    {
        let mut d = "Created transfer ".to_owned();
        push_str(&mut d, id);
        push_str(&mut d, " (");
        match from {
            Some(f) => push_str(&mut d, f),
            None => push_str(&mut d, "?"),
        }
        push_str(&mut d, " \u{2192} ");
        match to {
            Some(t) => push_str(&mut d, t),
            None => push_str(&mut d, "?"),
        }
        push_str(&mut d, ")");
        d
    }
}

impl Count {
    /// The stored count of a request, under `id`.
    pub fn from_input(id: String, input: CountInput) -> (c: Count)
        ensures
            c.id@ == id@,
            opt_chars(c.loc) == opt_chars(input.loc),
            c.date@ == input.date@,
            c.status@ == input.status@,
            c.counted == input.counted,
            c.variance == input.variance,
            opt_chars(c.by) == opt_chars(input.by),
    {
        Count {
            id,
            loc: input.loc,
            date: input.date,
            status: input.status,
            counted: input.counted,
            variance: input.variance,
            by: input.by,
        }
    }

    /// Audit description of an updated count, with its variance.
    pub fn updated_description(id: &str, variance: i64) -> (d: String)
        ensures
            d@ == "Updated count "@ + id@ + " (variance "@ + signed_decimal(variance as int) + ")"@,
    {
        let mut d = "Updated count ".to_owned();
        push_str(&mut d, id);
        push_str(&mut d, " (variance ");
        push_i64(&mut d, variance);
        push_str(&mut d, ")");
        d
    }
}

/// The checks on an item body: SKU and name must not be blank, on-hand
/// and allocated quantities must not be negative.
pub fn validate_item(sku: &str, name: &str, qty: i64, allocated: i64) -> (r: Result<(), ApiError>)
    ensures
        trim_spec(sku@).len() == 0 || trim_spec(name@).len() == 0 ==> (r matches Err(e)
            && e.is_bad_request("sku and name are required"@)),
        !(trim_spec(sku@).len() == 0 || trim_spec(name@).len() == 0) && (qty < 0 || allocated < 0)
            ==> (r matches Err(e) && e.is_bad_request("qty and allocated must be \u{2265} 0"@)),
        !(trim_spec(sku@).len() == 0 || trim_spec(name@).len() == 0) && qty >= 0 && allocated >= 0
            ==> r is Ok,
{
    if trim(sku).is_empty() || trim(name).is_empty() {
        return Err(ApiError::BadRequest("sku and name are required".to_owned()));
    }
    if qty < 0 || allocated < 0 {
        return Err(ApiError::BadRequest("qty and allocated must be \u{2265} 0".to_owned()));
    }
    Ok(())
}

/// The checks on a location or supplier body: code and name must not be
/// blank.
pub fn validate_code_name(code: &str, name: &str) -> (r: Result<(), ApiError>)
    ensures
        trim_spec(code@).len() == 0 || trim_spec(name@).len() == 0 ==> (r matches Err(e)
            && e.is_bad_request("code and name are required"@)),
        !(trim_spec(code@).len() == 0 || trim_spec(name@).len() == 0) ==> r is Ok,
{
    if trim(code).is_empty() || trim(name).is_empty() {
        return Err(ApiError::BadRequest("code and name are required".to_owned()));
    }
    Ok(())
}

/// `n` SQL placeholders separated by commas, for an `IN (...)` list.
pub open spec fn placeholders_spec(n: nat) -> Seq<char>
    decreases n,
{
    if n == 0 {
        Seq::empty()
    } else if n == 1 {
        "?"@
    } else {
        placeholders_spec((n - 1) as nat) + ",?"@
    }
}

/// Placeholders for an `IN (...)` list of `n` values.
pub fn placeholders(n: usize) -> (s: String)
    ensures
        s@ == placeholders_spec(n as nat),
{
    let mut s = String::new();
    let mut i: usize = 0;
    while i < n
        invariant
            i <= n,
            s@ == placeholders_spec(i as nat),
        decreases n - i,
    {
        if i == 0 {
            push_str(&mut s, "?");
        } else {
            push_str(&mut s, ",?");
        }
        i = i + 1;
    }
    s
}

} // verus!
