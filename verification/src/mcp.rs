//! The Model Context Protocol bridge: JSON-RPC method routing, and the
//! REST path each inventory tool reads.

use crate::numbers::{push_i64, signed_decimal};
use crate::text::{push_str, str_eq};
use vstd::prelude::*;
use vstd::utf8::encode_utf8;

verus! {

/// Protocol revision the bridge speaks.
pub const PROTOCOL_VERSION: &'static str = "2024-11-05";

/// Server name announced at initialisation.
pub const SERVER_NAME: &'static str = "racklog";

/// JSON-RPC error code of a failed tool call.
pub const TOOL_ERROR: i64 = -32000;

/// JSON-RPC error code of an unknown method.
pub const METHOD_NOT_FOUND: i64 = -32601;

/// JSON-RPC error code of an unparseable request line.
pub const PARSE_ERROR: i64 = -32700;

/// Default address of the inventory service.
pub const DEFAULT_URL: &'static str = "http://127.0.0.1:8080";

/// The tools the bridge offers, as the JSON document `tools/list`
/// answers: each tool's name, what it does (the text a client reads to
/// decide when to call it) and the JSON schema of its arguments.
pub const TOOLS_DESCRIPTOR: &'static str = r#"{
  "tools": [
    {
      "name": "list_items",
      "description": "List items in the inventory catalog. Optional filters: category, supplier id, search query (matches sku and name), limit/offset for pagination.",
      "inputSchema": {
        "type": "object",
        "properties": {
          "category": {"type": "string"},
          "supplier": {"type": "string"},
          "q": {"type": "string"},
          "limit": {"type": "integer", "minimum": 1, "maximum": 5000},
          "offset": {"type": "integer", "minimum": 0}
        }
      }
    },
    {
      "name": "get_item",
      "description": "Fetch a single item by id, including stock by location, variants, lots, serial numbers, tags.",
      "inputSchema": {
        "type": "object",
        "properties": { "id": {"type": "string"} },
        "required": ["id"]
      }
    },
    {
      "name": "lookup_barcode",
      "description": "Resolve a barcode against the local catalog first, then any configured external SKU provider (UPCitemDB, DigiKey).",
      "inputSchema": {
        "type": "object",
        "properties": { "barcode": {"type": "string"} },
        "required": ["barcode"]
      }
    },
    {
      "name": "stats",
      "description": "Dashboard KPIs: total SKUs, total units, $ on-hand, low/out of stock counts, open POs, open SOs, pending transfers, scheduled counts.",
      "inputSchema": { "type": "object", "properties": {} }
    },
    {
      "name": "list_locations",
      "description": "List physical locations (rack → shelf → bin) with their bin codes.",
      "inputSchema": { "type": "object", "properties": {} }
    },
    {
      "name": "list_suppliers",
      "description": "List vendors with lead time, rating, open-PO count, total spend.",
      "inputSchema": { "type": "object", "properties": {} }
    },
    {
      "name": "recent_activity",
      "description": "Most recent entries from the tamper-evident audit log. Use limit to control how many.",
      "inputSchema": {
        "type": "object",
        "properties": { "limit": {"type": "integer", "minimum": 1, "maximum": 5000} }
      }
    },
    {
      "name": "verify_chain",
      "description": "Re-run the SHA-256 audit chain check. Returns valid/invalid plus the head hash for external pinning.",
      "inputSchema": { "type": "object", "properties": {} }
    },
    {
      "name": "forecast_reorder",
      "description": "What needs reordering: items below their min_qty, with avg daily consumption, days_to_stockout, and per-supplier draft POs.",
      "inputSchema": {
        "type": "object",
        "properties": { "lookback": {"type": "integer", "minimum": 7, "maximum": 365} }
      }
    }
  ]
}"#;

/// A byte left as it is by URL encoding: letters, digits, `- . _ ~`.
pub open spec fn is_unreserved(b: u8) -> bool {
    (48 <= b <= 57) || (65 <= b <= 90) || (97 <= b <= 122) || b == 45 || b == 46 || b == 95 || b
        == 126
}

/// Upper-case hex digit of a nibble.
pub open spec fn hex_upper(n: u8) -> char {
    if n < 10 {
        ((48 + n) as u8) as char
    } else {
        ((55 + n) as u8) as char
    }
}

/// Percent-encoding of bytes: unreserved bytes as themselves, every
/// other byte as `%` and two upper-case hex digits.
pub open spec fn percent_encode(data: Seq<u8>) -> Seq<char>
    decreases data.len(),
{
    if data.len() == 0 {
        Seq::empty()
    } else {
        let b = data[0];
        (if is_unreserved(b) {
            seq![b as char]
        } else {
            seq!['%', hex_upper(b / 16), hex_upper(b % 16)]
        }) + percent_encode(data.drop_first())
    }
}

/// `urlencoding::encode`: percent-encodes every byte of the UTF-8 text
/// except letters, digits and `- _ . ~`, with upper-case hex digits.
#[verifier::external_body]
fn url_encode(s: &str) -> (e: String)
    ensures
        e@ == percent_encode(encode_utf8(s@)),
{
    urlencoding::encode(s).into_owned()
}

/// The arguments of a tool call that the tools read.
pub struct ToolArgs {
    pub category: Option<String>,
    pub supplier: Option<String>,
    pub q: Option<String>,
    pub limit: Option<i64>,
    pub offset: Option<i64>,
    pub id: Option<String>,
    pub barcode: Option<String>,
    pub lookback: Option<i64>,
}

/// `key=value&` for a text argument, URL-encoded, if present.
pub open spec fn text_param(key: Seq<char>, v: Option<String>) -> Seq<char> {
    match v {
        Some(s) => key + "="@ + percent_encode(encode_utf8(s@)) + "&"@,
        None => Seq::empty(),
    }
}

/// `key=value&` for a number argument, if present.
pub open spec fn number_param(key: Seq<char>, v: Option<i64>) -> Seq<char> {
    match v {
        Some(n) => key + "="@ + signed_decimal(n as int) + "&"@,
        None => Seq::empty(),
    }
}

/// The REST path a tool reads, or the error returned to the client.
pub open spec fn tool_path_spec(name: Seq<char>, a: ToolArgs) -> Result<Seq<char>, Seq<char>> {
    if name == "list_items"@ {
        Ok(
            "/api/items?"@ + text_param("category"@, a.category) + text_param(
                "supplier"@,
                a.supplier,
            ) + text_param("q"@, a.q) + number_param("limit"@, a.limit) + number_param(
                "offset"@,
                a.offset,
            ),
        )
    } else if name == "get_item"@ {
        match a.id {
            Some(id) => Ok("/api/items/"@ + percent_encode(encode_utf8(id@))),
            None => Err("id is required"@),
        }
    } else if name == "lookup_barcode"@ {
        match a.barcode {
            Some(b) => Ok("/api/lookup/"@ + percent_encode(encode_utf8(b@))),
            None => Err("barcode is required"@),
        }
    } else if name == "stats"@ {
        Ok("/api/stats"@)
    } else if name == "list_locations"@ {
        Ok("/api/locations"@)
    } else if name == "list_suppliers"@ {
        Ok("/api/suppliers"@)
    } else if name == "recent_activity"@ {
        Ok(
            "/api/activity?limit="@ + signed_decimal(
                match a.limit {
                    Some(l) => l as int,
                    None => 50,
                },
            ),
        )
    } else if name == "verify_chain"@ {
        Ok("/api/activity/verify"@)
    } else if name == "forecast_reorder"@ {
        Ok(
            "/api/forecast/reorder?lookback="@ + signed_decimal(
                match a.lookback {
                    Some(l) => l as int,
                    None => 90,
                },
            ),
        )
    } else {
        Err("unknown tool: "@ + name)
    }
}

fn push_text_param(p: &mut String, key: &str, v: &Option<String>)
    ensures
        final(p)@ == old(p)@ + text_param(key@, *v),
{
    match v {
        Some(s) => {
            push_str(p, key);
            push_str(p, "=");
            let e = url_encode(s.as_str());
            push_str(p, e.as_str());
            push_str(p, "&");
        },
        None => {},
    }
    assert(final(p)@ =~= old(p)@ + text_param(key@, *v));
}

fn push_number_param(p: &mut String, key: &str, v: Option<i64>)
    ensures
        final(p)@ == old(p)@ + number_param(key@, v),
{
    match v {
        Some(n) => {
            push_str(p, key);
            push_str(p, "=");
            push_i64(p, n);
            push_str(p, "&");
        },
        None => {},
    }
    assert(final(p)@ =~= old(p)@ + number_param(key@, v));
}

/// The REST path of a tool call.
pub fn tool_path(name: &str, args: &ToolArgs) -> (r: Result<String, String>)
    ensures
        match r {
            Ok(p) => tool_path_spec(name@, *args) == Ok::<Seq<char>, Seq<char>>(p@),
            Err(e) => tool_path_spec(name@, *args) == Err::<Seq<char>, Seq<char>>(e@),
        },
{
    if str_eq(name, "list_items") {
        let mut p = "/api/items?".to_owned();
        push_text_param(&mut p, "category", &args.category);
        push_text_param(&mut p, "supplier", &args.supplier);
        push_text_param(&mut p, "q", &args.q);
        push_number_param(&mut p, "limit", args.limit);
        push_number_param(&mut p, "offset", args.offset);
        assert(p@ =~= tool_path_spec(name@, *args)->Ok_0);
        Ok(p)
    } else if str_eq(name, "get_item") {
        match &args.id {
            Some(id) => {
                let mut p = "/api/items/".to_owned();
                let e = url_encode(id.as_str());
                push_str(&mut p, e.as_str());
                Ok(p)
            },
            None => Err("id is required".to_owned()),
        }
    } else if str_eq(name, "lookup_barcode") {
        match &args.barcode {
            Some(b) => {
                let mut p = "/api/lookup/".to_owned();
                let e = url_encode(b.as_str());
                push_str(&mut p, e.as_str());
                Ok(p)
            },
            None => Err("barcode is required".to_owned()),
        }
    } else if str_eq(name, "stats") {
        Ok("/api/stats".to_owned())
    } else if str_eq(name, "list_locations") {
        Ok("/api/locations".to_owned())
    } else if str_eq(name, "list_suppliers") {
        Ok("/api/suppliers".to_owned())
    } else if str_eq(name, "recent_activity") {
        let mut p = "/api/activity?limit=".to_owned();
        push_i64(
            &mut p,
            match args.limit {
                Some(l) => l,
                None => 50,
            },
        );
        Ok(p)
    } else if str_eq(name, "verify_chain") {
        Ok("/api/activity/verify".to_owned())
    } else if str_eq(name, "forecast_reorder") {
        let mut p = "/api/forecast/reorder?lookback=".to_owned();
        push_i64(
            &mut p,
            match args.lookback {
                Some(l) => l,
                None => 90,
            },
        );
        Ok(p)
    } else {
        let mut e = "unknown tool: ".to_owned();
        push_str(&mut e, name);
        Err(e)
    }
}

/// What a JSON-RPC method asks for.
#[derive(Debug, PartialEq, Eq, Structural)]
pub enum RpcRoute {
    Initialize,
    ToolsList,
    ToolsCall,
    Ping,
    NotFound,
}

/// Route a JSON-RPC method.
pub fn route_method(method: &str) -> (r: RpcRoute)
    ensures
        r == (if method@ == "initialize"@ {
            RpcRoute::Initialize
        } else if method@ == "tools/list"@ {
            RpcRoute::ToolsList
        } else if method@ == "tools/call"@ {
            RpcRoute::ToolsCall
        } else if method@ == "ping"@ {
            RpcRoute::Ping
        } else {
            RpcRoute::NotFound
        }),
{
    if str_eq(method, "initialize") {
        RpcRoute::Initialize
    } else if str_eq(method, "tools/list") {
        RpcRoute::ToolsList
    } else if str_eq(method, "tools/call") {
        RpcRoute::ToolsCall
    } else if str_eq(method, "ping") {
        RpcRoute::Ping
    } else {
        RpcRoute::NotFound
    }
}

/// The message of an unknown method.
pub fn method_not_found_message(method: &str) -> (m: String)
    ensures
        m@ == "method not found: "@ + method@,
{
    let mut m = "method not found: ".to_owned();
    push_str(&mut m, method);
    m
}

/// Whether a request is a notification that gets no reply: it has no id
/// and its method is under `notifications/`.
pub fn is_silent_notification(has_id: bool, method: &str) -> (b: bool)
    ensures
        b == (!has_id && method@.len() >= 14 && method@.take(14) == "notifications/"@),
{
    proof {
        reveal_strlit("notifications/");
    }
    if has_id {
        return false;
    }
    let n = method.unicode_len();
    if n < 14 {
        return false;
    }
    let head = method.substring_char(0, 14);
    assert(head@ =~= method@.take(14));
    str_eq(head, "notifications/")
}

/// The service address: the configured URL (by default the local one)
/// without trailing slashes.
pub open spec fn service_base(url: Seq<char>) -> Seq<char>
    decreases url.len(),
{
    if url.len() > 0 && url.last() == '/' {
        service_base(url.drop_last())
    } else {
        url
    }
}

/// Read the service address.
pub fn client_base(url: Option<&str>) -> (b: String)
    ensures
        b@ == service_base(
            match url {
                Some(u) => u@,
                None => DEFAULT_URL@,
            },
        ),
{
    let u = match url {
        Some(u) => u,
        None => DEFAULT_URL,
    };
    let v = crate::text::chars_of(u);
    let mut n = v.len();
    assert(v@.take(n as int) =~= v@);
    while n > 0 && v[n - 1] == '/'
        invariant
            n <= v@.len(),
            v@ == u@,
            service_base(v@) == service_base(v@.take(n as int)),
        decreases n,
    {
        assert(v@.take(n as int).drop_last() =~= v@.take(n - 1));
        n = n - 1;
    }
    crate::text::string_from_chars(&v, 0, n)
}

} // verus!
