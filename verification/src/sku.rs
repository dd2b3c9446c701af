//! External SKU lookup: barcode validation, the provider chain (first
//! provider with hits wins), and the decisions of the two providers.

use crate::errors::ApiError;
use crate::numbers::decimal;
use crate::text::{push_str, str_eq, trim, trim_spec};
use vstd::prelude::*;
use vstd::utf8::encode_utf8;

verus! {

/// Why a lookup failed. Transport and decoding failures carry the text
/// of the underlying error.
#[derive(Debug)]
pub enum LookupError {
    NoProvider,
    InvalidBarcode,
    Provider(String),
    Network(String),
    Json(String),
}

/// A character allowed in a barcode: letters, digits, `-`, `_`.
pub open spec fn is_barcode_char(c: char) -> bool {
    ('a' <= c && c <= 'z') || ('A' <= c && c <= 'Z') || ('0' <= c && c <= '9') || c == '-' || c
        == '_'
}

/// A barcode, once trimmed, is 1 to 32 bytes of letters, digits, `-`, `_`.
pub open spec fn barcode_ok(s: Seq<char>) -> bool {
    let t = trim_spec(s);
    &&& t.len() > 0
    &&& encode_utf8(t).len() <= 32
    &&& forall|i: int| 0 <= i < t.len() ==> #[trigger] is_barcode_char(t[i])
}

/// Reject junk before any network call, and give the barcode back in its
/// canonical, trimmed form.
pub fn validate_barcode(s: &str) -> (r: Result<&str, LookupError>)
    ensures
        barcode_ok(s@) ==> (r matches Ok(t) && t@ == trim_spec(s@)),
        !barcode_ok(s@) ==> (r matches Err(LookupError::InvalidBarcode)),
{
    let t = trim(s);
    if t.is_empty() || t.as_bytes().len() > 32 {
        return Err(LookupError::InvalidBarcode);
    }
    let v = crate::text::chars_of(t);
    let mut i: usize = 0;
    while i < v.len()
        invariant
            i <= v@.len(),
            v@ == t@,
            t@ == trim_spec(s@),
            forall|j: int| 0 <= j < i ==> #[trigger] is_barcode_char(v@[j]),
        decreases v.len() - i,
    {
        let c = v[i];
        let ok = ('a' <= c && c <= 'z') || ('A' <= c && c <= 'Z') || ('0' <= c && c <= '9') || c
            == '-' || c == '_';
        if !ok {
            assert(!is_barcode_char(trim_spec(s@)[i as int]));
            return Err(LookupError::InvalidBarcode);
        }
        i = i + 1;
    }
    Ok(t)
}

/// The canonical barcode of a lookup request, or the client's error.
pub fn canonical_barcode(s: &str) -> (r: Result<String, ApiError>)
    ensures
        barcode_ok(s@) ==> (r matches Ok(t) && t@ == trim_spec(s@)),
        !barcode_ok(s@) ==> (r matches Err(e) && e.is_bad_request(
            "barcode must be 1–32 chars, alphanumeric/_/- only"@,
        )),
{
    match validate_barcode(s) {
        Ok(t) => Ok(t.to_owned()),
        Err(_) => Err(ApiError::BadRequest("barcode must be 1–32 chars, alphanumeric/_/- only".to_owned())),
    }
}

/// Where a provider chain stands after one provider answered.
pub enum ChainStep<T> {
    /// A provider had hits: they are the answer.
    Found(Vec<T>),
    /// Go on to the next provider, remembering the last failure.
    Next(Option<LookupError>),
}

/// Fold one provider's answer into the chain: hits end it; an empty
/// answer keeps the last failure; a failure replaces it.
pub fn chain_step<T>(last_err: Option<LookupError>, answer: Result<Vec<T>, LookupError>) -> (r: ChainStep<T>)
    ensures
        match answer {
            Ok(hits) => if hits@.len() > 0 {
                r matches ChainStep::Found(h) && h@ == hits@
            } else {
                r matches ChainStep::Next(e) && e == last_err
            },
            Err(e) => r matches ChainStep::Next(Some(x)) && x == e,
        },
{
    match answer {
        Ok(hits) => {
            if hits.len() > 0 {
                ChainStep::Found(hits)
            } else {
                ChainStep::Next(last_err)
            }
        },
        Err(e) => ChainStep::Next(Some(e)),
    }
}

/// The answer of a chain that ran out of providers without hits: the
/// last failure if any provider failed, else no hits.
pub fn chain_end<T>(last_err: Option<LookupError>) -> (r: Result<Vec<T>, LookupError>)
    ensures
        match last_err {
            Some(e) => r matches Err(x) && x == e,
            None => r matches Ok(v) && v@.len() == 0,
        },
{
    match last_err {
        Some(e) => Err(e),
        None => Ok(Vec::new()),
    }
}

/// A chain with no provider at all fails at once.
pub fn chain_start(providers: usize) -> (r: Result<(), LookupError>)
    ensures
        providers == 0 ==> (r matches Err(LookupError::NoProvider)),
        providers > 0 ==> r is Ok,
{
    if providers == 0 {
        Err(LookupError::NoProvider)
    } else {
        Ok(())
    }
}

/// What the lookup endpoint answers with the chain's outcome: its hits;
/// nothing when no provider is configured or a provider failed; 400 for
/// an invalid barcode.
pub fn lookup_answer<T>(outcome: Result<Vec<T>, LookupError>) -> (r: Result<Vec<T>, ApiError>)
    ensures
        match outcome {
            Ok(h) => r matches Ok(x) && x@ == h@,
            Err(LookupError::InvalidBarcode) => r matches Err(e) && e.is_bad_request(
                "invalid barcode"@,
            ),
            Err(_) => r matches Ok(x) && x@.len() == 0,
        },
{
    match outcome {
        Ok(h) => Ok(h),
        Err(LookupError::InvalidBarcode) => Err(ApiError::BadRequest("invalid barcode".to_owned())),
        Err(_) => Ok(Vec::new()),
    }
}

/// The names of the configured providers, as `/lookup/providers` lists
/// them.
pub struct ProvidersResponse {
    pub providers: Vec<&'static str>,
}

/// Which providers run: UPCitemDB unless disabled with `1`, DigiKey when
/// both of its credentials are set; in that order.
pub fn provider_plan(upc_disabled: Option<&str>, digikey_id: bool, digikey_secret: bool) -> (r: (
    bool,
    bool,
))
    ensures
        r.0 == !(crate::text::opt_str(upc_disabled) == Some("1"@)),
        r.1 == (digikey_id && digikey_secret),
{
    let upc = match upc_disabled {
        Some(v) => !str_eq(v, "1"),
        None => true,
    };
    (upc, digikey_id && digikey_secret)
}

/// Default UPCitemDB endpoint.
pub const UPCITEMDB_ENDPOINT: &'static str = "https://api.upcitemdb.com/prod/trial/lookup";

/// The UPCitemDB provider: free trial endpoint, no authentication.
pub struct UpcItemDb {
    pub base: String,
}

impl UpcItemDb {
    /// A provider using `base`, or the public endpoint.
    pub fn new(base: Option<String>) -> (u: UpcItemDb)
        ensures
            u.base@ == match base {
                Some(b) => b@,
                None => UPCITEMDB_ENDPOINT@,
            },
    {
        match base {
            Some(b) => UpcItemDb { base: b },
            None => UpcItemDb { base: UPCITEMDB_ENDPOINT.to_owned() },
        }
    }

    /// The lookup URL of a barcode.
    pub fn lookup_url(&self, barcode: &str) -> (u: String)
        ensures
            u@ == self.base@ + "?upc="@ + barcode@,
    {
        let mut u = self.base.clone();
        push_str(&mut u, "?upc=");
        push_str(&mut u, barcode);
        u
    }
}

/// Whether a UPCitemDB response code means hits: no code, `OK` or
/// `FOUND`; the API answers 200 even for an invalid UPC.
pub fn upc_code_has_hits(code: Option<&str>) -> (b: bool)
    ensures
        b == match code {
            Some(c) => c@ == "OK"@ || c@ == "FOUND"@,
            None => true,
        },
{
    match code {
        Some(c) => str_eq(c, "OK") || str_eq(c, "FOUND"),
        None => true,
    }
}

/// The DigiKey provider's configuration.
pub struct DigiKey {
    pub client_id: String,
    pub site: String,
    pub language: String,
    pub currency: String,
    pub base_url: String,
    pub token_url: String,
}

impl DigiKey {
    /// A DigiKey provider against `base_url` (by default the public API),
    /// minting tokens at `/v1/oauth2/token` under it.
    pub fn new(client_id: String, site: String, language: String, currency: String, base_url: Option<String>) -> (d: DigiKey)
        ensures
            d.client_id@ == client_id@,
            d.site@ == site@,
            d.language@ == language@,
            d.currency@ == currency@,
            d.base_url@ == match base_url {
                Some(b) => b@,
                None => "https://api.digikey.com"@,
            },
            d.token_url@ == d.base_url@ + "/v1/oauth2/token"@,
    {
        let base = match base_url {
            Some(b) => b,
            None => "https://api.digikey.com".to_owned(),
        };
        let mut token_url = String::new();
        push_str(&mut token_url, base.as_str());
        push_str(&mut token_url, "/v1/oauth2/token");
        DigiKey { client_id, site, language, currency, base_url: base, token_url }
    }

    /// The barcode search URL.
    pub fn barcode_url(&self, barcode: &str) -> (u: String)
        ensures
            u@ == self.base_url@ + "/products/v4/search/barcode/"@ + barcode@,
    {
        let mut u = String::new();
        push_str(&mut u, self.base_url.as_str());
        push_str(&mut u, "/products/v4/search/barcode/");
        push_str(&mut u, barcode);
        u
    }
}

/// Seconds a minted DigiKey token is cached: its lifetime (540 when not
/// given) less a 30-second safety margin, never negative.
pub fn token_cache_secs(expires_in: Option<u64>) -> (s: u64)
    ensures
        s == ({
            let l = match expires_in {
                Some(e) => e,
                None => 540,
            };
            if l >= 30 {
                (l - 30) as u64
            } else {
                0
            }
        }),
{
    let l = match expires_in {
        Some(e) => e,
        None => 540,
    };
    if l >= 30 {
        l - 30
    } else {
        0
    }
}

/// What a DigiKey barcode search does next with a response status.
pub enum DigiKeyNext {
    /// 200: read the body.
    ReadBody,
    /// 404: no hits.
    NoHits,
    /// First 401: drop the cached token and retry once.
    Retry,
    /// Any other status, or a second 401: fail with this message.
    Fail(String),
}

/// The DigiKey retry policy: a 401 on the first attempt retries with a
/// fresh token, a second 401 fails.
pub fn digikey_next(status: u16, attempt: u8) -> (n: DigiKeyNext)
    ensures
        status == 200 ==> n is ReadBody,
        status == 404 ==> n is NoHits,
        status == 401 && attempt < 2 ==> n is Retry,
        status == 401 && attempt >= 2 ==> (n matches DigiKeyNext::Fail(m) && m@
            == "digikey: unauthorised (token rotation failed)"@),
        status != 200 && status != 404 && status != 401 ==> (n matches DigiKeyNext::Fail(m) && m@
            == "digikey: status "@ + decimal(status as nat)),
{
    if status == 200 {
        DigiKeyNext::ReadBody
    } else if status == 404 {
        DigiKeyNext::NoHits
    } else if status == 401 {
        if attempt < 2 {
            DigiKeyNext::Retry
        } else {
            DigiKeyNext::Fail("digikey: unauthorised (token rotation failed)".to_owned())
        }
    } else {
        let mut m = "digikey: status ".to_owned();
        let n = crate::numbers::u64_to_string(status as u64);
        push_str(&mut m, n.as_str());
        DigiKeyNext::Fail(m)
    }
}

} // verus!
