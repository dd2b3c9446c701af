//! Runtime settings resolved from environment values. Reading the
//! environment (and parsing the bind address) is the caller's job; every
//! default and every decision on the values read lives here.

use vstd::prelude::*;
use crate::numbers::{i64_text_value, parse_i64, parse_u64, u64_text_value};
use crate::text::{opt_chars, push_str, split_on, split_spec, trim, trim_spec, trimmed};

verus! {

#[derive(Debug, Clone, Copy, PartialEq, Eq, Structural)]
pub enum LogFormat {
    Pretty,
    Json,
}

/// Which origins may call the API cross-site.
pub enum AllowOrigin {
    /// Same-origin only — the default and recommended setting.
    SameOrigin,
    /// Explicit list of trusted origins.
    List(Vec<String>),
}

pub enum ConfigError {
    Invalid(&'static str, String),
}

/// An IP network as plain values: the address bytes (4 for IPv4, 16 for
/// IPv6) and the prefix length.
pub struct ProxyNet {
    pub addr: Vec<u8>,
    pub prefix: u8,
}

/// The plain value of a network.
pub open spec fn net_view(n: ProxyNet) -> (Seq<u8>, u8) {
    (n.addr@, n.prefix)
}

/// Name for the network `ipnet` reads from a text in CIDR notation, as its
/// address bytes and prefix length; `None` when it reads none.
pub uninterp spec fn ipnet_parts(s: Seq<char>) -> Option<(Seq<u8>, u8)>;

/// Whether `ipnet` reads the text as a network.
pub open spec fn ipnet_accepts(s: Seq<char>) -> bool {
    ipnet_parts(s) is Some
}

/// The network read from a text that `ipnet` accepts.
pub open spec fn net_of(s: Seq<char>) -> (Seq<u8>, u8) {
    match ipnet_parts(s) {
        Some(n) => n,
        None => (Seq::empty(), 0u8),
    }
}

/// `<ipnet::IpNet as FromStr>::from_str`, the network taken apart into its
/// address octets and prefix length. Trusted: the result is the named
/// reading of the text, and the error displays as `invalid IP address
/// syntax`.
#[verifier::external_body]
fn parse_ipnet(s: &str) -> (r: Result<ProxyNet, String>)
    ensures
        r is Ok <==> ipnet_parts(s@) is Some,
        r matches Ok(n) ==> ipnet_parts(s@) == Some(net_view(n)),
        r matches Err(m) ==> m@ == "invalid IP address syntax"@,
{
    match s.parse::<ipnet::IpNet>() {
        Ok(ipnet::IpNet::V4(n)) => Ok(ProxyNet { addr: n.addr().octets().to_vec(), prefix: n.prefix_len() }),
        Ok(ipnet::IpNet::V6(n)) => Ok(ProxyNet { addr: n.addr().octets().to_vec(), prefix: n.prefix_len() }),
        Err(e) => Err(e.to_string()),
    }
}

/// Environment values as read, `None` when unset (or not unicode).
pub struct RawEnv {
    pub data_dir: Option<String>,
    pub database_url: Option<String>,
    pub static_dir: Option<String>,
    pub auth_token: Option<String>,
    pub seed_on_empty: Option<String>,
    pub open_signup: Option<String>,
    pub request_timeout_secs: Option<String>,
    pub max_body_bytes: Option<String>,
    pub log_format: Option<String>,
    pub allow_origin: Option<String>,
    pub trust_forwarded_headers: Option<String>,
    pub events_hmac_secret: Option<String>,
    pub max_sessions_per_user: Option<String>,
    pub trusted_proxy_cidr: Option<String>,
}

/// Resolved settings (everything but the bind address).
pub struct Settings {
    pub data_dir: String,
    pub database_url: String,
    pub static_dir: Option<String>,
    pub auth_token: Option<String>,
    pub seed_on_empty: bool,
    pub open_signup: bool,
    pub request_timeout_secs: u64,
    pub max_body_bytes: usize,
    pub log_format: LogFormat,
    pub allow_origin: AllowOrigin,
    pub trust_forwarded_headers: bool,
    pub events_hmac_secret: Option<String>,
    pub max_sessions_per_user: i64,
    pub trusted_proxy_cidrs: Vec<ProxyNet>,
}

/// A boolean flag: `1`/`true`/`TRUE`/`yes` and `0`/`false`/`FALSE`/`no`;
/// anything else (or unset) gives the default.
pub open spec fn flag_value(v: Option<Seq<char>>, default: bool) -> bool {
    match v {
        Some(s) => if s == "1"@ || s == "true"@ || s == "TRUE"@ || s == "yes"@ {
            true
        } else if s == "0"@ || s == "false"@ || s == "FALSE"@ || s == "no"@ {
            false
        } else {
            default
        },
        None => default,
    }
}

fn text_is(s: &str, lit: &str) -> (b: bool)
    ensures
        b == (s@ == lit@),
{
    crate::text::str_eq(s, lit)
}

pub fn parse_bool(v: &Option<String>, default: bool) -> (b: bool)
    ensures
        b == flag_value(opt_chars(*v), default),
{
    match v {
        Some(s) => {
            let s = s.as_str();
            if text_is(s, "1") || text_is(s, "true") || text_is(s, "TRUE") || text_is(s, "yes") {
                true
            } else if text_is(s, "0") || text_is(s, "false") || text_is(s, "FALSE") || text_is(
                s,
                "no",
            ) {
                false
            } else {
                default
            }
        },
        None => default,
    }
}

/// An unsigned number, or the default when unset or unreadable.
pub open spec fn u64_or(v: Option<Seq<char>>, default: u64) -> u64 {
    match v {
        Some(s) => match u64_text_value(s) {
            Some(n) => n,
            None => default,
        },
        None => default,
    }
}

pub fn parse_u64_or(v: &Option<String>, default: u64) -> (n: u64)
    ensures
        n == u64_or(opt_chars(*v), default),
{
    match v {
        Some(s) => match parse_u64(s.as_str()) {
            Some(n) => n,
            None => default,
        },
        None => default,
    }
}

/// A `usize`, or the default when unset, unreadable or too large.
pub open spec fn usize_or(v: Option<Seq<char>>, default: usize) -> usize {
    match v {
        Some(s) => match u64_text_value(s) {
            Some(n) => if n <= usize::MAX {
                n as usize
            } else {
                default
            },
            None => default,
        },
        None => default,
    }
}

pub fn parse_usize_or(v: &Option<String>, default: usize) -> (n: usize)
    ensures
        n == usize_or(opt_chars(*v), default),
{
    match v {
        Some(s) => match parse_u64(s.as_str()) {
            Some(n) => if n <= usize::MAX as u64 {
                n as usize
            } else {
                default
            },
            None => default,
        },
        None => default,
    }
}

/// A value that is set and not empty.
pub open spec fn non_empty(v: Option<Seq<char>>) -> Option<Seq<char>> {
    match v {
        Some(s) => if s.len() > 0 {
            Some(s)
        } else {
            None
        },
        None => None,
    }
}

fn non_empty_of(v: &Option<String>) -> (r: Option<String>)
    ensures
        opt_chars(r) == non_empty(opt_chars(*v)),
{
    match v {
        Some(s) => if s.as_str().is_empty() {
            None
        } else {
            Some(s.clone())
        },
        None => None,
    }
}

/// `dir` joined with a relative file name, as `PathBuf::push` does it on
/// Unix: a `/` is added unless `dir` is empty or already ends in one.
pub open spec fn join_path(dir: Seq<char>, file: Seq<char>) -> Seq<char> {
    if dir.len() == 0 {
        file
    } else if dir.last() == '/' {
        dir + file
    } else {
        dir + "/"@ + file
    }
}

/// Default database URL for a data directory.
pub open spec fn default_database_url(dir: Seq<char>) -> Seq<char> {
    "sqlite://"@ + join_path(dir, "racklog.db"@) + "?mode=rwc"@
}

fn database_url_for(dir: &str) -> (url: String)
    ensures
        url@ == default_database_url(dir@),
{
    let mut url = String::new();
    push_str(&mut url, "sqlite://");
    push_str(&mut url, dir);
    let v = crate::text::chars_of(dir);
    if v.len() > 0 && v[v.len() - 1] != '/' {
        push_str(&mut url, "/");
    }
    push_str(&mut url, "racklog.db");
    push_str(&mut url, "?mode=rwc");
    proof {
        reveal_strlit("/");
    }
    assert(url@ =~= default_database_url(dir@));
    url
}

/// Pieces of a comma-separated list that remain after trimming, blanks dropped.
pub open spec fn cidr_parts(v: Seq<char>) -> Seq<Seq<char>> {
    split_spec(v, ',').map_values(|p: Seq<char>| trim_spec(p)).filter(|p: Seq<char>| p.len() > 0)
}

impl Settings {
    /// The settings are the ones these environment values call for.
    pub open spec fn resolved_from(self, env: RawEnv) -> bool {
        let dir = match opt_chars(env.data_dir) {
            Some(d) => d,
            None => "./data"@,
        };
        &&& self.data_dir@ == dir
        &&& self.database_url@ == match opt_chars(env.database_url) {
            Some(u) => u,
            None => default_database_url(dir),
        }
        &&& opt_chars(self.static_dir) == non_empty(opt_chars(env.static_dir))
        &&& opt_chars(self.auth_token) == non_empty(opt_chars(env.auth_token))
        &&& self.seed_on_empty == flag_value(opt_chars(env.seed_on_empty), true)
        &&& self.open_signup == flag_value(opt_chars(env.open_signup), false)
        &&& self.request_timeout_secs == u64_or(opt_chars(env.request_timeout_secs), 30)
        &&& self.max_body_bytes == usize_or(opt_chars(env.max_body_bytes), 2097152)
        &&& self.log_format == if opt_chars(env.log_format) == Some("json"@) {
            LogFormat::Json
        } else {
            LogFormat::Pretty
        }
        &&& match non_empty(opt_chars(env.allow_origin)) {
            Some(v) => self.allow_origin matches AllowOrigin::List(l) && l@.map_values(
                |o: String| o@,
            ) == split_spec(v, ',').map_values(|p: Seq<char>| trim_spec(p)),
            None => self.allow_origin is SameOrigin,
        }
        &&& self.trust_forwarded_headers == flag_value(
            opt_chars(env.trust_forwarded_headers),
            false,
        )
        &&& opt_chars(self.events_hmac_secret) == non_empty(opt_chars(env.events_hmac_secret))
        &&& self.max_sessions_per_user == match opt_chars(env.max_sessions_per_user) {
            Some(s) => match i64_text_value(s) {
                Some(n) => if n >= 1 {
                    n
                } else {
                    10
                },
                None => 10,
            },
            None => 10,
        }
        &&& self.trusted_proxy_cidrs@.map_values(|n: ProxyNet| net_view(n)) == match non_empty(
            opt_chars(env.trusted_proxy_cidr),
        ) {
            Some(v) => cidr_parts(v).map_values(|p: Seq<char>| net_of(p)),
            None => Seq::empty(),
        }
    }
}

impl Settings {
    /// Settings for tests, read from no environment: the given database
    /// and token, everything else at its default.
    pub fn for_test(database_url: String, auth_token: Option<String>) -> (s: Settings)
        ensures
            s.data_dir@ == "./data"@,
            s.database_url@ == database_url@,
            s.static_dir is None,
            opt_chars(s.auth_token) == opt_chars(auth_token),
            s.seed_on_empty,
            !s.open_signup,
            s.request_timeout_secs == 30,
            s.max_body_bytes == 2097152,
            s.log_format == LogFormat::Pretty,
            s.allow_origin is SameOrigin,
            !s.trust_forwarded_headers,
            s.events_hmac_secret is None,
            s.max_sessions_per_user == 10,
            s.trusted_proxy_cidrs@.len() == 0,
    {
        Settings {
            data_dir: "./data".to_owned(),
            database_url,
            static_dir: None,
            auth_token,
            seed_on_empty: true,
            open_signup: false,
            request_timeout_secs: 30,
            max_body_bytes: 2097152,
            log_format: LogFormat::Pretty,
            allow_origin: AllowOrigin::SameOrigin,
            trust_forwarded_headers: false,
            events_hmac_secret: None,
            max_sessions_per_user: 10,
            trusted_proxy_cidrs: Vec::new(),
        }
    }
}

/// Resolve the settings. Fails only on a trusted-proxy list entry that is
/// not a network, naming the entry.
pub fn resolve_settings(env: &RawEnv) -> (r: Result<Settings, ConfigError>)
    ensures
        match r {
            Ok(s) => s.resolved_from(*env) && (non_empty(opt_chars(env.trusted_proxy_cidr)) matches Some(
                v,
            ) ==> forall|i: int| 0 <= i < cidr_parts(v).len() ==> ipnet_accepts(#[trigger] cidr_parts(v)[i])),
            Err(ConfigError::Invalid(var, msg)) => var@ == "RACKLOG_TRUSTED_PROXY_CIDR"@ && (non_empty(
                opt_chars(env.trusted_proxy_cidr),
            ) matches Some(v) && exists|i: int|
                0 <= i < cidr_parts(v).len() && !ipnet_accepts(#[trigger] cidr_parts(v)[i]) && msg@
                    == cidr_parts(v)[i] + ": invalid IP address syntax"@),
        },
{
    let data_dir = match &env.data_dir {
        Some(d) => d.clone(),
        None => "./data".to_owned(),
    };
    let database_url = match &env.database_url {
        Some(u) => u.clone(),
        None => database_url_for(data_dir.as_str()),
    };
    let log_format = match &env.log_format {
        Some(f) => if text_is(f.as_str(), "json") {
            LogFormat::Json
        } else {
            LogFormat::Pretty
        },
        None => LogFormat::Pretty,
    };
    let allow_origin = match non_empty_of(&env.allow_origin) {
        Some(v) => {
            let parts = split_on(v.as_str(), ',');
            let mut list: Vec<String> = Vec::new();
            let mut i: usize = 0;
            while i < parts.len()
                invariant
                    i <= parts@.len(),
                    list@.map_values(|o: String| o@) == parts@.map_values(|p: String| p@).take(
                        i as int,
                    ).map_values(|p: Seq<char>| trim_spec(p)),
                decreases parts.len() - i,
            {
                let t = trimmed(parts[i].as_str());
                let ghost before = list@.map_values(|o: String| o@);
                list.push(t);
                assert(list@.map_values(|o: String| o@) =~= before.push(t@));
                i = i + 1;
                assert(parts@.map_values(|p: String| p@)[i - 1] == parts@[i - 1]@);
                assert(list@.map_values(|o: String| o@) =~= parts@.map_values(|p: String| p@).take(
                    i as int,
                ).map_values(|p: Seq<char>| trim_spec(p)));
            }
            assert(parts@.map_values(|p: String| p@).take(parts@.len() as int) =~= parts@.map_values(
                |p: String| p@,
            ));
            AllowOrigin::List(list)
        },
        None => AllowOrigin::SameOrigin,
    };
    let max_sessions_per_user: i64 = match &env.max_sessions_per_user {
        Some(s) => match parse_i64(s.as_str()) {
            Some(n) => if n >= 1 {
                n
            } else {
                10
            },
            None => 10,
        },
        None => 10,
    };
    let mut cidrs: Vec<ProxyNet> = Vec::new();
    let ghost mut kept: Seq<Seq<char>> = Seq::empty();
    let proxies = non_empty_of(&env.trusted_proxy_cidr);
    match &proxies {
        Some(v) => {
            assert(opt_chars(proxies) == Some(v@));
            let parts = split_on(v.as_str(), ',');
            let ghost trimmed_parts = parts@.map_values(|p: String| p@).map_values(
                |p: Seq<char>| trim_spec(p),
            );
            let mut i: usize = 0;
            while i < parts.len()
                invariant
                    i <= parts@.len(),
                    non_empty(opt_chars(env.trusted_proxy_cidr)) == Some(v@),
                    parts@.map_values(|p: String| p@) == split_spec(v@, ','),
                    trimmed_parts == parts@.map_values(|p: String| p@).map_values(
                        |p: Seq<char>| trim_spec(p),
                    ),
                    kept == trimmed_parts.take(i as int).filter(|p: Seq<char>| p.len() > 0),
                    cidrs@.map_values(|n: ProxyNet| net_view(n)) == kept.map_values(
                        |p: Seq<char>| net_of(p),
                    ),
                    forall|j: int| 0 <= j < kept.len() ==> ipnet_accepts(#[trigger] kept[j]),
                decreases parts.len() - i,
            {
                let p = trim(parts[i].as_str());
                assert(trimmed_parts[i as int] == p@);
                assert(trimmed_parts.take(i + 1).drop_last() =~= trimmed_parts.take(i as int));
                proof {
                    reveal(Seq::filter);
                }
                if !p.is_empty() {
                    match parse_ipnet(p) {
                        Ok(net) => {
                            let ghost before = cidrs@.map_values(|n: ProxyNet| net_view(n));
                            cidrs.push(net);
                            proof {
                                assert(cidrs@.map_values(|n: ProxyNet| net_view(n)) =~= before.push(
                                    net_of(p@),
                                ));
                                assert(kept.push(p@).map_values(|q: Seq<char>| net_of(q))
                                    =~= kept.map_values(|q: Seq<char>| net_of(q)).push(net_of(p@)));
                                kept = kept.push(p@);
                            }
                        },
                        Err(e) => {
                            let mut msg = String::new();
                            push_str(&mut msg, p);
                            push_str(&mut msg, ": ");
                            push_str(&mut msg, e.as_str());
                            proof {
                                let full = trimmed_parts.filter(|q: Seq<char>| q.len() > 0);
                                assert(trimmed_parts =~= trimmed_parts.take(i + 1) + trimmed_parts.skip(
                                    i + 1,
                                ));
                                Seq::filter_distributes_over_add(
                                    trimmed_parts.take(i + 1),
                                    trimmed_parts.skip(i + 1),
                                    |q: Seq<char>| q.len() > 0,
                                );
                                let k = kept.len() as int;
                                assert(kept.push(p@) == trimmed_parts.take(i + 1).filter(
                                    |q: Seq<char>| q.len() > 0,
                                ));
                                assert(full[k] == p@);
                                assert(trimmed_parts =~= split_spec(v@, ',').map_values(
                                    |q: Seq<char>| trim_spec(q),
                                ));
                                assert(cidr_parts(v@) == full);
                                assert(!ipnet_accepts(cidr_parts(v@)[k]));
                                reveal_strlit(": ");
                                reveal_strlit("invalid IP address syntax");
                                reveal_strlit(": invalid IP address syntax");
                                assert(msg@ =~= cidr_parts(v@)[k] + ": invalid IP address syntax"@);
                                assert(0 <= k < cidr_parts(v@).len());
                                assert(non_empty(opt_chars(env.trusted_proxy_cidr)) == Some(v@));
                            }
                            return Err(ConfigError::Invalid("RACKLOG_TRUSTED_PROXY_CIDR", msg));
                        },
                    }
                }
                i = i + 1;
            }
            assert(trimmed_parts.take(parts@.len() as int) =~= trimmed_parts);
            assert(trimmed_parts =~= split_spec(v@, ',').map_values(|q: Seq<char>| trim_spec(q)));
            assert(kept == cidr_parts(v@));
        },
        None => {
            assert(cidrs@.map_values(|n: ProxyNet| net_view(n)) =~= Seq::<(Seq<u8>, u8)>::empty());
        },
    }
    Ok(
        Settings {
            data_dir,
            database_url,
            static_dir: non_empty_of(&env.static_dir),
            auth_token: non_empty_of(&env.auth_token),
            seed_on_empty: parse_bool(&env.seed_on_empty, true),
            open_signup: parse_bool(&env.open_signup, false),
            request_timeout_secs: parse_u64_or(&env.request_timeout_secs, 30),
            max_body_bytes: parse_usize_or(&env.max_body_bytes, 2097152),
            log_format,
            allow_origin,
            trust_forwarded_headers: parse_bool(&env.trust_forwarded_headers, false),
            events_hmac_secret: non_empty_of(&env.events_hmac_secret),
            max_sessions_per_user,
            trusted_proxy_cidrs: cidrs,
        },
    )
}

} // verus!
