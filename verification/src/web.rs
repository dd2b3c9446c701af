//! Serving the dashboard: which asset paths may be served, the content
//! type of an asset, and the hydration of the index page.

use crate::text::{chars_of, push_char, push_str, str_eq};
use vstd::prelude::*;

verus! {

/// Marker in the index template replaced by the bootstrap script.
pub const BOOTSTRAP_MARKER: &'static str = "<!-- RACKLOG_BOOTSTRAP -->";

/// `s` holds `p` starting at position `i`.
pub open spec fn occurs_at(s: Seq<char>, p: Seq<char>, i: int) -> bool {
    0 <= i && i + p.len() <= s.len() && s.subrange(i, i + p.len()) == p
}

/// An asset path may be served when it holds no `..` and does not start
/// with `/`, so that it cannot leave the asset directory.
pub open spec fn asset_path_ok(path: Seq<char>) -> bool {
    !(exists|i: int| #[trigger] occurs_at(path, ".."@, i)) && !(path.len() > 0 && path[0] == '/')
}

/// Whether an asset path may be served.
pub fn asset_path_allowed(path: &str) -> (b: bool)
    ensures
        b == asset_path_ok(path@),
{
    proof {
        reveal_strlit("..");
    }
    let v = chars_of(path);
    if v.len() > 0 && v[0] == '/' {
        return false;
    }
    let n = v.len();
    let mut i: usize = 0;
    while n >= 2 && i <= n - 2
        invariant
            v@ == path@,
            n == v@.len(),
            i <= v@.len(),
            ".."@.len() == 2 && ".."@[0] == '.' && ".."@[1] == '.',
            forall|j: int| 0 <= j < i ==> !#[trigger] occurs_at(path@, ".."@, j),
        decreases v.len() - i,
    {
        if v[i] == '.' && v[i + 1] == '.' {
            assert(path@.subrange(i as int, i + 2) =~= ".."@);
            assert(occurs_at(path@, ".."@, i as int));
            return false;
        }
        assert(path@.subrange(i as int, i + 2) != ".."@) by {
            if path@.subrange(i as int, i + 2) == ".."@ {
                assert(path@.subrange(i as int, i + 2)[0] == path@[i as int]);
                assert(path@.subrange(i as int, i + 2)[1] == path@[i + 1]);
            }
        }
        i = i + 1;
    }
    assert forall|j: int| !#[trigger] occurs_at(path@, ".."@, j) by {
        if 0 <= j < i {
        } else if occurs_at(path@, ".."@, j) {
            assert(j + 2 <= path@.len());
        }
    }
    true
}

/// Name for the content type `mime_guess` gives a path (the first guess,
/// or `application/octet-stream`).
pub uninterp spec fn mime_of(path: Seq<char>) -> Seq<char>;

/// `mime_guess::from_path(path).first_or_octet_stream()`, as text.
/// Trusted: the result is the named guess for the path.
#[verifier::external_body]
fn guess_mime(path: &str) -> (m: String)
    ensures
        m@ == mime_of(path@),
{
    mime_guess::from_path(path).first_or_octet_stream().to_string()
}

/// How long a browser may cache a served asset.
pub const ASSET_CACHE_CONTROL: &'static str = "public, max-age=300";

/// The headers an asset is served with: its content type, guessed from
/// the path, and the cache policy.
pub fn asset_headers(path: &str) -> (h: (String, &'static str))
    ensures
        h.0@ == mime_of(path@),
        h.1@ == ASSET_CACHE_CONTROL@,
{
    (guess_mime(path), ASSET_CACHE_CONTROL)
}

/// `str::replace`: every non-overlapping occurrence of `pat`, from left
/// to right, replaced by `rep`.
pub open spec fn replace_all(s: Seq<char>, pat: Seq<char>, rep: Seq<char>) -> Seq<char>
    recommends
        pat.len() > 0,
    decreases s.len(),
{
    if s.len() == 0 || pat.len() == 0 {
        s
    } else if occurs_at(s, pat, 0) {
        rep + replace_all(s.skip(pat.len() as int), pat, rep)
    } else {
        seq![s[0]] + replace_all(s.drop_first(), pat, rep)
    }
}

/// Replace every occurrence of `pat` in `s` by `rep`.
pub fn replace(s: &str, pat: &str, rep: &str) -> (r: String)
    requires
        pat@.len() > 0,
    ensures
        r@ == replace_all(s@, pat@, rep@),
{
    let v = chars_of(s);
    let p = chars_of(pat);
    let mut out = String::new();
    let mut i: usize = 0;
    assert(v@.skip(0) =~= v@);
    while i < v.len()
        invariant
            v@ == s@,
            p@ == pat@,
            p@.len() > 0,
            i <= v@.len(),
            out@ + replace_all(v@.skip(i as int), p@, rep@) == replace_all(v@, p@, rep@),
        decreases v.len() - i,
    {
        let ghost rest = v@.skip(i as int);
        let mut hit = p.len() <= v.len() - i;
        let mut k: usize = 0;
        while k < p.len()
            invariant
                v@ == s@,
                p@ == pat@,
                rest == v@.skip(i as int),
                i < v@.len(),
                k <= p@.len(),
                p@.len() == p.len(),
                v@.len() == v.len(),
                hit ==> i + p@.len() <= v@.len(),
                hit ==> forall|j: int| 0 <= j < k ==> v@[i + j] == p@[j],
                !hit ==> !occurs_at(rest, p@, 0),
            decreases p@.len() - k,
        {
            if !hit {
                k = p.len();
            } else if v[i + k] != p[k] {
                assert(rest.subrange(0, p@.len() as int)[k as int] == v@[i + k]);
                hit = false;
                k = p.len();
            } else {
                k = k + 1;
            }
        }
        if hit {
            assert(rest.subrange(0, p@.len() as int) =~= p@);
            assert(occurs_at(rest, p@, 0));
            push_str(&mut out, rep);
            let ghost before = out@;
            assert(rest.skip(p@.len() as int) =~= v@.skip(i + p@.len()));
            i = i + p.len();
        } else {
            push_char(&mut out, v[i]);
            assert(rest.drop_first() =~= v@.skip(i + 1));
            assert(rest[0] == v@[i as int]);
            i = i + 1;
        }
    }
    assert(v@.skip(i as int) =~= Seq::<char>::empty());
    out
}

/// The index page: the template with its marker replaced by a script that
/// hands the bootstrap JSON to the dashboard.
pub open spec fn hydrated(template: Seq<char>, payload: Seq<char>) -> Seq<char> {
    replace_all(
        template,
        BOOTSTRAP_MARKER@,
        "<script>window.__RACKLOG_BOOTSTRAP__ = "@ + payload + ";</script>"@,
    )
}

/// Render the index page from its template and the bootstrap JSON.
pub fn render_index(template: &str, payload: &str) -> (html: String)
    ensures
        html@ == hydrated(template@, payload@),
{
    proof {
        reveal_strlit("<!-- RACKLOG_BOOTSTRAP -->");
    }
    let mut inj = "<script>window.__RACKLOG_BOOTSTRAP__ = ".to_owned();
    push_str(&mut inj, payload);
    push_str(&mut inj, ";</script>");
    replace(template, BOOTSTRAP_MARKER, inj.as_str())
}

/// The assets compiled into the server, by path.
pub open spec fn embedded_assets() -> Seq<Seq<char>> {
    seq![
        "styles.css"@,
        "icons.jsx"@,
        "tweaks-panel.jsx"@,
        "widgets.jsx"@,
        "view-dashboard.jsx"@,
        "view-items.jsx"@,
        "view-other.jsx"@,
        "app.jsx"@,
        "data.jsx"@,
    ]
}

/// Position of `path` among the embedded assets, if it is one.
pub fn embedded_asset_index(path: &str) -> (r: Option<usize>)
    ensures
        match r {
            Some(i) => i < embedded_assets().len() && embedded_assets()[i as int] == path@,
            None => !embedded_assets().contains(path@),
        },
{
    let names: Vec<&'static str> = vec![
        "styles.css",
        "icons.jsx",
        "tweaks-panel.jsx",
        "widgets.jsx",
        "view-dashboard.jsx",
        "view-items.jsx",
        "view-other.jsx",
        "app.jsx",
        "data.jsx",
    ];
    let ghost e = embedded_assets();
    assert(names@.map_values(|n: &'static str| n@) =~= e);
    let mut i: usize = 0;
    while i < names.len()
        invariant
            i <= names@.len(),
            names@.len() == e.len(),
            e == embedded_assets(),
            names@.map_values(|n: &'static str| n@) == e,
            forall|j: int| 0 <= j < i ==> e[j] != path@,
        decreases names.len() - i,
    {
        assert(names@.map_values(|n: &'static str| n@)[i as int] == names@[i as int]@);
        if str_eq(names[i], path) {
            return Some(i);
        }
        i = i + 1;
    }
    assert forall|j: int| 0 <= j < e.len() implies e[j] != path@ by {}
    None
}

} // verus!
