//! Vision-derived cycle counts: a camera pipeline reports per-SKU
//! quantities at a location; the count records how many observed SKUs
//! are in the catalog and how far the observations drift from it. The
//! catalog itself is never written from here.

use vstd::prelude::*;
use vstd::utf8::encode_utf8;
use crate::errors::{bad_request, ApiError};
use crate::numbers::{decimal, plus_signed_decimal, push_i64_plus, u64_to_string};
use crate::text::{opt_chars, push_str, str_eq};

verus! {

/// One model observation. Confidence (0..1) is display-only and is
/// averaged by the caller.
pub struct VisionObservation {
    pub sku: String,
    pub qty: i64,
}

/// Current on-hand quantity of a catalog SKU.
pub struct CatalogQty {
    pub sku: String,
    pub qty: i64,
}

/// What a vision count records: matched SKUs, summed drift, and the
/// audit description.
pub struct VisionTally {
    pub matched: i64,
    pub total_delta: i64,
    pub description: String,
}

/// Check the request before any lookup: at least one and at most 1024
/// observations, and an evidence URL of at most 1024 bytes.
pub fn validate_vision_request(
    observations: usize,
    evidence_url: &Option<String>,
) -> (r: Result<(), ApiError>)
    ensures
        observations == 0 ==> (r matches Err(e) && e.is_bad_request("observations must not be empty"@)),
        observations > 1024 ==> (r matches Err(e) && e.is_bad_request("\u{2264} 1024 observations per request"@)),
        1 <= observations <= 1024 ==> match evidence_url {
            Some(u) => if encode_utf8(u@).len() as usize > 1024 {
                r matches Err(e) && e.is_bad_request("evidence_url too long"@)
            } else {
                r is Ok
            },
            None => r is Ok,
        },
{
    if observations == 0 {
        return Err(bad_request("observations must not be empty"));
    }
    if observations > 1024 {
        return Err(bad_request("\u{2264} 1024 observations per request"));
    }
    if let Some(url) = evidence_url {
        if url.as_str().len() > 1024 {
            return Err(bad_request("evidence_url too long"));
        }
    }
    Ok(())
}

/// Catalog quantity of `sku`; a later row for the same SKU replaces an
/// earlier one.
pub open spec fn current_qty(cat: Seq<CatalogQty>, sku: Seq<char>) -> Option<i64>
    decreases cat.len(),
{
    if cat.len() == 0 {
        None
    } else if cat.last().sku@ == sku {
        Some(cat.last().qty)
    } else {
        current_qty(cat.drop_last(), sku)
    }
}

/// Matched observations among the first `k`.
pub open spec fn matched_upto(obs: Seq<VisionObservation>, cat: Seq<CatalogQty>, k: int) -> int
    decreases k,
{
    if k <= 0 {
        0
    } else {
        matched_upto(obs, cat, k - 1) + if current_qty(cat, obs[k - 1].sku@) is Some {
            1int
        } else {
            0int
        }
    }
}

/// Summed drift (observed minus catalog) over the matched observations
/// among the first `k`.
pub open spec fn delta_upto(obs: Seq<VisionObservation>, cat: Seq<CatalogQty>, k: int) -> int
    decreases k,
{
    if k <= 0 {
        0
    } else {
        delta_upto(obs, cat, k - 1) + match current_qty(cat, obs[k - 1].sku@) {
            Some(c) => obs[k - 1].qty - c,
            None => 0,
        }
    }
}

/// `"<sku>: <±delta>"` for every matched observation among the first `k`
/// whose drift is not zero.
pub open spec fn delta_lines_upto(obs: Seq<VisionObservation>, cat: Seq<CatalogQty>, k: int) -> Seq<
    Seq<char>,
>
    decreases k,
{
    if k <= 0 {
        Seq::empty()
    } else {
        let prev = delta_lines_upto(obs, cat, k - 1);
        match current_qty(cat, obs[k - 1].sku@) {
            Some(c) => if obs[k - 1].qty - c != 0 {
                prev.push(obs[k - 1].sku@ + ": "@ + plus_signed_decimal(obs[k - 1].qty - c))
            } else {
                prev
            },
            None => prev,
        }
    }
}

/// Every per-SKU drift and every running total fits in `i64`.
pub open spec fn drift_fits(obs: Seq<VisionObservation>, cat: Seq<CatalogQty>) -> bool {
    forall|k: int|
        0 < k <= obs.len() ==> i64::MIN <= #[trigger] delta_upto(obs, cat, k) <= i64::MAX && match current_qty(
            cat,
            obs[k - 1].sku@,
        ) {
            Some(c) => i64::MIN <= obs[k - 1].qty - c <= i64::MAX,
            None => true,
        }
}

/// Items joined with `", "`.
pub open spec fn join_comma(items: Seq<Seq<char>>) -> Seq<char>
    decreases items.len(),
{
    if items.len() == 0 {
        Seq::empty()
    } else if items.len() == 1 {
        items[0]
    } else {
        join_comma(items.drop_last()) + ", "@ + items.last()
    }
}

/// The audit description of a vision count.
pub open spec fn vision_description(
    model: Seq<char>,
    location: Seq<char>,
    bin: Seq<char>,
    matched: int,
    lines: Seq<Seq<char>>,
) -> Seq<char> {
    if lines.len() == 0 {
        "Vision count by "@ + model + " at "@ + location + " "@ + bin + " \u{2014} "@ + decimal(
            matched as nat,
        ) + " SKUs match catalog exactly"@
    } else {
        "Vision count by "@ + model + " at "@ + location + " "@ + bin + " \u{b7} "@ + decimal(
            matched as nat,
        ) + " SKUs \u{b7} \u{394} "@ + join_comma(lines.take(if lines.len() > 10 {
            10
        } else {
            lines.len() as int
        })) + if lines.len() > 10 {
            " (+"@ + decimal((lines.len() - 10) as nat) + " more)"@
        } else {
            Seq::empty()
        }
    }
}

fn catalog_lookup(cat: &Vec<CatalogQty>, sku: &str) -> (q: Option<i64>)
    ensures
        q == current_qty(cat@, sku@),
{
    let mut i: usize = cat.len();
    assert(cat@.take(i as int) =~= cat@);
    while i > 0
        invariant
            i <= cat@.len(),
            current_qty(cat@, sku@) == current_qty(cat@.take(i as int), sku@),
        decreases i,
    {
        assert(cat@.take(i as int).drop_last() =~= cat@.take(i - 1));
        assert(cat@.take(i as int).last() == cat@[i - 1]);
        if str_eq(cat[i - 1].sku.as_str(), sku) {
            return Some(cat[i - 1].qty);
        }
        i = i - 1;
    }
    assert(cat@.take(0) =~= Seq::<CatalogQty>::empty());
    None
}

/// Compare the observations with the catalog and write the audit
/// description (at most ten drift entries, then a count of the rest).
pub fn tally_vision(
    obs: &Vec<VisionObservation>,
    cat: &Vec<CatalogQty>,
    model: &Option<String>,
    location_id: &str,
    bin: &Option<String>,
) -> (t: VisionTally)
    requires
        drift_fits(obs@, cat@),
        obs@.len() <= i64::MAX,
    ensures
        t.matched == matched_upto(obs@, cat@, obs@.len() as int),
        t.total_delta == delta_upto(obs@, cat@, obs@.len() as int),
        t.description@ == vision_description(
            match opt_chars(*model) {
                Some(m) => m,
                None => "(unspecified)"@,
            },
            location_id@,
            match opt_chars(*bin) {
                Some(b) => b,
                None => Seq::empty(),
            },
            matched_upto(obs@, cat@, obs@.len() as int),
            delta_lines_upto(obs@, cat@, obs@.len() as int),
        ),
{
    let mut matched: i64 = 0;
    let mut total: i64 = 0;
    let mut lines: Vec<String> = Vec::new();
    let mut i: usize = 0;
    while i < obs.len()
        invariant
            i <= obs@.len(),
            obs@.len() <= i64::MAX,
            drift_fits(obs@, cat@),
            0 <= matched <= i,
            matched == matched_upto(obs@, cat@, i as int),
            total == delta_upto(obs@, cat@, i as int),
            lines@.map_values(|s: String| s@) == delta_lines_upto(obs@, cat@, i as int),
        decreases obs.len() - i,
    {
        let o = &obs[i];
        assert(i64::MIN <= delta_upto(obs@, cat@, i + 1) <= i64::MAX);
        match catalog_lookup(cat, o.sku.as_str()) {
            Some(cur) => {
                matched = matched + 1;
                let delta = o.qty - cur;
                total = total + delta;
                if delta != 0 {
                    let mut line = o.sku.clone();
                    push_str(&mut line, ": ");
                    push_i64_plus(&mut line, delta);
                    let ghost before = lines@.map_values(|s: String| s@);
                    lines.push(line);
                    assert(lines@.map_values(|s: String| s@) =~= before.push(line@));
                }
            },
            None => {},
        }
        i = i + 1;
    }
    let mut d = String::new();
    push_str(&mut d, "Vision count by ");
    match model {
        Some(m) => push_str(&mut d, m.as_str()),
        None => push_str(&mut d, "(unspecified)"),
    }
    push_str(&mut d, " at ");
    push_str(&mut d, location_id);
    push_str(&mut d, " ");
    match bin {
        Some(b) => push_str(&mut d, b.as_str()),
        None => {},
    }
    let ghost ls = lines@.map_values(|s: String| s@);
    if lines.len() == 0 {
        push_str(&mut d, " \u{2014} ");
        let m = u64_to_string(matched as u64);
        push_str(&mut d, m.as_str());
        push_str(&mut d, " SKUs match catalog exactly");
    } else {
        push_str(&mut d, " \u{b7} ");
        let m = u64_to_string(matched as u64);
        push_str(&mut d, m.as_str());
        push_str(&mut d, " SKUs \u{b7} \u{394} ");
        let shown: usize = if lines.len() > 10 {
            10
        } else {
            lines.len()
        };
        let mut j: usize = 0;
        let ghost head = d@;
        while j < shown
            invariant
                j <= shown <= lines@.len(),
                ls == lines@.map_values(|s: String| s@),
                d@ == head + join_comma(ls.take(j as int)),
            decreases shown - j,
        {
            if j > 0 {
                push_str(&mut d, ", ");
            }
            push_str(&mut d, lines[j].as_str());
            j = j + 1;
            assert(ls.take(j as int).drop_last() =~= ls.take(j - 1));
            assert(ls[j - 1] == lines@[j - 1]@);
            assert(d@ =~= head + join_comma(ls.take(j as int)));
        }
        if lines.len() > 10 {
            push_str(&mut d, " (+");
            let more = u64_to_string((lines.len() - 10) as u64);
            push_str(&mut d, more.as_str());
            push_str(&mut d, " more)");
        }
    }
    proof {
        reveal_strlit("");
    }
    assert(d@ =~= vision_description(
        match opt_chars(*model) {
            Some(m) => m,
            None => "(unspecified)"@,
        },
        location_id@,
        match opt_chars(*bin) {
            Some(b) => b,
            None => Seq::empty(),
        },
        matched as int,
        ls,
    ));
    VisionTally { matched, total_delta: total, description: d }
}

/// Whether every per-SKU drift and running total of a vision count fits
/// in `i64`, so that it can be tallied.
pub fn drift_fits_exec(obs: &Vec<VisionObservation>, cat: &Vec<CatalogQty>) -> (b: bool)
    ensures
        b == drift_fits(obs@, cat@),
{
    let mut total: i128 = 0;
    let mut i: usize = 0;
    while i < obs.len()
        invariant
            i <= obs@.len(),
            total == delta_upto(obs@, cat@, i as int),
            i64::MIN <= total <= i64::MAX,
            forall|k: int|
                0 < k <= i ==> i64::MIN <= #[trigger] delta_upto(obs@, cat@, k) <= i64::MAX
                    && match current_qty(cat@, obs@[k - 1].sku@) {
                    Some(c) => i64::MIN <= obs@[k - 1].qty - c <= i64::MAX,
                    None => true,
                },
        decreases obs@.len() - i,
    {
        let k: Ghost<int> = Ghost(i + 1);
        match catalog_lookup(cat, obs[i].sku.as_str()) {
            Some(c) => {
                let d: i128 = obs[i].qty as i128 - c as i128;
                if d < i64::MIN as i128 || d > i64::MAX as i128 {
                    proof {
                        let kk = k@;
                        assert(0 < kk <= obs@.len());
                        assert(current_qty(cat@, obs@[kk - 1].sku@) == Some(c));
                        if drift_fits(obs@, cat@) {
                            assert(i64::MIN <= delta_upto(obs@, cat@, kk) <= i64::MAX && match current_qty(
                                cat@,
                                obs@[kk - 1].sku@,
                            ) {
                                Some(c) => i64::MIN <= obs@[kk - 1].qty - c <= i64::MAX,
                                None => true,
                            });
                            assert(false);
                        }
                    }
                    return false;
                }
                total = total + d;
            },
            None => {},
        }
        assert(total == delta_upto(obs@, cat@, k@));
        if total < i64::MIN as i128 || total > i64::MAX as i128 {
            assert(!(i64::MIN <= delta_upto(obs@, cat@, k@) <= i64::MAX));
            return false;
        }
        i = i + 1;
    }
    true
}

/// Observed quantities summed over the matched observations among the
/// first `k`.
pub open spec fn observed_matched(obs: Seq<VisionObservation>, cat: Seq<CatalogQty>, k: int) -> int
    decreases k,
{
    if k <= 0 {
        0
    } else {
        observed_matched(obs, cat, k - 1) + if current_qty(cat, obs[k - 1].sku@) is Some {
            obs[k - 1].qty as int
        } else {
            0
        }
    }
}

/// Catalog quantities summed over the matched observations among the
/// first `k`.
pub open spec fn catalog_matched(obs: Seq<VisionObservation>, cat: Seq<CatalogQty>, k: int) -> int
    decreases k,
{
    if k <= 0 {
        0
    } else {
        catalog_matched(obs, cat, k - 1) + match current_qty(cat, obs[k - 1].sku@) {
            Some(c) => c as int,
            None => 0,
        }
    }
}

/// The drift of a vision count is signed: it is what was observed minus
/// what the catalog holds, summed over the matched SKUs, so a count below
/// the catalog drifts negative.
pub proof fn lemma_drift_is_observed_minus_catalog(
    obs: Seq<VisionObservation>,
    cat: Seq<CatalogQty>,
    k: int,
)
    ensures
        delta_upto(obs, cat, k) == observed_matched(obs, cat, k) - catalog_matched(obs, cat, k),
    decreases k,
{
    if k > 0 {
        lemma_drift_is_observed_minus_catalog(obs, cat, k - 1);
    }
}

/// When no matched observation exceeds its catalog quantity the drift is
/// not positive, and it is zero only if every matched observation equals
/// the catalog.
pub proof fn lemma_drift_sign_below_catalog(
    obs: Seq<VisionObservation>,
    cat: Seq<CatalogQty>,
    k: int,
)
    requires
        forall|j: int|
            0 <= j < k ==> (#[trigger] current_qty(cat, obs[j].sku@) matches Some(c) ==> obs[j].qty
                <= c),
    ensures
        delta_upto(obs, cat, k) <= 0,
        delta_upto(obs, cat, k) == 0 ==> forall|j: int|
            0 <= j < k ==> (#[trigger] current_qty(cat, obs[j].sku@) matches Some(c) ==> obs[j].qty
                == c),
    decreases k,
{
    if k > 0 {
        lemma_drift_sign_below_catalog(obs, cat, k - 1);
        let j0 = k - 1;
        assert(current_qty(cat, obs[j0].sku@) matches Some(c) ==> obs[j0].qty <= c);
    }
}

} // verus!
