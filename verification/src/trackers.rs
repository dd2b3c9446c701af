//! Physical asset trackers bound to items: the binding request's checks
//! and the audit descriptions of bind, unbind and location sync.

use crate::errors::ApiError;
use crate::numbers::{push_i64, signed_decimal};
use crate::text::{push_str, str_eq, trim, trim_spec};
use vstd::prelude::*;

verus! {

/// A request to bind a tracker to an item.
pub struct CreateTrackerInput {
    pub item_id: String,
    pub provider: String,
    pub provider_id: String,
    pub label: Option<String>,
}

/// The tracker providers a binding may name.
pub open spec fn known_providers() -> Seq<Seq<char>> {
    seq!["airtag"@, "smarttag"@, "tile"@, "ble-beacon"@, "ruuvi"@, "custom"@]
}

/// Whether `p` names a known tracker provider (exactly, case matters).
pub fn valid_provider(p: &str) -> (b: bool)
    ensures
        b == known_providers().contains(p@),
{
    let ghost ks = known_providers();
    let r = str_eq(p, "airtag") || str_eq(p, "smarttag") || str_eq(p, "tile") || str_eq(
        p,
        "ble-beacon",
    ) || str_eq(p, "ruuvi") || str_eq(p, "custom");
    proof {
        if r {
            if p@ == ks[0] {
            } else if p@ == ks[1] {
            } else if p@ == ks[2] {
            } else if p@ == ks[3] {
            } else if p@ == ks[4] {
            } else {
                assert(p@ == ks[5]);
            }
        } else {
            assert forall|i: int| 0 <= i < ks.len() implies ks[i] != p@ by {}
        }
    }
    r
}

/// Check a binding request: provider and provider id must not be blank,
/// and the provider must be known.
pub fn validate_tracker_input(input: &CreateTrackerInput) -> (r: Result<(), ApiError>)
    ensures
        trim_spec(input.provider@).len() == 0 || trim_spec(input.provider_id@).len() == 0 ==> (r matches Err(e)
            && e.is_bad_request("provider and provider_id are required"@)),
        !(trim_spec(input.provider@).len() == 0 || trim_spec(input.provider_id@).len() == 0)
            ==> if known_providers().contains(input.provider@) {
            r is Ok
        } else {
            r matches Err(e) && e.is_bad_request(
                "provider must be one of: airtag, smarttag, tile, ble-beacon, ruuvi, custom"@,
            )
        },
{
    if trim(input.provider.as_str()).is_empty() || trim(input.provider_id.as_str()).is_empty() {
        return Err(ApiError::BadRequest("provider and provider_id are required".to_owned()));
    }
    if !valid_provider(input.provider.as_str()) {
        return Err(
            ApiError::BadRequest(
                "provider must be one of: airtag, smarttag, tile, ble-beacon, ruuvi, custom".to_owned(),
            ),
        );
    }
    Ok(())
}

/// Audit description of a binding.
pub fn bind_description(input: &CreateTrackerInput) -> (d: String)
    ensures
        d@ == "Bound "@ + input.provider@ + " tracker "@ + input.provider_id@ + " to item "@
            + input.item_id@,
{
    let mut d = "Bound ".to_owned();
    push_str(&mut d, input.provider.as_str());
    push_str(&mut d, " tracker ");
    push_str(&mut d, input.provider_id.as_str());
    push_str(&mut d, " to item ");
    push_str(&mut d, input.item_id.as_str());
    d
}

/// Audit description of an unbinding.
pub fn unbind_description(id: &str) -> (d: String)
    ensures
        d@ == "Unbound tracker "@ + id@,
{
    let mut d = "Unbound tracker ".to_owned();
    push_str(&mut d, id);
    d
}

/// Audit description of a location sync: the reported label and battery,
/// never the coordinates (syncs are frequent).
pub fn sync_description(label: Option<&str>, battery_pct: Option<i64>) -> (d: String)
    ensures
        d@ == "Sync \u{b7} "@ + match label {
            Some(l) => l@,
            None => "(no label)"@,
        } + " \u{b7} "@ + match battery_pct {
            Some(b) => signed_decimal(b as int) + "%"@,
            None => "?%"@,
        },
{
    let mut d = "Sync \u{b7} ".to_owned();
    match label {
        Some(l) => push_str(&mut d, l),
        None => push_str(&mut d, "(no label)"),
    }
    push_str(&mut d, " \u{b7} ");
    match battery_pct {
        Some(b) => {
            push_i64(&mut d, b);
            push_str(&mut d, "%");
        },
        None => push_str(&mut d, "?%"),
    }
    d
}

} // verus!
