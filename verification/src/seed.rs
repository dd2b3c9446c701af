//! First-boot seeding: when it runs, and how the seeded activity entries
//! are filled in before they are replayed through the audit chain.

use vstd::prelude::*;

verus! {

/// The dataset is loaded only into a database without items, so that a
/// redeploy against an existing volume changes nothing.
pub fn should_seed(item_count: i64) -> (b: bool)
    ensures
        b == (item_count <= 0),
{
    item_count <= 0
}

/// A seeded activity entry with its defaults filled in: user `system`,
/// kind `seed`, an empty description.
pub fn seed_activity(
    user: Option<String>,
    kind: Option<String>,
    reference: Option<String>,
    desc: Option<String>,
) -> (r: (String, String, Option<String>, String))
    ensures
        r.0@ == match user {
            Some(u) => u@,
            None => "system"@,
        },
        r.1@ == match kind {
            Some(k) => k@,
            None => "seed"@,
        },
        crate::text::opt_chars(r.2) == crate::text::opt_chars(reference),
        r.3@ == match desc {
            Some(d) => d@,
            None => Seq::<char>::empty(),
        },
{
    let u = match user {
        Some(u) => u,
        None => "system".to_owned(),
    };
    let k = match kind {
        Some(k) => k,
        None => "seed".to_owned(),
    };
    let d = match desc {
        Some(d) => d,
        None => String::new(),
    };
    (u, k, reference, d)
}

/// User of the closing seed entry.
pub const SEED_USER: &'static str = "system";

/// Kind of the closing seed entry.
pub const SEED_KIND: &'static str = "seed";

/// Description of the closing seed entry.
pub const SEED_DESCRIPTION: &'static str = "Initial dataset seeded into empty database";

} // verus!
