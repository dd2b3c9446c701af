//! Query parameters of the list endpoints: page sizes with their defaults
//! and clamps, the item-list filter, and the forecast queries.

use crate::errors::ApiError;
use crate::text::push_str;
use vstd::prelude::*;

verus! {

/// Largest page any list endpoint returns, whatever the client asks.
pub const MAX_LIMIT: i64 = 2000;

/// Page size when the client asks for none.
pub const DEFAULT_LIMIT: i64 = 200;

/// `v` clamped into `[lo, hi]`.
pub open spec fn clamp_spec(v: i64, lo: i64, hi: i64) -> i64 {
    if v < lo {
        lo
    } else if v > hi {
        hi
    } else {
        v
    }
}

fn clamp(v: i64, lo: i64, hi: i64) -> (r: i64)
    requires
        lo <= hi,
    ensures
        r == clamp_spec(v, lo, hi),
{
    if v < lo {
        lo
    } else if v > hi {
        hi
    } else {
        v
    }
}

/// `?limit=…&offset=…` of a list endpoint.
#[derive(Debug)]
pub struct PageQuery {
    pub limit: Option<i64>,
    pub offset: Option<i64>,
}

impl Default for PageQuery {
    fn default() -> (p: PageQuery)
        ensures
            p.limit is None && p.offset is None,
    {
        PageQuery { limit: None, offset: None }
    }
}

impl PageQuery {
    /// The page: the limit defaults to 200 and is clamped to `[1, 2000]`;
    /// the offset defaults to 0 and is never negative.
    pub fn resolve(&self) -> (r: (i64, i64))
        ensures
            r.0 == clamp_spec(
                match self.limit {
                    Some(l) => l,
                    None => DEFAULT_LIMIT,
                },
                1,
                MAX_LIMIT,
            ),
            r.1 == match self.offset {
                Some(o) => if o < 0 {
                    0
                } else {
                    o
                },
                None => 0,
            },
            1 <= r.0 <= MAX_LIMIT,
            r.1 >= 0,
    {
        let limit = clamp(
            match self.limit {
                Some(l) => l,
                None => DEFAULT_LIMIT,
            },
            1,
            MAX_LIMIT,
        );
        let offset = match self.offset {
            Some(o) => if o < 0 {
                0
            } else {
                o
            },
            None => 0,
        };
        (limit, offset)
    }
}

/// `?limit=…` of the activity list.
pub struct LimitQuery {
    pub limit: Option<i64>,
}

impl LimitQuery {
    /// The limit: 200 by default, clamped to `[1, 5000]`.
    pub fn resolve(&self) -> (r: i64)
        ensures
            r == clamp_spec(
                match self.limit {
                    Some(l) => l,
                    None => 200,
                },
                1,
                5000,
            ),
    {
        clamp(
            match self.limit {
                Some(l) => l,
                None => 200,
            },
            1,
            5000,
        )
    }
}

/// Filters of the item list.
pub struct ListFilter {
    pub category: Option<String>,
    pub supplier: Option<String>,
    pub barcode: Option<String>,
    pub q: Option<String>,
    pub limit: Option<i64>,
    pub offset: Option<i64>,
}

/// The item list's columns and source.
pub open spec fn item_select() -> Seq<char> {
    "SELECT id, sku, name, category, brand, supplier_id, cost, price, unit, min_qty, max_qty, qty, allocated, barcode, variants, lots, tags, img, updated FROM items WHERE 1=1"@
}

impl ListFilter {
    /// The page of the item list: the limit defaults to 1000 and is
    /// clamped to `[1, 5000]`; the offset is never negative.
    pub fn page(&self) -> (r: (i64, i64))
        ensures
            r.0 == clamp_spec(
                match self.limit {
                    Some(l) => l,
                    None => 1000,
                },
                1,
                5000,
            ),
            r.1 == match self.offset {
                Some(o) => if o < 0 {
                    0
                } else {
                    o
                },
                None => 0,
            },
    {
        let limit = clamp(
            match self.limit {
                Some(l) => l,
                None => 1000,
            },
            1,
            5000,
        );
        let offset = match self.offset {
            Some(o) => if o < 0 {
                0
            } else {
                o
            },
            None => 0,
        };
        (limit, offset)
    }

    /// The SQL of the item list: one condition per filter present, in the
    /// order category, supplier, barcode, text, then order and page.
    pub open spec fn spec_sql(self) -> Seq<char> {
        item_select() + (if self.category is Some {
            " AND category = ?"@
        } else {
            Seq::empty()
        }) + (if self.supplier is Some {
            " AND supplier_id = ?"@
        } else {
            Seq::empty()
        }) + (if self.barcode is Some {
            " AND barcode = ?"@
        } else {
            Seq::empty()
        }) + (if self.q is Some {
            " AND (sku LIKE ? OR name LIKE ?)"@
        } else {
            Seq::empty()
        }) + " ORDER BY sku LIMIT ? OFFSET ?"@
    }

    pub fn sql(&self) -> (s: String)
        ensures
            s@ == self.spec_sql(),
    {
        let mut s = "SELECT id, sku, name, category, brand, supplier_id, cost, price, unit, min_qty, max_qty, qty, allocated, barcode, variants, lots, tags, img, updated FROM items WHERE 1=1".to_owned();
        let ghost s0 = s@;
        if self.category.is_some() {
            push_str(&mut s, " AND category = ?");
        }
        let ghost s1 = s@;
        if self.supplier.is_some() {
            push_str(&mut s, " AND supplier_id = ?");
        }
        let ghost s2 = s@;
        if self.barcode.is_some() {
            push_str(&mut s, " AND barcode = ?");
        }
        let ghost s3 = s@;
        if self.q.is_some() {
            push_str(&mut s, " AND (sku LIKE ? OR name LIKE ?)");
        }
        push_str(&mut s, " ORDER BY sku LIMIT ? OFFSET ?");
        proof {
            reveal_strlit("");
            if self.category is None {
                assert(s1 =~= s0 + Seq::<char>::empty());
            }
            if self.supplier is None {
                assert(s2 =~= s1 + Seq::<char>::empty());
            }
            if self.barcode is None {
                assert(s3 =~= s2 + Seq::<char>::empty());
            }
            if self.q is None {
                assert(s3 =~= s3 + Seq::<char>::empty());
            }
        }
        assert(s@ =~= self.spec_sql());
        s
    }

    /// The `LIKE` pattern of the text filter: the text between `%`s.
    pub fn like_pattern(q: &str) -> (p: String)
        ensures
            p@ == "%"@ + q@ + "%"@,
    {
        let mut p = "%".to_owned();
        push_str(&mut p, q);
        push_str(&mut p, "%");
        p
    }
}

/// `?lookback=` of the reorder report.
pub struct LookbackQuery {
    pub lookback: Option<i64>,
}

impl Default for LookbackQuery {
    fn default() -> (q: LookbackQuery)
        ensures
            q.lookback is None,
    {
        LookbackQuery { lookback: None }
    }
}

/// `?lookback=…&confirm=…` of the draft-PO materialisation.
pub struct ApplyQuery {
    pub lookback: Option<i64>,
    /// `?confirm=1` is required to actually create the draft POs.
    pub confirm: Option<String>,
}

impl Default for ApplyQuery {
    fn default() -> (q: ApplyQuery)
        ensures
            q.lookback is None && q.confirm is None,
    {
        ApplyQuery { lookback: None, confirm: None }
    }
}

impl ApplyQuery {
    /// Refuse to create draft POs unless `?confirm` is truthy.
    pub fn require_confirm(&self) -> (r: Result<(), ApiError>)
        ensures
            crate::admin::is_truthy(crate::text::opt_chars(self.confirm)) ==> r is Ok,
            !crate::admin::is_truthy(crate::text::opt_chars(self.confirm)) ==> (r matches Err(e)
                && e.is_bad_request(
                "apply is destructive; pass ?confirm=1 to materialise draft POs"@,
            )),
    {
        let ok = match &self.confirm {
            Some(s) => crate::admin::truthy(Some(s.as_str())),
            None => crate::admin::truthy(None),
        };
        if ok {
            Ok(())
        } else {
            Err(
                ApiError::BadRequest(
                    "apply is destructive; pass ?confirm=1 to materialise draft POs".to_owned(),
                ),
            )
        }
    }
}

} // verus!
