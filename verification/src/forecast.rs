//! Reorder-point planning: which items to reorder, how many, how urgent,
//! and how the suggestions group into one draft purchase order per
//! supplier. Money and rates (costs, daily consumption, days to
//! stockout) are computed by the caller from the integers fixed here.

use vstd::prelude::*;
use vstd::set_lib::set_int_range;
use crate::text::{opt_chars, seq_lt, lemma_seq_lt_irreflexive, lemma_seq_lt_total, lemma_seq_lt_transitive, str_eq, str_lt};

verus! {

/// Trailing days used to estimate consumption when the caller names none.
pub const DEFAULT_LOOKBACK_DAYS: i64 = 90;

/// `urgent` when out of stock or projected to run out within the
/// supplier's lead time; `low` otherwise.
#[derive(Debug, Clone, Copy, PartialEq, Eq, Structural)]
pub enum Urgency {
    Urgent,
    Low,
}

/// The look-back window, clamped to 7..=365 days.
pub fn clamp_lookback(days: i64) -> (d: i64)
    ensures
        d == clamp_lookback_spec(days),
{
    if days < 7 {
        7
    } else if days > 365 {
        365
    } else {
        days
    }
}

/// An item at or below its minimum (or out of stock), with its
/// supplier's lead time in days when known.
pub struct ReorderCandidate {
    pub item_id: String,
    pub sku: String,
    pub name: String,
    pub supplier: Option<String>,
    pub min: i64,
    pub max: i64,
    pub qty: i64,
    pub lead_time: Option<i64>,
}

/// Units picked or shipped for a SKU over the look-back window.
pub struct Consumption {
    pub sku: String,
    pub picked: i64,
}

/// The reorder decision for one candidate.
pub struct Suggestion {
    pub reorder_qty: i64,
    /// Units consumed over the window (0 without signal).
    pub picked: i64,
    pub urgency: Urgency,
}

/// One draft purchase order: the supplier (none for items without one)
/// and the positions of its suggestions.
pub struct DraftGroup {
    pub supplier_id: Option<String>,
    pub members: Vec<usize>,
}

pub struct ReorderPlan {
    pub lookback_days: i64,
    pub items_below_min: usize,
    pub urgent: usize,
    pub suggestions: Vec<Suggestion>,
    pub groups: Vec<DraftGroup>,
}

/// Enough to refill to `max`, at least enough to reach `min`, at least one.
pub open spec fn reorder_qty_spec(min: int, max: int, qty: int) -> int {
    let a = max - qty;
    let b = min - qty;
    let m = if a >= b {
        a
    } else {
        b
    };
    if m >= 1 {
        m
    } else {
        1
    }
}

/// Consumption recorded for `sku`; a later record for the same SKU
/// replaces an earlier one; 0 when there is none.
pub open spec fn picked_for(cons: Seq<Consumption>, sku: Seq<char>) -> i64
    decreases cons.len(),
{
    if cons.len() == 0 {
        0
    } else if cons.last().sku@ == sku {
        cons.last().picked
    } else {
        picked_for(cons.drop_last(), sku)
    }
}

/// Out of stock, or the stock lasts at most the lead time (7 days when
/// unknown) at the observed rate `picked / lookback` per day:
/// `qty / (picked / lookback) <= lead`.
pub open spec fn urgency_spec(qty: int, lead: Option<i64>, picked: int, lookback: int) -> Urgency {
    let lead_days: int = match lead {
        Some(l) => l as int,
        None => 7,
    };
    let on_hand: int = if qty > 0 {
        qty
    } else {
        0
    };
    if qty == 0 {
        Urgency::Urgent
    } else if picked > 0 && on_hand * lookback <= lead_days * picked {
        Urgency::Urgent
    } else {
        Urgency::Low
    }
}

pub open spec fn key_of(s: Option<String>) -> Option<Seq<char>> {
    opt_chars(s)
}

/// Draft order: known suppliers by id, the supplier-less draft last.
pub open spec fn key_lt(a: Option<Seq<char>>, b: Option<Seq<char>>) -> bool {
    match (a, b) {
        (Some(x), Some(y)) => seq_lt(x, y),
        (Some(_), None) => true,
        _ => false,
    }
}

/// Positions `< k` whose key is `key`, ascending.
pub open spec fn members_of(keys: Seq<Option<Seq<char>>>, key: Option<Seq<char>>, k: int) -> Seq<
    usize,
>
    decreases k,
{
    if k <= 0 {
        Seq::empty()
    } else {
        members_of(keys, key, k - 1) + if keys[k - 1] == key {
            seq![(k - 1) as usize]
        } else {
            Seq::empty()
        }
    }
}

/// The groups partition positions `< k` by key, one group per key, in
/// draft order.
pub open spec fn grouped(groups: Seq<DraftGroup>, keys: Seq<Option<Seq<char>>>, k: int) -> bool {
    &&& forall|a: int, b: int|
        0 <= a < b < groups.len() ==> key_lt(
            key_of(#[trigger] groups[a].supplier_id),
            key_of(#[trigger] groups[b].supplier_id),
        )
    &&& forall|g: int|
        0 <= g < groups.len() ==> (#[trigger] groups[g]).members@ == members_of(
            keys,
            key_of(groups[g].supplier_id),
            k,
        ) && groups[g].members@.len() > 0
    &&& forall|j: int|
        #![trigger keys[j]]
        0 <= j < k ==> exists|g: int|
            0 <= g < groups.len() && key_of(#[trigger] groups[g].supplier_id) == keys[j]
}

pub open spec fn candidate_keys(cands: Seq<ReorderCandidate>) -> Seq<Option<Seq<char>>> {
    cands.map_values(|c: ReorderCandidate| key_of(c.supplier))
}

impl ReorderPlan {
    /// The plan is the exact reorder report for these candidates.
    pub open spec fn plans(
        self,
        cands: Seq<ReorderCandidate>,
        cons: Seq<Consumption>,
        lookback: int,
    ) -> bool {
        &&& self.lookback_days == lookback
        &&& self.items_below_min == cands.len()
        &&& self.suggestions@.len() == cands.len()
        &&& forall|i: int|
            0 <= i < cands.len() ==> {
                let c = #[trigger] cands[i];
                let s = self.suggestions@[i];
                &&& s.reorder_qty == reorder_qty_spec(c.min as int, c.max as int, c.qty as int)
                &&& s.picked == picked_for(cons, c.sku@)
                &&& s.urgency == urgency_spec(c.qty as int, c.lead_time, s.picked as int, lookback)
            }
        &&& self.urgent == urgent_count(self.suggestions@)
        &&& grouped(self.groups@, candidate_keys(cands), cands.len() as int)
    }
}

/// Number of urgent suggestions.
pub open spec fn urgent_count(s: Seq<Suggestion>) -> nat
    decreases s.len(),
{
    if s.len() == 0 {
        0
    } else {
        urgent_count(s.drop_last()) + if s.last().urgency == Urgency::Urgent {
            1nat
        } else {
            0nat
        }
    }
}

proof fn lemma_urgent_count_bound(s: Seq<Suggestion>)
    ensures
        urgent_count(s) <= s.len(),
    decreases s.len(),
{
    if s.len() > 0 {
        lemma_urgent_count_bound(s.drop_last());
    }
}

/// Urgency is decided by the supplier's own lead time when it is known,
/// and by 7 days only when it is not: an item in stock with consumption is
/// urgent exactly when its stock lasts no longer than that lead time
/// (`qty / (picked / lookback) <= lead`); out of stock is always urgent; in
/// stock without consumption never is.
pub proof fn lemma_urgency_follows_lead_time(qty: int, lead: Option<i64>, picked: int, lookback: int)
    ensures
        qty == 0 ==> urgency_spec(qty, lead, picked, lookback) == Urgency::Urgent,
        qty > 0 && picked > 0 ==> (lead matches Some(l) ==> (urgency_spec(qty, lead, picked, lookback)
            == Urgency::Urgent <==> qty * lookback <= l * picked)),
        qty > 0 && picked > 0 ==> (lead is None ==> (urgency_spec(qty, lead, picked, lookback)
            == Urgency::Urgent <==> qty * lookback <= 7 * picked)),
        qty != 0 && picked <= 0 ==> urgency_spec(qty, lead, picked, lookback) == Urgency::Low,
{
}

/// A longer known lead time never makes an item less urgent.
pub proof fn lemma_longer_lead_time_no_less_urgent(
    qty: int,
    l1: i64,
    l2: i64,
    picked: int,
    lookback: int,
)
    requires
        l1 <= l2,
        picked >= 0,
        urgency_spec(qty, Some(l1), picked, lookback) == Urgency::Urgent,
    ensures
        urgency_spec(qty, Some(l2), picked, lookback) == Urgency::Urgent,
{
    assert(l1 * picked <= l2 * picked) by (nonlinear_arith)
        requires
            l1 <= l2,
            picked >= 0,
    ;
}

/// In a reorder plan, a candidate in stock whose supplier's lead time is
/// known and that saw consumption is marked urgent exactly when its stock
/// lasts no longer than that lead time.
pub proof fn lemma_plan_urgency_uses_lead_time(
    p: ReorderPlan,
    cands: Seq<ReorderCandidate>,
    cons: Seq<Consumption>,
    lookback: int,
    i: int,
)
    requires
        p.plans(cands, cons, lookback),
        0 <= i < cands.len(),
        cands[i].qty > 0,
        p.suggestions@[i].picked > 0,
    ensures
        cands[i].lead_time matches Some(l) ==> (p.suggestions@[i].urgency == Urgency::Urgent
            <==> cands[i].qty * lookback <= l * p.suggestions@[i].picked),
{
    let c = cands[i];
    assert(p.suggestions@[i].urgency == urgency_spec(c.qty as int, c.lead_time, p.suggestions@[i].picked as int, lookback));
    lemma_urgency_follows_lead_time(c.qty as int, c.lead_time, p.suggestions@[i].picked as int, lookback);
}

/// The reorder quantity for one item.
pub fn reorder_qty(min: i64, max: i64, qty: i64) -> (r: i64)
    requires
        i64::MIN <= max - qty <= i64::MAX,
        i64::MIN <= min - qty <= i64::MAX,
    ensures
        r == reorder_qty_spec(min as int, max as int, qty as int),
{
    let a = max - qty;
    let b = min - qty;
    let m = if a >= b {
        a
    } else {
        b
    };
    if m >= 1 {
        m
    } else {
        1
    }
}

fn picked_lookup(cons: &Vec<Consumption>, sku: &str) -> (p: i64)
    ensures
        p == picked_for(cons@, sku@),
{
    let mut i: usize = cons.len();
    assert(cons@.take(i as int) =~= cons@);
    while i > 0
        invariant
            i <= cons@.len(),
            picked_for(cons@, sku@) == picked_for(cons@.take(i as int), sku@),
        decreases i,
    {
        assert(cons@.take(i as int).drop_last() =~= cons@.take(i - 1));
        assert(cons@.take(i as int).last() == cons@[i - 1]);
        if str_eq(cons[i - 1].sku.as_str(), sku) {
            return cons[i - 1].picked;
        }
        i = i - 1;
    }
    assert(cons@.take(0) =~= Seq::<Consumption>::empty());
    0
}

/// The urgency for one item.
pub fn urgency(qty: i64, lead_time: Option<i64>, picked: i64, lookback: i64) -> (u: Urgency)
    requires
        7 <= lookback <= 365,
    ensures
        u == urgency_spec(qty as int, lead_time, picked as int, lookback as int),
{
    let lead: i64 = match lead_time {
        Some(l) => l,
        None => 7,
    };
    let on_hand: i64 = if qty > 0 {
        qty
    } else {
        0
    };
    if qty == 0 {
        Urgency::Urgent
    } else if picked > 0 && {
        assert(0 <= (on_hand as int) * (lookback as int) <= 9223372036854775807 * 365)
            by (nonlinear_arith)
            requires
                0 <= on_hand <= 9223372036854775807,
                7 <= lookback <= 365,
        ;
        assert(-85070591730234615865843651857942052864 <= (lead as int) * (picked as int)
            <= 85070591730234615865843651857942052864) by (nonlinear_arith)
            requires
                -9223372036854775808 <= lead <= 9223372036854775807,
                0 < picked <= 9223372036854775807,
        ;
        (on_hand as i128) * (lookback as i128) <= (lead as i128) * (picked as i128)
    } {
        Urgency::Urgent
    } else {
        Urgency::Low
    }
}

fn key_eq(a: &Option<String>, b: &Option<String>) -> (eq: bool)
    ensures
        eq == (key_of(*a) == key_of(*b)),
{
    match (a, b) {
        (Some(x), Some(y)) => str_eq(x.as_str(), y.as_str()),
        (None, None) => true,
        _ => false,
    }
}

fn key_less(a: &Option<String>, b: &Option<String>) -> (lt: bool)
    ensures
        lt == key_lt(key_of(*a), key_of(*b)),
{
    match (a, b) {
        (Some(x), Some(y)) => str_lt(x.as_str(), y.as_str()),
        (Some(_), None) => true,
        _ => false,
    }
}

proof fn lemma_key_lt_order(a: Option<Seq<char>>, b: Option<Seq<char>>, c: Option<Seq<char>>)
    ensures
        !key_lt(a, a),
        a != b ==> key_lt(a, b) || key_lt(b, a),
        !(key_lt(a, b) && key_lt(b, a)),
        key_lt(a, b) && key_lt(b, c) ==> key_lt(a, c),
{
    match a {
        Some(x) => {
            lemma_seq_lt_irreflexive(x);
            match b {
                Some(y) => {
                    lemma_seq_lt_total(x, y);
                    match c {
                        Some(z) => {
                            if seq_lt(x, y) && seq_lt(y, z) {
                                lemma_seq_lt_transitive(x, y, z);
                            }
                        },
                        None => {},
                    }
                },
                None => {},
            }
        },
        None => {},
    }
}

proof fn lemma_members_other_key(keys: Seq<Option<Seq<char>>>, key: Option<Seq<char>>, k: int)
    requires
        0 <= k < keys.len(),
        keys[k] != key,
    ensures
        members_of(keys, key, k + 1) == members_of(keys, key, k),
{
    assert(members_of(keys, key, k) + Seq::<usize>::empty() =~= members_of(keys, key, k));
}

proof fn lemma_members_empty_without_key(keys: Seq<Option<Seq<char>>>, key: Option<Seq<char>>, k: int)
    requires
        0 <= k <= keys.len(),
        forall|j: int| 0 <= j < k ==> keys[j] != key,
    ensures
        members_of(keys, key, k) == Seq::<usize>::empty(),
    decreases k,
{
    if k > 0 {
        lemma_members_empty_without_key(keys, key, k - 1);
        assert(Seq::<usize>::empty() + Seq::<usize>::empty() =~= Seq::<usize>::empty());
    }
}

/// Group suggestion positions `0..n` by supplier key, in draft order.
fn group_by_supplier(cands: &Vec<ReorderCandidate>) -> (groups: Vec<DraftGroup>)
    ensures
        grouped(groups@, candidate_keys(cands@), cands@.len() as int),
{
    let ghost keys = candidate_keys(cands@);
    let mut groups: Vec<DraftGroup> = Vec::new();
    let mut k: usize = 0;
    while k < cands.len()
        invariant
            k <= cands@.len(),
            keys == candidate_keys(cands@),
            keys.len() == cands@.len(),
            grouped(groups@, keys, k as int),
        decreases cands.len() - k,
    {
        let key = &cands[k].supplier;
        assert(keys[k as int] == key_of(*key));
        let mut g: usize = 0;
        let mut found = false;
        while g < groups.len()
            invariant_except_break
                !found,
            invariant
                g <= groups@.len(),
                forall|h: int| 0 <= h < g ==> key_of(#[trigger] groups@[h].supplier_id) != key_of(*key),
            ensures
                found ==> g < groups@.len() && key_of(groups@[g as int].supplier_id) == key_of(*key),
                !found ==> g == groups@.len(),
            decreases groups.len() - g,
        {
            if key_eq(&groups[g].supplier_id, key) {
                found = true;
                break;
            }
            g = g + 1;
        }
        let ghost old_groups = groups@;
        if found {
            let mut grp = groups.remove(g);
            grp.members.push(k);
            groups.insert(g, grp);
            proof {
                assert(groups@ =~= old_groups.update(g as int, groups@[g as int]));
                assert forall|h: int| 0 <= h < groups@.len() implies (#[trigger] groups@[h]).members@
                    == members_of(keys, key_of(groups@[h].supplier_id), k + 1) && groups@[h].members@.len()
                    > 0 by {
                    if h == g {
                        assert(groups@[h].members@ =~= members_of(
                            keys,
                            key_of(groups@[h].supplier_id),
                            k as int,
                        ) + seq![k]);
                    } else {
                        lemma_key_lt_order(
                            key_of(old_groups[h].supplier_id),
                            key_of(old_groups[g as int].supplier_id),
                            key_of(old_groups[g as int].supplier_id),
                        );
                        if key_of(groups@[h].supplier_id) == keys[k as int] {
                            if h < g {
                                assert(key_lt(
                                    key_of(old_groups[h].supplier_id),
                                    key_of(old_groups[g as int].supplier_id),
                                ));
                            } else {
                                assert(key_lt(
                                    key_of(old_groups[g as int].supplier_id),
                                    key_of(old_groups[h].supplier_id),
                                ));
                            }
                        }
                        lemma_members_other_key(keys, key_of(groups@[h].supplier_id), k as int);
                    }
                }
                assert forall|j: int| #![trigger keys[j]] 0 <= j < k + 1 implies exists|h: int|
                    0 <= h < groups@.len() && key_of(#[trigger] groups@[h].supplier_id) == keys[j] by {
                    if j == k {
                        assert(key_of(groups@[g as int].supplier_id) == keys[j]);
                    } else {
                        let h = choose|h: int|
                            0 <= h < old_groups.len() && key_of(#[trigger] old_groups[h].supplier_id)
                                == keys[j];
                        assert(key_of(groups@[h].supplier_id) == keys[j]);
                    }
                }
            }
        } else {
            let mut p: usize = 0;
            while p < groups.len() && !key_less(key, &groups[p].supplier_id)
                invariant
                    p <= groups@.len(),
                    groups@ == old_groups,
                    forall|h: int| 0 <= h < p ==> !key_lt(key_of(*key), key_of(#[trigger] groups@[h].supplier_id)),
                decreases groups.len() - p,
            {
                p = p + 1;
            }
            let mut members: Vec<usize> = Vec::new();
            members.push(k);
            let grp = DraftGroup { supplier_id: key.clone(), members };
            assert(key_of(grp.supplier_id) == key_of(*key));
            groups.insert(p, grp);
            proof {
                let nk = key_of(*key);
                assert forall|j: int| 0 <= j < k implies keys[j] != nk by {
                    let h = choose|h: int|
                        0 <= h < old_groups.len() && key_of(#[trigger] old_groups[h].supplier_id)
                            == keys[j];
                    assert(key_of(old_groups[h].supplier_id) != nk);
                }
                lemma_members_empty_without_key(keys, nk, k as int);
                assert(members_of(keys, nk, k + 1) =~= seq![k]);
                assert forall|a: int, b: int| 0 <= a < b < groups@.len() implies key_lt(
                    key_of(#[trigger] groups@[a].supplier_id),
                    key_of(#[trigger] groups@[b].supplier_id),
                ) by {
                    if a < p && b < p {
                        assert(groups@[a] == old_groups[a] && groups@[b] == old_groups[b]);
                    } else if a < p && b == p {
                        lemma_key_lt_order(key_of(old_groups[a].supplier_id), nk, nk);
                    } else if a < p && b > p {
                        assert(groups@[b] == old_groups[b - 1]);
                        if b - 1 > a {
                        }
                        assert(key_lt(key_of(old_groups[a].supplier_id), key_of(old_groups[b - 1].supplier_id)) || a == b - 1);
                    } else if a == p {
                        assert(groups@[b] == old_groups[b - 1]);
                        assert(key_lt(nk, key_of(old_groups[p as int].supplier_id)));
                        if b - 1 > p {
                            lemma_key_lt_order(nk, key_of(old_groups[p as int].supplier_id), key_of(old_groups[b - 1].supplier_id));
                        }
                    } else {
                        assert(groups@[a] == old_groups[a - 1] && groups@[b] == old_groups[b - 1]);
                    }
                }
                assert forall|h: int| 0 <= h < groups@.len() implies (#[trigger] groups@[h]).members@
                    == members_of(keys, key_of(groups@[h].supplier_id), k + 1) && groups@[h].members@.len()
                    > 0 by {
                    if h != p {
                        let oh = if h < p { h } else { h - 1 };
                        assert(groups@[h] == old_groups[oh]);
                        assert(key_of(old_groups[oh].supplier_id) != nk);
                        lemma_members_other_key(keys, key_of(groups@[h].supplier_id), k as int);
                    }
                }
                assert forall|j: int| #![trigger keys[j]] 0 <= j < k + 1 implies exists|h: int|
                    0 <= h < groups@.len() && key_of(#[trigger] groups@[h].supplier_id) == keys[j] by {
                    if j == k {
                        assert(key_of(groups@[p as int].supplier_id) == keys[j]);
                    } else {
                        let h = choose|h: int|
                            0 <= h < old_groups.len() && key_of(#[trigger] old_groups[h].supplier_id)
                                == keys[j];
                        let nh = if h < p { h } else { h + 1 };
                        assert(key_of(groups@[nh].supplier_id) == keys[j]);
                    }
                }
            }
        }
        k = k + 1;
    }
    groups
}

/// The reorder report for the candidates (in the order given) and the
/// recorded consumption over the clamped look-back window.
pub fn plan_reorder(
    cands: &Vec<ReorderCandidate>,
    cons: &Vec<Consumption>,
    lookback_days: i64,
) -> (p: ReorderPlan)
    requires
        forall|i: int|
            0 <= i < cands@.len() ==> i64::MIN <= #[trigger] cands@[i].max - cands@[i].qty
                <= i64::MAX && i64::MIN <= cands@[i].min - cands@[i].qty <= i64::MAX,
    ensures
        p.plans(cands@, cons@, clamp_lookback_spec(lookback_days) as int),
        p.wf(),
{
    let lookback = clamp_lookback(lookback_days);
    let mut suggestions: Vec<Suggestion> = Vec::new();
    let mut urgent: usize = 0;
    let mut i: usize = 0;
    while i < cands.len()
        invariant
            i <= cands@.len(),
            7 <= lookback <= 365,
            lookback == clamp_lookback_spec(lookback_days),
            forall|j: int|
                0 <= j < cands@.len() ==> i64::MIN <= #[trigger] cands@[j].max - cands@[j].qty
                    <= i64::MAX && i64::MIN <= cands@[j].min - cands@[j].qty <= i64::MAX,
            suggestions@.len() == i,
            urgent == urgent_count(suggestions@),
            forall|j: int|
                0 <= j < i ==> {
                    let c = #[trigger] cands@[j];
                    let s = suggestions@[j];
                    &&& s.reorder_qty == reorder_qty_spec(c.min as int, c.max as int, c.qty as int)
                    &&& s.picked == picked_for(cons@, c.sku@)
                    &&& s.urgency == urgency_spec(
                        c.qty as int,
                        c.lead_time,
                        s.picked as int,
                        lookback as int,
                    )
                },
        decreases cands.len() - i,
    {
        let c = &cands[i];
        assert(i64::MIN <= cands@[i as int].max - cands@[i as int].qty <= i64::MAX);
        let q = reorder_qty(c.min, c.max, c.qty);
        let picked = picked_lookup(cons, c.sku.as_str());
        let u = urgency(c.qty, c.lead_time, picked, lookback);
        let ghost before = suggestions@;
        suggestions.push(Suggestion { reorder_qty: q, picked, urgency: u });
        assert(suggestions@.drop_last() =~= before);
        proof {
            lemma_urgent_count_bound(before);
        }
        if u == Urgency::Urgent {
            urgent = urgent + 1;
        }
        i = i + 1;
    }
    let groups = group_by_supplier(cands);
    proof {
        lemma_grouped_partitions(groups@, candidate_keys(cands@), cands@.len() as int);
    }
    ReorderPlan {
        lookback_days: lookback,
        items_below_min: cands.len(),
        urgent,
        suggestions,
        groups,
    }
}

pub open spec fn clamp_lookback_spec(days: i64) -> i64 {
    if days < 7 {
        7
    } else if days > 365 {
        365
    } else {
        days
    }
}

proof fn lemma_members_contain(keys: Seq<Option<Seq<char>>>, key: Option<Seq<char>>, k: int, i: int)
    requires
        0 <= i < k <= keys.len(),
        k <= usize::MAX,
    ensures
        members_of(keys, key, k).contains(i as usize) <==> keys[i] == key,
    decreases k,
{
    let prev = members_of(keys, key, k - 1);
    let tail: Seq<usize> = if keys[k - 1] == key {
        seq![(k - 1) as usize]
    } else {
        Seq::empty()
    };
    assert(members_of(keys, key, k) == prev + tail);
    if i < k - 1 {
        lemma_members_contain(keys, key, k - 1, i);
        lemma_members_below(keys, key, k - 1);
        if (prev + tail).contains(i as usize) {
            let x = choose|x: int| 0 <= x < (prev + tail).len() && (prev + tail)[x] == i as usize;
            if x >= prev.len() {
                assert(tail[x - prev.len()] == (k - 1) as usize);
            } else {
                assert(prev.contains(i as usize));
            }
        }
        if prev.contains(i as usize) {
            let x = choose|x: int| 0 <= x < prev.len() && prev[x] == i as usize;
            assert((prev + tail)[x] == i as usize);
        }
    } else {
        lemma_members_below(keys, key, k - 1);
        if keys[k - 1] == key {
            assert((prev + tail)[prev.len() as int] == i as usize);
        } else {
            assert(prev + tail =~= prev);
            if prev.contains(i as usize) {
                let x = choose|x: int| 0 <= x < prev.len() && prev[x] == i as usize;
                assert(prev[x] < k - 1);
            }
        }
    }
}

proof fn lemma_members_below(keys: Seq<Option<Seq<char>>>, key: Option<Seq<char>>, k: int)
    requires
        0 <= k <= keys.len(),
        k <= usize::MAX,
    ensures
        forall|x: int| 0 <= x < members_of(keys, key, k).len() ==> members_of(keys, key, k)[x] < k,
    decreases k,
{
    if k > 0 {
        lemma_members_below(keys, key, k - 1);
        let prev = members_of(keys, key, k - 1);
        let tail: Seq<usize> = if keys[k - 1] == key {
            seq![(k - 1) as usize]
        } else {
            Seq::empty()
        };
        assert(members_of(keys, key, k) == prev + tail);
        assert forall|x: int| 0 <= x < (prev + tail).len() implies (prev + tail)[x] < k by {
            if x >= prev.len() {
                assert(tail[x - prev.len()] == (k - 1) as usize);
            }
        }
    }
}

/// Every suggestion lands in exactly one draft purchase order: the one
/// for its item's supplier (or the supplier-less draft).
pub proof fn lemma_each_item_in_one_draft(
    groups: Seq<DraftGroup>,
    keys: Seq<Option<Seq<char>>>,
    n: int,
    i: int,
)
    requires
        0 <= i < n <= keys.len(),
        n <= usize::MAX,
        grouped(groups, keys, n),
    ensures
        exists|g: int| 0 <= g < groups.len() && (#[trigger] groups[g]).members@.contains(i as usize),
        forall|g1: int, g2: int|
            0 <= g1 < groups.len() && 0 <= g2 < groups.len() && (#[trigger] groups[g1]).members@.contains(
                i as usize,
            ) && (#[trigger] groups[g2]).members@.contains(i as usize) ==> g1 == g2,
{
    let g = choose|g: int| 0 <= g < groups.len() && key_of(#[trigger] groups[g].supplier_id) == keys[i];
    lemma_members_contain(keys, key_of(groups[g].supplier_id), n, i);
    assert(groups[g].members@.contains(i as usize));
    assert forall|g1: int, g2: int|
        0 <= g1 < groups.len() && 0 <= g2 < groups.len() && (#[trigger] groups[g1]).members@.contains(
            i as usize,
        ) && (#[trigger] groups[g2]).members@.contains(i as usize) implies g1 == g2 by {
        lemma_members_contain(keys, key_of(groups[g1].supplier_id), n, i);
        lemma_members_contain(keys, key_of(groups[g2].supplier_id), n, i);
        if g1 < g2 {
            assert(key_lt(key_of(groups[g1].supplier_id), key_of(groups[g2].supplier_id)));
            lemma_key_lt_order(key_of(groups[g1].supplier_id), key_of(groups[g1].supplier_id), key_of(groups[g1].supplier_id));
        } else if g2 < g1 {
            assert(key_lt(key_of(groups[g2].supplier_id), key_of(groups[g1].supplier_id)));
            lemma_key_lt_order(key_of(groups[g2].supplier_id), key_of(groups[g2].supplier_id), key_of(groups[g2].supplier_id));
        }
    }
}

/// The drafts that become purchase orders, by position: those with a
/// supplier (a draft without one would be an unrouteable order).
pub open spec fn routable(groups: Seq<DraftGroup>) -> Seq<int>
    decreases groups.len(),
{
    if groups.len() == 0 {
        Seq::empty()
    } else {
        let k = groups.len() - 1;
        routable(groups.take(k)) + if groups[k].supplier_id is Some {
            seq![k]
        } else {
            Seq::empty()
        }
    }
}

/// Items covered by the routable drafts among `groups`.
pub open spec fn covered(groups: Seq<DraftGroup>) -> int
    decreases groups.len(),
{
    if groups.len() == 0 {
        0
    } else {
        let k = groups.len() - 1;
        covered(groups.take(k)) + if groups[k].supplier_id is Some {
            groups[k].members@.len() as int
        } else {
            0
        }
    }
}

/// A draft's members as integers.
pub open spec fn member_ints(g: DraftGroup) -> Seq<int> {
    g.members@.map_values(|x: usize| x as int)
}

/// The drafts split positions `< n` among themselves: each draft lists
/// positions below `n` in ascending order, and no position is in two
/// drafts.
pub open spec fn partitions(groups: Seq<DraftGroup>, n: int) -> bool {
    &&& forall|g: int, a: int|
        0 <= g < groups.len() && 0 <= a < groups[g].members@.len() ==> #[trigger] groups[g].members@[a]
            < n
    &&& forall|g: int, a: int, b: int|
        0 <= g < groups.len() && 0 <= a < b < groups[g].members@.len() ==> #[trigger] groups[g].members@[a]
            < #[trigger] groups[g].members@[b]
    &&& forall|g1: int, g2: int, a: int, b: int|
        0 <= g1 < g2 < groups.len() && 0 <= a < groups[g1].members@.len() && 0 <= b
            < groups[g2].members@.len() ==> #[trigger] groups[g1].members@[a]
            != #[trigger] groups[g2].members@[b]
}

impl ReorderPlan {
    /// The drafts split the suggestions among themselves.
    pub open spec fn wf(self) -> bool {
        partitions(self.groups@, self.suggestions@.len() as int)
    }
}

/// Positions held by the routable drafts among the first `k`.
spec fn routed_set(groups: Seq<DraftGroup>, k: int) -> Set<int>
    decreases k,
{
    if k <= 0 {
        Set::empty()
    } else {
        routed_set(groups, k - 1) + if groups[k - 1].supplier_id is Some {
            member_ints(groups[k - 1]).to_set()
        } else {
            Set::empty()
        }
    }
}

proof fn lemma_routed_set(groups: Seq<DraftGroup>, n: int, k: int)
    requires
        partitions(groups, n),
        0 <= k <= groups.len(),
        n >= 0,
    ensures
        routed_set(groups, k).finite(),
        routed_set(groups, k).len() == covered(groups.take(k)),
        routed_set(groups, k).subset_of(set_int_range(0, n)),
        forall|x: int|
            #[trigger] routed_set(groups, k).contains(x) ==> exists|g: int, a: int|
                0 <= g < k && 0 <= a < groups[g].members@.len() && groups[g].members@[a] == x,
    decreases k,
{
    broadcast use vstd::seq_lib::seq_to_set_is_finite;
    if k == 0 {
        assert(groups.take(0) =~= Seq::<DraftGroup>::empty());
    } else {
        lemma_routed_set(groups, n, k - 1);
        assert(groups.take(k).take(k - 1) =~= groups.take(k - 1));
        assert(groups.take(k)[k - 1] == groups[k - 1]);
        let prev = routed_set(groups, k - 1);
        let m = member_ints(groups[k - 1]);
        let t: Set<int> = if groups[k - 1].supplier_id is Some {
            m.to_set()
        } else {
            Set::empty()
        };
        assert(routed_set(groups, k) == prev + t);
        assert(m.no_duplicates()) by {
            assert forall|a: int, b: int| 0 <= a < m.len() && 0 <= b < m.len() && a != b implies m[a] != m[b] by {
                if a < b {
                    assert(groups[k - 1].members@[a] < groups[k - 1].members@[b]);
                } else {
                    assert(groups[k - 1].members@[b] < groups[k - 1].members@[a]);
                }
            }
        }
        m.unique_seq_to_set();
        assert(prev.disjoint(t)) by {
            assert forall|x: int| prev.contains(x) implies !t.contains(x) by {
                let (g, a) = choose|g: int, a: int|
                    0 <= g < k - 1 && 0 <= a < groups[g].members@.len() && groups[g].members@[a] == x;
                if t.contains(x) {
                    assert(m.contains(x));
                    let b = choose|b: int| 0 <= b < m.len() && m[b] == x;
                    assert(groups[g].members@[a] != groups[k - 1].members@[b]);
                }
            }
        }
        vstd::set_lib::lemma_set_disjoint_lens(prev, t);
        assert forall|x: int| #[trigger] routed_set(groups, k).contains(x) implies exists|g: int, a: int|
            0 <= g < k && 0 <= a < groups[g].members@.len() && groups[g].members@[a] == x by {
            if !prev.contains(x) {
                assert(m.contains(x));
                let b = choose|b: int| 0 <= b < m.len() && m[b] == x;
                assert(groups[k - 1].members@[b] == x);
            }
        }
        assert forall|x: int| #[trigger] routed_set(groups, k).contains(x) implies set_int_range(0, n).contains(x) by {
            let (g, a) = choose|g: int, a: int|
                0 <= g < k && 0 <= a < groups[g].members@.len() && groups[g].members@[a] == x;
            assert(groups[g].members@[a] < n);
        }
    }
}

/// The routable drafts of a split never cover more than the positions
/// split.
proof fn lemma_covered_bounded(groups: Seq<DraftGroup>, n: int, k: int)
    requires
        partitions(groups, n),
        0 <= k <= groups.len(),
        n >= 0,
    ensures
        0 <= covered(groups.take(k)) <= n,
{
    lemma_routed_set(groups, n, k);
    vstd::set_lib::lemma_int_range(0, n);
    vstd::set_lib::lemma_len_subset(routed_set(groups, k), set_int_range(0, n));
}

proof fn lemma_members_increasing(keys: Seq<Option<Seq<char>>>, key: Option<Seq<char>>, k: int)
    requires
        0 <= k <= keys.len(),
        k <= usize::MAX,
    ensures
        forall|a: int, b: int|
            0 <= a < b < members_of(keys, key, k).len() ==> members_of(keys, key, k)[a]
                < members_of(keys, key, k)[b],
    decreases k,
{
    if k > 0 {
        lemma_members_increasing(keys, key, k - 1);
        lemma_members_below(keys, key, k - 1);
        let prev = members_of(keys, key, k - 1);
        let tail: Seq<usize> = if keys[k - 1] == key {
            seq![(k - 1) as usize]
        } else {
            Seq::empty()
        };
        assert(members_of(keys, key, k) == prev + tail);
        assert forall|a: int, b: int| 0 <= a < b < (prev + tail).len() implies (prev + tail)[a] < (prev
            + tail)[b] by {
            if b >= prev.len() {
                assert(tail[b - prev.len()] == (k - 1) as usize);
            }
        }
    }
}

/// A grouping of positions `< n` by key splits them among the drafts.
proof fn lemma_grouped_partitions(groups: Seq<DraftGroup>, keys: Seq<Option<Seq<char>>>, n: int)
    requires
        0 <= n <= keys.len(),
        n <= usize::MAX,
        grouped(groups, keys, n),
    ensures
        partitions(groups, n),
{
    assert forall|g: int, a: int| 0 <= g < groups.len() && 0 <= a < groups[g].members@.len() implies #[trigger] groups[g].members@[a]
        < n by {
        lemma_members_below(keys, key_of(groups[g].supplier_id), n);
    }
    assert forall|g: int, a: int, b: int| 0 <= g < groups.len() && 0 <= a < b < groups[g].members@.len() implies #[trigger] groups[g].members@[a]
        < #[trigger] groups[g].members@[b] by {
        lemma_members_increasing(keys, key_of(groups[g].supplier_id), n);
    }
    assert forall|g1: int, g2: int, a: int, b: int|
        0 <= g1 < g2 < groups.len() && 0 <= a < groups[g1].members@.len() && 0 <= b
            < groups[g2].members@.len() implies #[trigger] groups[g1].members@[a]
        != #[trigger] groups[g2].members@[b] by {
        if groups[g1].members@[a] == groups[g2].members@[b] {
            let i = groups[g1].members@[a] as int;
            lemma_members_below(keys, key_of(groups[g1].supplier_id), n);
            assert(groups[g1].members@.contains(i as usize));
            assert(groups[g2].members@.contains(i as usize));
            lemma_each_item_in_one_draft(groups, keys, n, i);
        }
    }
}

/// Applying a plan covers no item twice: the routable drafts together
/// hold at most as many items as the plan suggests reordering.
pub proof fn lemma_apply_covers_each_item_once(plan: ReorderPlan)
    requires
        plan.wf(),
    ensures
        covered(plan.groups@) <= plan.suggestions@.len(),
{
    lemma_covered_bounded(plan.groups@, plan.suggestions@.len() as int, plan.groups@.len() as int);
    assert(plan.groups@.take(plan.groups@.len() as int) =~= plan.groups@);
}

/// Which drafts of a plan to materialise, and how many items they cover.
pub fn apply_targets(plan: &ReorderPlan) -> (r: (Vec<usize>, usize))
    requires
        plan.wf(),
    ensures
        r.0@.map_values(|i: usize| i as int) == routable(plan.groups@),
        r.1 == covered(plan.groups@),
{
    let ghost gs = plan.groups@;
    let n_exec = plan.suggestions.len();
    let ghost n = n_exec as int;
    let mut out: Vec<usize> = Vec::new();
    let mut total: usize = 0;
    let mut i: usize = 0;
    while i < plan.groups.len()
        invariant
            i <= gs.len(),
            gs == plan.groups@,
            n == plan.suggestions@.len(),
            n <= usize::MAX,
            partitions(gs, n),
            out@.map_values(|x: usize| x as int) == routable(gs.take(i as int)),
            total == covered(gs.take(i as int)),
        decreases gs.len() - i,
    {
        assert(gs.take(i + 1).take(i as int) =~= gs.take(i as int));
        assert(gs.take(i + 1)[i as int] == gs[i as int]);
        proof {
            lemma_covered_bounded(gs, n, i + 1);
        }
        let g = &plan.groups[i];
        if g.supplier_id.is_some() {
            let ghost before = out@.map_values(|x: usize| x as int);
            out.push(i);
            assert(out@.map_values(|x: usize| x as int) =~= before + seq![i as int]);
            total = total + g.members.len();
        } else {
            assert(out@.map_values(|x: usize| x as int) =~= routable(gs.take(i as int)) + Seq::<int>::empty());
        }
        i = i + 1;
    }
    assert(gs.take(gs.len() as int) =~= gs);
    (out, total)
}

} // verus!
