//! Tamper-evident activity log.
//!
//! Each entry's hash is the lower-case hex SHA-256 of
//! `prev_hash \n ts \n user \n type \n ref \n description \n payload`
//! (absent fields contribute the empty string). Replaying the log
//! re-derives every hash and every back-link; the first row that does
//! not match is reported.

use vstd::prelude::*;
use vstd::utf8::*;
use crate::text::opt_chars;
use crate::crypto::{append_bytes, ct_eq_bytes, hex_encode, hex_lower, sha256, sha256_spec};

verus! {

broadcast use vstd::utf8::encode_utf8_decode_utf8;

/// One row of the activity log as it is stored.
pub struct StoredEntry {
    pub ts: String,
    pub user: String,
    pub kind: String,
    pub reference: Option<String>,
    pub description: String,
    pub payload: Option<String>,
    pub prev_hash: Option<String>,
    pub hash: String,
}

/// Result of replaying the activity log.
pub struct ChainStatus {
    pub entries: i64,
    pub valid: bool,
    /// 0-based index of the first row whose link or hash failed to verify.
    pub broken_at: Option<i64>,
    /// Hash of the latest entry that verified, for external pinning.
    pub head: Option<String>,
}

/// An optional text, with absence read as the empty text.
pub open spec fn or_empty(o: Option<Seq<char>>) -> Seq<char> {
    match o {
        Some(s) => s,
        None => Seq::empty(),
    }
}

/// The bytes that are hashed for one entry: the UTF-8 encodings of the
/// seven fields, joined by a newline byte.
pub open spec fn preimage(
    prev: Seq<char>,
    ts: Seq<char>,
    user: Seq<char>,
    kind: Seq<char>,
    reference: Seq<char>,
    description: Seq<char>,
    payload: Seq<char>,
) -> Seq<u8> {
    encode_utf8(prev) + seq![10u8] + encode_utf8(ts) + seq![10u8] + encode_utf8(user) + seq![10u8]
        + encode_utf8(kind) + seq![10u8] + encode_utf8(reference) + seq![10u8] + encode_utf8(
        description,
    ) + seq![10u8] + encode_utf8(payload)
}

/// The hex hash that links an entry with these fields to `prev`.
pub open spec fn link_hash(
    prev: Seq<char>,
    ts: Seq<char>,
    user: Seq<char>,
    kind: Seq<char>,
    reference: Seq<char>,
    description: Seq<char>,
    payload: Seq<char>,
) -> Seq<char> {
    hex_lower(sha256_spec(preimage(prev, ts, user, kind, reference, description, payload)))
}

impl StoredEntry {
    /// The hash this entry must carry when its predecessor's hash is `prev`.
    pub open spec fn expected_hash(self, prev: Option<Seq<char>>) -> Seq<char> {
        link_hash(
            or_empty(prev),
            self.ts@,
            self.user@,
            self.kind@,
            or_empty(opt_chars(self.reference)),
            self.description@,
            or_empty(opt_chars(self.payload)),
        )
    }

    /// The entry points back at `prev` and its stored hash matches its contents.
    pub open spec fn links_to(self, prev: Option<Seq<char>>) -> bool {
        &&& opt_chars(self.prev_hash) == prev
        &&& self.hash@ == self.expected_hash(prev)
    }
}

/// Hash of the row before position `i` (none before the first row).
pub open spec fn prev_of(rows: Seq<StoredEntry>, i: int) -> Option<Seq<char>> {
    if i <= 0 {
        None
    } else {
        Some(rows[i - 1].hash@)
    }
}

/// Row `i` verifies against the row before it.
pub open spec fn row_ok(rows: Seq<StoredEntry>, i: int) -> bool {
    rows[i].links_to(prev_of(rows, i))
}

/// The first `k` rows all verify.
pub open spec fn valid_prefix(rows: Seq<StoredEntry>, k: int) -> bool {
    forall|i: int| 0 <= i < k ==> #[trigger] row_ok(rows, i)
}

/// Every row verifies.
pub open spec fn chain_valid(rows: Seq<StoredEntry>) -> bool {
    valid_prefix(rows, rows.len() as int)
}

impl ChainStatus {
    /// This status is the exact verdict of replaying `rows`.
    pub open spec fn describes(self, rows: Seq<StoredEntry>) -> bool {
        &&& self.entries == rows.len()
        &&& self.valid == chain_valid(rows)
        &&& match self.broken_at {
            None => self.valid && opt_chars(self.head) == prev_of(rows, rows.len() as int),
            Some(k) => {
                &&& !self.valid
                &&& 0 <= k < rows.len()
                &&& valid_prefix(rows, k as int)
                &&& !row_ok(rows, k as int)
                &&& opt_chars(self.head) == prev_of(rows, k as int)
            },
        }
    }
}

fn opt_as_str(o: &Option<String>) -> (s: &str)
    ensures
        s@ == or_empty(opt_chars(*o)),
{
    match o {
        Some(s) => s.as_str(),
        None => {
            proof {
                reveal_strlit("");
            }
            ""
        },
    }
}

fn opt_eq(a: &Option<String>, b: &Option<String>) -> (eq: bool)
    ensures
        eq == (opt_chars(*a) == opt_chars(*b)),
{
    match (a, b) {
        (Some(x), Some(y)) => same_text(x, y),
        (None, None) => true,
        _ => false,
    }
}

fn same_text(a: &String, b: &String) -> (eq: bool)
    ensures
        eq == (a@ == b@),
{
    let x = a.as_str().as_bytes();
    let y = b.as_str().as_bytes();
    proof {
        assert(decode_utf8(encode_utf8(a@)) == a@);
        assert(decode_utf8(encode_utf8(b@)) == b@);
    }
    x.len() == y.len() && ct_eq_bytes(x, y)
}

/// Hex SHA-256 that links an entry with the given fields to `prev`.
pub fn entry_hash(
    prev: &str,
    ts: &str,
    user: &str,
    kind: &str,
    reference: &str,
    description: &str,
    payload: &str,
) -> (h: String)
    ensures
        h@ == link_hash(prev@, ts@, user@, kind@, reference@, description@, payload@),
{
    let mut buf: Vec<u8> = Vec::new();
    append_bytes(&mut buf, prev.as_bytes());
    buf.push(10u8);
    append_bytes(&mut buf, ts.as_bytes());
    buf.push(10u8);
    append_bytes(&mut buf, user.as_bytes());
    buf.push(10u8);
    append_bytes(&mut buf, kind.as_bytes());
    buf.push(10u8);
    append_bytes(&mut buf, reference.as_bytes());
    buf.push(10u8);
    append_bytes(&mut buf, description.as_bytes());
    buf.push(10u8);
    append_bytes(&mut buf, payload.as_bytes());
    assert(buf@ =~= preimage(prev@, ts@, user@, kind@, reference@, description@, payload@));
    let digest = sha256(buf.as_slice());
    hex_encode(digest.as_slice())
}

/// The row to append after a log whose latest hash is `prev_hash`. An
/// empty `payload_json` is stored as no payload.
pub fn chain_entry(
    prev_hash: Option<String>,
    ts: String,
    user: String,
    kind: String,
    reference: Option<String>,
    description: String,
    payload_json: String,
) -> (e: StoredEntry)
    ensures
        e.prev_hash == prev_hash,
        e.ts == ts,
        e.user == user,
        e.kind == kind,
        e.reference == reference,
        e.description == description,
        e.payload == (if payload_json@.len() == 0 {
            None::<String>
        } else {
            Some(payload_json)
        }),
        e.links_to(opt_chars(prev_hash)),
{
    let hash = entry_hash(
        opt_as_str(&prev_hash),
        ts.as_str(),
        user.as_str(),
        kind.as_str(),
        opt_as_str(&reference),
        description.as_str(),
        payload_json.as_str(),
    );
    let payload = if payload_json.as_str().is_empty() {
        None
    } else {
        Some(payload_json)
    };
    StoredEntry { ts, user, kind, reference, description, payload, prev_hash, hash }
}

/// Replay the log from the first row and report whether every back-link
/// and every hash verifies; on failure, the first failing row.
pub fn verify_chain(rows: &Vec<StoredEntry>) -> (st: ChainStatus)
    requires
        rows@.len() <= i64::MAX,
    ensures
        st.describes(rows@),
{
    let n = rows.len();
    let mut prev: Option<String> = None;
    let mut i: usize = 0;
    while i < n
        invariant
            n == rows@.len(),
            n <= i64::MAX,
            i <= n,
            valid_prefix(rows@, i as int),
            opt_chars(prev) == prev_of(rows@, i as int),
        decreases n - i,
    {
        let r = &rows[i];
        if !opt_eq(&r.prev_hash, &prev) {
            assert(!row_ok(rows@, i as int));
            return ChainStatus { entries: n as i64, valid: false, broken_at: Some(i as i64), head: prev };
        }
        let recomputed = entry_hash(
            opt_as_str(&prev),
            r.ts.as_str(),
            r.user.as_str(),
            r.kind.as_str(),
            opt_as_str(&r.reference),
            r.description.as_str(),
            opt_as_str(&r.payload),
        );
        if !same_text(&recomputed, &r.hash) {
            assert(!row_ok(rows@, i as int));
            return ChainStatus { entries: n as i64, valid: false, broken_at: Some(i as i64), head: prev };
        }
        prev = Some(r.hash.clone());
        i = i + 1;
        assert(valid_prefix(rows@, i as int)) by {
            assert forall|j: int| 0 <= j < i implies #[trigger] row_ok(rows@, j) by {
                if j < i - 1 {
                    assert(row_ok(rows@, j));
                }
            }
        }
    }
    ChainStatus { entries: n as i64, valid: true, broken_at: None, head: prev }
}

/// Appending an entry that links to the current head keeps a valid log valid.
pub proof fn lemma_append_keeps_chain_valid(rows: Seq<StoredEntry>, e: StoredEntry)
    requires
        chain_valid(rows),
        e.links_to(prev_of(rows, rows.len() as int)),
    ensures
        chain_valid(rows.push(e)),
{
    let r2 = rows.push(e);
    assert forall|i: int| 0 <= i < r2.len() implies #[trigger] row_ok(r2, i) by {
        if i < rows.len() {
            assert(row_ok(rows, i));
            assert(prev_of(r2, i) == prev_of(rows, i));
        } else {
            assert(prev_of(r2, i) == prev_of(rows, rows.len() as int));
        }
    }
}

/// A log whose first row points at a predecessor that is no longer
/// present (the shape left by retention pruning) is reported broken at
/// row 0, with no head.
pub proof fn lemma_pruned_log_breaks_at_first_row(rows: Seq<StoredEntry>, st: ChainStatus)
    requires
        st.describes(rows),
        rows.len() > 0,
        rows[0].prev_hash is Some,
    ensures
        !st.valid,
        st.broken_at == Some(0i64),
        st.head is None,
{
    assert(!row_ok(rows, 0));
    if st.broken_at is Some {
        let k = st.broken_at->0;
        if k > 0 {
            assert(row_ok(rows, 0));
        }
    }
}

/// Altering a row of a valid log so that its contents no longer hash to
/// its stored hash is reported at exactly that row.
pub proof fn lemma_altered_row_is_detected(
    rows: Seq<StoredEntry>,
    i: int,
    e: StoredEntry,
    st: ChainStatus,
)
    requires
        chain_valid(rows),
        0 <= i < rows.len(),
        e.hash == rows[i].hash,
        e.prev_hash == rows[i].prev_hash,
        e.hash@ != e.expected_hash(prev_of(rows, i)),
        st.describes(rows.update(i, e)),
    ensures
        !st.valid,
        st.broken_at == Some(i as i64),
{
    let r2 = rows.update(i, e);
    assert forall|j: int| 0 <= j < i implies #[trigger] row_ok(r2, j) by {
        assert(row_ok(rows, j));
        assert(prev_of(r2, j) == prev_of(rows, j));
    }
    assert(prev_of(r2, i) == prev_of(rows, i));
    assert(!row_ok(r2, i));
    let k = st.broken_at->0;
    if k < i {
        assert(row_ok(r2, k as int));
    } else if k > i {
        assert(row_ok(r2, i));
    }
}

/// Deleting a row that is not the newest from a valid log is reported at
/// the deleted position, provided the deleted row's hash differs from its
/// predecessor's.
pub proof fn lemma_deleted_row_is_detected(rows: Seq<StoredEntry>, i: int, st: ChainStatus)
    requires
        chain_valid(rows),
        0 <= i < rows.len() - 1,
        i == 0 || rows[i - 1].hash@ != rows[i].hash@,
        st.describes(rows.remove(i)),
    ensures
        !st.valid,
        st.broken_at == Some(i as i64),
{
    let r2 = rows.remove(i);
    assert forall|j: int| 0 <= j < i implies #[trigger] row_ok(r2, j) by {
        assert(row_ok(rows, j));
        assert(prev_of(r2, j) == prev_of(rows, j));
    }
    assert(row_ok(rows, i + 1));
    assert(r2[i] == rows[i + 1]);
    assert(!row_ok(r2, i));
    let k = st.broken_at->0;
    if k < i {
        assert(row_ok(r2, k as int));
    } else if k > i {
        assert(row_ok(r2, i));
    }
}

/// The hashed text of an entry ends with its payload, after the other
/// fields in order, each followed by a line break.
pub proof fn lemma_preimage_ends_with_payload(
    prev: Seq<char>,
    ts: Seq<char>,
    user: Seq<char>,
    kind: Seq<char>,
    reference: Seq<char>,
    description: Seq<char>,
    payload: Seq<char>,
)
    ensures
        ({
            let p = preimage(prev, ts, user, kind, reference, description, payload);
            let n = encode_utf8(payload).len();
            &&& p.len() >= n
            &&& p.skip(p.len() - n) == encode_utf8(payload)
            &&& p.take(p.len() - n) == preimage(prev, ts, user, kind, reference, description, Seq::empty())
        }),
{
    let head = preimage(prev, ts, user, kind, reference, description, Seq::empty());
    assert(encode_utf8(Seq::<char>::empty()) =~= Seq::<u8>::empty()) by {
        vstd::utf8::encode_utf8_decode_utf8(Seq::<char>::empty());
    }
    let p = preimage(prev, ts, user, kind, reference, description, payload);
    assert(p =~= head + encode_utf8(payload));
    assert(p.skip(p.len() - encode_utf8(payload).len()) =~= encode_utf8(payload));
    assert(p.take(p.len() - encode_utf8(payload).len()) =~= head);
}

/// Entries that differ only in their payload are hashed over different
/// texts: the payload is part of what the chain protects, so changing it
/// changes the input of SHA-256.
pub proof fn lemma_payload_changes_preimage(
    prev: Seq<char>,
    ts: Seq<char>,
    user: Seq<char>,
    kind: Seq<char>,
    reference: Seq<char>,
    description: Seq<char>,
    p1: Seq<char>,
    p2: Seq<char>,
)
    requires
        p1 != p2,
    ensures
        preimage(prev, ts, user, kind, reference, description, p1) != preimage(
            prev,
            ts,
            user,
            kind,
            reference,
            description,
            p2,
        ),
{
    lemma_preimage_ends_with_payload(prev, ts, user, kind, reference, description, p1);
    lemma_preimage_ends_with_payload(prev, ts, user, kind, reference, description, p2);
    let a = preimage(prev, ts, user, kind, reference, description, p1);
    let b = preimage(prev, ts, user, kind, reference, description, p2);
    let head = preimage(prev, ts, user, kind, reference, description, Seq::empty());
    if a == b {
        assert(a.len() - encode_utf8(p1).len() == head.len());
        assert(b.len() - encode_utf8(p2).len() == head.len());
        assert(encode_utf8(p1) == encode_utf8(p2));
        vstd::utf8::encode_utf8_decode_utf8(p1);
        vstd::utf8::encode_utf8_decode_utf8(p2);
    }
}

} // verus!
