//! RFC-4180 CSV cells: the one-line parser used by item import and the
//! escaper used by the exports, which also neutralises spreadsheet
//! formula triggers.

use vstd::prelude::*;
use crate::text::{ascii_ws, chars_of, has_char, is_ascii_ws, push_char, push_str};

verus! {

/// Parser mode: outside quotes.
pub open spec fn plain_mode() -> int { 0 }
/// Parser mode: inside a quoted cell.
pub open spec fn quoted_mode() -> int { 1 }
/// Parser mode: just read a quote inside a quoted cell; a second quote
/// makes it a literal quote, anything else ends the quoted section.
pub open spec fn quote_seen_mode() -> int { 2 }

/// State of the one-line parser: finished cells, the cell being read, mode.
pub struct ScanState {
    pub cells: Seq<Seq<char>>,
    pub buf: Seq<char>,
    pub mode: int,
}

/// Reading `c` outside quotes.
pub open spec fn step_plain(st: ScanState, c: char) -> ScanState {
    if c == ',' {
        ScanState { cells: st.cells.push(st.buf), buf: Seq::empty(), mode: plain_mode() }
    } else if c == '"' && st.buf.len() == 0 {
        ScanState { cells: st.cells, buf: st.buf, mode: quoted_mode() }
    } else {
        ScanState { cells: st.cells, buf: st.buf.push(c), mode: plain_mode() }
    }
}

/// Reading `c` in any mode.
pub open spec fn step(st: ScanState, c: char) -> ScanState {
    if st.mode == quoted_mode() {
        if c == '"' {
            ScanState { cells: st.cells, buf: st.buf, mode: quote_seen_mode() }
        } else {
            ScanState { cells: st.cells, buf: st.buf.push(c), mode: quoted_mode() }
        }
    } else if st.mode == quote_seen_mode() {
        if c == '"' {
            ScanState { cells: st.cells, buf: st.buf.push('"'), mode: quoted_mode() }
        } else {
            step_plain(st, c)
        }
    } else {
        step_plain(st, c)
    }
}

/// The state after reading all of `s` from `st`.
pub open spec fn scan_from(st: ScanState, s: Seq<char>) -> ScanState
    decreases s.len(),
{
    if s.len() == 0 {
        st
    } else {
        step(scan_from(st, s.drop_last()), s.last())
    }
}

pub open spec fn start_state() -> ScanState {
    ScanState { cells: Seq::empty(), buf: Seq::empty(), mode: plain_mode() }
}

/// The cells of one CSV line: quoted cells may hold commas and doubled
/// quotes; the last cell is always emitted, even when empty.
pub open spec fn parse_row_spec(line: Seq<char>) -> Seq<Seq<char>> {
    let st = scan_from(start_state(), line);
    st.cells.push(st.buf)
}

pub open spec fn string_views(v: Seq<String>) -> Seq<Seq<char>> {
    v.map_values(|s: String| s@)
}

/// Tiny RFC-4180 parser for one line. Handles quoted cells, embedded
/// quotes (`""`) and embedded commas.
pub fn parse_csv_row(line: &str) -> (cells: Vec<String>)
    ensures
        string_views(cells@) == parse_row_spec(line@),
{
    let v = chars_of(line);
    let mut cells: Vec<String> = Vec::new();
    let mut buf = String::new();
    let mut mode: u8 = 0;
    let mut i: usize = 0;
    while i < v.len()
        invariant
            i <= v@.len(),
            v@ == line@,
            ({
                let st = scan_from(start_state(), v@.take(i as int));
                &&& string_views(cells@) == st.cells
                &&& buf@ == st.buf
                &&& mode as int == st.mode
            }),
        decreases v.len() - i,
    {
        let c = v[i];
        let ghost before = scan_from(start_state(), v@.take(i as int));
        assert(v@.take(i + 1).drop_last() =~= v@.take(i as int));
        if mode == 1 {
            if c == '"' {
                mode = 2;
            } else {
                push_char(&mut buf, c);
            }
        } else if mode == 2 && c == '"' {
            push_char(&mut buf, '"');
            mode = 1;
        } else {
            if c == ',' {
                let done = buf;
                cells.push(done);
                buf = String::new();
                mode = 0;
                assert(string_views(cells@) =~= before.cells.push(before.buf));
            } else if c == '"' && buf.as_str().is_empty() {
                mode = 1;
            } else {
                push_char(&mut buf, c);
                mode = 0;
            }
        }
        i = i + 1;
    }
    assert(v@.take(v@.len() as int) =~= v@);
    let ghost last = scan_from(start_state(), v@);
    cells.push(buf);
    assert(string_views(cells@) =~= last.cells.push(last.buf));
    cells
}

// ---- escaping -----------------------------------------------------------

/// First character of `v` at or after `i` that is not ASCII whitespace.
pub open spec fn first_content_from(v: Seq<char>, i: int) -> Option<char>
    decreases v.len() - i,
{
    if i < 0 || i >= v.len() {
        None
    } else if !is_ascii_ws(v[i]) {
        Some(v[i])
    } else {
        first_content_from(v, i + 1)
    }
}

/// The character that decides whether a spreadsheet would read `v` as a
/// formula: the first non-whitespace one, or the very first when all are
/// whitespace.
pub open spec fn formula_lead(v: Seq<char>) -> Option<char> {
    match first_content_from(v, 0) {
        Some(c) => Some(c),
        None => if v.len() > 0 {
            Some(v[0])
        } else {
            None
        },
    }
}

/// A character that starts a formula: `= + - @`, `|` (DDE), and tab and
/// carriage return, which some spreadsheets also read as a formula start.
pub open spec fn is_formula_trigger(c: char) -> bool {
    c == '=' || c == '+' || c == '-' || c == '@' || c == '|' || c == '\t' || c == '\r'
}

/// A spreadsheet would evaluate `v` as a formula: it starts with a tab or
/// carriage return, or its first non-whitespace character starts a
/// formula.
pub open spec fn is_dangerous(v: Seq<char>) -> bool {
    (v.len() > 0 && (v[0] == '\t' || v[0] == '\r')) || (formula_lead(v) matches Some(c)
        && is_formula_trigger(c))
}

/// `v`, prefixed with an apostrophe when it is dangerous.
pub open spec fn neutralise(v: Seq<char>) -> Seq<char> {
    if is_dangerous(v) {
        seq!['\''] + v
    } else {
        v
    }
}

/// The cell must be quoted.
pub open spec fn needs_quotes(n: Seq<char>) -> bool {
    n.contains(',') || n.contains('"') || n.contains('\n') || n.contains('\r') || n.contains('\t')
}

/// Every quote doubled.
pub open spec fn double_quotes(n: Seq<char>) -> Seq<char>
    decreases n.len(),
{
    if n.len() == 0 {
        Seq::empty()
    } else {
        double_quotes(n.drop_last()) + (if n.last() == '"' {
            seq!['"', '"']
        } else {
            seq![n.last()]
        })
    }
}

/// The escaped cell: neutralised, then quoted with doubled inner quotes
/// when it holds a separator, quote, line break or tab.
pub open spec fn escape_spec(v: Seq<char>) -> Seq<char> {
    let n = neutralise(v);
    if needs_quotes(n) {
        seq!['"'] + double_quotes(n) + seq!['"']
    } else {
        n
    }
}

fn formula_trigger(c: char) -> (b: bool)
    ensures
        b == is_formula_trigger(c),
{
    c == '=' || c == '+' || c == '-' || c == '@' || c == '|' || c == '\t' || c == '\r'
}

/// RFC-4180 escape with CSV-injection neutralisation.
pub fn escape(value: &str) -> (out: String)
    ensures
        out@ == escape_spec(value@),
{
    let v = chars_of(value);
    let mut i: usize = 0;
    while i < v.len() && ascii_ws(v[i])
        invariant
            i <= v@.len(),
            first_content_from(v@, 0) == first_content_from(v@, i as int),
        decreases v.len() - i,
    {
        i = i + 1;
    }
    let starts_blank = v.len() > 0 && (v[0] == '\t' || v[0] == '\r');
    let dangerous = if starts_blank {
        true
    } else if i < v.len() {
        formula_trigger(v[i])
    } else if v.len() > 0 {
        formula_trigger(v[0])
    } else {
        false
    };
    assert(dangerous == is_dangerous(value@));
    let mut n = String::new();
    if dangerous {
        push_char(&mut n, '\'');
    }
    push_str(&mut n, value);
    assert(n@ =~= neutralise(value@));
    let nv = chars_of(n.as_str());
    let quote = has_char(&nv, ',') || has_char(&nv, '"') || has_char(&nv, '\n') || has_char(
        &nv,
        '\r',
    ) || has_char(&nv, '\t');
    if quote {
        let mut out = String::new();
        push_char(&mut out, '"');
        let mut j: usize = 0;
        while j < nv.len()
            invariant
                j <= nv@.len(),
                out@ == seq!['"'] + double_quotes(nv@.take(j as int)),
            decreases nv.len() - j,
        {
            assert(nv@.take(j + 1).drop_last() =~= nv@.take(j as int));
            let c = nv[j];
            if c == '"' {
                push_char(&mut out, '"');
                push_char(&mut out, '"');
            } else {
                push_char(&mut out, c);
            }
            j = j + 1;
            assert(out@ =~= seq!['"'] + double_quotes(nv@.take(j as int)));
        }
        assert(nv@.take(nv@.len() as int) =~= nv@);
        push_char(&mut out, '"');
        out
    } else {
        n
    }
}

/// Cells joined by commas (no trailing separator).
pub open spec fn join_cells(cs: Seq<Seq<char>>) -> Seq<char>
    decreases cs.len(),
{
    if cs.len() == 0 {
        Seq::empty()
    } else if cs.len() == 1 {
        cs[0]
    } else {
        join_cells(cs.drop_last()) + seq![','] + cs.last()
    }
}

/// One CSV record: every value escaped, joined by commas.
pub open spec fn csv_line_spec(values: Seq<Seq<char>>) -> Seq<char> {
    join_cells(values.map_values(|v: Seq<char>| escape_spec(v)))
}

/// Escape every value and join them with commas.
pub fn csv_line(values: &Vec<String>) -> (line: String)
    ensures
        line@ == csv_line_spec(string_views(values@)),
{
    let ghost vs = string_views(values@);
    let ghost es = vs.map_values(|v: Seq<char>| escape_spec(v));
    let mut line = String::new();
    let mut i: usize = 0;
    while i < values.len()
        invariant
            i <= values@.len(),
            vs == string_views(values@),
            es == vs.map_values(|v: Seq<char>| escape_spec(v)),
            line@ == join_cells(es.take(i as int)),
        decreases values.len() - i,
    {
        let e = escape(values[i].as_str());
        assert(es[i as int] == e@);
        if i > 0 {
            push_char(&mut line, ',');
        }
        push_str(&mut line, e.as_str());
        i = i + 1;
        assert(es.take(i as int).drop_last() =~= es.take(i - 1));
        assert(line@ =~= join_cells(es.take(i as int)));
    }
    assert(es.take(values@.len() as int) =~= es);
    line
}

// ---- export / import round trip ----------------------------------------

proof fn lemma_scan_concat(st: ScanState, a: Seq<char>, b: Seq<char>)
    ensures
        scan_from(st, a + b) == scan_from(scan_from(st, a), b),
    decreases b.len(),
{
    if b.len() == 0 {
        assert(a + b =~= a);
    } else {
        assert((a + b).drop_last() =~= a + b.drop_last());
        assert((a + b).last() == b.last());
        lemma_scan_concat(st, a, b.drop_last());
    }
}

proof fn lemma_scan_one(st: ScanState, c: char)
    ensures
        scan_from(st, seq![c]) == step(st, c),
{
    let s = seq![c];
    assert(s.drop_last() =~= Seq::<char>::empty());
    assert(s.last() == c);
    assert(scan_from(st, s.drop_last()) == st);
}

proof fn lemma_scan_plain_text(st: ScanState, s: Seq<char>)
    requires
        st.mode == plain_mode(),
        !s.contains(','),
        !s.contains('"'),
    ensures
        scan_from(st, s) == (ScanState { cells: st.cells, buf: st.buf + s, mode: plain_mode() }),
    decreases s.len(),
{
    if s.len() == 0 {
        assert(st.buf + s =~= st.buf);
    } else {
        let p = s.drop_last();
        assert(!p.contains(',')) by {
            if p.contains(',') {
                let k = choose|k: int| 0 <= k < p.len() && p[k] == ',';
                assert(s[k] == ',');
            }
        }
        assert(!p.contains('"')) by {
            if p.contains('"') {
                let k = choose|k: int| 0 <= k < p.len() && p[k] == '"';
                assert(s[k] == '"');
            }
        }
        lemma_scan_plain_text(st, p);
        assert(s[s.len() - 1] == s.last());
        assert((st.buf + p).push(s.last()) =~= st.buf + s);
    }
}

proof fn lemma_scan_quoted_body(st: ScanState, n: Seq<char>)
    requires
        st.mode == quoted_mode(),
    ensures
        scan_from(st, double_quotes(n)) == (ScanState {
            cells: st.cells,
            buf: st.buf + n,
            mode: quoted_mode(),
        }),
    decreases n.len(),
{
    if n.len() == 0 {
        assert(st.buf + n =~= st.buf);
    } else {
        let p = n.drop_last();
        lemma_scan_quoted_body(st, p);
        let tail = if n.last() == '"' {
            seq!['"', '"']
        } else {
            seq![n.last()]
        };
        lemma_scan_concat(st, double_quotes(p), tail);
        let mid = ScanState { cells: st.cells, buf: st.buf + p, mode: quoted_mode() };
        if n.last() == '"' {
            assert(tail =~= seq!['"'] + seq!['"']);
            lemma_scan_concat(mid, seq!['"'], seq!['"']);
            lemma_scan_one(mid, '"');
            lemma_scan_one(step(mid, '"'), '"');
        } else {
            lemma_scan_one(mid, n.last());
        }
        assert((st.buf + p).push(n.last()) =~= st.buf + n);
    }
}

/// Reading one escaped value from the start of a cell leaves the
/// finished cells unchanged and the neutralised value in the buffer.
proof fn lemma_scan_escaped_cell(st: ScanState, v: Seq<char>)
    requires
        st.mode == plain_mode(),
        st.buf.len() == 0,
    ensures
        scan_from(st, escape_spec(v)).cells == st.cells,
        scan_from(st, escape_spec(v)).buf == neutralise(v),
        scan_from(st, escape_spec(v)).mode == plain_mode() || scan_from(st, escape_spec(v)).mode
            == quote_seen_mode(),
{
    let n = neutralise(v);
    if needs_quotes(n) {
        let open = seq!['"'];
        let q = ScanState { cells: st.cells, buf: st.buf, mode: quoted_mode() };
        lemma_scan_one(st, '"');
        assert(scan_from(st, open) == q);
        lemma_scan_concat(st, open, double_quotes(n));
        lemma_scan_quoted_body(q, n);
        lemma_scan_concat(st, open + double_quotes(n), seq!['"']);
        let body = ScanState { cells: st.cells, buf: st.buf + n, mode: quoted_mode() };
        assert(scan_from(st, open + double_quotes(n)) == body);
        lemma_scan_one(body, '"');
        assert(escape_spec(v) == open + double_quotes(n) + seq!['"']);
        assert(st.buf + n =~= n);
    } else {
        lemma_scan_plain_text(st, n);
        assert(st.buf + n =~= n);
    }
}

/// Importing an exported value gives back the value, with the
/// apostrophe that neutralised a formula trigger kept.
pub proof fn lemma_escape_then_parse(v: Seq<char>)
    ensures
        parse_row_spec(escape_spec(v)) == seq![neutralise(v)],
{
    lemma_scan_escaped_cell(start_state(), v);
    assert(Seq::<Seq<char>>::empty().push(neutralise(v)) =~= seq![neutralise(v)]);
}

proof fn lemma_scan_joined(vs: Seq<Seq<char>>, k: int)
    requires
        1 <= k <= vs.len(),
    ensures
        ({
            let es = vs.map_values(|v: Seq<char>| escape_spec(v));
            let st = scan_from(start_state(), join_cells(es.take(k)));
            &&& st.cells == vs.map_values(|v: Seq<char>| neutralise(v)).take(k - 1)
            &&& st.buf == neutralise(vs[k - 1])
            &&& (st.mode == plain_mode() || st.mode == quote_seen_mode())
        }),
    decreases k,
{
    let es = vs.map_values(|v: Seq<char>| escape_spec(v));
    let ns = vs.map_values(|v: Seq<char>| neutralise(v));
    if k == 1 {
        assert(es.take(1).len() == 1);
        assert(join_cells(es.take(1)) == es[0]);
        lemma_scan_escaped_cell(start_state(), vs[0]);
        assert(ns.take(0) =~= Seq::<Seq<char>>::empty());
    } else {
        lemma_scan_joined(vs, k - 1);
        assert(es.take(k).drop_last() =~= es.take(k - 1));
        let prefix = join_cells(es.take(k - 1));
        let before = scan_from(start_state(), prefix);
        lemma_scan_concat(start_state(), prefix + seq![','], es[k - 1]);
        lemma_scan_concat(start_state(), prefix, seq![',']);
        lemma_scan_one(before, ',');
        let after_comma = scan_from(before, seq![',']);
        assert(after_comma == step(before, ','));
        assert(after_comma.cells == ns.take(k - 2).push(ns[k - 2]));
        assert(ns.take(k - 2).push(ns[k - 2]) =~= ns.take(k - 1));
        lemma_scan_escaped_cell(after_comma, vs[k - 1]);
    }
}

/// Importing an exported record gives back its values, each with the
/// apostrophe that neutralised a formula trigger kept.
pub proof fn lemma_csv_line_round_trip(vs: Seq<Seq<char>>)
    requires
        vs.len() >= 1,
    ensures
        parse_row_spec(csv_line_spec(vs)) == vs.map_values(|v: Seq<char>| neutralise(v)),
{
    let es = vs.map_values(|v: Seq<char>| escape_spec(v));
    let ns = vs.map_values(|v: Seq<char>| neutralise(v));
    lemma_scan_joined(vs, vs.len() as int);
    assert(es.take(vs.len() as int) =~= es);
    assert(ns.take(vs.len() - 1).push(ns[vs.len() - 1]) =~= ns);
}

} // verus!
