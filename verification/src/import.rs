//! Planning an item import from a CSV body: the header decides which
//! columns are read, each following line becomes a row to upsert (keyed
//! by SKU), a rejected row, or a blank line. Writing the rows is left to
//! the caller, one transaction per row.

use vstd::prelude::*;
use crate::csv::{parse_csv_row, parse_row_spec, string_views};
use crate::errors::{bad_request, ApiError};
use crate::numbers::{i64_text_value, parse_i64};
use crate::text::{chars_of, lower_spec, lowercase, opt_chars, push_char, push_str, str_eq, trim_spec, trimmed};

verus! {

// ---- lines ---------------------------------------------------------------

/// Splitting state: finished lines and the line being read.
pub struct LineScan {
    pub lines: Seq<Seq<char>>,
    pub cur: Seq<char>,
}

/// A line ending's `\r` before the `\n` is not part of the line.
pub open spec fn strip_cr(l: Seq<char>) -> Seq<char> {
    if l.len() > 0 && l.last() == '\r' {
        l.drop_last()
    } else {
        l
    }
}

pub open spec fn line_step(st: LineScan, c: char) -> LineScan {
    if c == '\n' {
        LineScan { lines: st.lines.push(strip_cr(st.cur)), cur: Seq::empty() }
    } else {
        LineScan { lines: st.lines, cur: st.cur.push(c) }
    }
}

pub open spec fn line_scan(s: Seq<char>) -> LineScan
    decreases s.len(),
{
    if s.len() == 0 {
        LineScan { lines: Seq::empty(), cur: Seq::empty() }
    } else {
        line_step(line_scan(s.drop_last()), s.last())
    }
}

/// `str::lines`: split at `\n` or `\r\n`; a final line ending adds no
/// empty line.
pub open spec fn lines_spec(s: Seq<char>) -> Seq<Seq<char>> {
    let st = line_scan(s);
    if st.cur.len() > 0 {
        st.lines.push(st.cur)
    } else {
        st.lines
    }
}

/// The lines of `s`, as `str::lines` yields them.
pub fn split_lines(s: &str) -> (ls: Vec<String>)
    ensures
        string_views(ls@) == lines_spec(s@),
        ls@.len() <= s@.len(),
{
    let v = chars_of(s);
    let mut lines: Vec<String> = Vec::new();
    let mut cur = String::new();
    let mut cur_len: usize = 0;
    let mut i: usize = 0;
    while i < v.len()
        invariant
            i <= v@.len(),
            v@ == s@,
            string_views(lines@) == line_scan(v@.take(i as int)).lines,
            cur@ == line_scan(v@.take(i as int)).cur,
            cur_len == cur@.len(),
            lines@.len() + cur_len <= i,
        decreases v.len() - i,
    {
        let c = v[i];
        assert(v@.take(i + 1).drop_last() =~= v@.take(i as int));
        if c == '\n' {
            let cv = chars_of(cur.as_str());
            let end: usize = if cv.len() > 0 && cv[cv.len() - 1] == '\r' {
                cv.len() - 1
            } else {
                cv.len()
            };
            let line = crate::text::string_from_chars(&cv, 0, end);
            assert(line@ =~= strip_cr(cur@));
            let ghost before = string_views(lines@);
            lines.push(line);
            assert(string_views(lines@) =~= before.push(line@));
            cur = String::new();
            cur_len = 0;
        } else {
            push_char(&mut cur, c);
            cur_len = cur_len + 1;
        }
        i = i + 1;
    }
    assert(v@.take(v@.len() as int) =~= v@);
    if cur_len > 0 {
        let ghost before = string_views(lines@);
        lines.push(cur);
        assert(string_views(lines@) =~= before.push(line_scan(s@).cur));
    }
    lines
}

// ---- header ----------------------------------------------------------------

/// Column names of the header line: each cell trimmed and lower-cased.
pub open spec fn header_names(h: Seq<char>) -> Seq<Seq<char>> {
    parse_row_spec(h).map_values(|c: Seq<char>| lower_spec(trim_spec(c)))
}

pub open spec fn first_index_from(cols: Seq<Seq<char>>, name: Seq<char>, i: int) -> Option<int>
    decreases cols.len() - i,
{
    if i < 0 || i >= cols.len() {
        None
    } else if cols[i] == name {
        Some(i)
    } else {
        first_index_from(cols, name, i + 1)
    }
}

/// Position of the first column called `name`.
pub open spec fn first_index(cols: Seq<Seq<char>>, name: Seq<char>) -> Option<int> {
    first_index_from(cols, name, 0)
}

pub open spec fn either(a: Option<int>, b: Option<int>) -> Option<int> {
    match a {
        Some(x) => Some(x),
        None => b,
    }
}

pub open spec fn opt_index(o: Option<usize>) -> Option<int> {
    match o {
        Some(x) => Some(x as int),
        None => None,
    }
}

/// Which header column feeds each field of an item.
pub struct ImportColumns {
    pub sku: usize,
    pub name: usize,
    pub category: Option<usize>,
    pub brand: Option<usize>,
    pub supplier: Option<usize>,
    pub cost: Option<usize>,
    pub price: Option<usize>,
    pub unit: Option<usize>,
    pub min: Option<usize>,
    pub max: Option<usize>,
    pub qty: Option<usize>,
    pub allocated: Option<usize>,
    pub barcode: Option<usize>,
    pub img: Option<usize>,
}

impl ImportColumns {
    /// The columns are the ones the header names pick: the first column
    /// of each recognised name, with `cat`, `min_qty`, `max_qty` as
    /// fallbacks for `category`, `min`, `max`.
    pub open spec fn picked_from(self, cols: Seq<Seq<char>>) -> bool {
        &&& first_index(cols, "sku"@) == Some(self.sku as int)
        &&& first_index(cols, "name"@) == Some(self.name as int)
        &&& opt_index(self.category) == either(
            first_index(cols, "category"@),
            first_index(cols, "cat"@),
        )
        &&& opt_index(self.brand) == first_index(cols, "brand"@)
        &&& opt_index(self.supplier) == first_index(cols, "supplier"@)
        &&& opt_index(self.cost) == first_index(cols, "cost"@)
        &&& opt_index(self.price) == first_index(cols, "price"@)
        &&& opt_index(self.unit) == first_index(cols, "unit"@)
        &&& opt_index(self.min) == either(first_index(cols, "min"@), first_index(cols, "min_qty"@))
        &&& opt_index(self.max) == either(first_index(cols, "max"@), first_index(cols, "max_qty"@))
        &&& opt_index(self.qty) == first_index(cols, "qty"@)
        &&& opt_index(self.allocated) == first_index(cols, "allocated"@)
        &&& opt_index(self.barcode) == first_index(cols, "barcode"@)
        &&& opt_index(self.img) == first_index(cols, "img"@)
    }
}

fn find_column(cols: &Vec<String>, name: &str) -> (r: Option<usize>)
    ensures
        opt_index(r) == first_index(string_views(cols@), name@),
        r matches Some(i) ==> i < cols@.len(),
{
    let ghost cs = string_views(cols@);
    let mut i: usize = 0;
    while i < cols.len()
        invariant
            i <= cols@.len(),
            cs == string_views(cols@),
            first_index(cs, name@) == first_index_from(cs, name@, i as int),
        decreases cols.len() - i,
    {
        assert(cs[i as int] == cols@[i as int]@);
        if str_eq(cols[i].as_str(), name) {
            return Some(i);
        }
        i = i + 1;
    }
    None
}

fn find_either(cols: &Vec<String>, a: &str, b: &str) -> (r: Option<usize>)
    ensures
        opt_index(r) == either(
            first_index(string_views(cols@), a@),
            first_index(string_views(cols@), b@),
        ),
{
    match find_column(cols, a) {
        Some(i) => Some(i),
        None => find_column(cols, b),
    }
}

/// Read the header line and pick the columns; `sku` and `name` must be
/// present.
pub fn import_columns(header: &str) -> (r: Result<ImportColumns, ApiError>)
    ensures
        ({
            let names = header_names(header@);
            match r {
                Ok(c) => c.picked_from(names),
                Err(e) => if first_index(names, "sku"@) is None {
                    e.is_bad_request("missing column: sku"@)
                } else {
                    first_index(names, "name"@) is None && e.is_bad_request(
                        "missing column: name"@,
                    )
                },
            }
        }),
{
    let raw = parse_csv_row(header);
    let mut cols: Vec<String> = Vec::new();
    let mut i: usize = 0;
    while i < raw.len()
        invariant
            i <= raw@.len(),
            string_views(cols@) == parse_row_spec(header@).take(i as int).map_values(
                |c: Seq<char>| lower_spec(trim_spec(c)),
            ),
            string_views(raw@) == parse_row_spec(header@),
        decreases raw.len() - i,
    {
        let t = trimmed(raw[i].as_str());
        let l = lowercase(t.as_str());
        let ghost before = string_views(cols@);
        cols.push(l);
        assert(string_views(cols@) =~= before.push(l@));
        i = i + 1;
        assert(string_views(raw@)[i - 1] == raw@[i - 1]@);
        assert(parse_row_spec(header@)[i - 1] == raw@[i - 1]@);
        assert(string_views(cols@) =~= parse_row_spec(header@).take(i as int).map_values(
            |c: Seq<char>| lower_spec(trim_spec(c)),
        ));
    }
    assert(parse_row_spec(header@).take(raw@.len() as int) =~= parse_row_spec(header@));
    let sku = match find_column(&cols, "sku") {
        Some(x) => x,
        None => {
            return Err(bad_request("missing column: sku"));
        },
    };
    let name = match find_column(&cols, "name") {
        Some(x) => x,
        None => {
            return Err(bad_request("missing column: name"));
        },
    };
    Ok(ImportColumns {
        sku,
        name,
        category: find_either(&cols, "category", "cat"),
        brand: find_column(&cols, "brand"),
        supplier: find_column(&cols, "supplier"),
        cost: find_column(&cols, "cost"),
        price: find_column(&cols, "price"),
        unit: find_column(&cols, "unit"),
        min: find_either(&cols, "min", "min_qty"),
        max: find_either(&cols, "max", "max_qty"),
        qty: find_column(&cols, "qty"),
        allocated: find_column(&cols, "allocated"),
        barcode: find_column(&cols, "barcode"),
        img: find_column(&cols, "img"),
    })
}

// ---- rows ------------------------------------------------------------------

/// A rejected import line, as reported back to the operator.
pub struct ImportError {
    pub line: usize,
    pub sku: Option<String>,
    pub message: String,
}

/// One item to upsert by SKU. `cost` and `price` are the trimmed cell
/// texts; the storage layer reads them as decimal numbers (0 when absent
/// or unreadable).
pub struct ImportRow {
    pub line: usize,
    pub sku: String,
    pub name: String,
    pub category: String,
    pub brand: Option<String>,
    pub supplier: Option<String>,
    pub cost: Option<String>,
    pub price: Option<String>,
    pub unit: String,
    pub min_qty: i64,
    pub max_qty: i64,
    pub qty: i64,
    pub allocated: i64,
    pub barcode: Option<String>,
    pub img: Option<String>,
}

/// What to do with one line after the header.
pub enum RowPlan {
    Blank,
    Rejected(ImportError),
    Ready(ImportRow),
}

/// Cell `i` of the row, when the column exists and the row reaches it.
pub open spec fn cell_at(cells: Seq<Seq<char>>, i: Option<usize>) -> Option<Seq<char>> {
    match i {
        Some(n) => if n < cells.len() {
            Some(cells[n as int])
        } else {
            None
        },
        None => None,
    }
}

/// A required cell: present and not blank, trimmed.
pub open spec fn required_cell(cells: Seq<Seq<char>>, i: usize) -> Option<Seq<char>> {
    if i < cells.len() && trim_spec(cells[i as int]).len() > 0 {
        Some(trim_spec(cells[i as int]))
    } else {
        None
    }
}

/// An optional cell, trimmed.
pub open spec fn trimmed_cell(c: Option<Seq<char>>) -> Option<Seq<char>> {
    match c {
        Some(x) => Some(trim_spec(x)),
        None => None,
    }
}

/// An optional cell, trimmed, with a blank cell read as absent.
pub open spec fn text_cell(c: Option<Seq<char>>) -> Option<Seq<char>> {
    match c {
        Some(x) => if trim_spec(x).len() > 0 {
            Some(trim_spec(x))
        } else {
            None
        },
        None => None,
    }
}

/// An integer cell: the trimmed text read as `i64`, 0 when absent or unreadable.
pub open spec fn int_cell(c: Option<Seq<char>>) -> i64 {
    match c {
        Some(x) => match i64_text_value(trim_spec(x)) {
            Some(v) => v,
            None => 0,
        },
        None => 0,
    }
}

impl ImportRow {
    /// The row holds exactly what the cells give for the picked columns.
    pub open spec fn read_from(self, cols: ImportColumns, line: int, cells: Seq<Seq<char>>) -> bool {
        &&& self.line == line
        &&& required_cell(cells, cols.sku) == Some(self.sku@)
        &&& required_cell(cells, cols.name) == Some(self.name@)
        &&& self.category@ == match cell_at(cells, cols.category) {
            Some(c) => trim_spec(c),
            None => "Spare parts"@,
        }
        &&& opt_chars(self.brand) == text_cell(cell_at(cells, cols.brand))
        &&& opt_chars(self.supplier) == text_cell(cell_at(cells, cols.supplier))
        &&& opt_chars(self.cost) == trimmed_cell(cell_at(cells, cols.cost))
        &&& opt_chars(self.price) == trimmed_cell(cell_at(cells, cols.price))
        &&& self.unit@ == match text_cell(cell_at(cells, cols.unit)) {
            Some(u) => u,
            None => "ea"@,
        }
        &&& self.min_qty == int_cell(cell_at(cells, cols.min))
        &&& self.max_qty == int_cell(cell_at(cells, cols.max))
        &&& self.qty == int_cell(cell_at(cells, cols.qty))
        &&& self.allocated == int_cell(cell_at(cells, cols.allocated))
        &&& opt_chars(self.barcode) == text_cell(cell_at(cells, cols.barcode))
        &&& opt_chars(self.img) == text_cell(cell_at(cells, cols.img))
    }
}

impl RowPlan {
    /// The plan is the one that line `line`, reading `raw`, calls for.
    pub open spec fn planned_for(self, cols: ImportColumns, line: int, raw: Seq<char>) -> bool {
        if trim_spec(raw).len() == 0 {
            self is Blank
        } else {
            let cells = parse_row_spec(raw);
            match required_cell(cells, cols.sku) {
                None => self matches RowPlan::Rejected(e) && e.line == line && e.sku is None
                    && e.message@ == "missing sku"@,
                Some(sku) => match required_cell(cells, cols.name) {
                    None => self matches RowPlan::Rejected(e) && e.line == line && opt_chars(e.sku)
                        == Some(sku) && e.message@ == "missing name"@,
                    Some(_) => self matches RowPlan::Ready(r) && r.read_from(cols, line, cells),
                },
            }
        }
    }
}

fn cell_ref(cells: &Vec<String>, i: Option<usize>) -> (c: Option<&String>)
    ensures
        opt_chars(match c {
            Some(x) => Some(*x),
            None => None,
        }) == cell_at(string_views(cells@), i),
{
    match i {
        Some(n) => if n < cells.len() {
            Some(&cells[n])
        } else {
            None
        },
        None => None,
    }
}

fn trimmed_of(c: Option<&String>) -> (t: Option<String>)
    ensures
        opt_chars(t) == trimmed_cell(opt_chars(match c {
            Some(x) => Some(*x),
            None => None,
        })),
{
    match c {
        Some(x) => Some(trimmed(x.as_str())),
        None => None,
    }
}

fn text_of(c: Option<&String>) -> (t: Option<String>)
    ensures
        opt_chars(t) == text_cell(opt_chars(match c {
            Some(x) => Some(*x),
            None => None,
        })),
{
    match c {
        Some(x) => {
            let t = trimmed(x.as_str());
            if t.as_str().is_empty() {
                None
            } else {
                Some(t)
            }
        },
        None => None,
    }
}

fn int_of(c: Option<&String>) -> (v: i64)
    ensures
        v == int_cell(opt_chars(match c {
            Some(x) => Some(*x),
            None => None,
        })),
{
    match c {
        Some(x) => {
            let t = trimmed(x.as_str());
            match parse_i64(t.as_str()) {
                Some(v) => v,
                None => 0,
            }
        },
        None => 0,
    }
}

fn required_of(cells: &Vec<String>, i: usize) -> (t: Option<String>)
    ensures
        opt_chars(t) == required_cell(string_views(cells@), i),
{
    if i < cells.len() {
        let t = trimmed(cells[i].as_str());
        if t.as_str().is_empty() {
            None
        } else {
            Some(t)
        }
    } else {
        None
    }
}

/// Plan one line of the import (`line` is its 1-based line number).
pub fn plan_row(cols: &ImportColumns, line: usize, raw: &str) -> (p: RowPlan)
    ensures
        p.planned_for(*cols, line as int, raw@),
{
    let t = trimmed(raw);
    if t.as_str().is_empty() {
        return RowPlan::Blank;
    }
    let cells = parse_csv_row(raw);
    let sku = match required_of(&cells, cols.sku) {
        Some(s) => s,
        None => {
            return RowPlan::Rejected(
                ImportError { line, sku: None, message: "missing sku".to_owned() },
            );
        },
    };
    let name = match required_of(&cells, cols.name) {
        Some(s) => s,
        None => {
            return RowPlan::Rejected(
                ImportError { line, sku: Some(sku), message: "missing name".to_owned() },
            );
        },
    };
    let category = match cell_ref(&cells, cols.category) {
        Some(c) => trimmed(c.as_str()),
        None => "Spare parts".to_owned(),
    };
    let unit = match text_of(cell_ref(&cells, cols.unit)) {
        Some(u) => u,
        None => "ea".to_owned(),
    };
    RowPlan::Ready(
        ImportRow {
            line,
            sku,
            name,
            category,
            brand: text_of(cell_ref(&cells, cols.brand)),
            supplier: text_of(cell_ref(&cells, cols.supplier)),
            cost: trimmed_of(cell_ref(&cells, cols.cost)),
            price: trimmed_of(cell_ref(&cells, cols.price)),
            unit,
            min_qty: int_of(cell_ref(&cells, cols.min)),
            max_qty: int_of(cell_ref(&cells, cols.max)),
            qty: int_of(cell_ref(&cells, cols.qty)),
            allocated: int_of(cell_ref(&cells, cols.allocated)),
            barcode: text_of(cell_ref(&cells, cols.barcode)),
            img: text_of(cell_ref(&cells, cols.img)),
        },
    )
}

// ---- whole body ------------------------------------------------------------

/// Plan an import from a CSV body: the first line is the header; every
/// later line (numbered from 2) is planned against the picked columns.
pub fn plan_import(body: &str) -> (r: Result<Vec<RowPlan>, ApiError>)
    requires
        body@.len() < usize::MAX - 2,
    ensures
        trim_spec(body@).len() == 0 ==> (r matches Err(e) && e.is_bad_request("empty CSV body"@)),
        trim_spec(body@).len() > 0 ==> ({
            let ls = lines_spec(body@);
            if ls.len() == 0 {
                r matches Err(e) && e.is_bad_request("missing header"@)
            } else {
                let names = header_names(ls[0]);
                match r {
                    Err(e) => if first_index(names, "sku"@) is None {
                        e.is_bad_request("missing column: sku"@)
                    } else {
                        first_index(names, "name"@) is None && e.is_bad_request(
                            "missing column: name"@,
                        )
                    },
                    Ok(plan) => exists|cols: ImportColumns|
                        {
                            &&& #[trigger] cols.picked_from(names)
                            &&& plan@.len() == ls.len() - 1
                            &&& forall|k: int|
                                0 <= k < plan@.len() ==> #[trigger] plan@[k].planned_for(
                                    cols,
                                    k + 2,
                                    ls[k + 1],
                                )
                        },
                }
            }
        }),
{
    let t = trimmed(body);
    if t.as_str().is_empty() {
        return Err(bad_request("empty CSV body"));
    }
    let lines = split_lines(body);
    if lines.len() == 0 {
        return Err(bad_request("missing header"));
    }
    let cols = match import_columns(lines[0].as_str()) {
        Ok(c) => c,
        Err(e) => {
            return Err(e);
        },
    };
    let ghost ls = string_views(lines@);
    let mut plan: Vec<RowPlan> = Vec::new();
    let mut k: usize = 1;
    while k < lines.len()
        invariant
            1 <= k <= lines@.len(),
            lines@.len() <= body@.len(),
            body@.len() < usize::MAX - 2,
            ls == string_views(lines@),
            plan@.len() == k - 1,
            forall|j: int|
                0 <= j < plan@.len() ==> #[trigger] plan@[j].planned_for(cols, j + 2, ls[j + 1]),
        decreases lines.len() - k,
    {
        let p = plan_row(&cols, k + 1, lines[k].as_str());
        plan.push(p);
        k = k + 1;
    }
    assert(cols.picked_from(header_names(ls[0])));
    Ok(plan)
}

/// User the import writes its audit entries as.
pub const IMPORT_USER: &'static str = "import";

/// The audit kind and description of a stored import row: whether it
/// created the item or updated the one that had its SKU.
pub fn import_audit(created: bool, sku: &str) -> (r: (&'static str, String))
    ensures
        r.0@ == (if created {
            "item.import_create"@
        } else {
            "item.import_update"@
        }),
        r.1@ == "Imported ("@ + (if created {
            "create"@
        } else {
            "update"@
        }) + ") item "@ + sku@,
{
    let mut d = "Imported (".to_owned();
    if created {
        push_str(&mut d, "create");
    } else {
        push_str(&mut d, "update");
    }
    push_str(&mut d, ") item ");
    push_str(&mut d, sku);
    let kind = if created {
        "item.import_create"
    } else {
        "item.import_update"
    };
    (kind, d)
}

/// Outcome of an import, as reported to the operator.
pub struct ImportSummary {
    pub processed: usize,
    pub created: usize,
    pub updated: usize,
    pub skipped: usize,
    pub errors: Vec<ImportError>,
}

/// Why storing one import row failed, as far as the operator may see.
pub enum RowError {
    BadRequest(String),
    Conflict(String),
    NotFound,
    UniqueViolation,
    ForeignKeyViolation,
    Other,
}

/// The public message for a failed row: never the raw storage error.
pub open spec fn row_error_message(e: RowError) -> Seq<char> {
    match e {
        RowError::BadRequest(m) => m@,
        RowError::Conflict(m) => m@,
        RowError::NotFound => "referenced record not found"@,
        RowError::UniqueViolation => "row violates a uniqueness constraint"@,
        RowError::ForeignKeyViolation => "row references a record that does not exist"@,
        RowError::Other => "row could not be saved"@,
    }
}

pub fn sanitise_row_error(e: &RowError) -> (m: String)
    ensures
        m@ == row_error_message(*e),
{
    match e {
        RowError::BadRequest(m) => m.clone(),
        RowError::Conflict(m) => m.clone(),
        RowError::NotFound => "referenced record not found".to_owned(),
        RowError::UniqueViolation => "row violates a uniqueness constraint".to_owned(),
        RowError::ForeignKeyViolation => "row references a record that does not exist".to_owned(),
        RowError::Other => "row could not be saved".to_owned(),
    }
}

/// Number of blank lines in a plan.
pub open spec fn blank_count(plan: Seq<RowPlan>) -> nat
    decreases plan.len(),
{
    if plan.len() == 0 {
        0
    } else {
        blank_count(plan.drop_last()) + if plan.last() is Blank {
            1nat
        } else {
            0nat
        }
    }
}

/// Number of rejected lines in a plan.
pub open spec fn rejected_count(plan: Seq<RowPlan>) -> nat
    decreases plan.len(),
{
    if plan.len() == 0 {
        0
    } else {
        rejected_count(plan.drop_last()) + if plan.last() is Rejected {
            1nat
        } else {
            0nat
        }
    }
}

/// The errors of the rejected lines of a plan, in order.
pub open spec fn rejected_errors(plan: Seq<RowPlan>) -> Seq<ImportError>
    decreases plan.len(),
{
    if plan.len() == 0 {
        Seq::empty()
    } else {
        match plan.last() {
            RowPlan::Rejected(e) => rejected_errors(plan.drop_last()).push(e),
            _ => rejected_errors(plan.drop_last()),
        }
    }
}

/// The rows of a plan that are to be written, in order.
pub open spec fn ready_rows(plan: Seq<RowPlan>) -> Seq<ImportRow>
    decreases plan.len(),
{
    if plan.len() == 0 {
        Seq::empty()
    } else {
        match plan.last() {
            RowPlan::Ready(r) => ready_rows(plan.drop_last()).push(r),
            _ => ready_rows(plan.drop_last()),
        }
    }
}

proof fn lemma_counts_bounded(plan: Seq<RowPlan>)
    ensures
        blank_count(plan) + rejected_count(plan) + ready_rows(plan).len() == plan.len(),
    decreases plan.len(),
{
    if plan.len() > 0 {
        lemma_counts_bounded(plan.drop_last());
    }
}

impl ImportSummary {
    /// Processed lines whose outcome is not recorded yet: neither created,
    /// updated nor an error.
    pub open spec fn pending(self) -> int {
        self.processed - self.created - self.updated - self.errors@.len()
    }

    /// Counters before any row is written: every non-blank line is
    /// processed, every blank one skipped, every rejected one an error.
    pub open spec fn starts_from(self, plan: Seq<RowPlan>) -> bool {
        &&& self.processed == plan.len() - blank_count(plan)
        &&& self.skipped == blank_count(plan)
        &&& self.created == 0
        &&& self.updated == 0
        &&& self.errors@.len() == rejected_count(plan)
        &&& self.errors@ == rejected_errors(plan)
    }

    /// Start the summary for a plan: rejected lines become errors, and the
    /// rows to write are handed back in order.
    pub fn from_plan(plan: Vec<RowPlan>) -> (r: (ImportSummary, Vec<ImportRow>))
        ensures
            r.0.starts_from(plan@),
            r.1@ == ready_rows(plan@),
    {
        let ghost all = plan@;
        let mut summary = ImportSummary {
            processed: 0,
            created: 0,
            updated: 0,
            skipped: 0,
            errors: Vec::new(),
        };
        let mut rows: Vec<ImportRow> = Vec::new();
        let mut rest = plan;
        let total = rest.len();
        let ghost mut seen: Seq<RowPlan> = Seq::empty();
        while rest.len() > 0
            invariant
                seen + rest@ == all,
                all.len() == total,
                summary.processed == seen.len() - blank_count(seen),
                summary.skipped == blank_count(seen),
                summary.created == 0,
                summary.updated == 0,
                summary.errors@.len() == rejected_count(seen),
                summary.errors@ == rejected_errors(seen),
                rows@ == ready_rows(seen),
            decreases rest.len(),
        {
            proof {
                lemma_counts_bounded(seen);
                lemma_counts_bounded(all);
                assert(all =~= seen + rest@);
            }
            let p = rest.remove(0);
            proof {
                assert(seen.push(p).drop_last() =~= seen);
                assert(seen.push(p) + rest@ =~= all);
            }
            match p {
                RowPlan::Blank => {
                    summary.skipped = summary.skipped + 1;
                },
                RowPlan::Rejected(e) => {
                    summary.processed = summary.processed + 1;
                    summary.errors.push(e);
                },
                RowPlan::Ready(row) => {
                    summary.processed = summary.processed + 1;
                    rows.push(row);
                },
            }
            proof {
                seen = seen.push(p);
            }
        }
        assert(seen =~= all);
        (summary, rows)
    }

    /// A summary before any line is read.
    pub fn empty() -> (s: ImportSummary)
        ensures
            s.processed == 0,
            s.created == 0,
            s.updated == 0,
            s.skipped == 0,
            s.errors@.len() == 0,
    {
        ImportSummary { processed: 0, created: 0, updated: 0, skipped: 0, errors: Vec::new() }
    }

    /// Take the next planned line, in body order: a blank line is skipped,
    /// a rejected one is processed and its error recorded, a ready one is
    /// processed and handed back to be written (its outcome then noted
    /// with `note_created`, `note_updated` or `note_failed`, so that errors
    /// stay in line order).
    pub fn take_line(&mut self, p: RowPlan) -> (row: Option<ImportRow>)
        requires
            old(self).processed < usize::MAX,
            old(self).skipped < usize::MAX,
        ensures
            final(self).created == old(self).created,
            final(self).updated == old(self).updated,
            match p {
                RowPlan::Blank => row is None && final(self).skipped == old(self).skipped + 1
                    && final(self).processed == old(self).processed && final(self).errors@
                    == old(self).errors@,
                RowPlan::Rejected(e) => row is None && final(self).skipped == old(self).skipped
                    && final(self).processed == old(self).processed + 1 && final(self).errors@
                    == old(self).errors@.push(e),
                RowPlan::Ready(r) => row == Some(r) && final(self).skipped == old(self).skipped
                    && final(self).processed == old(self).processed + 1 && final(self).errors@
                    == old(self).errors@ && final(self).pending() == old(self).pending() + 1,
            },
    {
        match p {
            RowPlan::Blank => {
                self.skipped = self.skipped + 1;
                None
            },
            RowPlan::Rejected(e) => {
                self.processed = self.processed + 1;
                self.errors.push(e);
                None
            },
            RowPlan::Ready(r) => {
                self.processed = self.processed + 1;
                Some(r)
            },
        }
    }

    /// A written row created a new item.
    pub fn note_created(&mut self)
        requires
            old(self).created < usize::MAX,
        ensures
            final(self).created == old(self).created + 1,
            final(self).pending() == old(self).pending() - 1,
            final(self).updated == old(self).updated,
            final(self).processed == old(self).processed,
            final(self).skipped == old(self).skipped,
            final(self).errors@ == old(self).errors@,
    {
        self.created = self.created + 1;
    }

    /// A written row updated the item that already had its SKU.
    pub fn note_updated(&mut self)
        requires
            old(self).updated < usize::MAX,
        ensures
            final(self).updated == old(self).updated + 1,
            final(self).pending() == old(self).pending() - 1,
            final(self).created == old(self).created,
            final(self).processed == old(self).processed,
            final(self).skipped == old(self).skipped,
            final(self).errors@ == old(self).errors@,
    {
        self.updated = self.updated + 1;
    }

    /// A row could not be stored; the error is reported without storage detail.
    pub fn note_failed(&mut self, row: &ImportRow, err: &RowError)
        ensures
            final(self).errors@.len() == old(self).errors@.len() + 1,
            final(self).pending() == old(self).pending() - 1,
            final(self).errors@.last().line == row.line,
            final(self).errors@.last().sku == Some(row.sku),
            final(self).errors@.last().message@ == row_error_message(*err),
            final(self).errors@.drop_last() == old(self).errors@,
            final(self).created == old(self).created,
            final(self).updated == old(self).updated,
            final(self).processed == old(self).processed,
            final(self).skipped == old(self).skipped,
    {
        let e = ImportError {
            line: row.line,
            sku: Some(row.sku.clone()),
            message: sanitise_row_error(err),
        };
        self.errors.push(e);
        assert(self.errors@.drop_last() =~= old(self).errors@);
    }
}

/// Every line of an import is accounted for: blank lines are skipped,
/// the others processed; of the processed ones, those not rejected are
/// the rows still to write. So once each row is recorded as created,
/// updated or failed (each of which lowers `pending` by one), `processed`
/// equals `created + updated` plus the number of errors.
pub proof fn lemma_import_accounts_for_every_line(s: ImportSummary, plan: Seq<RowPlan>)
    requires
        s.starts_from(plan),
    ensures
        s.skipped + s.processed == plan.len(),
        s.skipped == blank_count(plan),
        s.pending() == ready_rows(plan).len(),
{
    lemma_counts_bounded(plan);
}

/// The body line a planned line reports, if any.
pub open spec fn plan_line(p: RowPlan) -> Option<usize> {
    match p {
        RowPlan::Blank => None,
        RowPlan::Rejected(e) => Some(e.line),
        RowPlan::Ready(r) => Some(r.line),
    }
}

/// The lines of the errors an import reports when its lines are taken in
/// order (`take_line`) and the rows whose lines `failed` names fail to be
/// written (`note_failed`).
pub open spec fn run_error_lines(plan: Seq<RowPlan>, failed: spec_fn(usize) -> bool) -> Seq<usize>
    decreases plan.len(),
{
    if plan.len() == 0 {
        Seq::empty()
    } else {
        let prev = run_error_lines(plan.drop_last(), failed);
        match plan.last() {
            RowPlan::Blank => prev,
            RowPlan::Rejected(e) => prev.push(e.line),
            RowPlan::Ready(r) => if failed(r.line) {
                prev.push(r.line)
            } else {
                prev
            },
        }
    }
}

/// Errors come in the order of the lines: when each line `k` of a plan
/// reports body line `k + 2` (as `plan_import` plans them), the lines of
/// the reported errors rise strictly, from 2 on, whichever rows fail.
pub proof fn lemma_error_lines_increase(plan: Seq<RowPlan>, failed: spec_fn(usize) -> bool)
    requires
        forall|k: int|
            0 <= k < plan.len() ==> (#[trigger] plan_line(plan[k]) matches Some(l) ==> l == k + 2),
    ensures
        forall|i: int|
            0 <= i < run_error_lines(plan, failed).len() ==> 2 <= #[trigger] run_error_lines(
                plan,
                failed,
            )[i] < plan.len() + 2,
        forall|i: int, j: int|
            0 <= i < j < run_error_lines(plan, failed).len() ==> #[trigger] run_error_lines(
                plan,
                failed,
            )[i] < #[trigger] run_error_lines(plan, failed)[j],
    decreases plan.len(),
{
    if plan.len() > 0 {
        let p0 = plan.drop_last();
        assert forall|k: int| 0 <= k < p0.len() implies (#[trigger] plan_line(p0[k]) matches Some(
            l,
        ) ==> l == k + 2) by {
            assert(p0[k] == plan[k]);
        }
        lemma_error_lines_increase(p0, failed);
        let k = plan.len() - 1;
        assert(plan[k] == plan.last());
        assert(plan_line(plan[k]) matches Some(l) ==> l == k + 2);
        let prev = run_error_lines(p0, failed);
        let cur = run_error_lines(plan, failed);
        if cur.len() == prev.len() {
            assert(cur == prev);
        } else {
            let l = cur[cur.len() - 1];
            assert(cur == prev.push(l));
            assert(l == k + 2);
            assert forall|i: int| 0 <= i < cur.len() implies 2 <= #[trigger] cur[i] < plan.len() + 2 by {
                if i < prev.len() {
                    assert(cur[i] == prev[i]);
                }
            }
            assert forall|i: int, j: int| 0 <= i < j < cur.len() implies #[trigger] cur[i] < #[trigger] cur[j] by {
                assert(cur[i] == prev[i]);
                if j < prev.len() {
                    assert(cur[j] == prev[j]);
                }
            }
        }
    }
}

/// The cell of `cells` in column `i`, when there is one.
pub open spec fn cell_in(cells: Seq<Seq<char>>, i: Option<int>) -> Option<Seq<char>> {
    match i {
        Some(n) => if 0 <= n < cells.len() {
            Some(cells[n])
        } else {
            None
        },
        None => None,
    }
}

/// The column a header names `a`, or else `b`.
pub open spec fn column_named(names: Seq<Seq<char>>, a: Seq<char>, b: Seq<char>) -> Option<int> {
    either(first_index(names, a), first_index(names, b))
}

/// The quantities of an imported row come from the columns named for
/// them: `min_qty` from the column headed `min` (else `min_qty`),
/// `max_qty` from `max` (else `max_qty`), `qty` from `qty` and
/// `allocated` from `allocated`, each the cell's integer (0 when absent or
/// unreadable).
pub proof fn lemma_import_quantities_from_named_columns(
    names: Seq<Seq<char>>,
    cols: ImportColumns,
    line: int,
    raw: Seq<char>,
    p: RowPlan,
)
    requires
        cols.picked_from(names),
        p.planned_for(cols, line, raw),
    ensures
        p matches RowPlan::Ready(r) ==> {
            let cells = parse_row_spec(raw);
            &&& r.min_qty == int_cell(cell_in(cells, column_named(names, "min"@, "min_qty"@)))
            &&& r.max_qty == int_cell(cell_in(cells, column_named(names, "max"@, "max_qty"@)))
            &&& r.qty == int_cell(cell_in(cells, first_index(names, "qty"@)))
            &&& r.allocated == int_cell(cell_in(cells, first_index(names, "allocated"@)))
        },
{
}

} // verus!
