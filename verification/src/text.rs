//! Character-level helpers shared by the parsers and validators.

use vstd::prelude::*;

verus! {

/// The character view of an optional string.
pub open spec fn opt_chars(o: Option<String>) -> Option<Seq<char>> {
    match o {
        Some(s) => Some(s@),
        None => None,
    }
}

/// The character view of an optional string slice.
pub open spec fn opt_str(o: Option<&str>) -> Option<Seq<char>> {
    match o {
        Some(s) => Some(s@),
        None => None,
    }
}

/// The characters of `s`, in order.
pub fn chars_of(s: &str) -> (v: Vec<char>)
    ensures
        v@ == s@,
{
    broadcast use vstd::string::group_string_axioms;
    let mut v: Vec<char> = Vec::new();
    for c in it: s.chars()
        invariant
            v@ == it.seq().take(it.index() as int),
            it.seq() == s@,
    {
        v.push(c);
    }
    assert(v@ =~= s@);
    v
}

/// `String::push`: appends one character.
#[verifier::external_body]
pub(crate) fn push_char(s: &mut String, c: char)
    ensures
        final(s)@ == old(s)@.push(c),
{
    s.push(c)
}

/// `String::push_str`: appends a string slice.
#[verifier::external_body]
pub(crate) fn push_str(s: &mut String, t: &str)
    ensures
        final(s)@ == old(s)@ + t@,
{
    s.push_str(t)
}

/// A `String` holding exactly the characters `v[from..to]`.
pub fn string_from_chars(v: &Vec<char>, from: usize, to: usize) -> (s: String)
    requires
        from <= to <= v@.len(),
    ensures
        s@ == v@.subrange(from as int, to as int),
{
    let mut s = String::new();
    let mut i = from;
    while i < to
        invariant
            from <= i <= to <= v@.len(),
            s@ == v@.subrange(from as int, i as int),
        decreases to - i,
    {
        push_char(&mut s, v[i]);
        i = i + 1;
        assert(s@ =~= v@.subrange(from as int, i as int));
    }
    s
}

/// ASCII whitespace as `char::is_ascii_whitespace` defines it: space,
/// tab, line feed, form feed and carriage return.
pub open spec fn is_ascii_ws(c: char) -> bool {
    c == ' ' || c == '\t' || c == '\n' || c == '\x0C' || c == '\r'
}

pub fn ascii_ws(c: char) -> (b: bool)
    ensures
        b == is_ascii_ws(c),
{
    c == ' ' || c == '\t' || c == '\n' || c == '\x0C' || c == '\r'
}

/// `v` holds `c` somewhere.
pub fn has_char(v: &Vec<char>, c: char) -> (b: bool)
    ensures
        b == v@.contains(c),
{
    let mut i: usize = 0;
    while i < v.len()
        invariant
            i <= v@.len(),
            forall|j: int| 0 <= j < i ==> v@[j] != c,
        decreases v.len() - i,
    {
        if v[i] == c {
            return true;
        }
        i = i + 1;
    }
    false
}

/// `char::is_whitespace`: the Unicode White_Space property.
pub open spec fn is_unicode_ws(c: char) -> bool {
    ('\u{9}' <= c && c <= '\u{d}') || c == ' ' || c == '\u{85}' || c == '\u{a0}' || c == '\u{1680}'
        || ('\u{2000}' <= c && c <= '\u{200a}') || c == '\u{2028}' || c == '\u{2029}' || c
        == '\u{202f}' || c == '\u{205f}' || c == '\u{3000}'
}

pub fn unicode_ws(c: char) -> (b: bool)
    ensures
        b == is_unicode_ws(c),
{
    ('\u{9}' <= c && c <= '\u{d}') || c == ' ' || c == '\u{85}' || c == '\u{a0}' || c == '\u{1680}'
        || ('\u{2000}' <= c && c <= '\u{200a}') || c == '\u{2028}' || c == '\u{2029}' || c
        == '\u{202f}' || c == '\u{205f}' || c == '\u{3000}'
}

/// Index of the first non-whitespace character at or after `i`
/// (`s.len()` when there is none).
pub open spec fn trim_start_from(s: Seq<char>, i: int) -> int
    decreases s.len() - i,
{
    if i < 0 || i >= s.len() {
        s.len() as int
    } else if is_unicode_ws(s[i]) {
        trim_start_from(s, i + 1)
    } else {
        i
    }
}

/// End (exclusive) of `s[..j]` once trailing whitespace is dropped.
pub open spec fn trim_end_from(s: Seq<char>, j: int) -> int
    decreases j,
{
    if j <= 0 || j > s.len() {
        0
    } else if is_unicode_ws(s[j - 1]) {
        trim_end_from(s, j - 1)
    } else {
        j
    }
}

/// `str::trim`: `s` without leading and trailing Unicode whitespace.
pub open spec fn trim_spec(s: Seq<char>) -> Seq<char> {
    let a = trim_start_from(s, 0);
    let b = trim_end_from(s, s.len() as int);
    if a < b {
        s.subrange(a, b)
    } else {
        Seq::empty()
    }
}

pub proof fn lemma_trim_start_bounds(s: Seq<char>, i: int)
    requires
        0 <= i <= s.len(),
    ensures
        i <= trim_start_from(s, i) <= s.len(),
    decreases s.len() - i,
{
    if i < s.len() && is_unicode_ws(s[i]) {
        lemma_trim_start_bounds(s, i + 1);
    }
}

pub proof fn lemma_trim_end_bounds(s: Seq<char>, j: int)
    requires
        0 <= j <= s.len(),
    ensures
        0 <= trim_end_from(s, j) <= j,
    decreases j,
{
    if j > 0 && is_unicode_ws(s[j - 1]) {
        lemma_trim_end_bounds(s, j - 1);
    }
}

/// `str::trim` on a character vector: the bounds of the trimmed part.
pub fn trim_bounds(v: &Vec<char>) -> (r: (usize, usize))
    ensures
        r.0 <= r.1 <= v@.len(),
        v@.subrange(r.0 as int, r.1 as int) == trim_spec(v@),
{
    let mut a: usize = 0;
    while a < v.len() && unicode_ws(v[a])
        invariant
            a <= v@.len(),
            trim_start_from(v@, 0) == trim_start_from(v@, a as int),
        decreases v.len() - a,
    {
        a = a + 1;
    }
    let mut b: usize = v.len();
    while b > 0 && unicode_ws(v[b - 1])
        invariant
            b <= v@.len(),
            trim_end_from(v@, v@.len() as int) == trim_end_from(v@, b as int),
        decreases b,
    {
        b = b - 1;
    }
    if a < b {
        (a, b)
    } else {
        assert(v@.subrange(a as int, a as int) =~= Seq::<char>::empty());
        (a, a)
    }
}

/// `str::trim`, borrowing from `s`.
pub fn trim(s: &str) -> (t: &str)
    ensures
        t@ == trim_spec(s@),
{
    let v = chars_of(s);
    let (a, b) = trim_bounds(&v);
    s.substring_char(a, b)
}

/// `str::trim`, as an owned string.
pub fn trimmed(s: &str) -> (t: String)
    ensures
        t@ == trim_spec(s@),
{
    let v = chars_of(s);
    let (a, b) = trim_bounds(&v);
    string_from_chars(&v, a, b)
}

/// ASCII lower-casing of one character (`char::to_ascii_lowercase`).
pub open spec fn ascii_lower(c: char) -> char {
    if 'A' <= c && c <= 'Z' {
        ((c as u32) + 32) as char
    } else {
        c
    }
}

pub fn to_ascii_lower(c: char) -> (d: char)
    ensures
        d == ascii_lower(c),
{
    if 'A' <= c && c <= 'Z' {
        ((c as u8) + 32) as char
    } else {
        c
    }
}

/// `str::to_ascii_lowercase`.
pub open spec fn lower_spec(s: Seq<char>) -> Seq<char> {
    s.map_values(|c: char| ascii_lower(c))
}

pub fn lowercase(s: &str) -> (t: String)
    ensures
        t@ == lower_spec(s@),
{
    let v = chars_of(s);
    let mut t = String::new();
    let mut i: usize = 0;
    while i < v.len()
        invariant
            i <= v@.len(),
            v@ == s@,
            t@ == lower_spec(v@.take(i as int)),
        decreases v.len() - i,
    {
        push_char(&mut t, to_ascii_lower(v[i]));
        i = i + 1;
        assert(t@ =~= lower_spec(v@.take(i as int)));
    }
    assert(v@.take(v@.len() as int) =~= v@);
    t
}

/// Texts equal as `==` on strings would find them.
pub fn str_eq(a: &str, b: &str) -> (eq: bool)
    ensures
        eq == (a@ == b@),
{
    let x = chars_of(a);
    let y = chars_of(b);
    if x.len() != y.len() {
        return false;
    }
    let mut i: usize = 0;
    while i < x.len()
        invariant
            x@ == a@,
            y@ == b@,
            x@.len() == y@.len(),
            i <= x@.len(),
            forall|j: int| 0 <= j < i ==> x@[j] == y@[j],
        decreases x.len() - i,
    {
        if x[i] != y[i] {
            return false;
        }
        i = i + 1;
    }
    assert(x@ =~= y@);
    true
}

/// Lexicographic order on character sequences (the order of `String`'s
/// `Ord`, since UTF-8 preserves code-point order).
pub open spec fn seq_lt(a: Seq<char>, b: Seq<char>) -> bool
    decreases a.len(),
{
    if a.len() == 0 {
        b.len() > 0
    } else if b.len() == 0 {
        false
    } else if a[0] != b[0] {
        (a[0] as int) < (b[0] as int)
    } else {
        seq_lt(a.drop_first(), b.drop_first())
    }
}

pub proof fn lemma_seq_lt_irreflexive(a: Seq<char>)
    ensures
        !seq_lt(a, a),
    decreases a.len(),
{
    if a.len() > 0 {
        lemma_seq_lt_irreflexive(a.drop_first());
    }
}

pub proof fn lemma_seq_lt_total(a: Seq<char>, b: Seq<char>)
    ensures
        a != b ==> seq_lt(a, b) || seq_lt(b, a),
        !(seq_lt(a, b) && seq_lt(b, a)),
    decreases a.len(),
{
    if a.len() > 0 && b.len() > 0 {
        if a[0] == b[0] {
            lemma_seq_lt_total(a.drop_first(), b.drop_first());
            if a != b {
                assert(a.drop_first() != b.drop_first()) by {
                    if a.drop_first() == b.drop_first() {
                        assert(a =~= seq![a[0]] + a.drop_first());
                        assert(b =~= seq![b[0]] + b.drop_first());
                    }
                }
            }
        } else {
            assert((a[0] as int) != (b[0] as int));
        }
    } else if a.len() == 0 && b.len() == 0 {
        assert(a =~= b);
    }
}

pub proof fn lemma_seq_lt_transitive(a: Seq<char>, b: Seq<char>, c: Seq<char>)
    requires
        seq_lt(a, b),
        seq_lt(b, c),
    ensures
        seq_lt(a, c),
    decreases a.len(),
{
    if a.len() > 0 && b.len() > 0 && c.len() > 0 {
        if a[0] == b[0] && b[0] == c[0] {
            lemma_seq_lt_transitive(a.drop_first(), b.drop_first(), c.drop_first());
        }
    }
}

/// `a < b` on strings.
pub fn str_lt(a: &str, b: &str) -> (lt: bool)
    ensures
        lt == seq_lt(a@, b@),
{
    let x = chars_of(a);
    let y = chars_of(b);
    let mut i: usize = 0;
    assert(a@.skip(0) =~= a@);
    assert(b@.skip(0) =~= b@);
    while i < x.len() && i < y.len()
        invariant
            x@ == a@,
            y@ == b@,
            i <= x@.len(),
            i <= y@.len(),
            seq_lt(a@, b@) == seq_lt(a@.skip(i as int), b@.skip(i as int)),
        decreases x.len() - i,
    {
        assert(a@.skip(i as int)[0] == x@[i as int]);
        assert(b@.skip(i as int)[0] == y@[i as int]);
        assert(a@.skip(i as int).drop_first() =~= a@.skip(i + 1));
        assert(b@.skip(i as int).drop_first() =~= b@.skip(i + 1));
        if x[i] != y[i] {
            return x[i] < y[i];
        }
        i = i + 1;
    }
    i == x.len() && i < y.len()
}

/// Splitting state for `str::split` on the separator characters `a`, `b`.
pub struct SplitScan {
    pub pieces: Seq<Seq<char>>,
    pub cur: Seq<char>,
}

pub open spec fn split_scan(s: Seq<char>, a: char, b: char) -> SplitScan
    decreases s.len(),
{
    if s.len() == 0 {
        SplitScan { pieces: Seq::empty(), cur: Seq::empty() }
    } else {
        let st = split_scan(s.drop_last(), a, b);
        if s.last() == a || s.last() == b {
            SplitScan { pieces: st.pieces.push(st.cur), cur: Seq::empty() }
        } else {
            SplitScan { pieces: st.pieces, cur: st.cur.push(s.last()) }
        }
    }
}

/// `str::split([a, b])`: the pieces between separators, empty ones
/// included (`n` separators give `n + 1` pieces).
pub open spec fn split_any_spec(s: Seq<char>, a: char, b: char) -> Seq<Seq<char>> {
    let st = split_scan(s, a, b);
    st.pieces.push(st.cur)
}

proof fn lemma_split_scan_join(x: Seq<char>, y: Seq<char>, a: char, b: char, sep: char)
    requires
        sep == a || sep == b,
    ensures
        split_scan(x + seq![sep] + y, a, b).pieces == split_any_spec(x, a, b) + split_scan(
            y,
            a,
            b,
        ).pieces,
        split_scan(x + seq![sep] + y, a, b).cur == split_scan(y, a, b).cur,
    decreases y.len(),
{
    let z = x + seq![sep] + y;
    if y.len() == 0 {
        assert(z.drop_last() =~= x);
        assert(z.last() == sep);
        assert(split_scan(y, a, b).pieces =~= Seq::<Seq<char>>::empty());
        assert(split_any_spec(x, a, b) + Seq::<Seq<char>>::empty() =~= split_any_spec(x, a, b));
    } else {
        let y0 = y.drop_last();
        assert(z.drop_last() =~= x + seq![sep] + y0);
        assert(z.last() == y.last());
        lemma_split_scan_join(x, y0, a, b, sep);
        let st = split_scan(y0, a, b);
        assert(split_any_spec(x, a, b) + st.pieces.push(st.cur) =~= (split_any_spec(x, a, b)
            + st.pieces).push(st.cur));
    }
}

/// Splitting at a separator between two texts gives the pieces of the
/// first followed by those of the second.
pub proof fn lemma_split_any_join(x: Seq<char>, y: Seq<char>, a: char, b: char, sep: char)
    requires
        sep == a || sep == b,
    ensures
        split_any_spec(x + seq![sep] + y, a, b) == split_any_spec(x, a, b) + split_any_spec(
            y,
            a,
            b,
        ),
{
    lemma_split_scan_join(x, y, a, b, sep);
    let st = split_scan(y, a, b);
    assert((split_any_spec(x, a, b) + st.pieces).push(st.cur) =~= split_any_spec(x, a, b)
        + st.pieces.push(st.cur));
}

/// `str::split(sep)`.
pub open spec fn split_spec(s: Seq<char>, sep: char) -> Seq<Seq<char>> {
    split_any_spec(s, sep, sep)
}

/// The pieces of `s` between occurrences of `a` or `b`.
pub fn split_on_any(s: &str, a: char, b: char) -> (parts: Vec<String>)
    ensures
        parts@.map_values(|p: String| p@) == split_any_spec(s@, a, b),
{
    let v = chars_of(s);
    let mut parts: Vec<String> = Vec::new();
    let mut cur = String::new();
    let mut i: usize = 0;
    while i < v.len()
        invariant
            i <= v@.len(),
            v@ == s@,
            parts@.map_values(|p: String| p@) == split_scan(v@.take(i as int), a, b).pieces,
            cur@ == split_scan(v@.take(i as int), a, b).cur,
        decreases v.len() - i,
    {
        assert(v@.take(i + 1).drop_last() =~= v@.take(i as int));
        if v[i] == a || v[i] == b {
            let ghost before = parts@.map_values(|p: String| p@);
            let done = cur;
            parts.push(done);
            assert(parts@.map_values(|p: String| p@) =~= before.push(done@));
            cur = String::new();
        } else {
            push_char(&mut cur, v[i]);
        }
        i = i + 1;
    }
    assert(v@.take(v@.len() as int) =~= v@);
    let ghost before = parts@.map_values(|p: String| p@);
    let ghost last = cur@;
    parts.push(cur);
    assert(parts@.map_values(|p: String| p@) =~= before.push(last));
    parts
}

/// The pieces of `s` between occurrences of `sep`.
pub fn split_on(s: &str, sep: char) -> (parts: Vec<String>)
    ensures
        parts@.map_values(|p: String| p@) == split_spec(s@, sep),
{
    split_on_any(s, sep, sep)
}

/// Index of the first `c` in `s`, if any.
pub open spec fn first_index_of(s: Seq<char>, c: char) -> Option<int> {
    if exists|i: int| 0 <= i < s.len() && s[i] == c {
        Some(choose|i: int| 0 <= i < s.len() && s[i] == c && forall|j: int| 0 <= j < i ==> s[j] != c)
    } else {
        None
    }
}

/// `str::split_once(c)`: the text before and after the first `c`.
pub open spec fn split_once_spec(s: Seq<char>, c: char) -> Option<(Seq<char>, Seq<char>)> {
    match first_index_of(s, c) {
        Some(i) => Some((s.take(i), s.skip(i + 1))),
        None => None,
    }
}

/// Position of the first `c` in `v`, computed.
pub fn find_char(v: &Vec<char>, c: char) -> (r: Option<usize>)
    ensures
        match r {
            Some(i) => first_index_of(v@, c) == Some(i as int) && i < v@.len(),
            None => first_index_of(v@, c) is None,
        },
{
    let mut i: usize = 0;
    while i < v.len()
        invariant
            i <= v@.len(),
            forall|j: int| 0 <= j < i ==> v@[j] != c,
        decreases v.len() - i,
    {
        if v[i] == c {
            proof {
                let k = i as int;
                assert(0 <= k < v@.len() && v@[k] == c && forall|j: int| 0 <= j < k ==> v@[j] != c);
                let w = choose|w: int| 0 <= w < v@.len() && v@[w] == c && forall|j: int| 0 <= j < w ==> v@[j] != c;
                if w < k {
                    assert(v@[w] != c);
                } else if w > k {
                    assert(v@[k] != c);
                }
            }
            return Some(i);
        }
        i = i + 1;
    }
    None
}

/// `str::split_once(c)`, as owned strings.
pub fn split_once(s: &str, c: char) -> (r: Option<(String, String)>)
    ensures
        match r {
            Some((x, y)) => split_once_spec(s@, c) == Some((x@, y@)),
            None => split_once_spec(s@, c) is None,
        },
{
    let v = chars_of(s);
    match find_char(&v, c) {
        Some(i) => {
            let n = v.len();
            assert(i < n);
            let x = string_from_chars(&v, 0, i);
            let y = string_from_chars(&v, i + 1, n);
            assert(x@ =~= v@.take(i as int));
            assert(y@ =~= v@.skip(i + 1));
            Some((x, y))
        },
        None => None,
    }
}

/// `items` joined with `sep` between consecutive items.
pub open spec fn join_with(items: Seq<Seq<char>>, sep: Seq<char>) -> Seq<char>
    decreases items.len(),
{
    if items.len() == 0 {
        Seq::empty()
    } else if items.len() == 1 {
        items[0]
    } else {
        join_with(items.drop_last(), sep) + sep + items.last()
    }
}

proof fn lemma_ascii_lower_char(c: char)
    ensures
        is_unicode_ws(ascii_lower(c)) == is_unicode_ws(c),
        (ascii_lower(c) == ',') == (c == ','),
        (ascii_lower(c) == '|') == (c == '|'),
        ascii_lower(ascii_lower(c)) == ascii_lower(c),
{
    if 'A' <= c && c <= 'Z' {
        let d = ((c as u32) + 32) as char;
        assert(d as u32 == (c as u32) + 32);
        assert('a' <= d && d <= 'z');
    }
}

proof fn lemma_split_scan_lower(s: Seq<char>)
    ensures
        split_scan(lower_spec(s), ',', '|').pieces == split_scan(s, ',', '|').pieces.map_values(
            |p: Seq<char>| lower_spec(p),
        ),
        split_scan(lower_spec(s), ',', '|').cur == lower_spec(split_scan(s, ',', '|').cur),
    decreases s.len(),
{
    if s.len() == 0 {
        assert(lower_spec(s) =~= Seq::<char>::empty());
        assert(Seq::<Seq<char>>::empty().map_values(|p: Seq<char>| lower_spec(p)) =~= Seq::<
            Seq<char>,
        >::empty());
        assert(lower_spec(Seq::<char>::empty()) =~= Seq::<char>::empty());
    } else {
        let l = lower_spec(s);
        assert(l.drop_last() =~= lower_spec(s.drop_last()));
        assert(l.last() == ascii_lower(s.last()));
        lemma_split_scan_lower(s.drop_last());
        lemma_ascii_lower_char(s.last());
        let st = split_scan(s.drop_last(), ',', '|');
        assert(st.pieces.push(st.cur).map_values(|p: Seq<char>| lower_spec(p)) =~= st.pieces.map_values(
            |p: Seq<char>| lower_spec(p),
        ).push(lower_spec(st.cur)));
        assert(lower_spec(st.cur.push(s.last())) =~= lower_spec(st.cur).push(ascii_lower(s.last())));
        assert(lower_spec(Seq::<char>::empty()) =~= Seq::<char>::empty());
    }
}

/// Splitting at `,` or `|` commutes with ASCII lower-casing.
pub proof fn lemma_split_lower(s: Seq<char>)
    ensures
        split_any_spec(lower_spec(s), ',', '|') == split_any_spec(s, ',', '|').map_values(
            |p: Seq<char>| lower_spec(p),
        ),
{
    lemma_split_scan_lower(s);
    let st = split_scan(s, ',', '|');
    assert(st.pieces.push(st.cur).map_values(|p: Seq<char>| lower_spec(p)) =~= st.pieces.map_values(
        |p: Seq<char>| lower_spec(p),
    ).push(lower_spec(st.cur)));
}

proof fn lemma_trim_start_lower(s: Seq<char>, i: int)
    ensures
        trim_start_from(lower_spec(s), i) == trim_start_from(s, i),
    decreases s.len() - i,
{
    if 0 <= i < s.len() {
        lemma_ascii_lower_char(s[i]);
        lemma_trim_start_lower(s, i + 1);
    }
}

proof fn lemma_trim_end_lower(s: Seq<char>, j: int)
    ensures
        trim_end_from(lower_spec(s), j) == trim_end_from(s, j),
    decreases j,
{
    if 0 < j <= s.len() {
        lemma_ascii_lower_char(s[j - 1]);
        lemma_trim_end_lower(s, j - 1);
    }
}

/// Trimming commutes with ASCII lower-casing, and lower-casing twice is
/// lower-casing once.
pub proof fn lemma_trim_lower(s: Seq<char>)
    ensures
        trim_spec(lower_spec(s)) == lower_spec(trim_spec(s)),
        lower_spec(lower_spec(s)) == lower_spec(s),
{
    lemma_trim_start_lower(s, 0);
    lemma_trim_end_lower(s, s.len() as int);
    assert forall|i: int| 0 <= i < s.len() implies #[trigger] lower_spec(lower_spec(s))[i] == lower_spec(s)[i] by {
        lemma_ascii_lower_char(s[i]);
    }
    assert(lower_spec(lower_spec(s)) =~= lower_spec(s));
    let a = trim_start_from(s, 0);
    let b = trim_end_from(s, s.len() as int);
    if a < b {
        lemma_trim_start_bounds(s, 0);
        lemma_trim_end_bounds(s, s.len() as int);
        assert(lower_spec(s).subrange(a, b) =~= lower_spec(s.subrange(a, b)));
    } else {
        assert(lower_spec(Seq::<char>::empty()) =~= Seq::<char>::empty());
    }
}

} // verus!
