//! Decimal integers, read and written the way `str::parse` and
//! `Display` do it.

use vstd::prelude::*;
use crate::text::{chars_of, push_char};

verus! {

pub open spec fn is_digit(c: char) -> bool {
    '0' <= c && c <= '9'
}

pub open spec fn digit_value(c: char) -> int {
    c as int - '0' as int
}

/// Value of a run of decimal digits.
pub open spec fn digits_value(d: Seq<char>) -> int
    decreases d.len(),
{
    if d.len() == 0 {
        0
    } else {
        digits_value(d.drop_last()) * 10 + digit_value(d.last())
    }
}

pub open spec fn all_digits(d: Seq<char>) -> bool {
    forall|i: int| 0 <= i < d.len() ==> #[trigger] is_digit(d[i])
}

/// `<i64 as FromStr>::from_str`: an optional `+` or `-`, then one or more
/// ASCII digits, with the value inside the range of `i64`.
pub open spec fn i64_text_value(s: Seq<char>) -> Option<i64> {
    let neg = s.len() > 0 && s[0] == '-';
    let d = if s.len() > 0 && (s[0] == '-' || s[0] == '+') {
        s.drop_first()
    } else {
        s
    };
    if d.len() == 0 || !all_digits(d) {
        None
    } else {
        let v = if neg {
            -digits_value(d)
        } else {
            digits_value(d)
        };
        if i64::MIN <= v && v <= i64::MAX {
            Some(v as i64)
        } else {
            None
        }
    }
}

/// `<u64 as FromStr>::from_str`: an optional `+`, then one or more ASCII
/// digits, with the value inside the range of `u64`.
pub open spec fn u64_text_value(s: Seq<char>) -> Option<u64> {
    let d = if s.len() > 0 && s[0] == '+' {
        s.drop_first()
    } else {
        s
    };
    if d.len() == 0 || !all_digits(d) {
        None
    } else if digits_value(d) <= u64::MAX {
        Some(digits_value(d) as u64)
    } else {
        None
    }
}

proof fn lemma_digits_value_nonneg(d: Seq<char>)
    requires
        all_digits(d),
    ensures
        digits_value(d) >= 0,
    decreases d.len(),
{
    if d.len() > 0 {
        assert(is_digit(d[d.len() - 1]));
        assert(all_digits(d.drop_last())) by {
            assert forall|i: int| 0 <= i < d.drop_last().len() implies #[trigger] is_digit(
                d.drop_last()[i],
            ) by {
                assert(is_digit(d[i]));
            }
        }
        lemma_digits_value_nonneg(d.drop_last());
    }
}

/// Adding digits never makes the value smaller.
proof fn lemma_digits_value_grows(d: Seq<char>, k: int)
    requires
        all_digits(d),
        0 <= k <= d.len(),
    ensures
        digits_value(d.take(k)) <= digits_value(d),
    decreases d.len() - k,
{
    if k < d.len() {
        lemma_digits_value_grows(d, k + 1);
        let t = d.take(k + 1);
        assert(t.drop_last() =~= d.take(k));
        assert(is_digit(d[k]));
        assert(all_digits(d.take(k))) by {
            assert forall|i: int| 0 <= i < d.take(k).len() implies #[trigger] is_digit(
                d.take(k)[i],
            ) by {
                assert(is_digit(d[i]));
            }
        }
        lemma_digits_value_nonneg(d.take(k));
    } else {
        assert(d.take(k) =~= d);
    }
}

/// Scans `v[start..]` as decimal digits. `None` when a character is not a
/// digit or the value exceeds `u64::MAX`.
fn digits_u64(v: &Vec<char>, start: usize) -> (r: Option<u64>)
    requires
        start <= v@.len(),
    ensures
        ({
            let d = v@.subrange(start as int, v@.len() as int);
            match r {
                Some(x) => all_digits(d) && x == digits_value(d),
                None => !all_digits(d) || digits_value(d) > u64::MAX,
            }
        }),
{
    let ghost d = v@.subrange(start as int, v@.len() as int);
    let mut acc: u64 = 0;
    let mut i = start;
    while i < v.len()
        invariant
            start <= i <= v@.len(),
            d == v@.subrange(start as int, v@.len() as int),
            all_digits(d.take(i - start)),
            acc == digits_value(d.take(i - start)),
        decreases v.len() - i,
    {
        let c = v[i];
        let ghost k = i - start;
        assert(d[k] == c);
        if !('0' <= c && c <= '9') {
            assert(!is_digit(d[k as int]));
            return None;
        }
        let dv = ((c as u32) - ('0' as u32)) as u64;
        assert(d.take(k + 1).drop_last() =~= d.take(k));
        assert(all_digits(d.take(k + 1))) by {
            assert forall|j: int| 0 <= j < d.take(k + 1).len() implies #[trigger] is_digit(
                d.take(k + 1)[j],
            ) by {
                if j < k {
                    assert(is_digit(d.take(k)[j]));
                }
            }
        }
        if acc > (u64::MAX - dv) / 10 {
            proof {
                if all_digits(d) {
                    lemma_digits_value_grows(d, k + 1);
                }
            }
            return None;
        }
        acc = acc * 10 + dv;
        i = i + 1;
    }
    assert(d.take(v@.len() - start) =~= d);
    Some(acc)
}

/// `str::parse::<i64>()`, as an `Option`.
pub fn parse_i64(s: &str) -> (r: Option<i64>)
    ensures
        r == i64_text_value(s@),
{
    let v = chars_of(s);
    if v.len() == 0 {
        return None;
    }
    let neg = v[0] == '-';
    let start: usize = if v[0] == '-' || v[0] == '+' {
        1
    } else {
        0
    };
    let ghost d = v@.subrange(start as int, v@.len() as int);
    assert(d =~= (if v@[0] == '-' || v@[0] == '+' {
        s@.drop_first()
    } else {
        s@
    }));
    if start == v.len() {
        return None;
    }
    match digits_u64(&v, start) {
        None => None,
        Some(mag) => {
            if neg {
                if mag <= 9223372036854775808u64 {
                    if mag == 9223372036854775808u64 {
                        Some(i64::MIN)
                    } else {
                        Some(-(mag as i64))
                    }
                } else {
                    None
                }
            } else {
                if mag <= 9223372036854775807u64 {
                    Some(mag as i64)
                } else {
                    None
                }
            }
        },
    }
}

/// `str::parse::<u64>()`, as an `Option`.
pub fn parse_u64(s: &str) -> (r: Option<u64>)
    ensures
        r == u64_text_value(s@),
{
    let v = chars_of(s);
    if v.len() == 0 {
        return None;
    }
    let start: usize = if v[0] == '+' {
        1
    } else {
        0
    };
    let ghost d = v@.subrange(start as int, v@.len() as int);
    assert(d =~= (if v@[0] == '+' {
        s@.drop_first()
    } else {
        s@
    }));
    if start == v.len() {
        return None;
    }
    digits_u64(&v, start)
}

/// Decimal digits of a natural number, most significant first (`"0"` for 0).
pub open spec fn decimal(n: nat) -> Seq<char>
    decreases n,
{
    if n < 10 {
        seq![(('0' as int) + n) as char]
    } else {
        decimal(n / 10).push((('0' as int) + (n % 10)) as char)
    }
}

/// Appends `Display` of `n`.
pub fn push_decimal(s: &mut String, n: u64)
    ensures
        final(s)@ == old(s)@ + decimal(n as nat),
    decreases n,
{
    if n < 10 {
        push_char(s, ((n as u8) + 48) as char);
        assert(seq![(('0' as int) + n) as char] =~= seq![((n as u8) + 48) as char]);
    } else {
        push_decimal(s, n / 10);
        push_char(s, (((n % 10) as u8) + 48) as char);
        assert(old(s)@ + decimal(n as nat) =~= old(s)@ + decimal((n / 10) as nat) + seq![
            (((n % 10) as u8) + 48) as char,
        ]);
    }
}

/// `Display` for `u64`.
pub fn u64_to_string(n: u64) -> (s: String)
    ensures
        s@ == decimal(n as nat),
{
    let mut s = String::new();
    push_decimal(&mut s, n);
    assert(s@ =~= decimal(n as nat));
    s
}

/// `Display` for `i64`: a minus sign before the digits of negative values.
pub open spec fn signed_decimal(n: int) -> Seq<char> {
    if n < 0 {
        seq!['-'] + decimal((-n) as nat)
    } else {
        decimal(n as nat)
    }
}

/// `format!("{:+}", n)`: like `signed_decimal`, with `+` before
/// non-negative values.
pub open spec fn plus_signed_decimal(n: int) -> Seq<char> {
    if n < 0 {
        seq!['-'] + decimal((-n) as nat)
    } else {
        seq!['+'] + decimal(n as nat)
    }
}

fn magnitude(n: i64) -> (m: u64)
    ensures
        m == if n < 0 {
            -n
        } else {
            n as int
        },
{
    if n < 0 {
        if n == i64::MIN {
            9223372036854775808u64
        } else {
            (-n) as u64
        }
    } else {
        n as u64
    }
}

/// Appends `Display` of `n`.
pub fn push_i64(s: &mut String, n: i64)
    ensures
        final(s)@ == old(s)@ + signed_decimal(n as int),
{
    if n < 0 {
        push_char(s, '-');
    }
    push_decimal(s, magnitude(n));
    assert(final(s)@ =~= old(s)@ + signed_decimal(n as int));
}

/// Appends `format!("{:+}", n)`.
pub fn push_i64_plus(s: &mut String, n: i64)
    ensures
        final(s)@ == old(s)@ + plus_signed_decimal(n as int),
{
    if n < 0 {
        push_char(s, '-');
    } else {
        push_char(s, '+');
    }
    push_decimal(s, magnitude(n));
    assert(final(s)@ =~= old(s)@ + plus_signed_decimal(n as int));
}

} // verus!
