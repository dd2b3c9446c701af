//! Hashing, hex encoding and constant-time comparison, each backed by
//! an established crate.

use vstd::prelude::*;

verus! {

/// SHA-256 digest of a byte sequence, as computed by the `sha2` crate.
pub uninterp spec fn sha256_spec(data: Seq<u8>) -> Seq<u8>;

/// Lower-case hexadecimal digit for a nibble.
pub open spec fn hex_digit(n: u8) -> char {
    if n < 10 {
        (('0' as u8) + n) as char
    } else {
        (('a' as u8) + (n - 10)) as char
    }
}

/// Lower-case hex rendering: two characters per byte, high nibble first.
pub open spec fn hex_lower(data: Seq<u8>) -> Seq<char>
    decreases data.len(),
{
    if data.len() == 0 {
        Seq::empty()
    } else {
        seq![hex_digit(data[0] / 16), hex_digit(data[0] % 16)] + hex_lower(data.drop_first())
    }
}

/// `sha2::Sha256::digest`: the 32-byte SHA-256 digest of `data`.
/// Trusted: the result is the digest the `sha2` crate computes (named
/// `sha256_spec`) and is 32 bytes long, the fixed output size of SHA-256.
#[verifier::external_body]
pub(crate) fn sha256(data: &[u8]) -> (d: Vec<u8>)
    ensures
        d@ == sha256_spec(data@),
        d@.len() == 32,
{
    <sha2::Sha256 as sha2::Digest>::digest(data).to_vec()
}

/// `hex::encode`: renders every byte as two lower-case hex digits,
/// high nibble first, using the table `0123456789abcdef`.
#[verifier::external_body]
pub(crate) fn hex_encode(data: &[u8]) -> (s: String)
    ensures
        s@ == hex_lower(data@),
{
    hex::encode(data)
}

/// `subtle::ConstantTimeEq::ct_eq` on byte slices, converted to `bool`.
/// Trusted: it answers false when the lengths differ and otherwise
/// whether every byte is equal, that is, whether the slices are equal.
#[verifier::external_body]
pub(crate) fn ct_eq_bytes(a: &[u8], b: &[u8]) -> (eq: bool)
    ensures
        eq == (a@ == b@),
{
    bool::from(subtle::ConstantTimeEq::ct_eq(a, b))
}

/// A lower-case hexadecimal digit.
pub open spec fn is_hex_lower_char(c: char) -> bool {
    ('0' <= c && c <= '9') || ('a' <= c && c <= 'f')
}

/// Hex rendering has two characters per byte, each a lower-case hex digit.
pub proof fn lemma_hex_lower_shape(data: Seq<u8>)
    ensures
        hex_lower(data).len() == 2 * data.len(),
        forall|i: int| 0 <= i < hex_lower(data).len() ==> #[trigger] is_hex_lower_char(hex_lower(data)[i]),
    decreases data.len(),
{
    if data.len() > 0 {
        lemma_hex_lower_shape(data.drop_first());
        let h = seq![hex_digit(data[0] / 16), hex_digit(data[0] % 16)];
        assert(is_hex_lower_char(h[0]) && is_hex_lower_char(h[1]));
        let rest = hex_lower(data.drop_first());
        assert forall|i: int| 0 <= i < hex_lower(data).len() implies #[trigger] is_hex_lower_char(
            hex_lower(data)[i],
        ) by {
            if i >= 2 {
                assert(hex_lower(data)[i] == rest[i - 2]);
            }
        }
    }
}

/// Appends every byte of `b` to `v`.
pub fn append_bytes(v: &mut Vec<u8>, b: &[u8])
    ensures
        final(v)@ == old(v)@ + b@,
{
    let n = b.len();
    let mut i: usize = 0;
    while i < n
        invariant
            n == b@.len(),
            i <= n,
            v@ == old(v)@ + b@.subrange(0, i as int),
        decreases n - i,
    {
        v.push(b[i]);
        i = i + 1;
        assert(v@ =~= old(v)@ + b@.subrange(0, i as int));
    }
    assert(b@.subrange(0, n as int) =~= b@);
}

} // verus!
