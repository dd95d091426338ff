//! Lower-case hexadecimal encoding of byte strings, used for the artifact
//! content-hash format: two hex digits per byte, most significant nibble
//! first.

use vstd::prelude::*;
use crate::text::{fold_lower, is_space, lower_byte, trim_back, trim_front, trimmed};

verus! {

/// The lower-case hex digit for a nibble.
pub open spec fn spec_hex_digit(n: u8) -> u8
    recommends
        n < 16,
{
    if n < 10 {
        (n + 48) as u8
    } else {
        (n + 87) as u8
    }
}

/// The lower-case hex encoding of a byte string: digits as byte values.
pub open spec fn spec_hex(bytes: Seq<u8>) -> Seq<u8> {
    Seq::new(
        bytes.len() * 2,
        |i: int|
            if i % 2 == 0 {
                spec_hex_digit(bytes[i / 2] >> 4)
            } else {
                spec_hex_digit(bytes[i / 2] & 0x0f)
            },
    )
}

/// Encodes a byte slice as lower-case hex.
pub fn bytes_to_hex(bytes: &[u8]) -> (r: Vec<u8>)
    ensures
        r@ == spec_hex(bytes@),
{
    let n = bytes.len();
    let mut r: Vec<u8> = Vec::new();
    let mut i: usize = 0;
    while i < n
        invariant
            n == bytes@.len(),
            0 <= i <= n,
            r@.len() == 2 * i,
            forall|j: int| 0 <= j < 2 * i ==> r@[j] == spec_hex(bytes@)[j],
        decreases n - i,
    {
        let b = bytes[i];
        assert(b >> 4 < 16 && b & 0x0f < 16) by (bit_vector);
        let hi = b >> 4;
        let lo = b & 0x0f;
        r.push(if hi < 10 { hi + 48 } else { hi + 87 });
        r.push(if lo < 10 { lo + 48 } else { lo + 87 });
        i += 1;
    }
    assert(r@ =~= spec_hex(bytes@));
    r
}

/// The hex encoding as text: each digit byte read as its ASCII character.
pub open spec fn spec_hex_chars(bytes: Seq<u8>) -> Seq<char> {
    spec_hex(bytes).map_values(|b: u8| b as char)
}

/// Relies on `String::push`: appends exactly the given character.
#[verifier::external_body]
fn push_char(s: &mut String, c: char)
    ensures
        final(s)@ == old(s)@.push(c),
{
    s.push(c);
}

/// Encodes a byte slice as a lower-case hex string.
pub fn hex_string(bytes: &[u8]) -> (r: String)
    ensures
        r@ == spec_hex_chars(bytes@),
{
    let digits = bytes_to_hex(bytes);
    let n = digits.len();
    let mut r = String::new();
    let mut i: usize = 0;
    while i < n
        invariant
            n == digits@.len(),
            0 <= i <= n,
            r@.len() == i,
            forall|j: int| 0 <= j < i ==> r@[j] == digits@[j] as char,
        decreases n - i,
    {
        push_char(&mut r, digits[i] as char);
        i += 1;
    }
    assert(r@ =~= spec_hex_chars(bytes@));
    r
}

/// Encodes a 32-byte content digest as its lower-case hex string form.
pub fn slice_32_to_sha_hex_string(hash: [u8; 32]) -> (r: String)
    ensures
        r@ == spec_hex_chars(hash@),
        r@.len() == 64,
{
    hex_string(hash.as_slice())
}

/// Hex digits are never whitespace and never upper-case letters, so a hex
/// encoding is untouched by trimming and case folding.
pub proof fn lemma_hex_canonical(bytes: Seq<u8>)
    ensures
        trimmed(spec_hex(bytes)) == spec_hex(bytes),
        fold_lower(spec_hex(bytes)) == spec_hex(bytes),
{
    let h = spec_hex(bytes);
    assert forall|j: int| 0 <= j < h.len() implies !is_space(#[trigger] h[j]) && lower_byte(h[j])
        == h[j] by {
        let b = bytes[j / 2];
        assert(b >> 4 < 16 && b & 0x0f < 16) by (bit_vector);
    }
    if h.len() > 0 {
        assert(!is_space(h.first()));
        assert(!is_space(h.last()));
    }
    assert(trim_front(h) == h);
    assert(trim_back(h) == h);
    assert(fold_lower(h) =~= h);
}

/// Hex digits of distinct nibbles are distinct.
proof fn lemma_hex_digit_injective(m: u8, n: u8)
    requires
        m < 16,
        n < 16,
        spec_hex_digit(m) == spec_hex_digit(n),
    ensures
        m == n,
{
}

/// The hex encoding is injective: equal encodings come from equal inputs.
pub proof fn lemma_hex_injective(a: Seq<u8>, b: Seq<u8>)
    requires
        spec_hex(a) == spec_hex(b),
    ensures
        a == b,
{
    assert(spec_hex(a).len() == a.len() * 2);
    assert(spec_hex(b).len() == b.len() * 2);
    assert(a.len() == b.len());
    assert forall|i: int| 0 <= i < a.len() implies a[i] == b[i] by {
        let x = a[i];
        let y = b[i];
        assert(spec_hex(a)[2 * i] == spec_hex_digit(x >> 4));
        assert(spec_hex(b)[2 * i] == spec_hex_digit(y >> 4));
        assert(spec_hex(a)[2 * i + 1] == spec_hex_digit(x & 0x0f));
        assert(spec_hex(b)[2 * i + 1] == spec_hex_digit(y & 0x0f));
        assert(x >> 4 < 16 && y >> 4 < 16 && (x & 0x0f) < 16 && (y & 0x0f) < 16) by (bit_vector);
        lemma_hex_digit_injective(x >> 4, y >> 4);
        lemma_hex_digit_injective(x & 0x0f, y & 0x0f);
        assert(x >> 4 == y >> 4 && x & 0x0f == y & 0x0f ==> x == y) by (bit_vector);
    }
    assert(a =~= b);
}

} // verus!
