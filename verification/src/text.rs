//! Byte-string utilities: equality, ASCII case folding, substring search, and
//! whitespace trimming, each proved against a sequence-level model.

use vstd::prelude::*;

verus! {

/// ASCII lower-casing of one byte: `A`..`Z` map to `a`..`z`.
pub open spec fn lower_byte(b: u8) -> u8 {
    if 65 <= b && b <= 90 {
        (b + 32) as u8
    } else {
        b
    }
}

/// ASCII lower-casing of a byte string.
pub open spec fn fold_lower(s: Seq<u8>) -> Seq<u8> {
    s.map_values(|b: u8| lower_byte(b))
}

/// The needle `n` occurs in the haystack `h` starting at position `i`.
pub open spec fn seq_matches_at(h: Seq<u8>, n: Seq<u8>, i: int) -> bool {
    0 <= i && i + n.len() <= h.len() && h.subrange(i, i + n.len()) == n
}

/// The needle `n` occurs somewhere in the haystack `h`.
pub open spec fn contains_seq(h: Seq<u8>, n: Seq<u8>) -> bool {
    exists|i: int| seq_matches_at(h, n, i)
}

/// ASCII whitespace: space, tab, line feed, carriage return.
pub open spec fn is_space(b: u8) -> bool {
    b == 32 || b == 9 || b == 10 || b == 13
}

/// `s` without its leading whitespace.
pub open spec fn trim_front(s: Seq<u8>) -> Seq<u8>
    decreases s.len(),
{
    if s.len() > 0 && is_space(s.first()) {
        trim_front(s.drop_first())
    } else {
        s
    }
}

/// `s` without its trailing whitespace.
pub open spec fn trim_back(s: Seq<u8>) -> Seq<u8>
    decreases s.len(),
{
    if s.len() > 0 && is_space(s.last()) {
        trim_back(s.drop_last())
    } else {
        s
    }
}

/// `s` without leading and trailing whitespace.
pub open spec fn trimmed(s: Seq<u8>) -> Seq<u8> {
    trim_back(trim_front(s))
}

/// Compares two byte slices for element-wise equality.
pub fn bytes_equal(a: &[u8], b: &[u8]) -> (r: bool)
    ensures
        r == (a@ == b@),
{
    if a.len() != b.len() {
        assert(a@ != b@);
        return false;
    }
    let n = a.len();
    let mut i: usize = 0;
    while i < n
        invariant
            n == a@.len() == b@.len(),
            0 <= i <= n,
            forall|j: int| 0 <= j < i ==> a@[j] == b@[j],
        decreases n - i,
    {
        if a[i] != b[i] {
            return false;
        }
        i += 1;
    }
    assert(a@ =~= b@);
    true
}

/// ASCII-lower-cases a byte slice.
pub fn to_lowercase_bytes(s: &[u8]) -> (r: Vec<u8>)
    ensures
        r@ == fold_lower(s@),
{
    let n = s.len();
    let mut r: Vec<u8> = Vec::new();
    let mut i: usize = 0;
    while i < n
        invariant
            n == s@.len(),
            0 <= i <= n,
            r@.len() == i,
            forall|j: int| 0 <= j < i ==> r@[j] == lower_byte(s@[j]),
        decreases n - i,
    {
        let b = s[i];
        if 65 <= b && b <= 90 {
            r.push(b + 32);
        } else {
            r.push(b);
        }
        i += 1;
    }
    assert(r@ =~= fold_lower(s@));
    r
}

/// Decides whether the needle `n` occurs anywhere in the haystack `h`.
pub fn contains_subslice(h: &[u8], n: &[u8]) -> (r: bool)
    ensures
        r == contains_seq(h@, n@),
{
    let hn = h.len();
    let nn = n.len();
    if nn > hn {
        assert(forall|i: int| !seq_matches_at(h@, n@, i));
        return false;
    }
    if nn == 0 {
        assert(h@.subrange(0, 0) =~= n@);
        assert(seq_matches_at(h@, n@, 0));
        return true;
    }
    let last = hn - nn;
    let mut i: usize = 0;
    loop
        invariant
            hn == h@.len(),
            nn == n@.len(),
            1 <= nn <= hn,
            last == hn - nn,
            0 <= i <= last + 1,
            forall|k: int| 0 <= k < i ==> !seq_matches_at(h@, n@, k),
        decreases last + 1 - i,
    {
        if i > last {
            assert(forall|k: int| !seq_matches_at(h@, n@, k));
            return false;
        }
        if bytes_equal(&h[i..i + nn], n) {
            assert(seq_matches_at(h@, n@, i as int));
            return true;
        }
        i += 1;
    }
}

/// Leading whitespace, once skipped, leaves the suffix that `trim_front` keeps.
proof fn lemma_trim_front_skip(s: Seq<u8>, a: int)
    requires
        0 <= a <= s.len(),
        forall|j: int| 0 <= j < a ==> is_space(s[j]),
        a == s.len() || !is_space(s[a]),
    ensures
        trim_front(s) == s.skip(a),
    decreases a,
{
    if a == 0 {
        assert(s.skip(0) =~= s);
    } else {
        assert(is_space(s.first()));
        lemma_trim_front_skip(s.drop_first(), a - 1);
        assert(s.drop_first().skip(a - 1) =~= s.skip(a));
    }
}

/// Trailing whitespace, once dropped, leaves the prefix that `trim_back` keeps.
proof fn lemma_trim_back_take(s: Seq<u8>, b: int)
    requires
        0 <= b <= s.len(),
        forall|j: int| b <= j < s.len() ==> is_space(s[j]),
        b == 0 || !is_space(s[b - 1]),
    ensures
        trim_back(s) == s.take(b),
    decreases s.len() - b,
{
    if b == s.len() {
        assert(s.take(b) =~= s);
        if s.len() > 0 {
            assert(!is_space(s.last()));
        }
    } else {
        assert(is_space(s.last()));
        lemma_trim_back_take(s.drop_last(), b);
        assert(s.drop_last() =~= s.take(s.len() - 1));
        assert(s.drop_last().take(b) =~= s.take(b));
    }
}

/// Removes leading and trailing ASCII whitespace from a byte slice.
pub fn trim_bytes(s: &[u8]) -> (r: Vec<u8>)
    ensures
        r@ == trimmed(s@),
{
    let n = s.len();
    let mut a: usize = 0;
    while a < n && (s[a] == 32 || s[a] == 9 || s[a] == 10 || s[a] == 13)
        invariant
            n == s@.len(),
            0 <= a <= n,
            forall|j: int| 0 <= j < a ==> is_space(s@[j]),
        decreases n - a,
    {
        a += 1;
    }
    proof {
        lemma_trim_front_skip(s@, a as int);
    }
    let mut b: usize = n;
    while b > a && (s[b - 1] == 32 || s[b - 1] == 9 || s[b - 1] == 10 || s[b - 1] == 13)
        invariant
            n == s@.len(),
            a <= b <= n,
            forall|j: int| b <= j < n ==> is_space(s@[j]),
        decreases b,
    {
        b -= 1;
    }
    proof {
        let f = trim_front(s@);
        assert(f == s@.skip(a as int));
        assert(f.len() == n - a);
        assert(forall|j: int| b - a <= j < f.len() ==> is_space(f[j]));
        if b > a {
            assert(f[b - a - 1] == s@[b as int - 1]);
        }
        lemma_trim_back_take(f, b - a);
        assert(trimmed(s@) == f.take(b - a));
        assert(f.take(b - a) =~= s@.subrange(a as int, b as int));
    }
    let mut r: Vec<u8> = Vec::new();
    r.extend_from_slice(&s[a..b]);
    assert(r@ =~= trimmed(s@));
    r
}

} // verus!
