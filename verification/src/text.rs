//! Byte-level text utilities shared by the protocol decoder and the
//! error renderer: ASCII whitespace trimming, decimal rendering of a
//! port or status number, and slice comparison.

use vstd::prelude::*;

verus! {

/// The ASCII whitespace bytes: tab, line feed, vertical tab, form
/// feed, carriage return, space.
pub open spec fn is_ascii_ws(b: u8) -> bool {
    b == 9 || b == 10 || b == 11 || b == 12 || b == 13 || b == 32
}

/// `s` with leading ASCII whitespace removed.
pub open spec fn trimmed_front(s: Seq<u8>) -> Seq<u8>
    decreases s.len(),
{
    if s.len() == 0 {
        s
    } else if is_ascii_ws(s[0]) {
        trimmed_front(s.skip(1))
    } else {
        s
    }
}

/// `s` with trailing ASCII whitespace removed.
pub open spec fn trimmed_back(s: Seq<u8>) -> Seq<u8>
    decreases s.len(),
{
    if s.len() == 0 {
        s
    } else if is_ascii_ws(s[s.len() - 1]) {
        trimmed_back(s.take(s.len() - 1))
    } else {
        s
    }
}

/// `s` with ASCII whitespace removed from both ends.
pub open spec fn trimmed(s: Seq<u8>) -> Seq<u8> {
    trimmed_back(trimmed_front(s))
}

proof fn lemma_trimmed_front_skip(s: Seq<u8>, i: int)
    requires
        0 <= i <= s.len(),
        forall|j: int| 0 <= j < i ==> is_ascii_ws(s[j]),
        i < s.len() ==> !is_ascii_ws(s[i]),
    ensures
        trimmed_front(s) == s.skip(i),
    decreases i,
{
    if i == 0 {
        if s.len() > 0 && !is_ascii_ws(s[0]) {
            assert(trimmed_front(s) == s);
        }
        assert(s.skip(0) =~= s);
    } else {
        assert(is_ascii_ws(s[0]));
        let t = s.skip(1);
        assert(forall|j: int| 0 <= j < i - 1 ==> is_ascii_ws(t[j]));
        lemma_trimmed_front_skip(t, i - 1);
        assert(t.skip(i - 1) =~= s.skip(i));
    }
}

proof fn lemma_trimmed_back_take(s: Seq<u8>, i: int)
    requires
        0 <= i <= s.len(),
        forall|j: int| i <= j < s.len() ==> is_ascii_ws(s[j]),
        i > 0 ==> !is_ascii_ws(s[i - 1]),
    ensures
        trimmed_back(s) == s.take(i),
    decreases s.len() - i,
{
    if i == s.len() {
        if s.len() > 0 && !is_ascii_ws(s[s.len() - 1]) {
            assert(trimmed_back(s) == s);
        }
        assert(s.take(s.len() as int) =~= s);
    } else {
        assert(is_ascii_ws(s[s.len() - 1]));
        let t = s.take(s.len() - 1);
        assert(forall|j: int| i <= j < t.len() ==> t[j] == s[j]);
        lemma_trimmed_back_take(t, i);
        assert(t.take(i) =~= s.take(i));
    }
}

/// Copies `s[i..j]` into a fresh vector.
pub fn subrange_vec(s: &[u8], i: usize, j: usize) -> (r: Vec<u8>)
    requires
        i <= j <= s@.len(),
    ensures
        r@ == s@.subrange(i as int, j as int),
{
    let mut r: Vec<u8> = Vec::new();
    let mut k: usize = i;
    while k < j
        invariant
            i <= k <= j <= s@.len(),
            r@ == s@.subrange(i as int, k as int),
        decreases j - k,
    {
        r.push(s[k]);
        assert(s@.subrange(i as int, k + 1 as int) =~= s@.subrange(i as int, k as int).push(
            s@[k as int],
        ));
        k = k + 1;
    }
    r
}

/// Removes ASCII whitespace from both ends of `s`.
pub fn trim_bytes(s: &[u8]) -> (r: Vec<u8>)
    ensures
        r@ == trimmed(s@),
{
    let n = s.len();
    let mut lo: usize = 0;
    while lo < n && is_ws_byte(s[lo])
        invariant
            0 <= lo <= n == s@.len(),
            forall|j: int| 0 <= j < lo ==> is_ascii_ws(s@[j]),
        decreases n - lo,
    {
        lo = lo + 1;
    }
    let mut hi: usize = n;
    while hi > lo && is_ws_byte(s[hi - 1])
        invariant
            lo <= hi <= n == s@.len(),
            forall|j: int| 0 <= j < lo ==> is_ascii_ws(s@[j]),
            forall|j: int| hi <= j < n ==> is_ascii_ws(s@[j]),
        decreases hi,
    {
        hi = hi - 1;
    }
    proof {
        lemma_trimmed_front_skip(s@, lo as int);
        let t = s@.skip(lo as int);
        assert(forall|j: int| hi - lo <= j < t.len() ==> is_ascii_ws(t[j]));
        lemma_trimmed_back_take(t, hi - lo);
        assert(t.take(hi - lo) =~= s@.subrange(lo as int, hi as int));
    }
    subrange_vec(s, lo, hi)
}

/// Appends every byte of `src` to `dst`.
pub fn push_all(dst: &mut Vec<u8>, src: &[u8])
    ensures
        final(dst)@ == old(dst)@ + src@,
{
    let n = src.len();
    let mut k: usize = 0;
    while k < n
        invariant
            0 <= k <= n == src@.len(),
            dst@ == old(dst)@ + src@.subrange(0, k as int),
        decreases n - k,
    {
        dst.push(src[k]);
        assert(src@.subrange(0, k + 1 as int) =~= src@.subrange(0, k as int).push(src@[k as int]));
        k = k + 1;
    }
    proof {
        assert(src@.subrange(0, n as int) =~= src@);
    }
}

/// Whether `s` begins with `p`.
pub fn starts_with(s: &[u8], p: &[u8]) -> (r: bool)
    ensures
        r == p@.is_prefix_of(s@),
{
    let m = p.len();
    if m > s.len() {
        return false;
    }
    let mut k: usize = 0;
    while k < m
        invariant
            0 <= k <= m == p@.len(),
            m <= s@.len(),
            forall|j: int| 0 <= j < k ==> p@[j] == s@[j],
        decreases m - k,
    {
        if s[k] != p[k] {
            proof {
                assert(s@.subrange(0, m as int)[k as int] == s@[k as int]);
            }
            return false;
        }
        k = k + 1;
    }
    proof {
        assert(p@ =~= s@.subrange(0, m as int));
    }
    true
}

/// True of the ASCII whitespace bytes.
pub fn is_ws_byte(b: u8) -> (r: bool)
    ensures
        r == is_ascii_ws(b),
{
    b == 9 || b == 10 || b == 11 || b == 12 || b == 13 || b == 32
}

/// True when the two slices hold the same bytes.
pub fn bytes_eq(a: &[u8], b: &[u8]) -> (r: bool)
    ensures
        r == (a@ == b@),
{
    if a.len() != b.len() {
        return false;
    }
    let n = a.len();
    let mut k: usize = 0;
    while k < n
        invariant
            0 <= k <= n,
            a@.len() == n,
            b@.len() == n,
            forall|j: int| 0 <= j < k ==> a@[j] == b@[j],
        decreases n - k,
    {
        if a[k] != b[k] {
            return false;
        }
        k = k + 1;
    }
    proof {
        assert(a@ =~= b@);
    }
    true
}

/// The parts joined with the single-byte separator `sep`.
pub open spec fn spec_join(parts: Seq<Seq<u8>>, sep: u8) -> Seq<u8>
    decreases parts.len(),
{
    if parts.len() == 0 {
        Seq::empty()
    } else if parts.len() == 1 {
        parts[0]
    } else {
        parts[0] + seq![sep] + spec_join(parts.skip(1), sep)
    }
}

/// Appending one part to a join: the separator stands between the
/// old join and the new part, unless the join was empty.
pub proof fn lemma_join_push(parts: Seq<Seq<u8>>, p: Seq<u8>, sep: u8)
    ensures
        spec_join(parts.push(p), sep) == if parts.len() == 0 {
            p
        } else {
            spec_join(parts, sep) + seq![sep] + p
        },
    decreases parts.len(),
{
    if parts.len() == 0 {
        assert(parts.push(p)[0] == p);
    } else {
        assert(parts.push(p).skip(1) =~= parts.skip(1).push(p));
        lemma_join_push(parts.skip(1), p, sep);
        if parts.len() == 1 {
            assert(spec_join(parts, sep) == parts[0]);
        }
    }
}

/// The decimal digits of `n`, most significant first.
pub open spec fn spec_dec(n: nat) -> Seq<u8>
    decreases n,
{
    if n < 10 {
        seq![(48 + n) as u8]
    } else {
        spec_dec(n / 10).push((48 + n % 10) as u8)
    }
}

/// Renders `n` in decimal ASCII.
pub fn dec_u16(n: u16) -> (r: Vec<u8>)
    ensures
        r@ == spec_dec(n as nat),
    decreases n,
{
    if n < 10 {
        let mut r: Vec<u8> = Vec::new();
        r.push(48 + n as u8);
        assert(r@ =~= spec_dec(n as nat));
        r
    } else {
        let mut r = dec_u16(n / 10);
        r.push(48 + (n % 10) as u8);
        assert(r@ =~= spec_dec(n as nat));
        r
    }
}

} // verus!
