//! Byte-level text utilities.
//!
//! The fetched page text is UTF-8; every scan in this library works on its
//! bytes, so the helpers here are stated over `Seq<u8>`. Multi-byte
//! code points never interfere with the ASCII delimiters these scans look
//! for, because no UTF-8 continuation byte is below 0x80.

use vstd::prelude::*;
use vstd::string::StringSliceAdditionalSpecFns;

verus! {

/// The needle `n` occurs in `h` starting exactly at position `i`.
pub open spec fn is_match_at(h: Seq<u8>, n: Seq<u8>, i: int) -> bool {
    0 <= i && i + n.len() <= h.len() && h.subrange(i, i + n.len()) == n
}

/// The needle `n` occurs somewhere in `h`.
pub open spec fn contains_seq(h: Seq<u8>, n: Seq<u8>) -> bool {
    exists|i: int| is_match_at(h, n, i)
}

/// Does `n` occur in `h` starting at `i`?
pub fn match_at(h: &[u8], n: &[u8], i: usize) -> (r: bool)
    requires
        i + n@.len() <= h@.len(),
    ensures
        r == is_match_at(h@, n@, i as int),
{
    let hlen = h.len();
    let mut j: usize = 0;
    while j < n.len()
        invariant
            0 <= j <= n@.len(),
            i + n@.len() <= hlen == h@.len(),
            forall|k: int| 0 <= k < j ==> h@[i + k] == n@[k],
        decreases n@.len() - j,
    {
        if h[i + j] != n[j] {
            assert(h@.subrange(i as int, i + n@.len())[j as int] != n@[j as int]);
            return false;
        }
        j = j + 1;
    }
    assert(h@.subrange(i as int, i + n@.len()) =~= n@);
    true
}

/// First position at or after `from` where `n` occurs in `h`.
pub fn find_from(h: &[u8], n: &[u8], from: usize) -> (r: Option<usize>)
    ensures
        r matches Some(i) ==> from <= i && is_match_at(h@, n@, i as int) && forall|j: int|
            from <= j < i ==> !is_match_at(h@, n@, j),
        r is None ==> forall|j: int| j >= from ==> !is_match_at(h@, n@, j),
{
    if n.len() > h.len() {
        return None;
    }
    let last = h.len() - n.len();
    if from > last {
        return None;
    }
    let mut i: usize = from;
    while i < last
        invariant
            n@.len() <= h@.len(),
            last == h@.len() - n@.len(),
            from <= i <= last,
            forall|j: int| from <= j < i ==> !is_match_at(h@, n@, j),
        decreases last - i,
    {
        if match_at(h, n, i) {
            return Some(i);
        }
        i = i + 1;
    }
    if match_at(h, n, last) {
        return Some(last);
    }
    None
}

/// Does `n` occur anywhere in `h`?
pub fn contains_bytes(h: &[u8], n: &[u8]) -> (r: bool)
    ensures
        r == contains_seq(h@, n@),
{
    let found = find_from(h, n, 0);
    match found {
        Some(i) => {
            assert(is_match_at(h@, n@, i as int));
            true
        },
        None => {
            assert(forall|j: int| !is_match_at(h@, n@, j)) by {
                assert(forall|j: int| j < 0 ==> !is_match_at(h@, n@, j));
            }
            false
        },
    }
}

/// Are two byte strings equal?
pub fn bytes_eq(a: &[u8], b: &[u8]) -> (r: bool)
    ensures
        r == (a@ == b@),
{
    if a.len() != b.len() {
        return false;
    }
    let r = match_at(a, b, 0);
    proof {
        assert(a@.subrange(0, a@.len() as int) =~= a@);
    }
    r
}

/// Does `h` start with `n`?
pub fn starts_with_bytes(h: &[u8], n: &[u8]) -> (r: bool)
    ensures
        r == (n@.len() <= h@.len() && h@.subrange(0, n@.len() as int) == n@),
{
    if n.len() > h.len() {
        return false;
    }
    match_at(h, n, 0)
}

/// Width in bytes of the UTF-8 whitespace character starting at `i`,
/// or 0 when the bytes at `i` do not begin a whitespace character.
/// The recognised set is Unicode `White_Space`.
pub open spec fn ws_len_spec(h: Seq<u8>, i: int) -> int {
    if 0 <= i < h.len() && (h[i] == 0x09 || h[i] == 0x0a || h[i] == 0x0b || h[i] == 0x0c || h[i]
        == 0x0d || h[i] == 0x20) {
        1
    } else if 0 <= i && i + 2 <= h.len() && h[i] == 0xc2 && (h[i + 1] == 0x85 || h[i + 1]
        == 0xa0) {
        2
    } else if 0 <= i && i + 3 <= h.len() && h[i] == 0xe1 && h[i + 1] == 0x9a && h[i + 2] == 0x80 {
        3
    } else if 0 <= i && i + 3 <= h.len() && h[i] == 0xe2 && h[i + 1] == 0x80 && (0x80 <= h[i + 2]
        <= 0x8a || h[i + 2] == 0xa8 || h[i + 2] == 0xa9 || h[i + 2] == 0xaf) {
        3
    } else if 0 <= i && i + 3 <= h.len() && h[i] == 0xe2 && h[i + 1] == 0x81 && h[i + 2] == 0x9f {
        3
    } else if 0 <= i && i + 3 <= h.len() && h[i] == 0xe3 && h[i + 1] == 0x80 && h[i + 2] == 0x80 {
        3
    } else {
        0
    }
}

/// The whole of `h` decomposes into whitespace characters.
pub open spec fn all_ws(h: Seq<u8>) -> bool
    decreases h.len(),
{
    h.len() == 0 || (ws_len_spec(h, 0) > 0 && all_ws(h.subrange(ws_len_spec(h, 0), h.len() as int)))
}

/// Width of the whitespace character starting at `i`, executable form.
pub fn ws_len_at(h: &[u8], i: usize) -> (r: usize)
    requires
        i <= h@.len(),
    ensures
        r == ws_len_spec(h@, i as int),
        r <= h@.len() - i,
{
    let left = h.len() - i;
    if left >= 1 && (h[i] == 0x09 || h[i] == 0x0a || h[i] == 0x0b || h[i] == 0x0c || h[i] == 0x0d
        || h[i] == 0x20) {
        1
    } else if left >= 2 && h[i] == 0xc2 && (h[i + 1] == 0x85 || h[i + 1] == 0xa0) {
        2
    } else if left >= 3 && h[i] == 0xe1 && h[i + 1] == 0x9a && h[i + 2] == 0x80 {
        3
    } else if left >= 3 && h[i] == 0xe2 && h[i + 1] == 0x80 && (0x80 <= h[i + 2] && h[i + 2]
        <= 0x8a || h[i + 2] == 0xa8 || h[i + 2] == 0xa9 || h[i + 2] == 0xaf) {
        3
    } else if left >= 3 && h[i] == 0xe2 && h[i + 1] == 0x81 && h[i + 2] == 0x9f {
        3
    } else if left >= 3 && h[i] == 0xe3 && h[i + 1] == 0x80 && h[i + 2] == 0x80 {
        3
    } else {
        0
    }
}

proof fn lemma_all_ws_extend(h: Seq<u8>, a: int, b: int)
    requires
        0 <= a <= b <= h.len(),
        all_ws(h.subrange(a, b)),
        ws_len_spec(h, b) > 0,
        b + ws_len_spec(h, b) <= h.len(),
    ensures
        all_ws(h.subrange(a, b + ws_len_spec(h, b))),
    decreases b - a,
{
    let w = ws_len_spec(h, b);
    let seg = h.subrange(a, b + w);
    if a == b {
        assert(ws_len_spec(seg, 0) == w);
        assert(seg.subrange(w, seg.len() as int) =~= h.subrange(b + w, b + w));
        assert(all_ws(h.subrange(b + w, b + w)));
    } else {
        let sub = h.subrange(a, b);
        let w0 = ws_len_spec(sub, 0);
        assert(w0 > 0);
        assert(ws_len_spec(seg, 0) == w0);
        assert(sub.subrange(w0, sub.len() as int) =~= h.subrange(a + w0, b));
        lemma_all_ws_extend(h, a + w0, b);
        assert(seg.subrange(w0, seg.len() as int) =~= h.subrange(a + w0, b + w));
    }
}

/// Index of the first byte after the leading run of whitespace characters,
/// scanning from `i`.
pub open spec fn trim_start_idx(h: Seq<u8>, i: int) -> int
    decreases h.len() - i + 1,
{
    if !(0 <= i <= h.len()) {
        i
    } else if ws_len_spec(h, i) > 0 {
        trim_start_idx(h, i + ws_len_spec(h, i))
    } else {
        i
    }
}

/// Index just after the last non-whitespace character at or after `i`,
/// where `e` is that index for the part already scanned.
pub open spec fn trim_end_idx(h: Seq<u8>, i: int, e: int) -> int
    decreases h.len() - i + 1,
{
    if !(0 <= i < h.len()) {
        e
    } else if ws_len_spec(h, i) > 0 {
        trim_end_idx(h, i + ws_len_spec(h, i), e)
    } else {
        trim_end_idx(h, i + 1, i + 1)
    }
}

/// `h` without its leading and trailing whitespace characters.
pub open spec fn spec_trim(h: Seq<u8>) -> Seq<u8> {
    h.subrange(trim_start_idx(h, 0), trim_end_idx(h, trim_start_idx(h, 0), trim_start_idx(h, 0)))
}

/// Byte range of `h` left after removing leading and trailing whitespace
/// characters. The removed margins decompose wholly into whitespace, and a
/// non-empty result starts with a non-whitespace character.
pub fn trim_range(h: &[u8]) -> (r: (usize, usize))
    ensures
        r.0 <= r.1 <= h@.len(),
        all_ws(h@.subrange(0, r.0 as int)),
        all_ws(h@.subrange(r.1 as int, h@.len() as int)),
        r.0 < r.1 ==> ws_len_spec(h@, r.0 as int) == 0,
        r.0 == trim_start_idx(h@, 0),
        r.1 == trim_end_idx(h@, r.0 as int, r.0 as int),
        h@.subrange(r.0 as int, r.1 as int) == spec_trim(h@),
{
    let hlen = h.len();
    let mut s: usize = 0;
    loop
        invariant
            0 <= s <= hlen == h@.len(),
            all_ws(h@.subrange(0, s as int)),
            trim_start_idx(h@, 0) == trim_start_idx(h@, s as int),
        ensures
            0 <= s <= h@.len(),
            all_ws(h@.subrange(0, s as int)),
            ws_len_spec(h@, s as int) == 0,
            s == trim_start_idx(h@, 0),
        decreases h@.len() - s,
    {
        let w = ws_len_at(h, s);
        if w == 0 {
            break ;
        }
        proof {
            lemma_all_ws_extend(h@, 0, s as int);
        }
        s = s + w;
    }
    if s >= h.len() {
        proof {
            assert(h@.subrange(s as int, h@.len() as int) =~= Seq::<u8>::empty());
            assert(h@.subrange(s as int, s as int) =~= spec_trim(h@));
        }
        return (s, s);
    }
    // scan the rest, remembering the end of the last non-whitespace character
    let mut i: usize = s;
    let mut e: usize = s;
    while i < h.len()
        invariant
            s <= e <= i <= h@.len(),
            all_ws(h@.subrange(e as int, i as int)),
            ws_len_spec(h@, s as int) == 0,
            all_ws(h@.subrange(0, s as int)),
            trim_end_idx(h@, s as int, s as int) == trim_end_idx(h@, i as int, e as int),
        decreases h@.len() - i,
    {
        let w = ws_len_at(h, i);
        if w == 0 {
            i = i + 1;
            e = i;
            proof {
                assert(h@.subrange(e as int, i as int) =~= Seq::<u8>::empty());
            }
        } else {
            proof {
                lemma_all_ws_extend(h@, e as int, i as int);
            }
            i = i + w;
        }
    }
    proof {
        assert(h@.subrange(s as int, e as int) =~= spec_trim(h@));
    }
    (s, e)
}

/// Every byte `A`..`Z` mapped to its lower-case form; all others unchanged.
pub open spec fn lower_byte(b: u8) -> u8 {
    if 0x41 <= b <= 0x5a {
        (b + 0x20) as u8
    } else {
        b
    }
}

/// ASCII-lower-cases `h` byte by byte.
pub fn to_ascii_lower(h: &[u8]) -> (r: Vec<u8>)
    ensures
        r@ == h@.map_values(|b: u8| lower_byte(b)),
{
    let mut out: Vec<u8> = Vec::new();
    let mut i: usize = 0;
    while i < h.len()
        invariant
            0 <= i <= h@.len(),
            out@ == h@.subrange(0, i as int).map_values(|b: u8| lower_byte(b)),
        decreases h@.len() - i,
    {
        let b = h[i];
        if 0x41 <= b && b <= 0x5a {
            out.push(b + 0x20);
        } else {
            out.push(b);
        }
        i = i + 1;
        proof {
            assert(h@.subrange(0, i as int).map_values(|b: u8| lower_byte(b)) =~= h@.subrange(
                0,
                i - 1,
            ).map_values(|b: u8| lower_byte(b)).push(lower_byte(h@[i - 1])));
        }
    }
    proof {
        assert(h@.subrange(0, i as int) =~= h@);
    }
    out
}

/// `h` with every occurrence of `pat` replaced by `to`, scanning left to
/// right without re-examining replaced text.
pub open spec fn replace_spec(h: Seq<u8>, pat: Seq<u8>, to: Seq<u8>) -> Seq<u8>
    decreases h.len(),
{
    if pat.len() == 0 || h.len() < pat.len() {
        h
    } else if h.subrange(0, pat.len() as int) == pat {
        to + replace_spec(h.subrange(pat.len() as int, h.len() as int), pat, to)
    } else {
        seq![h[0]] + replace_spec(h.subrange(1, h.len() as int), pat, to)
    }
}

/// Replaces every occurrence of `pat` in `h` by `to`.
pub fn replace_bytes(h: &[u8], pat: &[u8], to: &[u8]) -> (r: Vec<u8>)
    ensures
        r@ == replace_spec(h@, pat@, to@),
{
    let mut out: Vec<u8> = Vec::new();
    if pat.len() == 0 {
        let mut i: usize = 0;
        while i < h.len()
            invariant
                0 <= i <= h@.len(),
                pat@.len() == 0,
                out@ == h@.subrange(0, i as int),
            decreases h@.len() - i,
        {
            out.push(h[i]);
            i = i + 1;
            proof {
                assert(h@.subrange(0, i as int) =~= h@.subrange(0, i - 1).push(h@[i - 1]));
            }
        }
        proof {
            assert(h@.subrange(0, i as int) =~= h@);
        }
        return out;
    }
    proof {
        assert(h@.subrange(0, h@.len() as int) =~= h@);
        assert(Seq::<u8>::empty() + replace_spec(h@, pat@, to@) =~= replace_spec(h@, pat@, to@));
    }
    let mut i: usize = 0;
    while i < h.len()
        invariant
            0 <= i <= h@.len(),
            pat@.len() > 0,
            out@ + replace_spec(h@.subrange(i as int, h@.len() as int), pat@, to@) == replace_spec(
                h@,
                pat@,
                to@,
            ),
        decreases h@.len() - i,
    {
        let ghost rest = h@.subrange(i as int, h@.len() as int);
        if pat.len() <= h.len() - i && match_at(h, pat, i) {
            proof {
                assert(rest.subrange(0, pat@.len() as int) =~= h@.subrange(
                    i as int,
                    i + pat@.len(),
                ));
                assert(rest.subrange(pat@.len() as int, rest.len() as int) =~= h@.subrange(
                    i + pat@.len(),
                    h@.len() as int,
                ));
            }
            let mut k: usize = 0;
            let ghost out0 = out@;
            while k < to.len()
                invariant
                    0 <= k <= to@.len(),
                    out@ == out0 + to@.subrange(0, k as int),
                decreases to@.len() - k,
            {
                out.push(to[k]);
                k = k + 1;
                proof {
                    assert(out0 + to@.subrange(0, k as int) =~= (out0 + to@.subrange(0, k - 1)).push(
                        to@[k - 1],
                    ));
                }
            }
            proof {
                assert(out@ =~= out0 + to@);
            }
            i = i + pat.len();
            proof {
                assert((out0 + to@) + replace_spec(
                    h@.subrange(i as int, h@.len() as int),
                    pat@,
                    to@,
                ) =~= out0 + (to@ + replace_spec(h@.subrange(i as int, h@.len() as int), pat@, to@)));
            }
        } else {
            proof {
                if i + pat@.len() <= h@.len() {
                    assert(rest.subrange(0, pat@.len() as int) =~= h@.subrange(
                        i as int,
                        i + pat@.len(),
                    ));
                } else {
                    assert(rest.len() < pat@.len());
                }
                assert(rest.subrange(1, rest.len() as int) =~= h@.subrange(
                    i + 1,
                    h@.len() as int,
                ));
            }
            let ghost out0 = out@;
            out.push(h[i]);
            i = i + 1;
            proof {
                assert(out@ =~= out0 + seq![h@[i - 1]]);
                assert((out0 + seq![h@[i - 1]]) + replace_spec(
                    h@.subrange(i as int, h@.len() as int),
                    pat@,
                    to@,
                ) =~= out0 + (seq![h@[i - 1]] + replace_spec(
                    h@.subrange(i as int, h@.len() as int),
                    pat@,
                    to@,
                )));
            }
        }
    }
    proof {
        assert(h@.subrange(i as int, h@.len() as int) =~= Seq::<u8>::empty());
        assert(out@ + Seq::<u8>::empty() =~= out@);
    }
    out
}

/// Decimal digit characters of `n`, most significant first.
pub open spec fn dec_digits(n: nat) -> Seq<u8>
    decreases n,
{
    if n < 10 {
        seq![(0x30 + n) as u8]
    } else {
        dec_digits(n / 10) + seq![(0x30 + n % 10) as u8]
    }
}

/// Writes `n` in decimal ASCII.
pub fn u64_to_dec(n: u64) -> (r: Vec<u8>)
    ensures
        r@ == dec_digits(n as nat),
    decreases n,
{
    if n < 10 {
        let mut out: Vec<u8> = Vec::new();
        out.push(0x30 + (n as u8));
        proof {
            assert(out@ =~= dec_digits(n as nat));
        }
        out
    } else {
        let mut out = u64_to_dec(n / 10);
        out.push(0x30 + ((n % 10) as u8));
        proof {
            assert(out@ =~= dec_digits(n as nat));
        }
        out
    }
}

/// Relies on `String::from_utf8`: returns the bytes as a `String` exactly
/// when they are valid UTF-8, and then preserves them.
#[verifier::external_body]
pub(crate) fn bytes_to_string(v: Vec<u8>) -> (r: Option<String>)
    ensures
        r matches Some(s) ==> vstd::utf8::encode_utf8(s@) == v@ && s@ == vstd::utf8::decode_utf8(
            v@,
        ),
        r is Some <==> vstd::utf8::valid_utf8(v@),
{
    match String::from_utf8(v) {
        Ok(s) => Some(s),
        Err(_) => None,
    }
}

/// The bytes of an ASCII string are its characters, one byte each.
pub proof fn lemma_ascii_literal(s: &str)
    requires
        vstd::utf8::is_ascii_chars(s@),
    ensures
        s.spec_bytes().len() == s@.len(),
        forall|i: int| 0 <= i < s@.len() ==> s.spec_bytes()[i] == s@[i] as u8,
{
    broadcast use vstd::string::is_ascii_spec_bytes;

    assert(vstd::string::is_ascii(s));
}

/// Copies a byte range of a slice.
pub fn bytes_of_range(h: &[u8], a: usize, b: usize) -> (r: Vec<u8>)
    requires
        a <= b <= h@.len(),
    ensures
        r@ == h@.subrange(a as int, b as int),
{
    let mut out: Vec<u8> = Vec::new();
    let mut i: usize = a;
    while i < b
        invariant
            a <= i <= b <= h@.len(),
            out@ == h@.subrange(a as int, i as int),
        decreases b - i,
    {
        out.push(h[i]);
        i = i + 1;
        proof {
            assert(h@.subrange(a as int, i as int) =~= h@.subrange(a as int, i - 1).push(
                h@[i - 1],
            ));
        }
    }
    out
}

} // verus!
