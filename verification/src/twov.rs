//! Structuring one fetched timeline entry's raw text.
//!
//! The text arrives as lines; every line after the first keeps its leading
//! newline, which is also what the line classifiers here anchor on. The
//! parser finds the posting timestamp, walks outward for the names, trims
//! engagement-counter noise off the tail, and cuts the content and any
//! quoted entry out of the original text by byte ranges.

use vstd::prelude::*;
use crate::error::MafaError;
use crate::strutil::{contains_bytes, contains_seq, is_match_at};
use vstd::string::StringSliceAdditionalSpecFns;

verus! {

/// Is `b` an ASCII decimal digit?
pub open spec fn digit(b: u8) -> bool {
    0x30 <= b <= 0x39
}

/// The ranges of the text's lines: the first runs to the first newline,
/// every further line starts at a newline and keeps it; what follows the
/// last newline is a final line of its own.
pub open spec fn tw_ranges_from(b: Seq<u8>, prev: int, scan: int) -> Seq<(int, int)>
    decreases b.len() - scan + 1,
{
    if !(0 <= scan <= b.len()) {
        Seq::<(int, int)>::empty()
    } else {
        let rel = crate::cache::first_nl(b.subrange(scan, b.len() as int));
        if rel < 0 {
            if prev < b.len() {
                seq![(prev, b.len() as int)]
            } else {
                Seq::<(int, int)>::empty()
            }
        } else if rel >= b.len() - scan {
            Seq::<(int, int)>::empty()
        } else {
            seq![(prev, scan + rel)] + tw_ranges_from(b, scan + rel, scan + rel + 1)
        }
    }
}

/// All line ranges of the text.
pub open spec fn tw_ranges(b: Seq<u8>) -> Seq<(int, int)> {
    tw_ranges_from(b, 0, 0)
}

/// Every line range lies within the text.
pub proof fn lemma_tw_ranges_bounds(b: Seq<u8>, prev: int, scan: int)
    requires
        0 <= prev <= scan,
    ensures
        forall|i: int|
            0 <= i < tw_ranges_from(b, prev, scan).len() ==> prev <= (#[trigger] tw_ranges_from(
                b,
                prev,
                scan,
            )[i]).0 <= tw_ranges_from(b, prev, scan)[i].1 <= b.len(),
    decreases b.len() - scan + 1,
{
    if 0 <= scan <= b.len() {
        let rel = crate::cache::first_nl(b.subrange(scan, b.len() as int));
        if rel >= 0 && rel < b.len() - scan {
            lemma_tw_ranges_bounds(b, scan + rel, scan + rel + 1);
            let rest = tw_ranges_from(b, scan + rel, scan + rel + 1);
            let whole = tw_ranges_from(b, prev, scan);
            assert forall|i: int| 0 <= i < whole.len() implies prev <= (#[trigger] whole[i]).0
                <= whole[i].1 <= b.len() by {
                if i > 0 {
                    assert(whole[i] == rest[i - 1]);
                }
            }
        }
    }
}

/// The bytes of line `i`.
pub open spec fn line_at(b: Seq<u8>, i: int) -> Seq<u8> {
    b.subrange(tw_ranges(b)[i].0, tw_ranges(b)[i].1)
}

/// Executable line splitter: the byte range of each line.
pub fn tw_split(b: &[u8]) -> (r: Vec<(usize, usize)>)
    ensures
        r@.map_values(|p: (usize, usize)| (p.0 as int, p.1 as int)) == tw_ranges(b@),
        forall|i: int| 0 <= i < r@.len() ==> #[trigger] r@[i].0 <= r@[i].1 <= b@.len(),
{
    let blen = b.len();
    let mut out: Vec<(usize, usize)> = Vec::new();
    let mut prev: usize = 0;
    let mut scan: usize = 0;
    proof {
        assert(out@.map_values(|p: (usize, usize)| (p.0 as int, p.1 as int)) + tw_ranges_from(
            b@,
            prev as int,
            scan as int,
        ) =~= tw_ranges(b@));
    }
    loop
        invariant_except_break
            out@.map_values(|p: (usize, usize)| (p.0 as int, p.1 as int)) + tw_ranges_from(
                b@,
                prev as int,
                scan as int,
            ) == tw_ranges(b@),
        invariant
            0 <= prev <= scan <= blen == b@.len(),
            forall|i: int| 0 <= i < out@.len() ==> #[trigger] out@[i].0 <= out@[i].1 <= b@.len(),
        ensures
            out@.map_values(|p: (usize, usize)| (p.0 as int, p.1 as int)) == tw_ranges(b@),
            forall|i: int| 0 <= i < out@.len() ==> #[trigger] out@[i].0 <= out@[i].1 <= b@.len(),
        decreases blen - scan,
    {
        let ghost rest = b@.subrange(scan as int, b@.len() as int);
        let nl = crate::strutil::find_from(b, "\n".as_bytes(), scan);
        proof {
            reveal_strlit("\n");
            crate::strutil::lemma_ascii_literal("\n");
            assert("\n".spec_bytes() =~= seq![0x0au8]);
            crate::cache::lemma_first_nl(rest);
        }
        match nl {
            None => {
                proof {
                    if crate::cache::first_nl(rest) >= 0 {
                        let k = crate::cache::first_nl(rest);
                        assert(rest[k] == 0x0a);
                        assert(b@[scan + k] == 0x0a);
                        assert(b@.subrange(scan + k, scan + k + 1) =~= "\n".spec_bytes());
                        assert(is_match_at(b@, "\n".spec_bytes(), scan + k));
                    }
                }
                if prev < blen {
                    let ghost out0 = out@.map_values(|p: (usize, usize)| (p.0 as int, p.1 as int));
                    out.push((prev, blen));
                    proof {
                        assert(out@.map_values(|p: (usize, usize)| (p.0 as int, p.1 as int)) =~= out0
                            + seq![(prev as int, b@.len() as int)]);
                        assert(out0 + seq![(prev as int, b@.len() as int)] =~= out0
                            + tw_ranges_from(b@, prev as int, scan as int));
                    }
                } else {
                    proof {
                        assert(out@.map_values(|p: (usize, usize)| (p.0 as int, p.1 as int))
                            + Seq::<(int, int)>::empty() =~= out@.map_values(
                            |p: (usize, usize)| (p.0 as int, p.1 as int),
                        ));
                    }
                }
                break ;
            },
            Some(c) => {
                proof {
                    assert(is_match_at(b@, "\n".spec_bytes(), c as int));
                    assert(b@.subrange(c as int, c + 1)[0] == 0x0a);
                    assert(b@[c as int] == 0x0a);
                    assert(rest[c - scan] == 0x0a);
                    if crate::cache::first_nl(rest) != c - scan {
                        let k = crate::cache::first_nl(rest);
                        if 0 <= k < c - scan {
                            assert(b@[scan + k] == 0x0a);
                            assert(b@.subrange(scan + k, scan + k + 1) =~= "\n".spec_bytes());
                            assert(is_match_at(b@, "\n".spec_bytes(), scan + k));
                        } else {
                            assert(rest[c - scan] != 0x0a);
                        }
                    }
                    assert(crate::cache::first_nl(rest) == c - scan);
                }
                let ghost out0 = out@.map_values(|p: (usize, usize)| (p.0 as int, p.1 as int));
                out.push((prev, c));
                proof {
                    assert(out@.map_values(|p: (usize, usize)| (p.0 as int, p.1 as int)) =~= out0
                        + seq![(prev as int, c as int)]);
                    assert((out0 + seq![(prev as int, c as int)]) + tw_ranges_from(
                        b@,
                        c as int,
                        c + 1,
                    ) =~= out0 + (seq![(prev as int, c as int)] + tw_ranges_from(
                        b@,
                        c as int,
                        c + 1,
                    )));
                }
                prev = c;
                scan = c + 1;
            },
        }
    }
    out
}

/// Is `b` a letter, digit or underscore?
pub open spec fn word_byte(b: u8) -> bool {
    (0x41 <= b <= 0x5a) || (0x61 <= b <= 0x7a) || digit(b) || b == 0x5f
}

/// Second or minute or hour marker.
pub open spec fn smh(b: u8) -> bool {
    b == 0x73 || b == 0x6d || b == 0x68
}

/// The entry-id line: a newline then exactly nineteen digits.
pub open spec fn is_twid_line(l: Seq<u8>) -> bool {
    l.len() == 20 && l[0] == 0x0a && forall|i: int| 1 <= i < 20 ==> digit(#[trigger] l[i])
}

/// A three-letter month name.
pub open spec fn is_month(m: Seq<u8>) -> bool {
    m == "Jan".spec_bytes() || m == "Feb".spec_bytes() || m == "Mar".spec_bytes() || m
        == "Apr".spec_bytes() || m == "May".spec_bytes() || m == "Jun".spec_bytes() || m
        == "Jul".spec_bytes() || m == "Aug".spec_bytes() || m == "Sep".spec_bytes() || m
        == "Oct".spec_bytes() || m == "Nov".spec_bytes() || m == "Dec".spec_bytes()
}

/// Zero or more `, yyyy` year groups running to the end of the line.
pub open spec fn year_groups_to_end(l: Seq<u8>, p: int) -> bool
    decreases l.len() - p + 1,
{
    if p == l.len() {
        true
    } else if p + 6 <= l.len() && l[p] == 0x2c && l[p + 1] == 0x20 && digit(l[p + 2]) && digit(
        l[p + 3],
    ) && digit(l[p + 4]) && digit(l[p + 5]) {
        year_groups_to_end(l, p + 6)
    } else {
        false
    }
}

/// The posting-timestamp line: a newline, then a relative age (`12m`) or a
/// month, day and optional year groups.
pub open spec fn is_tstamp_line(l: Seq<u8>) -> bool {
    l.len() >= 3 && l[0] == 0x0a && ({
        ||| (l.len() == 3 && digit(l[1]) && smh(l[2]))
        ||| (l.len() == 4 && digit(l[1]) && digit(l[2]) && smh(l[3]))
        ||| (l.len() >= 6 && is_month(l.subrange(1, 4)) && l[4] == 0x20 && digit(l[5]) && ((l.len()
            > 6 && digit(l[6]) && year_groups_to_end(l, 7)) || year_groups_to_end(l, 6)))
    })
}

/// The username line: a newline, an at sign, then word characters.
pub open spec fn is_usrname_line(l: Seq<u8>) -> bool {
    l.len() >= 3 && l[0] == 0x0a && l[1] == 0x40 && forall|i: int|
        2 <= i < l.len() ==> word_byte(#[trigger] l[i])
}

/// The retweeter line: a newline, anything, then ` Retweeted`.
pub open spec fn is_rt_line(l: Seq<u8>) -> bool {
    l.len() >= 11 && l[0] == 0x0a && l.subrange(l.len() - 10, l.len() as int)
        == " Retweeted".spec_bytes() && forall|i: int|
        1 <= i < l.len() - 10 ==> #[trigger] l[i] != 0x0a
}

/// An engagement-counter line: a newline then a short count — plain
/// digits, a comma-grouped thousand, or an abbreviated `K`/`M`/`B` count.
pub open spec fn is_noise_line(l: Seq<u8>) -> bool {
    l.len() >= 2 && l[0] == 0x0a && ({
        ||| (l.len() <= 4 && forall|i: int| 1 <= i < l.len() ==> digit(#[trigger] l[i]))
        ||| (l.len() == 6 && 0x31 <= l[1] <= 0x39 && l[2] == 0x2c && digit(l[3]) && digit(l[4])
            && digit(l[5]))
        ||| ((l[l.len() - 1] == 0x4b || l[l.len() - 1] == 0x4d || l[l.len() - 1] == 0x42) && ({
            let h = l.len() - 2;
            ||| (h == 1 && 0x31 <= l[1] <= 0x39)
            ||| (h == 2 && digit(l[1]) && digit(l[2]))
            ||| (h == 3 && digit(l[1]) && digit(l[2]) && digit(l[3]))
            ||| (h == 3 && 0x31 <= l[1] <= 0x39 && l[2] != 0x0a && digit(l[3]))
            ||| (h == 4 && digit(l[1]) && digit(l[2]) && l[3] != 0x0a && digit(l[4]))
            ||| (h == 5 && digit(l[1]) && digit(l[2]) && digit(l[3]) && l[4] != 0x0a && digit(
                l[5],
            ))
        }))
    })
}

/// An image-attachment marker line.
pub open spec fn is_alt_line(l: Seq<u8>) -> bool {
    l == "\nALT".spec_bytes() || l == "\nGIF".spec_bytes()
}

/// The quoted-entry header line.
pub open spec fn is_quote_header(l: Seq<u8>) -> bool {
    l == "\nQuote Tweet".spec_bytes()
}

// -- executable classifiers --

fn digit_at(l: &[u8], i: usize) -> (r: bool)
    requires
        i < l@.len(),
    ensures
        r == digit(l@[i as int]),
{
    0x30 <= l[i] && l[i] <= 0x39
}

fn check_twid_line(l: &[u8]) -> (r: bool)
    ensures
        r == is_twid_line(l@),
{
    if l.len() != 20 || l[0] != 0x0a {
        return false;
    }
    let mut i: usize = 1;
    while i < 20
        invariant
            1 <= i <= 20,
            l@.len() == 20,
            forall|k: int| 1 <= k < i ==> digit(#[trigger] l@[k]),
        decreases 20 - i,
    {
        if !digit_at(l, i) {
            return false;
        }
        i = i + 1;
    }
    true
}

fn check_year_groups(l: &[u8], p: usize) -> (r: bool)
    requires
        p <= l@.len(),
    ensures
        r == year_groups_to_end(l@, p as int),
    decreases l@.len() - p,
{
    if p == l.len() {
        true
    } else if l.len() - p >= 6 && l[p] == 0x2c && l[p + 1] == 0x20 && digit_at(l, p + 2)
        && digit_at(l, p + 3) && digit_at(l, p + 4) && digit_at(l, p + 5) {
        check_year_groups(l, p + 6)
    } else {
        false
    }
}

fn check_tstamp_line(l: &[u8]) -> (r: bool)
    ensures
        r == is_tstamp_line(l@),
{
    if l.len() < 3 || l[0] != 0x0a {
        return false;
    }
    let n = l.len();
    if n == 3 && digit_at(l, 1) && (l[2] == 0x73 || l[2] == 0x6d || l[2] == 0x68) {
        return true;
    }
    if n == 4 && digit_at(l, 1) && digit_at(l, 2) && (l[3] == 0x73 || l[3] == 0x6d || l[3]
        == 0x68) {
        return true;
    }
    if n >= 6 {
        proof {
            reveal_strlit("Jan");
            reveal_strlit("Feb");
            reveal_strlit("Mar");
            reveal_strlit("Apr");
            reveal_strlit("May");
            reveal_strlit("Jun");
            reveal_strlit("Jul");
            reveal_strlit("Aug");
            reveal_strlit("Sep");
            reveal_strlit("Oct");
            reveal_strlit("Nov");
            reveal_strlit("Dec");
            crate::strutil::lemma_ascii_literal("Jan");
            crate::strutil::lemma_ascii_literal("Feb");
            crate::strutil::lemma_ascii_literal("Mar");
            crate::strutil::lemma_ascii_literal("Apr");
            crate::strutil::lemma_ascii_literal("May");
            crate::strutil::lemma_ascii_literal("Jun");
            crate::strutil::lemma_ascii_literal("Jul");
            crate::strutil::lemma_ascii_literal("Aug");
            crate::strutil::lemma_ascii_literal("Sep");
            crate::strutil::lemma_ascii_literal("Oct");
            crate::strutil::lemma_ascii_literal("Nov");
            crate::strutil::lemma_ascii_literal("Dec");
        }
        let m = crate::strutil::match_at(l, "Jan".as_bytes(), 1) || crate::strutil::match_at(
            l,
            "Feb".as_bytes(),
            1,
        ) || crate::strutil::match_at(l, "Mar".as_bytes(), 1) || crate::strutil::match_at(
            l,
            "Apr".as_bytes(),
            1,
        ) || crate::strutil::match_at(l, "May".as_bytes(), 1) || crate::strutil::match_at(
            l,
            "Jun".as_bytes(),
            1,
        ) || crate::strutil::match_at(l, "Jul".as_bytes(), 1) || crate::strutil::match_at(
            l,
            "Aug".as_bytes(),
            1,
        ) || crate::strutil::match_at(l, "Sep".as_bytes(), 1) || crate::strutil::match_at(
            l,
            "Oct".as_bytes(),
            1,
        ) || crate::strutil::match_at(l, "Nov".as_bytes(), 1) || crate::strutil::match_at(
            l,
            "Dec".as_bytes(),
            1,
        );
        proof {
            assert(m == is_month(l@.subrange(1, 4)));
        }
        if m && l[4] == 0x20 && digit_at(l, 5) {
            if l.len() > 6 && digit_at(l, 6) && check_year_groups(l, 7) {
                return true;
            }
            return check_year_groups(l, 6);
        }
    }
    false
}

fn check_usrname_line(l: &[u8]) -> (r: bool)
    ensures
        r == is_usrname_line(l@),
{
    if l.len() < 3 || l[0] != 0x0a || l[1] != 0x40 {
        return false;
    }
    let n = l.len();
    let mut i: usize = 2;
    while i < n
        invariant
            2 <= i <= n == l@.len(),
            forall|k: int| 2 <= k < i ==> word_byte(#[trigger] l@[k]),
        decreases n - i,
    {
        let c = l[i];
        if !((0x41 <= c && c <= 0x5a) || (0x61 <= c && c <= 0x7a) || (0x30 <= c && c <= 0x39) || c
            == 0x5f) {
            return false;
        }
        i = i + 1;
    }
    true
}

fn check_rt_line(l: &[u8]) -> (r: bool)
    ensures
        r == is_rt_line(l@),
{
    if l.len() < 11 || l[0] != 0x0a {
        return false;
    }
    proof {
        reveal_strlit(" Retweeted");
        crate::strutil::lemma_ascii_literal(" Retweeted");
    }
    if !crate::strutil::match_at(l, " Retweeted".as_bytes(), l.len() - 10) {
        return false;
    }
    let stop = l.len() - 10;
    let mut i: usize = 1;
    while i < stop
        invariant
            1 <= i <= stop,
            stop == l@.len() - 10,
            forall|k: int| 1 <= k < i ==> #[trigger] l@[k] != 0x0a,
        decreases stop - i,
    {
        if l[i] == 0x0a {
            return false;
        }
        i = i + 1;
    }
    true
}

fn check_noise_line(l: &[u8]) -> (r: bool)
    ensures
        r == is_noise_line(l@),
{
    let n = l.len();
    if n < 2 || l[0] != 0x0a {
        return false;
    }
    if n <= 4 {
        let mut all_d: bool = true;
        let mut i: usize = 1;
        while i < n
            invariant
                1 <= i <= n == l@.len(),
                all_d == (forall|k: int| 1 <= k < i ==> digit(#[trigger] l@[k])),
            decreases n - i,
        {
            if !digit_at(l, i) {
                all_d = false;
            }
            i = i + 1;
        }
        if all_d {
            return true;
        }
    }
    if n == 6 && 0x31 <= l[1] && l[1] <= 0x39 && l[2] == 0x2c && digit_at(l, 3) && digit_at(l, 4)
        && digit_at(l, 5) {
        return true;
    }
    let lastb = l[n - 1];
    if lastb == 0x4b || lastb == 0x4d || lastb == 0x42 {
        let h = n - 2;
        if h == 1 && 0x31 <= l[1] && l[1] <= 0x39 {
            return true;
        }
        if h == 2 && digit_at(l, 1) && digit_at(l, 2) {
            return true;
        }
        if h == 3 && digit_at(l, 1) && digit_at(l, 2) && digit_at(l, 3) {
            return true;
        }
        if h == 3 && 0x31 <= l[1] && l[1] <= 0x39 && l[2] != 0x0a && digit_at(l, 3) {
            return true;
        }
        if h == 4 && digit_at(l, 1) && digit_at(l, 2) && l[3] != 0x0a && digit_at(l, 4) {
            return true;
        }
        if h == 5 && digit_at(l, 1) && digit_at(l, 2) && digit_at(l, 3) && l[4] != 0x0a && digit_at(
            l,
            5,
        ) {
            return true;
        }
    }
    false
}

// -- index searches --

/// First line at or after `i` that is a timestamp line, else 0.
pub open spec fn first_ts(ls: Seq<Seq<u8>>, i: int) -> int
    decreases ls.len() - i + 1,
{
    if !(0 <= i < ls.len()) {
        0
    } else if is_tstamp_line(ls[i]) {
        i
    } else {
        first_ts(ls, i + 1)
    }
}

/// Last username line strictly below `i`, else 0.
pub open spec fn usr_down(ls: Seq<Seq<u8>>, i: int) -> int
    decreases i,
{
    if i <= 0 || i > ls.len() {
        0
    } else if is_usrname_line(ls[i - 1]) {
        i - 1
    } else {
        usr_down(ls, i - 1)
    }
}

/// Last retweeter line strictly below `i`, else 0.
pub open spec fn rt_down(ls: Seq<Seq<u8>>, i: int) -> int
    decreases i,
{
    if i <= 0 || i > ls.len() {
        0
    } else if is_rt_line(ls[i - 1]) {
        i - 1
    } else {
        rt_down(ls, i - 1)
    }
}

/// Walks the tail upward past counter and attachment-marker lines.
pub open spec fn noise_trim(ls: Seq<Seq<u8>>, i: int) -> int
    decreases i,
{
    if i > 0 && i < ls.len() && (is_noise_line(ls[i]) || is_alt_line(ls[i])) {
        noise_trim(ls, i - 1)
    } else {
        i
    }
}

/// The quoted-entry scan: walking the content lines, each header that
/// leaves room claims the following name, handle and timestamp lines and
/// marks where the quoted text starts; the scan keeps the last claim.
/// The five numbers are the last own-content line, the quoted name,
/// handle and timestamp lines, and the first quoted-text line.
pub open spec fn qscan(ls: Seq<Seq<u8>>, i: int, lc: int, st: (int, int, int, int, int)) -> (
    int,
    int,
    int,
    int,
    int,
)
    decreases lc - i + 1,
{
    if !(0 <= i <= lc) {
        st
    } else {
        let hit = is_quote_header(ls[i]) && st.0 + 5 <= lc && i + 4 < ls.len() && contains_seq(
            ls[i + 2],
            "@".spec_bytes(),
        ) && is_tstamp_line(ls[i + 4]);
        if hit {
            qscan(ls, i + 1, lc, (i - 1, i + 1, i + 2, i + 4, i + 5))
        } else {
            qscan(ls, i + 1, lc, st)
        }
    }
}

fn first_ts_exec(lines: &Vec<Vec<u8>>, i: usize) -> (r: usize)
    requires
        i <= lines@.len(),
    ensures
        r == first_ts(lines@.map_values(|l: Vec<u8>| l@), i as int),
        r < lines@.len() || r == 0,
    decreases lines@.len() - i,
{
    if i == lines.len() {
        0
    } else if check_tstamp_line(lines[i].as_slice()) {
        i
    } else {
        first_ts_exec(lines, i + 1)
    }
}

fn usr_down_exec(lines: &Vec<Vec<u8>>, i: usize) -> (r: usize)
    requires
        i <= lines@.len(),
    ensures
        r == usr_down(lines@.map_values(|l: Vec<u8>| l@), i as int),
        r < i || r == 0,
    decreases i,
{
    if i == 0 {
        0
    } else if check_usrname_line(lines[i - 1].as_slice()) {
        i - 1
    } else {
        usr_down_exec(lines, i - 1)
    }
}

fn rt_down_exec(lines: &Vec<Vec<u8>>, i: usize) -> (r: usize)
    requires
        i <= lines@.len(),
    ensures
        r == rt_down(lines@.map_values(|l: Vec<u8>| l@), i as int),
        r < i || r == 0,
    decreases i,
{
    if i == 0 {
        0
    } else if check_rt_line(lines[i - 1].as_slice()) {
        i - 1
    } else {
        rt_down_exec(lines, i - 1)
    }
}

fn noise_trim_exec(lines: &Vec<Vec<u8>>, i: usize) -> (r: usize)
    requires
        i < lines@.len(),
    ensures
        r == noise_trim(lines@.map_values(|l: Vec<u8>| l@), i as int),
        r <= i,
    decreases i,
{
    if i > 0 && (check_noise_line(lines[i].as_slice()) || {
        let l = lines[i].as_slice();
        crate::strutil::bytes_eq(l, "\nALT".as_bytes()) || crate::strutil::bytes_eq(
            l,
            "\nGIF".as_bytes(),
        )
    }) {
        noise_trim_exec(lines, i - 1)
    } else {
        i
    }
}

fn qscan_exec(lines: &Vec<Vec<u8>>, i: usize, lc: usize, st: (usize, usize, usize, usize, usize))
    -> (r: (usize, usize, usize, usize, usize))
    requires
        1 <= i,
        lc < lines@.len(),
        st.0 <= lines@.len(),
    ensures
        ({
            let sp = qscan(
                lines@.map_values(|l: Vec<u8>| l@),
                i as int,
                lc as int,
                (st.0 as int, st.1 as int, st.2 as int, st.3 as int, st.4 as int),
            );
            sp == (r.0 as int, r.1 as int, r.2 as int, r.3 as int, r.4 as int)
        }),
        r.0 <= lines@.len(),
    decreases lc - i + 1,
{
    let n = lines.len();
    if i > lc {
        st
    } else {
        let hit = {
            let l = lines[i].as_slice();
            crate::strutil::bytes_eq(l, "\nQuote Tweet".as_bytes()) && st.0 <= lc && lc - st.0
                >= 5 && lines.len() - i > 4 && crate::strutil::contains_bytes(
                lines[i + 2].as_slice(),
                "@".as_bytes(),
            ) && check_tstamp_line(lines[i + 4].as_slice())
        };
        if hit {
            qscan_exec(lines, i + 1, lc, (i - 1, i + 1, i + 2, i + 4, i + 5))
        } else {
            qscan_exec(lines, i + 1, lc, st)
        }
    }
}

// -- the whole parse --

/// The text's lines.
pub open spec fn ls_of(b: Seq<u8>) -> Seq<Seq<u8>> {
    tw_ranges(b).map_values(|p: (int, int)| b.subrange(p.0, p.1))
}

/// Why a text is rejected, coded, or accepted (`None`). Recordings of
/// audio spaces are refused outright; then the version header, the id
/// line, a timestamp line, a username line above it and some content
/// below it are each demanded in turn.
pub open spec fn tweet_err(b: Seq<u8>) -> Option<u8> {
    let ls = ls_of(b);
    if contains_seq(b, "Host".spec_bytes()) && contains_seq(b, "Play recording".spec_bytes()) {
        Option::Some(7u8)
    } else if ls.len() == 0 || ls[0] != "twtl_v1".spec_bytes() {
        Option::Some(1u8)
    } else if ls.len() < 2 {
        Option::Some(2u8)
    } else if !is_twid_line(ls[1]) {
        Option::Some(6u8)
    } else if first_ts(ls, 0) == 0 || first_ts(ls, 0) == ls.len() - 1 {
        Option::Some(3u8)
    } else if usr_down(ls, first_ts(ls, 0)) <= 1 {
        Option::Some(4u8)
    } else if noise_trim(ls, ls.len() - 1) <= first_ts(ls, 0) {
        Option::Some(5u8)
    } else {
        Option::None
    }
}

/// A line without its leading newline.
pub open spec fn tail1(l: Seq<u8>) -> Seq<u8> {
    if l.len() > 0 && l[0] == 0x0a {
        l.subrange(1, l.len() as int)
    } else {
        l
    }
}

/// The retweeter's name, cut out of the retweeter line.
pub open spec fn rt_opt(ls: Seq<Seq<u8>>, lt: int) -> Option<Seq<u8>> {
    let lr = rt_down(ls, lt);
    if lr == 0 {
        Option::None
    } else if ls[lr].len() > 11 {
        Option::Some(ls[lr].subrange(1, ls[lr].len() - 10))
    } else {
        Option::None
    }
}

/// Whether the two lines after the timestamp mark a reply.
pub open spec fn rpl_cond(ls: Seq<Seq<u8>>, lt: int) -> bool {
    lt + 2 < ls.len() && ls[lt + 1] == "\nReplying to ".spec_bytes() && ls[lt + 2].len() > 0 && ls[
        lt + 2
    ][0] == 0x0a
}

/// The handle replied to, when the reply marker is present.
pub open spec fn rpl_opt(ls: Seq<Seq<u8>>, lt: int) -> Option<Seq<u8>> {
    if !rpl_cond(ls, lt) {
        Option::None
    } else if ls[lt + 2].len() > 1 {
        Option::Some(ls[lt + 2].subrange(1, ls[lt + 2].len() as int))
    } else {
        Option::None
    }
}

/// Where the entry's own content ends: at the last own line the quote scan
/// left, or at the trimmed tail when no quote was found.
pub open spec fn selftw_last(b: Seq<u8>, lt: int, lc: int) -> int {
    let q = qscan(ls_of(b), lt + 1, lc, (0, 0, 0, 0, 0));
    if q.0 == 0 {
        lc
    } else {
        q.0
    }
}

/// The entry's own content: from the end of the line before it (the
/// timestamp line, or the replied-to line) to the end of its last line,
/// the leading newline dropped.
pub open spec fn ctn_bytes(b: Seq<u8>, lt: int, lc: int) -> Seq<u8> {
    let ls = ls_of(b);
    let k = if rpl_opt(ls, lt) is Some {
        lt + 2
    } else {
        lt
    };
    let begi0 = tw_ranges(b)[k].1;
    let endi = tw_ranges(b)[selftw_last(b, lt, lc)].1;
    let begi1 = if begi0 < b.len() && b[begi0] == 0x0a {
        begi0 + 1
    } else {
        begi0
    };
    let begi = if begi1 > endi {
        endi
    } else {
        begi1
    };
    b.subrange(begi, endi)
}

/// The quoted entry's four parts, when the scan found one.
pub open spec fn quote_opt(b: Seq<u8>, lt: int, lc: int) -> Option<
    (Seq<u8>, Seq<u8>, Seq<u8>, Seq<u8>),
> {
    let ls = ls_of(b);
    let q = qscan(ls, lt + 1, lc, (0, 0, 0, 0, 0));
    if q.1 != 0 && q.2 != 0 && q.3 != 0 && q.4 != 0 && q.4 < ls.len() && tw_ranges(b)[q.4].0 + 1
        <= tw_ranges(b)[lc].1 {
        Option::Some(
            (
                tail1(ls[q.1]),
                tail1(ls[q.2]),
                tail1(ls[q.3]),
                b.subrange(tw_ranges(b)[q.4].0 + 1, tw_ranges(b)[lc].1),
            ),
        )
    } else {
        Option::None
    }
}

/// A quoted entry inside another one: who wrote it, their handle, when,
/// and its text.
#[derive(Debug, Default, PartialEq)]
pub struct QuoteTweet {
    pub dispname: String,
    pub username: String,
    pub tstamp: String,
    pub ctn: String,
}

/// One structured timeline entry.
#[derive(Debug, Default, PartialEq)]
pub struct TweetOverview {
    pub twid: String,
    pub dispname: String,
    pub username: String,
    pub post_tstamp: String,
    pub ctn: String,
    pub reply_to: Option<String>,
    pub retweeter: Option<String>,
    pub quote: Option<QuoteTweet>,
}

impl TweetOverview {
    /// Structures one timeline entry's raw text: rejects what the grammar
    /// refuses, with the matching code, and otherwise cuts every part out
    /// of the text exactly where the line analysis puts it.
    #[verifier::rlimit(100)]
    #[verifier::spinoff_prover]
    pub fn from_str(orig: &str) -> (r: Result<TweetOverview, MafaError>)
        ensures
            tweet_err(orig.spec_bytes()) matches Some(k) ==> r == Result::<
                TweetOverview,
                MafaError,
            >::Err(MafaError::TweetNotRecoginized(k)),
            r is Err ==> r matches Err(MafaError::TweetNotRecoginized(_)),
            r matches Ok(t) ==> tweet_err(orig.spec_bytes()) is None && ({
                let b = orig.spec_bytes();
                let ls = ls_of(b);
                let lt = first_ts(ls, 0);
                let lu = usr_down(ls, lt);
                let lc = noise_trim(ls, ls.len() - 1);
                &&& vstd::utf8::encode_utf8(t.twid@) == tail1(ls[1])
                &&& vstd::utf8::encode_utf8(t.username@) == tail1(ls[lu])
                &&& vstd::utf8::encode_utf8(t.dispname@) == tail1(ls[lu - 1])
                &&& vstd::utf8::encode_utf8(t.post_tstamp@) == tail1(ls[lt])
                &&& vstd::utf8::encode_utf8(t.ctn@) == ctn_bytes(b, lt, lc)
                &&& (match t.retweeter {
                    Option::Some(s) => rt_opt(ls, lt) == Option::Some(
                        vstd::utf8::encode_utf8(s@),
                    ),
                    Option::None => rt_opt(ls, lt) is None,
                })
                &&& (match t.reply_to {
                    Option::Some(s) => rpl_opt(ls, lt) == Option::Some(
                        vstd::utf8::encode_utf8(s@),
                    ),
                    Option::None => rpl_opt(ls, lt) is None,
                })
                &&& (match t.quote {
                    Option::Some(qt) => quote_opt(b, lt, lc) == Option::Some(
                        (
                            vstd::utf8::encode_utf8(qt.dispname@),
                            vstd::utf8::encode_utf8(qt.username@),
                            vstd::utf8::encode_utf8(qt.tstamp@),
                            vstd::utf8::encode_utf8(qt.ctn@),
                        ),
                    ),
                    Option::None => quote_opt(b, lt, lc) is None,
                })
            }),
    {
        let b = orig.as_bytes();
        let ghost bs = orig.spec_bytes();
        if contains_bytes(b, "Host".as_bytes()) && contains_bytes(b, "Play recording".as_bytes()) {
            return Err(MafaError::TweetNotRecoginized(7));
        }
        let ranges = tw_split(b);
        let n = ranges.len();
        let mut lines: Vec<Vec<u8>> = Vec::new();
        let mut i: usize = 0;
        proof {
            assert(lines@.map_values(|l: Vec<u8>| l@) =~= ls_of(bs).subrange(0, 0));
        }
        while i < n
            invariant
                0 <= i <= n == ranges@.len(),
                ranges@.map_values(|p: (usize, usize)| (p.0 as int, p.1 as int)) == tw_ranges(bs),
                forall|k: int|
                    0 <= k < ranges@.len() ==> #[trigger] ranges@[k].0 <= ranges@[k].1
                        <= bs.len(),
                bs == b@,
                lines@.map_values(|l: Vec<u8>| l@) == ls_of(bs).subrange(0, i as int),
            decreases n - i,
        {
            let p = ranges[i];
            let line = crate::strutil::bytes_of_range(b, p.0, p.1);
            let ghost lv0 = lines@.map_values(|l: Vec<u8>| l@);
            lines.push(line);
            proof {
                assert(ls_of(bs)[i as int] == bs.subrange(tw_ranges(bs)[i as int].0, tw_ranges(bs)[i as int].1));
                assert(tw_ranges(bs)[i as int] == (ranges@[i as int].0 as int, ranges@[i as int].1 as int));
                assert(line@ =~= ls_of(bs)[i as int]);
                assert(lines@.map_values(|l: Vec<u8>| l@) =~= lv0.push(line@));
                assert(lv0.push(line@) =~= ls_of(bs).subrange(0, i + 1));
            }
            i = i + 1;
        }
        proof {
            assert(ls_of(bs).subrange(0, n as int) =~= ls_of(bs));
        }
        let ghost ls = ls_of(bs);
        if n == 0 || !crate::strutil::bytes_eq(lines[0].as_slice(), "twtl_v1".as_bytes()) {
            return Err(MafaError::TweetNotRecoginized(1));
        }
        if n < 2 {
            return Err(MafaError::TweetNotRecoginized(2));
        }
        if !check_twid_line(lines[1].as_slice()) {
            return Err(MafaError::TweetNotRecoginized(6));
        }
        let lt = first_ts_exec(&lines, 0);
        if lt == 0 || lt == n - 1 {
            return Err(MafaError::TweetNotRecoginized(3));
        }
        let lu = usr_down_exec(&lines, lt);
        if lu <= 1 {
            return Err(MafaError::TweetNotRecoginized(4));
        }
        let lc = noise_trim_exec(&lines, n - 1);
        if lc <= lt {
            return Err(MafaError::TweetNotRecoginized(5));
        }
        let lr = rt_down_exec(&lines, lt);
        let q = qscan_exec(&lines, lt + 1, lc, (0, 0, 0, 0, 0));
        let lse = if q.0 == 0 {
            lc
        } else {
            q.0
        };
        proof {
            lemma_qscan_bounds(ls, lt + 1, lc as int, (0, 0, 0, 0, 0));
            assert(lse as int == selftw_last(bs, lt as int, lc as int));
            assert(q.0 <= lc);
        }
        // the id, names and timestamp
        let twid = match tail1_string(lines[1].as_slice()) {
            Some(v) => v,
            None => {
                return Err(MafaError::TweetNotRecoginized(0));
            },
        };
        let username = match tail1_string(lines[lu].as_slice()) {
            Some(v) => v,
            None => {
                return Err(MafaError::TweetNotRecoginized(0));
            },
        };
        let dispname = match tail1_string(lines[lu - 1].as_slice()) {
            Some(v) => v,
            None => {
                return Err(MafaError::TweetNotRecoginized(0));
            },
        };
        let post_tstamp = match tail1_string(lines[lt].as_slice()) {
            Some(v) => v,
            None => {
                return Err(MafaError::TweetNotRecoginized(0));
            },
        };
        // the retweeter
        let retweeter: Option<String> = if lr == 0 {
            None
        } else {
            let l = &lines[lr];
            if l.len() > 11 {
                let cut = crate::strutil::bytes_of_range(l.as_slice(), 1, l.len() - 10);
                match crate::strutil::bytes_to_string(cut) {
                    Some(v) => Some(v),
                    None => {
                        return Err(MafaError::TweetNotRecoginized(0));
                    },
                }
            } else {
                None
            }
        };
        // the replied-to handle
        let mut is_reply: bool = false;
        if lt + 2 < n {
            let l1 = &lines[lt + 1];
            let l2 = &lines[lt + 2];
            if crate::strutil::bytes_eq(l1.as_slice(), "\nReplying to ".as_bytes()) && l2.len() > 0
                && l2[0] == 0x0a {
                is_reply = true;
            }
        }
        proof {
            assert(is_reply == rpl_cond(ls, lt as int));
        }
        let reply_to: Option<String> = if !is_reply {
            None
        } else {
            let l2 = &lines[lt + 2];
            if l2.len() > 1 {
                match tail1_string(l2.as_slice()) {
                    Some(v) => Some(v),
                    None => {
                        return Err(MafaError::TweetNotRecoginized(0));
                    },
                }
            } else {
                None
            }
        };
        // the content
        let k = if reply_to.is_some() {
            lt + 2
        } else {
            lt
        };
        proof {
            assert(k < n);
            assert(lse < n);
            lemma_tw_ranges_bounds(bs, 0, 0);
            let ghost ki: int = k as int;
            let ghost li: int = lse as int;
            assert(tw_ranges(bs)[ki] == (ranges@[ki].0 as int, ranges@[ki].1 as int));
            assert(tw_ranges(bs)[li] == (ranges@[li].0 as int, ranges@[li].1 as int));
            assert(ranges@[ki].0 <= ranges@[ki].1 <= bs.len());
            assert(ranges@[li].0 <= ranges@[li].1 <= bs.len());
        }
        let begi0 = ranges[k].1;
        let endi = ranges[lse].1;
        let begi1 = if begi0 < b.len() && b[begi0] == 0x0a {
            begi0 + 1
        } else {
            begi0
        };
        let begi = if begi1 > endi {
            endi
        } else {
            begi1
        };
        let ctn_v = crate::strutil::bytes_of_range(b, begi, endi);
        let ctn = match crate::strutil::bytes_to_string(ctn_v) {
            Some(v) => v,
            None => {
                return Err(MafaError::TweetNotRecoginized(0));
            },
        };
        // the quoted entry
        let quote: Option<QuoteTweet> = if q.1 != 0 && q.2 != 0 && q.3 != 0 && q.4 != 0 && q.4
            < n && {
            proof {
                lemma_tw_ranges_bounds(bs, 0, 0);
                assert(tw_ranges(bs)[q.4 as int] == (ranges@[q.4 as int].0 as int, ranges@[q.4 as int].1 as int));
                assert(tw_ranges(bs)[lc as int] == (ranges@[lc as int].0 as int, ranges@[lc as int].1 as int));
                assert(ranges@[q.4 as int].0 <= ranges@[q.4 as int].1 <= bs.len());
                assert(ranges@[lc as int].0 <= ranges@[lc as int].1 <= bs.len());
            }
            ranges[q.4].0 < ranges[lc].1
        } {
            let qd = match tail1_string(lines[q.1].as_slice()) {
                Some(v) => v,
                None => {
                    return Err(MafaError::TweetNotRecoginized(0));
                },
            };
            let qu = match tail1_string(lines[q.2].as_slice()) {
                Some(v) => v,
                None => {
                    return Err(MafaError::TweetNotRecoginized(0));
                },
            };
            let qt = match tail1_string(lines[q.3].as_slice()) {
                Some(v) => v,
                None => {
                    return Err(MafaError::TweetNotRecoginized(0));
                },
            };
            let qctn_v = crate::strutil::bytes_of_range(b, ranges[q.4].0 + 1, ranges[lc].1);
            let qctn = match crate::strutil::bytes_to_string(qctn_v) {
                Some(v) => v,
                None => {
                    return Err(MafaError::TweetNotRecoginized(0));
                },
            };
            Some(QuoteTweet { dispname: qd, username: qu, tstamp: qt, ctn: qctn })
        } else {
            None
        };
        Ok(
            TweetOverview {
                twid,
                dispname,
                username,
                post_tstamp,
                ctn,
                reply_to,
                retweeter,
                quote,
            },
        )
    }
}

/// The quote scan never claims an own-content end past the tail it was
/// given, and every line it claims lies within the text.
proof fn lemma_qscan_bounds(ls: Seq<Seq<u8>>, i: int, lc: int, st: (int, int, int, int, int))
    requires
        st.0 <= lc,
        st.1 < ls.len() || st.1 == 0,
        st.2 < ls.len() || st.2 == 0,
        st.3 < ls.len() || st.3 == 0,
        st.4 <= ls.len(),
        0 <= st.4,
    ensures
        ({
            let q = qscan(ls, i, lc, st);
            &&& q.0 <= lc
            &&& (q.1 < ls.len() || q.1 == 0)
            &&& (q.2 < ls.len() || q.2 == 0)
            &&& (q.3 < ls.len() || q.3 == 0)
            &&& 0 <= q.4 <= ls.len()
        }),
    decreases lc - i + 1,
{
    if 0 <= i <= lc {
        let hit = is_quote_header(ls[i]) && st.0 + 5 <= lc && i + 4 < ls.len() && contains_seq(
            ls[i + 2],
            "@".spec_bytes(),
        ) && is_tstamp_line(ls[i + 4]);
        if hit {
            lemma_qscan_bounds(ls, i + 1, lc, (i - 1, i + 1, i + 2, i + 4, i + 5));
        } else {
            lemma_qscan_bounds(ls, i + 1, lc, st);
        }
    }
}

/// A line's text without its leading newline, as a string.
fn tail1_string(l: &[u8]) -> (r: Option<String>)
    ensures
        r matches Some(s) ==> vstd::utf8::encode_utf8(s@) == tail1(l@),
        r is None ==> !vstd::utf8::valid_utf8(tail1(l@)),
{
    let cut = if l.len() > 0 && l[0] == 0x0a {
        crate::strutil::bytes_of_range(l, 1, l.len())
    } else {
        crate::strutil::bytes_of_range(l, 0, l.len())
    };
    proof {
        assert(cut@ =~= tail1(l@));
    }
    crate::strutil::bytes_to_string(cut)
}

/// Entry text with mention blocks folded: a newline is dropped when it
/// opens a handle line, and so is the newline closing that line.
pub open spec fn refine_spec(b: Seq<u8>, i: int, in_at: bool) -> Seq<u8>
    decreases b.len() - i + 1,
{
    if !(0 <= i < b.len()) {
        Seq::<u8>::empty()
    } else if b[i] == 0x0a {
        if in_at {
            refine_spec(b, i + 1, false)
        } else if i + 1 < b.len() && b[i + 1] == 0x40 {
            refine_spec(b, i + 1, true)
        } else {
            seq![0x0au8] + refine_spec(b, i + 1, in_at)
        }
    } else {
        seq![b[i]] + refine_spec(b, i + 1, in_at)
    }
}

/// Folds the newlines around in-text handle lines away.
pub fn refine_twtxt(obytes: &[u8]) -> (r: String)
    ensures
        vstd::utf8::valid_utf8(refine_spec(obytes@, 0, false)) ==> vstd::utf8::encode_utf8(r@)
            == refine_spec(obytes@, 0, false),
        !vstd::utf8::valid_utf8(refine_spec(obytes@, 0, false)) ==> r@.len() == 0,
{
    let blen = obytes.len();
    let mut nbytes: Vec<u8> = Vec::new();
    let mut is_in_at: bool = false;
    let mut i: usize = 0;
    proof {
        assert(Seq::<u8>::empty() + refine_spec(obytes@, 0, false) =~= refine_spec(
            obytes@,
            0,
            false,
        ));
    }
    while i < blen
        invariant
            0 <= i <= blen == obytes@.len(),
            nbytes@ + refine_spec(obytes@, i as int, is_in_at) == refine_spec(obytes@, 0, false),
        decreases blen - i,
    {
        let ghost n0 = nbytes@;
        let ghost at0 = is_in_at;
        let curr = obytes[i];
        if curr == 0x0a {
            if is_in_at {
                is_in_at = false;
            } else if i + 1 < blen && obytes[i + 1] == 0x40 {
                is_in_at = true;
            } else {
                nbytes.push(curr);
                proof {
                    assert(nbytes@ =~= n0 + seq![0x0au8]);
                    assert((n0 + seq![0x0au8]) + refine_spec(obytes@, i + 1, is_in_at) =~= n0 + (
                    seq![0x0au8] + refine_spec(obytes@, i + 1, is_in_at)));
                }
            }
        } else {
            nbytes.push(curr);
            proof {
                assert(nbytes@ =~= n0 + seq![obytes@[i as int]]);
                assert((n0 + seq![obytes@[i as int]]) + refine_spec(obytes@, i + 1, is_in_at)
                    =~= n0 + (seq![obytes@[i as int]] + refine_spec(obytes@, i + 1, is_in_at)));
            }
        }
        i = i + 1;
    }
    proof {
        assert(refine_spec(obytes@, i as int, is_in_at) =~= Seq::<u8>::empty());
        assert(nbytes@ + Seq::<u8>::empty() =~= nbytes@);
    }
    match crate::strutil::bytes_to_string(nbytes) {
        Some(v) => v,
        None => String::new(),
    }
}

} // verus!
