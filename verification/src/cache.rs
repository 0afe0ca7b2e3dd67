//! The on-disk fingerprint cache, modelled on its contents.
//!
//! A cache file is newline-delimited text: one fingerprint per line as a
//! bracketed list of decimal child indices, newest line first, closed by a
//! sentinel line `-` that never decodes. The functions here compute every
//! content transformation — seeding, wholesale replacement, prepend-on-append
//! and decoding — while the caller owns the actual file and its lock.

use vstd::prelude::*;
use crate::error::MafaError;
use crate::strutil::dec_digits;
use vstd::string::StringSliceAdditionalSpecFns;

verus! {

/// One cache file: `data` is `None` while no file exists.
pub struct CacheFile {
    pub data: Option<Vec<u8>>,
}

/// The bytes a cache file holds, `None` while it does not exist.
pub open spec fn file_view(f: &CacheFile) -> Option<Seq<u8>> {
    match f.data {
        Option::Some(d) => Option::Some(d@),
        Option::None => Option::None,
    }
}

/// What seeding leaves in the file: the bundled defaults only where no file
/// existed before.
pub open spec fn seed_result(file: Option<Seq<u8>>, bundled: Seq<u8>) -> Option<Seq<u8>> {
    match file {
        Option::Some(d) => Option::Some(d),
        Option::None => Option::Some(bundled),
    }
}

/// What replacement leaves in the file: the payload, unconditionally.
pub open spec fn replace_result(payload: Seq<u8>) -> Option<Seq<u8>> {
    Option::Some(payload)
}

/// What appending leaves in the file: the new line prepended to the old
/// contents, or the fallback payload where no file existed.
pub open spec fn append_result(
    file: Option<Seq<u8>>,
    line: Seq<u8>,
    fallback: Seq<u8>,
) -> Option<Seq<u8>> {
    match file {
        Option::Some(d) => Option::Some(line + d),
        Option::None => Option::Some(fallback),
    }
}

/// Seeding twice with the same defaults is the same as seeding once.
pub proof fn lemma_seed_idempotent(file: Option<Seq<u8>>, bundled: Seq<u8>)
    ensures
        seed_result(seed_result(file, bundled), bundled) == seed_result(file, bundled),
{
}

impl CacheFile {
    /// Creates the file with the bundled defaults iff it is absent.
    pub fn try_seed(&mut self, bundled: &[u8])
        ensures
            file_view(final(self)) == seed_result(file_view(old(self)), bundled@),
    {
        if self.data.is_none() {
            self.data = Some(vstd::slice::slice_to_vec(bundled));
        }
    }

    /// Unconditionally truncates and writes `payload`.
    pub fn replace(&mut self, payload: &[u8])
        ensures
            file_view(final(self)) == replace_result(payload@),
    {
        self.data = Some(vstd::slice::slice_to_vec(payload));
    }

    /// Prepends `line` to the current contents; where the file is absent,
    /// creates it holding `fallback`.
    pub fn append(&mut self, line: &[u8], fallback: &[u8])
        ensures
            file_view(final(self)) == append_result(file_view(old(self)), line@, fallback@),
    {
        let old_data = self.data.take();
        match old_data {
            Some(d) => {
                let mut combined = vstd::slice::slice_to_vec(line);
                let mut rest = d;
                combined.append(&mut rest);
                self.data = Some(combined);
            },
            None => {
                self.data = Some(vstd::slice::slice_to_vec(fallback));
            },
        }
    }
}

/// Position of the first newline byte of `b`, or `-1` when there is none.
pub open spec fn first_nl(b: Seq<u8>) -> int
    decreases b.len(),
{
    if b.len() == 0 {
        -1
    } else if b[0] == 0x0a {
        0
    } else if first_nl(b.drop_first()) < 0 {
        -1
    } else {
        first_nl(b.drop_first()) + 1
    }
}

pub proof fn lemma_first_nl(b: Seq<u8>)
    ensures
        first_nl(b) == -1 ==> forall|i: int| 0 <= i < b.len() ==> b[i] != 0x0a,
        first_nl(b) >= 0 ==> first_nl(b) < b.len() && b[first_nl(b)] == 0x0a && forall|i: int|
            0 <= i < first_nl(b) ==> b[i] != 0x0a,
    decreases b.len(),
{
    if b.len() > 0 && b[0] != 0x0a {
        let t = b.drop_first();
        lemma_first_nl(t);
        if first_nl(b) == -1 {
            assert forall|i: int| 0 <= i < b.len() implies b[i] != 0x0a by {
                if i > 0 {
                    assert(t[i - 1] != 0x0a);
                }
            }
        } else {
            assert forall|i: int| 0 <= i < first_nl(b) implies b[i] != 0x0a by {
                if i > 0 {
                    assert(t[i - 1] != 0x0a);
                }
            }
        }
    }
}

/// The lines of a cache file: everything up to each newline, in order. Bytes
/// after the last newline — the sentinel line — carry no entry.
pub open spec fn split_lines(b: Seq<u8>) -> Seq<Seq<u8>>
    decreases b.len(),
{
    if first_nl(b) < 0 || first_nl(b) >= b.len() {
        Seq::<Seq<u8>>::empty()
    } else {
        seq![b.subrange(0, first_nl(b))] + split_lines(
            b.subrange(first_nl(b) + 1, b.len() as int),
        )
    }
}

/// Splitting after a fresh first line: the line joins the front, the rest
/// splits as before.
pub proof fn lemma_split_lines_prepend(line: Seq<u8>, rest: Seq<u8>)
    requires
        forall|i: int| 0 <= i < line.len() ==> line[i] != 0x0a,
    ensures
        split_lines(line + seq![0x0au8] + rest) == seq![line] + split_lines(rest),
{
    let b = line + seq![0x0au8] + rest;
    assert(b[line.len() as int] == 0x0a);
    lemma_first_nl(b);
    if first_nl(b) < 0 {
        assert(false);
    }
    assert(first_nl(b) == line.len()) by {
        if first_nl(b) < line.len() {
            assert(b[first_nl(b)] == line[first_nl(b)]);
        }
    }
    assert(b.subrange(0, line.len() as int) =~= line);
    assert(b.subrange(line.len() as int + 1, b.len() as int) =~= rest);
}

/// Executable line splitter, one copied byte range per line.
pub fn split_lines_exec(b: &[u8]) -> (r: Vec<Vec<u8>>)
    ensures
        r@.map_values(|l: Vec<u8>| l@) == split_lines(b@),
{
    let blen = b.len();
    let mut out: Vec<Vec<u8>> = Vec::new();
    let mut pos: usize = 0;
    proof {
        assert(b@.subrange(0, b@.len() as int) =~= b@);
        assert(out@.map_values(|l: Vec<u8>| l@) =~= Seq::<Seq<u8>>::empty());
    }
    loop
        invariant
            0 <= pos <= blen == b@.len(),
            out@.map_values(|l: Vec<u8>| l@) + split_lines(b@.subrange(pos as int, b@.len() as int))
                == split_lines(b@),
        ensures
            out@.map_values(|l: Vec<u8>| l@) == split_lines(b@),
        decreases b@.len() - pos,
    {
        let ghost rest = b@.subrange(pos as int, b@.len() as int);
        let nl = crate::strutil::find_from(b, "\n".as_bytes(), pos);
        proof {
            reveal_strlit("\n");
            crate::strutil::lemma_ascii_literal("\n");
            assert("\n".spec_bytes() =~= seq![0x0au8]);
            lemma_first_nl(rest);
        }
        match nl {
            None => {
                proof {
                    if first_nl(rest) >= 0 {
                        let k = first_nl(rest);
                        assert(rest[k] == 0x0a);
                        assert(b@[pos + k] == 0x0a);
                        assert(b@.subrange(pos + k, pos + k + 1) =~= "\n".spec_bytes());
                        assert(crate::strutil::is_match_at(b@, "\n".spec_bytes(), pos + k));
                    }
                    assert(split_lines(rest) =~= Seq::<Seq<u8>>::empty());
                    assert(out@.map_values(|l: Vec<u8>| l@) + Seq::<Seq<u8>>::empty() =~= out@.map_values(
                        |l: Vec<u8>| l@,
                    ));
                }
                break ;
            },
            Some(i) => {
                proof {
                    assert(crate::strutil::is_match_at(b@, "\n".spec_bytes(), i as int));
                    assert(b@.subrange(i as int, i + 1)[0] == 0x0a);
                    assert(b@[i as int] == 0x0a);
                    assert(rest[i - pos] == 0x0a);
                    if first_nl(rest) != i - pos {
                        let k = first_nl(rest);
                        if 0 <= k < i - pos {
                            assert(b@[pos + k] == 0x0a);
                            assert(b@.subrange(pos + k, pos + k + 1) =~= "\n".spec_bytes());
                            assert(crate::strutil::is_match_at(b@, "\n".spec_bytes(), pos + k));
                        } else {
                            assert(rest[i - pos] != 0x0a);
                        }
                    }
                    assert(first_nl(rest) == i - pos);
                }
                let line = crate::strutil::bytes_of_range(b, pos, i);
                let ghost out0 = out@.map_values(|l: Vec<u8>| l@);
                out.push(line);
                proof {
                    assert(out@.map_values(|l: Vec<u8>| l@) =~= out0 + seq![line@]);
                    assert(line@ =~= rest.subrange(0, i - pos));
                    assert(rest.subrange(i - pos + 1, rest.len() as int) =~= b@.subrange(
                        i + 1,
                        b@.len() as int,
                    ));
                    assert((out0 + seq![line@]) + split_lines(b@.subrange(i + 1, b@.len() as int))
                        =~= out0 + (seq![rest.subrange(0, i - pos)] + split_lines(
                        rest.subrange(i - pos + 1, rest.len() as int),
                    )));
                }
                pos = i + 1;
            },
        }
    }
    out
}

// ---- the cache line grammar ----

/// Is `b` an ASCII decimal digit?
pub open spec fn is_digit(b: u8) -> bool {
    0x30 <= b <= 0x39
}

/// First index at or after `i` that is not inline JSON whitespace
/// (space, tab, carriage return).
pub open spec fn sp_skip(b: Seq<u8>, i: int) -> int
    decreases b.len() - i + 1,
{
    if 0 <= i < b.len() && (b[i] == 0x20 || b[i] == 0x09 || b[i] == 0x0d) {
        sp_skip(b, i + 1)
    } else {
        i
    }
}

/// End of the digit run starting at `i`.
pub open spec fn digits_end(b: Seq<u8>, i: int) -> int
    decreases b.len() - i + 1,
{
    if 0 <= i < b.len() && is_digit(b[i]) {
        digits_end(b, i + 1)
    } else {
        i
    }
}

/// Value of the decimal digits in `[i, j)`.
pub open spec fn digits_val(b: Seq<u8>, i: int, j: int) -> int
    decreases j - i,
{
    if j <= i {
        0
    } else {
        digits_val(b, i, j - 1) * 10 + (b[j - 1] - 0x30)
    }
}

/// One decoded array element: a plain decimal number up to 255, no sign,
/// no leading zero. Yields the value and the index just past its digits.
pub open spec fn parse_num_spec(b: Seq<u8>, i: int) -> Option<(u8, int)> {
    let j = digits_end(b, i);
    if !(0 <= i) || j == i {
        Option::None
    } else if b[i] == 0x30 && j > i + 1 {
        Option::None
    } else if digits_val(b, i, j) > 255 {
        Option::None
    } else {
        Option::Some((digits_val(b, i, j) as u8, j))
    }
}

/// One or more comma-separated numbers followed by the closing bracket.
/// Yields the values and the index just past the bracket.
pub open spec fn parse_elems_spec(b: Seq<u8>, i: int, fuel: nat) -> Option<(Seq<u8>, int)>
    decreases fuel,
{
    if fuel == 0 {
        Option::None
    } else {
        match parse_num_spec(b, i) {
            Option::None => Option::None,
            Option::Some((v, j)) => {
                let k = sp_skip(b, j);
                if k < b.len() && b[k] == 0x2c {
                    match parse_elems_spec(b, sp_skip(b, k + 1), (fuel - 1) as nat) {
                        Option::None => Option::None,
                        Option::Some((vs, e)) => Option::Some((seq![v] + vs, e)),
                    }
                } else if k < b.len() && b[k] == 0x5d {
                    Option::Some((seq![v], k + 1))
                } else {
                    Option::None
                }
            },
        }
    }
}

/// The inside of a bracketed list, entered just after `[`: either the
/// closing bracket at once, or the elements.
pub open spec fn parse_items_spec(b: Seq<u8>, i: int) -> Option<(Seq<u8>, int)> {
    let k = sp_skip(b, i);
    if k < b.len() && b[k] == 0x5d {
        Option::Some((Seq::<u8>::empty(), k + 1))
    } else {
        parse_elems_spec(b, k, b.len())
    }
}

/// A whole cache line holding one fingerprint: a bracketed list of child
/// indices and nothing else.
pub open spec fn parse_upath_line_spec(b: Seq<u8>) -> Option<Seq<u8>> {
    let i = sp_skip(b, 0);
    if i < b.len() && b[i] == 0x5b {
        match parse_items_spec(b, i + 1) {
            Option::None => Option::None,
            Option::Some((vs, e)) => {
                if sp_skip(b, e) == b.len() {
                    Option::Some(vs)
                } else {
                    Option::None
                }
            },
        }
    } else {
        Option::None
    }
}

// ---- executable mirrors ----

/// Executable form of [`sp_skip`].
pub fn sp_skip_exec(b: &[u8], i: usize) -> (r: usize)
    requires
        i <= b@.len(),
    ensures
        r == sp_skip(b@, i as int),
        i <= r <= b@.len(),
    decreases b@.len() - i,
{
    if i < b.len() && (b[i] == 0x20 || b[i] == 0x09 || b[i] == 0x0d) {
        sp_skip_exec(b, i + 1)
    } else {
        i
    }
}

/// Executable form of [`digits_end`].
pub fn digits_end_exec(b: &[u8], i: usize) -> (r: usize)
    requires
        i <= b@.len(),
    ensures
        r == digits_end(b@, i as int),
        i <= r <= b@.len(),
    decreases b@.len() - i,
{
    if i < b.len() && 0x30 <= b[i] && b[i] <= 0x39 {
        digits_end_exec(b, i + 1)
    } else {
        i
    }
}

/// Digits within a digit run only grow the value.
proof fn lemma_digits_val_mono(b: Seq<u8>, i: int, j: int, j2: int)
    requires
        i <= j <= j2,
        forall|k: int| i <= k < j2 ==> 0 <= #[trigger] (b[k] - 0x30) <= 9,
        digits_val(b, i, j) >= 0,
    ensures
        digits_val(b, i, j2) >= digits_val(b, i, j),
        digits_val(b, i, j2) >= 0,
    decreases j2 - j,
{
    if j2 > j {
        lemma_digits_val_mono(b, i, j, j2 - 1);
    }
}

/// Every position in a digit run holds a digit.
proof fn lemma_digits_end_digits(b: Seq<u8>, i: int, k: int)
    requires
        0 <= i <= k < digits_end(b, i),
    ensures
        is_digit(b[k]),
    decreases k - i,
{
    if k > i {
        lemma_digits_end_digits(b, i + 1, k)
    }
}

/// Executable form of [`parse_num_spec`].
pub fn parse_num(b: &[u8], i: usize) -> (r: Option<(u8, usize)>)
    requires
        i <= b@.len(),
    ensures
        match r {
            Option::Some((v, j)) => parse_num_spec(b@, i as int) == Option::Some(
                (v, j as int),
            ) && i < j <= b@.len(),
            Option::None => parse_num_spec(b@, i as int) is None,
        },
{
    let j = digits_end_exec(b, i);
    if j == i {
        return None;
    }
    if b[i] == 0x30 && j > i + 1 {
        return None;
    }
    proof {
        assert forall|k: int| i <= k < j implies 0 <= #[trigger] (b@[k] - 0x30) <= 9 by {
            lemma_digits_end_digits(b@, i as int, k);
        }
    }
    let mut acc: u32 = 0;
    let mut k: usize = i;
    while k < j
        invariant
            i <= k <= j <= b@.len(),
            j == digits_end(b@, i as int),
            acc == digits_val(b@, i as int, k as int),
            acc <= 255,
            forall|t: int| i <= t < j ==> 0 <= #[trigger] (b@[t] - 0x30) <= 9,
        decreases j - k,
    {
        let d = b[k] - 0x30;
        let acc2 = acc * 10 + (d as u32);
        if acc2 > 255 {
            proof {
                lemma_digits_val_mono(b@, i as int, k + 1, j as int);
            }
            return None;
        }
        acc = acc2;
        k = k + 1;
    }
    Some((acc as u8, j))
}

/// Executable form of [`parse_elems_spec`].
pub fn parse_elems(b: &[u8], i: usize, fuel: usize) -> (r: Option<(Vec<u8>, usize)>)
    requires
        i <= b@.len(),
    ensures
        match r {
            Option::Some((vs, e)) => parse_elems_spec(b@, i as int, fuel as nat) == Option::Some(
                (vs@, e as int),
            ) && e <= b@.len(),
            Option::None => parse_elems_spec(b@, i as int, fuel as nat) is None,
        },
    decreases fuel,
{
    if fuel == 0 {
        return None;
    }
    match parse_num(b, i) {
        None => None,
        Some((v, j)) => {
            let k = sp_skip_exec(b, j);
            if k < b.len() && b[k] == 0x2c {
                let k2 = sp_skip_exec(b, k + 1);
                match parse_elems(b, k2, fuel - 1) {
                    None => None,
                    Some((vs, e)) => {
                        let mut out: Vec<u8> = Vec::new();
                        out.push(v);
                        let mut rest = vs;
                        out.append(&mut rest);
                        proof {
                            assert(out@ =~= seq![v] + out@.subrange(1, out@.len() as int));
                        }
                        Some((out, e))
                    },
                }
            } else if k < b.len() && b[k] == 0x5d {
                let mut out: Vec<u8> = Vec::new();
                out.push(v);
                proof {
                    assert(out@ =~= seq![v]);
                }
                Some((out, k + 1))
            } else {
                None
            }
        },
    }
}

/// Executable form of [`parse_items_spec`].
pub fn parse_items(b: &[u8], i: usize) -> (r: Option<(Vec<u8>, usize)>)
    requires
        i <= b@.len(),
    ensures
        match r {
            Option::Some((vs, e)) => parse_items_spec(b@, i as int) == Option::Some(
                (vs@, e as int),
            ) && e <= b@.len(),
            Option::None => parse_items_spec(b@, i as int) is None,
        },
{
    let k = sp_skip_exec(b, i);
    if k < b.len() && b[k] == 0x5d {
        let out: Vec<u8> = Vec::new();
        proof {
            assert(out@ =~= Seq::<u8>::empty());
        }
        Some((out, k + 1))
    } else {
        parse_elems(b, k, b.len())
    }
}

/// Executable form of [`parse_upath_line_spec`].
pub fn parse_upath_line(b: &[u8]) -> (r: Option<Vec<u8>>)
    ensures
        match r {
            Option::Some(vs) => parse_upath_line_spec(b@) == Option::Some(vs@),
            Option::None => parse_upath_line_spec(b@) is None,
        },
{
    let i = sp_skip_exec(b, 0);
    if i < b.len() && b[i] == 0x5b {
        match parse_items(b, i + 1) {
            None => None,
            Some((vs, e)) => {
                let t = sp_skip_exec(b, e);
                if t == b.len() {
                    Some(vs)
                } else {
                    None
                }
            },
        }
    } else {
        None
    }
}

/// One or more comma-separated bracketed lists followed by the closing
/// bracket, for lines that hold a pair of index paths.
pub open spec fn parse_paths_spec(b: Seq<u8>, i: int, fuel: nat) -> Option<(Seq<Seq<u8>>, int)>
    decreases fuel,
{
    if fuel == 0 {
        Option::None
    } else if 0 <= i < b.len() && b[i] == 0x5b {
        match parse_items_spec(b, i + 1) {
            Option::None => Option::None,
            Option::Some((v, e)) => {
                if !(0 <= e <= b.len()) {
                    Option::None
                } else {
                    let k = sp_skip(b, e);
                    if k < b.len() && b[k] == 0x2c {
                        match parse_paths_spec(b, sp_skip(b, k + 1), (fuel - 1) as nat) {
                            Option::None => Option::None,
                            Option::Some((vs, e2)) => Option::Some((seq![v] + vs, e2)),
                        }
                    } else if k < b.len() && b[k] == 0x5d {
                        Option::Some((seq![v], k + 1))
                    } else {
                        Option::None
                    }
                }
            },
        }
    } else {
        Option::None
    }
}

/// A whole cache line holding an upper and a lower index path:
/// `[[..],[..]]` and nothing else.
pub open spec fn parse_ulpath_line_spec(b: Seq<u8>) -> Option<(Seq<u8>, Seq<u8>)> {
    let i = sp_skip(b, 0);
    if i < b.len() && b[i] == 0x5b {
        match parse_paths_spec(b, sp_skip(b, i + 1), b.len() as nat) {
            Option::None => Option::None,
            Option::Some((vs, e)) => {
                if sp_skip(b, e) == b.len() && vs.len() == 2 {
                    Option::Some((vs[0], vs[1]))
                } else {
                    Option::None
                }
            },
        }
    } else {
        Option::None
    }
}

/// Executable form of [`parse_paths_spec`].
pub fn parse_paths(b: &[u8], i: usize, fuel: usize) -> (r: Option<(Vec<Vec<u8>>, usize)>)
    requires
        i <= b@.len(),
    ensures
        match r {
            Option::Some((vs, e)) => parse_paths_spec(b@, i as int, fuel as nat) == Option::Some(
                (vs@.map_values(|v: Vec<u8>| v@), e as int),
            ) && e <= b@.len(),
            Option::None => parse_paths_spec(b@, i as int, fuel as nat) is None,
        },
    decreases fuel,
{
    if fuel == 0 {
        return None;
    }
    if i < b.len() && b[i] == 0x5b {
        match parse_items(b, i + 1) {
            None => None,
            Some((v, e)) => {
                let k = sp_skip_exec(b, e);
                if k < b.len() && b[k] == 0x2c {
                    let k2 = sp_skip_exec(b, k + 1);
                    match parse_paths(b, k2, fuel - 1) {
                        None => None,
                        Some((vs, e2)) => {
                            let mut out: Vec<Vec<u8>> = Vec::new();
                            out.push(v);
                            let mut rest = vs;
                            out.append(&mut rest);
                            proof {
                                assert(out@.map_values(|x: Vec<u8>| x@) =~= seq![v@]
                                    + out@.subrange(1, out@.len() as int).map_values(
                                    |x: Vec<u8>| x@,
                                ));
                            }
                            Some((out, e2))
                        },
                    }
                } else if k < b.len() && b[k] == 0x5d {
                    let mut out: Vec<Vec<u8>> = Vec::new();
                    out.push(v);
                    proof {
                        assert(out@.map_values(|x: Vec<u8>| x@) =~= seq![v@]);
                    }
                    Some((out, k + 1))
                } else {
                    None
                }
            },
        }
    } else {
        None
    }
}

/// Executable form of [`parse_ulpath_line_spec`].
pub fn parse_ulpath_line(b: &[u8]) -> (r: Option<(Vec<u8>, Vec<u8>)>)
    ensures
        match r {
            Option::Some((u, l)) => parse_ulpath_line_spec(b@) == Option::Some((u@, l@)),
            Option::None => parse_ulpath_line_spec(b@) is None,
        },
{
    let i = sp_skip_exec(b, 0);
    if i < b.len() && b[i] == 0x5b {
        let k0 = sp_skip_exec(b, i + 1);
        match parse_paths(b, k0, b.len()) {
            None => None,
            Some((vs, e)) => {
                let t = sp_skip_exec(b, e);
                if t == b.len() && vs.len() == 2 {
                    let mut vs2 = vs;
                    let lower = vs2.pop().unwrap();
                    let upper = vs2.pop().unwrap();
                    Some((upper, lower))
                } else {
                    None
                }
            },
        }
    } else {
        None
    }
}

// ---- serialisation ----

/// The comma-separated decimal items of a fingerprint.
pub open spec fn ser_items(v: Seq<u8>) -> Seq<u8>
    decreases v.len(),
{
    if v.len() == 0 {
        Seq::<u8>::empty()
    } else if v.len() == 1 {
        dec_digits(v[0] as nat)
    } else {
        dec_digits(v[0] as nat) + seq![0x2cu8] + ser_items(v.drop_first())
    }
}

/// A serialised fingerprint: its items in brackets.
pub open spec fn ser_upath(v: Seq<u8>) -> Seq<u8> {
    seq![0x5bu8] + ser_items(v) + seq![0x5du8]
}

proof fn lemma_ser_items_snoc(v: Seq<u8>, i: int)
    requires
        0 <= i < v.len(),
    ensures
        ser_items(v.subrange(0, i + 1)) == if i == 0 {
            dec_digits(v[0] as nat)
        } else {
            ser_items(v.subrange(0, i)) + seq![0x2cu8] + dec_digits(v[i] as nat)
        },
    decreases i,
{
    let pre = v.subrange(0, i + 1);
    if i == 0 {
        assert(pre.len() == 1);
        assert(pre[0] == v[0]);
        assert(ser_items(pre) == dec_digits(v[0] as nat));
    } else {
        let shorter = v.subrange(0, i);
        assert(pre.drop_first() =~= v.subrange(1, v.len() as int).subrange(0, i));
        let w = v.subrange(1, v.len() as int);
        lemma_ser_items_snoc(w, i - 1);
        assert(w.subrange(0, i) =~= pre.drop_first());
        assert(w.subrange(0, i - 1) =~= shorter.drop_first());
        assert(w[i - 1] == v[i]);
        if i == 1 {
            assert(ser_items(pre.drop_first()) == dec_digits(v[1] as nat));
            assert(ser_items(pre) == dec_digits(v[0] as nat) + seq![0x2cu8] + dec_digits(
                v[1] as nat,
            ));
            assert(ser_items(shorter) == dec_digits(v[0] as nat));
            assert(ser_items(pre) =~= ser_items(shorter) + seq![0x2cu8] + dec_digits(v[1] as nat));
        } else {
            assert(ser_items(pre.drop_first()) == ser_items(shorter.drop_first()) + seq![0x2cu8]
                + dec_digits(v[i] as nat));
            assert(ser_items(pre) == dec_digits(v[0] as nat) + seq![0x2cu8] + ser_items(
                pre.drop_first(),
            ));
            assert(ser_items(shorter) == dec_digits(v[0] as nat) + seq![0x2cu8] + ser_items(
                shorter.drop_first(),
            ));
            assert(ser_items(pre) =~= ser_items(shorter) + seq![0x2cu8] + dec_digits(v[i] as nat));
        }
    }
}

/// Serialises one fingerprint line, newline included.
pub fn encode_upath_line(v: &[u8]) -> (r: Vec<u8>)
    ensures
        r@ == ser_upath(v@) + seq![0x0au8],
{
    let mut out: Vec<u8> = Vec::new();
    out.push(0x5b);
    let mut i: usize = 0;
    proof {
        assert(v@.subrange(0, 0) =~= Seq::<u8>::empty());
        assert(out@ =~= seq![0x5bu8] + ser_items(v@.subrange(0, 0)));
    }
    while i < v.len()
        invariant
            0 <= i <= v@.len(),
            out@ == seq![0x5bu8] + ser_items(v@.subrange(0, i as int)),
        decreases v@.len() - i,
    {
        let ghost out0 = out@;
        if i > 0 {
            out.push(0x2c);
        }
        let mut digits = crate::strutil::u64_to_dec(v[i] as u64);
        out.append(&mut digits);
        proof {
            lemma_ser_items_snoc(v@, i as int);
            if i == 0 {
                assert(v@.subrange(0, 1)[0] == v@[0]);
                assert(out@ =~= seq![0x5bu8] + ser_items(v@.subrange(0, 1)));
            } else {
                assert(out@ =~= seq![0x5bu8] + ser_items(v@.subrange(0, i + 1)));
            }
        }
        i = i + 1;
    }
    out.push(0x5d);
    out.push(0x0a);
    proof {
        assert(v@.subrange(0, v@.len() as int) =~= v@);
        assert(out@ =~= ser_upath(v@) + seq![0x0au8]);
    }
    out
}

/// Serialises one upper/lower pair line, newline included.
pub fn encode_ulpath_line(upper: &[u8], lower: &[u8]) -> (r: Vec<u8>)
    ensures
        r@ == seq![0x5bu8] + ser_upath(upper@) + seq![0x2cu8] + ser_upath(lower@) + seq![
            0x5du8,
            0x0au8,
        ],
{
    let mut out: Vec<u8> = Vec::new();
    out.push(0x5b);
    let mut u = encode_upath_line(upper);
    let _nl = u.pop();
    proof {
        assert(u@ =~= ser_upath(upper@));
    }
    out.append(&mut u);
    out.push(0x2c);
    let mut l = encode_upath_line(lower);
    let _nl2 = l.pop();
    proof {
        assert(l@ =~= ser_upath(lower@));
    }
    out.append(&mut l);
    out.push(0x5d);
    out.push(0x0a);
    proof {
        assert(out@ =~= seq![0x5bu8] + ser_upath(upper@) + seq![0x2cu8] + ser_upath(lower@)
            + seq![0x5du8, 0x0au8]);
    }
    out
}

// ---- decoding whole files ----

/// Decodes every line as a fingerprint; any line that fails, or decodes to
/// an empty array, spoils the whole file.
pub open spec fn parse_upath_lines(ls: Seq<Seq<u8>>) -> Option<Seq<Seq<u8>>>
    decreases ls.len(),
{
    if ls.len() == 0 {
        Option::Some(Seq::<Seq<u8>>::empty())
    } else {
        match parse_upath_line_spec(ls[0]) {
            Option::None => Option::None,
            Option::Some(v) => {
                if v.len() == 0 {
                    Option::None
                } else {
                    match parse_upath_lines(ls.drop_first()) {
                        Option::None => Option::None,
                        Option::Some(t) => Option::Some(seq![v] + t),
                    }
                }
            },
        }
    }
}

/// What loading a fingerprint cache file yields: its decoded lines in file
/// order, newest first, or nothing when any line is corrupt.
pub open spec fn load_upaths_spec(b: Seq<u8>) -> Option<Seq<Seq<u8>>> {
    parse_upath_lines(split_lines(b))
}

fn load_upath_lines_from(lines: &Vec<Vec<u8>>, i: usize) -> (r: Option<Vec<Vec<u8>>>)
    requires
        i <= lines@.len(),
    ensures
        match r {
            Option::Some(vs) => parse_upath_lines(
                lines@.map_values(|l: Vec<u8>| l@).subrange(i as int, lines@.len() as int),
            ) == Option::Some(vs@.map_values(|v: Vec<u8>| v@)),
            Option::None => parse_upath_lines(
                lines@.map_values(|l: Vec<u8>| l@).subrange(i as int, lines@.len() as int),
            ) is None,
        },
    decreases lines@.len() - i,
{
    let ghost lsv = lines@.map_values(|l: Vec<u8>| l@);
    let ghost suffix = lsv.subrange(i as int, lines@.len() as int);
    if i == lines.len() {
        let out: Vec<Vec<u8>> = Vec::new();
        proof {
            assert(suffix =~= Seq::<Seq<u8>>::empty());
            assert(out@.map_values(|v: Vec<u8>| v@) =~= Seq::<Seq<u8>>::empty());
        }
        return Some(out);
    }
    let line = &lines[i];
    proof {
        assert(suffix[0] == line@);
        assert(suffix.drop_first() =~= lsv.subrange(i + 1, lines@.len() as int));
    }
    match parse_upath_line(line.as_slice()) {
        None => None,
        Some(v) => {
            if v.len() == 0 {
                None
            } else {
                match load_upath_lines_from(lines, i + 1) {
                    None => None,
                    Some(t) => {
                        let mut out: Vec<Vec<u8>> = Vec::new();
                        out.push(v);
                        let mut rest = t;
                        out.append(&mut rest);
                        proof {
                            assert(out@.map_values(|x: Vec<u8>| x@) =~= seq![v@] + out@.subrange(
                                1,
                                out@.len() as int,
                            ).map_values(|x: Vec<u8>| x@));
                        }
                        Some(out)
                    },
                }
            }
        },
    }
}

/// Loads a fingerprint cache file: decodes each line, newest first; any
/// malformed or empty line makes the whole file corrupt. Reading takes no
/// lock — the caller hands in whatever bytes it saw.
pub fn load_upaths(b: &[u8]) -> (r: Result<Vec<Vec<u8>>, MafaError>)
    ensures
        match r {
            Result::Ok(vs) => load_upaths_spec(b@) == Option::Some(vs@.map_values(|v: Vec<u8>| v@)),
            Result::Err(e) => load_upaths_spec(b@) is None && e == MafaError::CacheCorrupted,
        },
{
    let lines = split_lines_exec(b);
    match load_upath_lines_from(&lines, 0) {
        Some(vs) => {
            proof {
                assert(lines@.map_values(|l: Vec<u8>| l@).subrange(
                    0,
                    lines@.len() as int,
                ) =~= split_lines(b@));
            }
            Ok(vs)
        },
        None => {
            proof {
                assert(lines@.map_values(|l: Vec<u8>| l@).subrange(
                    0,
                    lines@.len() as int,
                ) =~= split_lines(b@));
            }
            Err(MafaError::CacheCorrupted)
        },
    }
}

/// Decodes every line as an upper/lower pair; a line of any other shape
/// spoils the whole file.
pub open spec fn parse_ulpath_lines(ls: Seq<Seq<u8>>) -> Option<Seq<(Seq<u8>, Seq<u8>)>>
    decreases ls.len(),
{
    if ls.len() == 0 {
        Option::Some(Seq::<(Seq<u8>, Seq<u8>)>::empty())
    } else {
        match parse_ulpath_line_spec(ls[0]) {
            Option::None => Option::None,
            Option::Some(p) => {
                match parse_ulpath_lines(ls.drop_first()) {
                    Option::None => Option::None,
                    Option::Some(t) => Option::Some(seq![p] + t),
                }
            },
        }
    }
}

/// What loading a pair-path cache file yields.
pub open spec fn load_ulpaths_spec(b: Seq<u8>) -> Option<Seq<(Seq<u8>, Seq<u8>)>> {
    parse_ulpath_lines(split_lines(b))
}

fn load_ulpath_lines_from(lines: &Vec<Vec<u8>>, i: usize) -> (r: Option<Vec<(Vec<u8>, Vec<u8>)>>)
    requires
        i <= lines@.len(),
    ensures
        match r {
            Option::Some(vs) => parse_ulpath_lines(
                lines@.map_values(|l: Vec<u8>| l@).subrange(i as int, lines@.len() as int),
            ) == Option::Some(vs@.map_values(|v: (Vec<u8>, Vec<u8>)| (v.0@, v.1@))),
            Option::None => parse_ulpath_lines(
                lines@.map_values(|l: Vec<u8>| l@).subrange(i as int, lines@.len() as int),
            ) is None,
        },
    decreases lines@.len() - i,
{
    let ghost lsv = lines@.map_values(|l: Vec<u8>| l@);
    let ghost suffix = lsv.subrange(i as int, lines@.len() as int);
    if i == lines.len() {
        let out: Vec<(Vec<u8>, Vec<u8>)> = Vec::new();
        proof {
            assert(suffix =~= Seq::<Seq<u8>>::empty());
            assert(out@.map_values(|v: (Vec<u8>, Vec<u8>)| (v.0@, v.1@)) =~= Seq::<(
                Seq<u8>,
                Seq<u8>,
            )>::empty());
        }
        return Some(out);
    }
    let line = &lines[i];
    proof {
        assert(suffix[0] == line@);
        assert(suffix.drop_first() =~= lsv.subrange(i + 1, lines@.len() as int));
    }
    match parse_ulpath_line(line.as_slice()) {
        None => None,
        Some(p) => {
            match load_ulpath_lines_from(lines, i + 1) {
                None => None,
                Some(t) => {
                    let mut out: Vec<(Vec<u8>, Vec<u8>)> = Vec::new();
                    out.push(p);
                    let mut rest = t;
                    out.append(&mut rest);
                    proof {
                        assert(out@.map_values(|v: (Vec<u8>, Vec<u8>)| (v.0@, v.1@)) =~= seq![
                            (out@[0].0@, out@[0].1@),
                        ] + out@.subrange(1, out@.len() as int).map_values(
                            |v: (Vec<u8>, Vec<u8>)| (v.0@, v.1@),
                        ));
                    }
                    Some(out)
                },
            }
        },
    }
}

/// Loads a pair-path cache file, newest line first.
pub fn load_ulpaths(b: &[u8]) -> (r: Result<Vec<(Vec<u8>, Vec<u8>)>, MafaError>)
    ensures
        match r {
            Result::Ok(vs) => load_ulpaths_spec(b@) == Option::Some(
                vs@.map_values(|v: (Vec<u8>, Vec<u8>)| (v.0@, v.1@)),
            ),
            Result::Err(e) => load_ulpaths_spec(b@) is None && e == MafaError::CacheCorrupted,
        },
{
    let lines = split_lines_exec(b);
    match load_ulpath_lines_from(&lines, 0) {
        Some(vs) => {
            proof {
                assert(lines@.map_values(|l: Vec<u8>| l@).subrange(
                    0,
                    lines@.len() as int,
                ) =~= split_lines(b@));
            }
            Ok(vs)
        },
        None => {
            proof {
                assert(lines@.map_values(|l: Vec<u8>| l@).subrange(
                    0,
                    lines@.len() as int,
                ) =~= split_lines(b@));
            }
            Err(MafaError::CacheCorrupted)
        },
    }
}

// ---- the append/load law ----

/// Appending one decodable, non-empty line to a cache file is append-only
/// and last-in-first-out: loading afterwards yields the new fingerprint
/// first, followed by exactly what loaded before; a file that loaded clean
/// stays clean. Repeated appends therefore keep every older entry, in
/// recency order.
pub proof fn lemma_append_load_lifo(file: Seq<u8>, line_body: Seq<u8>, v: Seq<u8>)
    requires
        parse_upath_line_spec(line_body) == Option::<Seq<u8>>::Some(v),
        v.len() > 0,
        forall|i: int| 0 <= i < line_body.len() ==> line_body[i] != 0x0a,
    ensures
        append_result(Option::Some(file), line_body + seq![0x0au8], file) matches Option::Some(
            combined,
        ) && combined == line_body + seq![0x0au8] + file,
        load_upaths_spec(file) matches Option::Some(l) ==> load_upaths_spec(
            line_body + seq![0x0au8] + file,
        ) == Option::Some(seq![v] + l),
        load_upaths_spec(file) is None ==> load_upaths_spec(line_body + seq![0x0au8] + file)
            is None,
{
    assert((line_body + seq![0x0au8]) + file =~= line_body + seq![0x0au8] + file);
    lemma_split_lines_prepend(line_body, file);
    let ls2 = split_lines(line_body + seq![0x0au8] + file);
    assert(ls2 == seq![line_body] + split_lines(file));
    assert(ls2[0] == line_body);
    assert(ls2.drop_first() =~= split_lines(file));
}

/// The decimal digits of a number: at least one, all digit bytes, and no
/// leading zero unless the number is a single digit.
proof fn lemma_dec_digits_props(n: nat)
    ensures
        dec_digits(n).len() >= 1,
        n < 10 ==> dec_digits(n).len() == 1,
        n >= 10 ==> dec_digits(n).len() > 1,
        forall|i: int| 0 <= i < dec_digits(n).len() ==> is_digit(#[trigger] dec_digits(n)[i]),
        dec_digits(n).len() > 1 ==> dec_digits(n)[0] != 0x30,
    decreases n,
{
    if n >= 10 {
        lemma_dec_digits_props(n / 10);
        assert forall|i: int| 0 <= i < dec_digits(n).len() implies is_digit(
            #[trigger] dec_digits(n)[i],
        ) by {
            if i < dec_digits(n / 10).len() {
                assert(dec_digits(n)[i] == dec_digits(n / 10)[i]);
            }
        }
        assert(dec_digits(n)[0] == dec_digits(n / 10)[0]);
        if n / 10 < 10 {
            assert(dec_digits(n / 10)[0] == 0x30 + n / 10);
            assert(n / 10 >= 1);
        }
    }
}

/// Serialised items hold only digit and comma bytes, and at least one byte
/// per item.
proof fn lemma_ser_items_bytes(v: Seq<u8>)
    ensures
        ser_items(v).len() >= v.len(),
        forall|i: int|
            0 <= i < ser_items(v).len() ==> is_digit(#[trigger] ser_items(v)[i]) || ser_items(
                v,
            )[i] == 0x2c,
    decreases v.len(),
{
    if v.len() == 0 {
    } else if v.len() == 1 {
        lemma_dec_digits_props(v[0] as nat);
    } else {
        lemma_dec_digits_props(v[0] as nat);
        lemma_ser_items_bytes(v.drop_first());
        let d0 = dec_digits(v[0] as nat);
        let rest = ser_items(v.drop_first());
        assert forall|i: int| 0 <= i < ser_items(v).len() implies is_digit(
            #[trigger] ser_items(v)[i],
        ) || ser_items(v)[i] == 0x2c by {
            if i < d0.len() {
                assert(ser_items(v)[i] == d0[i]);
            } else if i == d0.len() {
                assert(ser_items(v)[i] == 0x2c);
            } else {
                assert(ser_items(v)[i] == rest[i - d0.len() - 1]);
            }
        }
    }
}

/// A run of digits ends exactly where the digits end.
proof fn lemma_digits_end_stops(b: Seq<u8>, q: int, e: int)
    requires
        0 <= q <= e <= b.len(),
        forall|k: int| q <= k < e ==> is_digit(#[trigger] b[k]),
        e == b.len() || !is_digit(b[e]),
    ensures
        digits_end(b, q) == e,
    decreases e - q,
{
    if q < e {
        lemma_digits_end_stops(b, q + 1, e);
    }
}

/// The digits written for `n` read back as `n`.
proof fn lemma_digits_val_of_dec(b: Seq<u8>, q: int, n: nat)
    requires
        0 <= q,
        q + dec_digits(n).len() <= b.len(),
        forall|k: int|
            0 <= k < dec_digits(n).len() ==> b[q + k] == #[trigger] dec_digits(n)[k],
    ensures
        digits_val(b, q, q + dec_digits(n).len()) == n,
    decreases n,
{
    if n < 10 {
        assert(b[q + 0] == dec_digits(n)[0]);
        assert(dec_digits(n)[0] == 0x30 + n);
        assert(digits_val(b, q, q + 1) == digits_val(b, q, q) * 10 + (b[q] - 0x30));
    } else {
        let pre = dec_digits(n / 10);
        assert forall|k: int| 0 <= k < pre.len() implies b[q + k] == #[trigger] pre[k] by {
            assert(dec_digits(n)[k] == pre[k]);
            assert(b[q + k] == dec_digits(n)[k]);
        }
        lemma_digits_val_of_dec(b, q, n / 10);
        let j = q + dec_digits(n).len();
        assert(b[j - 1] == dec_digits(n)[dec_digits(n).len() - 1]);
        assert(dec_digits(n)[dec_digits(n).len() - 1] == 0x30 + n % 10);
        assert(digits_val(b, q, j) == digits_val(b, q, j - 1) * 10 + (b[j - 1] - 0x30));
        assert(digits_val(b, q, j - 1) == n / 10);
    }
}

/// Parsing the serialised items from position `q`, where they run to the
/// closing bracket at the very end, yields the items and stops after the
/// bracket.
proof fn lemma_parse_elems_ser(b: Seq<u8>, q: int, v: Seq<u8>, fuel: nat)
    requires
        v.len() > 0,
        0 <= q,
        b.len() == q + ser_items(v).len() + 1,
        b.subrange(q, b.len() as int) == ser_items(v) + seq![0x5du8],
        fuel >= v.len(),
    ensures
        parse_elems_spec(b, q, fuel) == Option::Some((v, b.len() as int)),
    decreases v.len(),
{
    let tail = ser_items(v) + seq![0x5du8];
    assert forall|k: int| 0 <= k < tail.len() implies b[q + k] == tail[k] by {
        assert(b.subrange(q, b.len() as int)[k] == tail[k]);
    }
    let d0 = dec_digits(v[0] as nat);
    lemma_dec_digits_props(v[0] as nat);
    lemma_ser_items_bytes(v);
    assert forall|k: int| 0 <= k < d0.len() implies b[q + k] == #[trigger] d0[k] by {
        assert(b[q + k] == tail[k]);
        assert(tail[k] == ser_items(v)[k]);
        if v.len() == 1 {
            assert(ser_items(v) == d0);
        } else {
            assert(ser_items(v)[k] == d0[k]);
        }
    }
    assert forall|k: int| q <= k < q + d0.len() implies is_digit(#[trigger] b[k]) by {
        assert(b[q + (k - q)] == d0[k - q]);
    }
    let j = q + d0.len();
    let stop: u8 = if v.len() == 1 {
        0x5du8
    } else {
        0x2cu8
    };
    assert(b[j] == stop) by {
        assert(b[q + d0.len()] == tail[d0.len() as int]);
        if v.len() == 1 {
            assert(ser_items(v) == d0);
            assert(tail[d0.len() as int] == 0x5d);
        } else {
            assert(tail[d0.len() as int] == ser_items(v)[d0.len() as int]);
            assert(ser_items(v)[d0.len() as int] == 0x2c);
        }
    }
    lemma_digits_end_stops(b, q, j);
    lemma_digits_val_of_dec(b, q, v[0] as nat);
    assert(parse_num_spec(b, q) == Option::Some((v[0], j)));
    assert(sp_skip(b, j) == j);
    if v.len() == 1 {
        assert(parse_elems_spec(b, q, fuel) == Option::Some((seq![v[0]], j + 1)));
        assert(seq![v[0]] =~= v);
    } else {
        let w = v.drop_first();
        let q2 = j + 1;
        lemma_ser_items_bytes(w);
        assert(ser_items(v) == d0 + seq![0x2cu8] + ser_items(w));
        assert(ser_items(v).len() == d0.len() + 1 + ser_items(w).len());
        assert(b[q2] == ser_items(v)[d0.len() as int + 1]) by {
            assert(b[q + (d0.len() as int + 1)] == tail[d0.len() as int + 1]);
            assert(tail[d0.len() as int + 1] == ser_items(v)[d0.len() as int + 1]);
        }
        assert(ser_items(v)[d0.len() as int + 1] == ser_items(w)[0]);
        assert(is_digit(ser_items(w)[0]) || ser_items(w)[0] == 0x2c);
        assert(sp_skip(b, q2) == q2) by {
            assert(b[q2] != 0x20 && b[q2] != 0x09 && b[q2] != 0x0d);
        }
        assert(b.subrange(q2, b.len() as int) =~= ser_items(w) + seq![0x5du8]) by {
            assert forall|k: int| 0 <= k < b.len() - q2 implies b.subrange(
                q2,
                b.len() as int,
            )[k] == (ser_items(w) + seq![0x5du8])[k] by {
                assert(b[q2 + k] == tail[d0.len() + 1 + k]);
                if k < ser_items(w).len() {
                    assert(tail[d0.len() + 1 + k] == ser_items(v)[d0.len() as int + 1 + k]);
                    assert(ser_items(v)[d0.len() as int + 1 + k] == ser_items(w)[k]);
                }
            }
        }
        lemma_parse_elems_ser(b, q2, w, (fuel - 1) as nat);
        assert(b[j] == 0x2c);
        assert(parse_elems_spec(b, q, fuel) == Option::Some((seq![v[0]] + w, b.len() as int)));
        assert(seq![v[0]] + w =~= v);
    }
}

/// Round trip of the cache line codec: a serialised fingerprint decodes
/// back to itself, and the line never holds a newline.
pub proof fn lemma_upath_line_round_trip(v: Seq<u8>)
    ensures
        parse_upath_line_spec(ser_upath(v)) == Option::Some(v),
        forall|i: int| 0 <= i < ser_upath(v).len() ==> #[trigger] ser_upath(v)[i] != 0x0a,
{
    let b = ser_upath(v);
    lemma_ser_items_bytes(v);
    assert forall|i: int| 0 <= i < b.len() implies #[trigger] b[i] != 0x0a by {
        if i == 0 {
            assert(b[i] == 0x5b);
        } else if i == b.len() - 1 {
            assert(b[i] == 0x5d);
        } else {
            assert(b[i] == ser_items(v)[i - 1]);
        }
    }
    assert(b[0] == 0x5b);
    assert(sp_skip(b, 0) == 0);
    if v.len() == 0 {
        assert(b.len() == 2 && b[1] == 0x5d);
        assert(sp_skip(b, 1) == 1);
        assert(parse_items_spec(b, 1) == Option::Some((Seq::<u8>::empty(), 2int)));
        assert(sp_skip(b, 2) == 2);
        assert(Seq::<u8>::empty() =~= v);
    } else {
        lemma_dec_digits_props(v[0] as nat);
        assert(b[1] == ser_items(v)[0]);
        assert(is_digit(b[1]) || b[1] == 0x2c);
        assert(sp_skip(b, 1) == 1);
        assert(b[1] != 0x5d);
        assert(b.subrange(1, b.len() as int) =~= ser_items(v) + seq![0x5du8]);
        lemma_parse_elems_ser(b, 1, v, b.len() as nat);
        assert(parse_items_spec(b, 1) == Option::Some((v, b.len() as int)));
        assert(sp_skip(b, b.len() as int) == b.len());
    }
}

/// The whole append/load law over the codec: appending a freshly encoded
/// non-empty fingerprint to a clean cache file loads back as exactly that
/// fingerprint in front of everything the file loaded before.
pub proof fn lemma_append_encoded_load(file: Seq<u8>, v: Seq<u8>)
    requires
        v.len() > 0,
    ensures
        load_upaths_spec(file) matches Some(l) ==> load_upaths_spec(
            ser_upath(v) + seq![0x0au8] + file,
        ) == Option::Some(seq![v] + l),
        load_upaths_spec(file) is None ==> load_upaths_spec(ser_upath(v) + seq![0x0au8] + file)
            is None,
{
    lemma_upath_line_round_trip(v);
    lemma_append_load_lifo(file, ser_upath(v), v);
}

} // verus!
