//! Small shared helpers: the cache-mechanism switch, text replication,
//! percent-encoding of query words, and read-up of fetched text.

use vstd::prelude::*;
use crate::strutil::{bytes_eq, bytes_of_range, bytes_to_string, replace_bytes, replace_spec,
    spec_trim, trim_range};
use vstd::string::StringSliceAdditionalSpecFns;
use vstd::string::StringExecFns;
use vstd::utf8::{encode_utf8, valid_utf8};

verus! {

/// How the fingerprint cache is refreshed before a fetch: seed bundled
/// defaults, adopt the shared remote snapshot, or probe live and append.
#[derive(Debug, Copy, Clone, PartialEq, Eq, Structural)]
pub enum CacheMechanism {
    Local,
    Remote,
    No,
}

impl Default for CacheMechanism {
    fn default() -> (r: Self)
        ensures
            r == CacheMechanism::Local,
    {
        CacheMechanism::Local
    }
}

/// The mechanism a selector word names; anything unrecognised falls back to
/// the local seed.
pub open spec fn cachm_of(b: Seq<u8>) -> CacheMechanism {
    if b == "LOCAL".spec_bytes() || b == "local".spec_bytes() {
        CacheMechanism::Local
    } else if b == "REMOTE".spec_bytes() || b == "remote".spec_bytes() {
        CacheMechanism::Remote
    } else if b == "NO".spec_bytes() || b == "no".spec_bytes() {
        CacheMechanism::No
    } else {
        CacheMechanism::Local
    }
}

impl CacheMechanism {
    /// Reads the selector word.
    pub fn from_str(s: &str) -> (r: Self)
        ensures
            r == cachm_of(s.spec_bytes()),
    {
        let b = s.as_bytes();
        if bytes_eq(b, "LOCAL".as_bytes()) || bytes_eq(b, "local".as_bytes()) {
            CacheMechanism::Local
        } else if bytes_eq(b, "REMOTE".as_bytes()) || bytes_eq(b, "remote".as_bytes()) {
            CacheMechanism::Remote
        } else if bytes_eq(b, "NO".as_bytes()) || bytes_eq(b, "no".as_bytes()) {
            CacheMechanism::No
        } else {
            CacheMechanism::Local
        }
    }
}

/// How one invocation refreshes the fingerprint cache before fetching.
/// Exactly one action runs per invocation.
#[derive(Debug, Copy, Clone, PartialEq, Eq, Structural)]
pub enum RebuildAction {
    /// Create the cache with the bundled defaults iff it is absent.
    SeedLocal,
    /// Fetch the shared remote snapshot and replace the cache with it.
    AdoptRemote,
    /// Probe the live page pair and append the derived fingerprint.
    ProbeLive,
}

/// The one action a chosen mechanism runs: the local seed never probes,
/// the remote snapshot never degrades to the seed, and a fresh build
/// always probes.
pub fn rebuild_action(m: CacheMechanism) -> (r: RebuildAction)
    ensures
        m == CacheMechanism::Local ==> r == RebuildAction::SeedLocal,
        m == CacheMechanism::Remote ==> r == RebuildAction::AdoptRemote,
        m == CacheMechanism::No ==> r == RebuildAction::ProbeLive,
{
    match m {
        CacheMechanism::Local => RebuildAction::SeedLocal,
        CacheMechanism::Remote => RebuildAction::AdoptRemote,
        CacheMechanism::No => RebuildAction::ProbeLive,
    }
}

/// `s` repeated `n` times.
pub open spec fn repeat_chars(s: Seq<char>, n: nat) -> Seq<char>
    decreases n,
{
    if n == 0 {
        Seq::<char>::empty()
    } else {
        repeat_chars(s, (n - 1) as nat) + s
    }
}

/// Concatenates `times` copies of `part`.
pub fn replicate(part: &str, times: usize) -> (r: String)
    ensures
        r@ == repeat_chars(part@, times as nat),
{
    let mut ret = String::new();
    let mut i: usize = 0;
    while i < times
        invariant
            0 <= i <= times,
            ret@ == repeat_chars(part@, i as nat),
        decreases times - i,
    {
        ret.append(part);
        i = i + 1;
    }
    ret
}

/// A proxy setting counts as given whenever it is non-empty.
pub fn is_valid_socks5(v: &str) -> (r: bool)
    ensures
        r == (v@.len() > 0),
{
    v.unicode_len() > 0
}

/// Is `b` one of the bytes that the query encoding escapes?
pub open spec fn pct_escaped(b: u8) -> bool {
    b == 0x20 || b == 0x21 || b == 0x22 || b == 0x23 || b == 0x24 || b == 0x25 || b == 0x26 || b
        == 0x27 || b == 0x28 || b == 0x29 || b == 0x2a || b == 0x2b || b == 0x2c || b == 0x2f || b
        == 0x3a || b == 0x3b || b == 0x3d || b == 0x3f || b == 0x40 || b == 0x5b || b == 0x5d
}

/// Upper-case hexadecimal digit for a value below 16.
pub open spec fn hex_digit(n: u8) -> u8 {
    if n < 10 {
        (0x30 + n) as u8
    } else {
        (0x37 + n) as u8
    }
}

/// The percent-encoded form of one byte.
pub open spec fn pct_byte(b: u8) -> Seq<u8> {
    if pct_escaped(b) {
        seq![0x25u8, hex_digit(b / 16), hex_digit(b % 16)]
    } else {
        seq![b]
    }
}

/// The percent-encoded form of a byte string.
pub open spec fn pct_encode(s: Seq<u8>) -> Seq<u8>
    decreases s.len(),
{
    if s.len() == 0 {
        Seq::<u8>::empty()
    } else {
        pct_byte(s[0]) + pct_encode(s.subrange(1, s.len() as int))
    }
}

/// Percent-encodes the reserved URL characters of `orig`, byte for byte.
pub fn percent_encode(orig: &[u8]) -> (r: Vec<u8>)
    ensures
        r@ == pct_encode(orig@),
{
    let mut after: Vec<u8> = Vec::new();
    proof {
        assert(orig@.subrange(0, orig@.len() as int) =~= orig@);
        assert(Seq::<u8>::empty() + pct_encode(orig@) =~= pct_encode(orig@));
    }
    let mut i: usize = 0;
    while i < orig.len()
        invariant
            0 <= i <= orig@.len(),
            after@ + pct_encode(orig@.subrange(i as int, orig@.len() as int)) == pct_encode(orig@),
        decreases orig@.len() - i,
    {
        let ghost rest = orig@.subrange(i as int, orig@.len() as int);
        let ghost after0 = after@;
        let b = orig[i];
        let escape = b == 0x20 || b == 0x21 || b == 0x22 || b == 0x23 || b == 0x24 || b == 0x25
            || b == 0x26 || b == 0x27 || b == 0x28 || b == 0x29 || b == 0x2a || b == 0x2b || b
            == 0x2c || b == 0x2f || b == 0x3a || b == 0x3b || b == 0x3d || b == 0x3f || b == 0x40
            || b == 0x5b || b == 0x5d;
        if escape {
            after.push(0x25);
            let hi = b / 16;
            let lo = b % 16;
            after.push(if hi < 10 { 0x30 + hi } else { 0x37 + hi });
            after.push(if lo < 10 { 0x30 + lo } else { 0x37 + lo });
        } else {
            after.push(b);
        }
        proof {
            assert(after@ =~= after0 + pct_byte(orig@[i as int]));
        }
        i = i + 1;
        proof {
            assert(rest.subrange(1, rest.len() as int) =~= orig@.subrange(
                i as int,
                orig@.len() as int,
            ));
            assert((after0 + pct_byte(orig@[i - 1])) + pct_encode(
                orig@.subrange(i as int, orig@.len() as int),
            ) =~= after0 + (pct_byte(orig@[i - 1]) + pct_encode(
                orig@.subrange(i as int, orig@.len() as int),
            )));
        }
    }
    proof {
        assert(orig@.subrange(i as int, orig@.len() as int) =~= Seq::<u8>::empty());
        assert(after@ + Seq::<u8>::empty() =~= after@);
    }
    after
}

/// Bytes of `b` with every escaped quote `\"` turned into a bare quote.
pub open spec fn unescaped_quotes(b: Seq<u8>) -> Seq<u8> {
    replace_spec(b, "\\\"".spec_bytes(), "\"".spec_bytes())
}

/// Drops the redundant backslash escapes that the page text carries.
pub fn del_redun_escapes(s: &str) -> (r: String)
    ensures
        valid_utf8(unescaped_quotes(s.spec_bytes())) ==> encode_utf8(r@) == unescaped_quotes(
            s.spec_bytes(),
        ),
        !valid_utf8(unescaped_quotes(s.spec_bytes())) ==> r@.len() == 0,
{
    let replaced = replace_bytes(s.as_bytes(), "\\\"".as_bytes(), "\"".as_bytes());
    let out = bytes_to_string(replaced);
    match out {
        Some(v) => v,
        None => String::new(),
    }
}

/// What read-up does to fetched text: trim, then unescape quotes.
pub open spec fn readable_of(b: Seq<u8>) -> Seq<u8> {
    unescaped_quotes(spec_trim(b))
}

/// Trims the text and drops redundant quote escapes.
pub fn make_readable(s: &str) -> (r: String)
    ensures
        valid_utf8(readable_of(s.spec_bytes())) ==> encode_utf8(r@) == readable_of(s.spec_bytes()),
        !valid_utf8(readable_of(s.spec_bytes())) ==> r@.len() == 0,
{
    let b = s.as_bytes();
    let (t0, t1) = trim_range(b);
    let trimmed = bytes_of_range(b, t0, t1);
    let replaced = replace_bytes(trimmed.as_slice(), "\\\"".as_bytes(), "\"".as_bytes());
    let out = bytes_to_string(replaced);
    match out {
        Some(v) => v,
        None => String::new(),
    }
}

/// Bytes of a fetched remote snapshot as they are written to the local
/// cache: quotes dropped, literal `\n` sequences turned into real newlines.
pub open spec fn snapshot_text_of(b: Seq<u8>) -> Seq<u8> {
    replace_spec(
        replace_spec(b, "\"".spec_bytes(), Seq::<u8>::empty()),
        "\\n".spec_bytes(),
        "\n".spec_bytes(),
    )
}

/// Turns the text read from the shared remote snapshot page into the bytes
/// that replace the local cache file.
pub fn unescape_snapshot(s: &str) -> (r: Vec<u8>)
    ensures
        r@ == snapshot_text_of(s.spec_bytes()),
{
    let dequoted = replace_bytes(s.as_bytes(), "\"".as_bytes(), "".as_bytes());
    proof {
        reveal_strlit("");
        assert(""@.len() == 0);
        assert("".spec_bytes() =~= Seq::<u8>::empty());
    }
    replace_bytes(dequoted.as_slice(), "\\n".as_bytes(), "\n".as_bytes())
}

/// What the help-text wrapper yields for a text at the standard help
/// column width: a function of the text alone.
pub uninterp spec fn wrap70_of(s: Seq<char>) -> Seq<char>;

/// Relies on `bwrap::Wrapper`: wraps a help text at seventy columns,
/// space-preserving; the result depends on the text alone.
#[verifier::external_body]
pub(crate) fn wrap_help(bf: &str) -> (r: String)
    ensures
        r@ == wrap70_of(bf@),
{
    let mut af_buf = [0u8; 1024];
    let rl = match bwrap::Wrapper::new(bf, 70, &mut af_buf) {
        Ok(mut w) => w.wrap().unwrap_or(0),
        Err(_) => 0,
    };
    String::from_utf8_lossy(&af_buf[0..rl]).to_string()
}

} // verus!
