//! The timeline component's own types: its input, the two-part index
//! paths its cache holds, and the batch bookkeeping of a timeline fetch.

use vstd::prelude::*;
use crate::error::MafaError;
use vstd::string::StringSliceAdditionalSpecFns;
use vstd::string::StringExecFns;

pub mod opts;

verus! {

/// The format fetched timeline data is saved in.
#[derive(Debug, Copy, Clone, PartialEq, Eq, Structural)]
pub enum SaveFormat {
    Json,
    Xml,
}

impl Default for SaveFormat {
    fn default() -> (r: Self)
        ensures
            r == SaveFormat::Json,
    {
        SaveFormat::Json
    }
}

/// The format a selector word names; anything unrecognised saves as JSON.
pub open spec fn save_format_of(b: Seq<u8>) -> SaveFormat {
    if b == "XML".spec_bytes() || b == "xml".spec_bytes() {
        SaveFormat::Xml
    } else {
        SaveFormat::Json
    }
}

impl SaveFormat {
    /// Reads the selector word.
    pub fn from_str(s: &str) -> (r: Self)
        ensures
            r == save_format_of(s.spec_bytes()),
    {
        let b = s.as_bytes();
        if crate::strutil::bytes_eq(b, "XML".as_bytes()) || crate::strutil::bytes_eq(
            b,
            "xml".as_bytes(),
        ) {
            SaveFormat::Xml
        } else {
            SaveFormat::Json
        }
    }
}

/// What a timeline run was asked to do.
#[derive(Debug, Default)]
pub struct TwtlInput {
    pub imode: bool,
    pub username: String,
    pub ntweets: u16,
    pub save_to: Option<String>,
    pub save_format: Option<SaveFormat>,
    pub try_login: bool,
}

/// A cached locator for the timeline: the path down to the fork whose
/// children are the entries, and the path from a fork child down to one
/// entry's text.
#[derive(Debug, Default)]
pub struct UlPath {
    pub upper_idx: Vec<u8>,
    pub lower_idx: Vec<u8>,
}

/// A username counts as given whenever it is non-empty.
pub fn is_valid_username(v: &str) -> (r: bool)
    ensures
        r == (v@.len() > 0),
{
    !v.is_empty()
}

/// A username without surrounding whitespace and without one leading at
/// sign.
pub open spec fn normalized_of(b: Seq<u8>) -> Seq<u8> {
    let t = crate::strutil::spec_trim(b);
    if t.len() > 0 && t[0] == 0x40 {
        t.subrange(1, t.len() as int)
    } else {
        t
    }
}

/// Strips surrounding whitespace and one leading at sign off a username.
pub fn normalized_username(v: &str) -> (r: String)
    requires
        crate::strutil::spec_trim(v.spec_bytes()).len() > 0,
    ensures
        vstd::utf8::valid_utf8(normalized_of(v.spec_bytes())) ==> vstd::utf8::encode_utf8(r@)
            == normalized_of(v.spec_bytes()),
{
    let b = v.as_bytes();
    let (t0, t1) = crate::strutil::trim_range(b);
    let t0b = if t1 > t0 && b[t0] == 0x40 {
        t0 + 1
    } else {
        t0
    };
    let cut = crate::strutil::bytes_of_range(b, t0b, t1);
    proof {
        assert(cut@ =~= normalized_of(v.spec_bytes()));
    }
    match crate::strutil::bytes_to_string(cut) {
        Some(s) => s,
        None => String::new(),
    }
}

/// Is `s` already among the seen entries?
pub open spec fn seen_has(seen: Seq<String>, s: Seq<char>) -> bool {
    exists|i: int| 0 <= i < seen.len() && (#[trigger] seen[i])@ == s
}

/// What folding one batch into the collection does: walking the batch in
/// order while entries are still wanted, every entry not seen before joins
/// the kept and the seen lists and spends one wanted slot; entries seen
/// before are passed over.
pub open spec fn fold_batch(
    kept: Seq<String>,
    seen: Seq<String>,
    nleft: int,
    batch: Seq<String>,
    i: int,
) -> (Seq<String>, Seq<String>, int)
    decreases batch.len() - i + 1,
{
    if !(0 <= i < batch.len()) || nleft <= 0 {
        (kept, seen, nleft)
    } else if seen_has(seen, batch[i]@) {
        fold_batch(kept, seen, nleft, batch, i + 1)
    } else {
        fold_batch(kept.push(batch[i]), seen.push(batch[i]), nleft - 1, batch, i + 1)
    }
}

/// The running state of a timeline fetch: how many entries are still
/// wanted, every distinct entry kept so far in arrival order, and the
/// stall counter that ends a fetch when scrolling stops producing.
pub struct TimelineCollect {
    pub nleft: u16,
    pub kept: Vec<String>,
    pub seen: Vec<String>,
    pub stall_rounds: u8,
    pub prev_nleft: u16,
}

impl TimelineCollect {
    /// Starts collecting towards `want` entries.
    pub fn new(want: u16) -> (r: Self)
        ensures
            r.nleft == want,
            r.kept@.len() == 0,
            r.seen@.len() == 0,
            r.stall_rounds == 0,
            r.prev_nleft == 0,
    {
        TimelineCollect {
            nleft: want,
            kept: Vec::new(),
            seen: Vec::new(),
            stall_rounds: 0,
            prev_nleft: 0,
        }
    }

    /// Folds one fetched batch in: exactly the not-yet-seen batch entries
    /// are kept, in batch order, until the wanted count is reached. The
    /// kept list only grows, and never beyond what was still wanted.
    pub fn take_batch(&mut self, batch: Vec<String>)
        ensures
            (final(self).kept@, final(self).seen@, final(self).nleft as int) == fold_batch(
                old(self).kept@,
                old(self).seen@,
                old(self).nleft as int,
                batch@,
                0,
            ),
            final(self).kept@.len() >= old(self).kept@.len(),
            final(self).kept@.len() - old(self).kept@.len() == old(self).nleft - final(self).nleft,
            final(self).nleft <= old(self).nleft,
            final(self).kept@.subrange(0, old(self).kept@.len() as int) == old(self).kept@,
            final(self).stall_rounds == old(self).stall_rounds,
            final(self).prev_nleft == old(self).prev_nleft,
    {
        let ghost kept0 = self.kept@;
        let ghost nleft0 = self.nleft;
        let mut i: usize = 0;
        let n = batch.len();
        let mut batch = batch;
        let ghost seen0 = self.seen@;
        while i < n && self.nleft > 0
            invariant
                0 <= i <= n == batch@.len(),
                self.kept@.len() >= kept0.len(),
                self.kept@.len() - kept0.len() == nleft0 - self.nleft,
                self.nleft <= nleft0,
                self.kept@.subrange(0, kept0.len() as int) == kept0,
                self.stall_rounds == old(self).stall_rounds,
                self.prev_nleft == old(self).prev_nleft,
                fold_batch(kept0, seen0, nleft0 as int, batch@, 0) == fold_batch(
                    self.kept@,
                    self.seen@,
                    self.nleft as int,
                    batch@,
                    i as int,
                ),
            decreases n - i,
        {
            let t = &batch[i];
            let ghost pre_kept = self.kept@;
            let ghost pre_seen = self.seen@;
            if !contains_string(&self.seen, t) {
                let copy1 = t.clone();
                let copy2 = t.clone();
                proof {
                    assert(copy1 == batch@[i as int]);
                    assert(copy2 == batch@[i as int]);
                }
                self.seen.push(copy1);
                let ghost k0 = self.kept@;
                self.kept.push(copy2);
                proof {
                    assert(self.kept@.subrange(0, kept0.len() as int) =~= k0.subrange(
                        0,
                        kept0.len() as int,
                    ));
                    assert(self.kept@ == pre_kept.push(batch@[i as int]));
                    assert(self.seen@ == pre_seen.push(batch@[i as int]));
                }
                self.nleft = self.nleft - 1;
            }
            i = i + 1;
        }
    }

    /// Closes one scroll round: a round that brought nothing new bumps the
    /// stall counter, a productive one resets it; ten barren rounds in a
    /// row end the fetch.
    pub fn end_round(&mut self) -> (give_up: bool)
        requires
            old(self).stall_rounds < u8::MAX,
        ensures
            old(self).nleft == old(self).prev_nleft ==> final(self).stall_rounds == old(self).stall_rounds + 1 && final(self).prev_nleft == old(self).prev_nleft,
            old(self).nleft != old(self).prev_nleft ==> final(self).stall_rounds == 0 && final(self).prev_nleft == old(self).nleft,
            give_up == (final(self).stall_rounds > 9),
            final(self).kept@ == old(self).kept@,
            final(self).nleft == old(self).nleft,
    {
        if self.nleft == self.prev_nleft {
            self.stall_rounds = self.stall_rounds + 1;
        } else {
            self.prev_nleft = self.nleft;
            self.stall_rounds = 0;
        }
        self.stall_rounds > 9
    }
}

/// Is the string already in the list?
pub fn contains_string(v: &Vec<String>, s: &String) -> (r: bool)
    ensures
        r == seen_has(v@, s@),
{
    let mut i: usize = 0;
    let n = v.len();
    while i < n
        invariant
            0 <= i <= n == v@.len(),
            forall|k: int| 0 <= k < i ==> (#[trigger] v@[k])@ != s@,
        decreases n - i,
    {
        if v[i].eq(s) {
            proof {
                assert((v@[i as int])@ == s@);
            }
            return true;
        }
        i = i + 1;
    }
    false
}

} // verus!
