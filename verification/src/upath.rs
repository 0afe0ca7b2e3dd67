//! Fingerprints and their derivation from anchor probes.
//!
//! A fingerprint (`Upath`) is the child-index path from the document body to
//! a container element. Deriving one runs two independent anchor probes,
//! retrying only timeout-classified transport failures with a doubling
//! backoff, then generalises the two paths to their longest common prefix.
//! The probe calls themselves — navigation and script evaluation — are the
//! caller's; the state machine here makes every decision.

use vstd::prelude::*;
use crate::error::MafaError;
use crate::strutil::{contains_bytes, contains_seq};
use vstd::string::StringSliceAdditionalSpecFns;

verus! {

/// A fingerprint: the ordered child-node indices locating one element.
#[derive(Debug, Clone)]
pub struct Upath(pub Vec<u8>);

impl Default for Upath {
    fn default() -> (r: Self)
        ensures
            r.0@.len() == 0,
    {
        Upath(Vec::new())
    }
}

/// `p` is an elementwise prefix of `v`.
pub open spec fn is_prefix_of(p: Seq<u8>, v: Seq<u8>) -> bool {
    p.len() <= v.len() && forall|i: int| 0 <= i < p.len() ==> p[i] == v[i]
}

/// Length of the longest common prefix of two paths.
pub fn common_prefix_len(a: &Vec<u8>, b: &Vec<u8>) -> (r: usize)
    ensures
        r <= a@.len() && r <= b@.len(),
        forall|i: int| 0 <= i < r ==> a@[i] == b@[i],
        r < a@.len() && r < b@.len() ==> a@[r as int] != b@[r as int],
{
    let n = if a.len() < b.len() { a.len() } else { b.len() };
    let mut r: usize = 0;
    while r < n
        invariant
            r <= n,
            n <= a@.len() && n <= b@.len(),
            n == if a@.len() < b@.len() { a@.len() } else { b@.len() },
            forall|i: int| 0 <= i < r ==> a@[i] == b@[i],
        decreases n - r,
    {
        if a[r] != b[r] {
            return r;
        }
        r = r + 1;
    }
    r
}

/// The longest common prefix of two probe paths: a prefix of both, and no
/// strictly longer common prefix of the two exists.
pub fn generalize_pair(a: &Vec<u8>, b: &Vec<u8>) -> (r: Vec<u8>)
    ensures
        is_prefix_of(r@, a@),
        is_prefix_of(r@, b@),
        forall|q: Seq<u8>| is_prefix_of(q, a@) && is_prefix_of(q, b@) ==> q.len() <= r@.len(),
{
    let n = common_prefix_len(a, b);
    let r = crate::strutil::bytes_of_range(a.as_slice(), 0, n);
    proof {
        assert forall|q: Seq<u8>| is_prefix_of(q, a@) && is_prefix_of(q, b@) implies q.len()
            <= r@.len() by {
            if q.len() > n {
                assert(q[n as int] == a@[n as int]);
                assert(q[n as int] == b@[n as int]);
            }
        }
    }
    r
}

/// The outcome the caller saw for one probe attempt.
pub enum ProbeOutcome {
    /// The probe script came back with a path (possibly empty: not found yet).
    Found(Vec<u8>),
    /// The transport rejected the command; the two strings are its error
    /// word and message.
    Rejected(String, String),
    /// Any other transport failure, described.
    Other(String),
}

/// Which of the two anchor probes to run.
#[derive(Debug, Copy, Clone, PartialEq, Eq, Structural)]
pub enum ProbeSlot {
    First,
    Second,
}

/// Is a rejection retriable? Only timeout-classified ones are.
pub open spec fn rejection_is_timeout(err: Seq<u8>) -> bool {
    contains_seq(err, "timeout".spec_bytes())
}

/// The two-probe derivation loop: each round runs whichever probes are
/// still unresolved; only timeout rejections are retried, up to
/// `tries_left` rounds, doubling `wait_ms` before each retry.
pub struct ProbePair {
    pub upath1: Option<Vec<u8>>,
    pub upath2: Option<Vec<u8>>,
    pub tries_left: u8,
    pub wait_ms: u64,
}

impl ProbePair {
    /// Starts a derivation: five rounds, half a second before the first
    /// probe.
    pub fn new() -> (r: Self)
        ensures
            r.upath1 is None && r.upath2 is None,
            r.tries_left == 5,
            r.wait_ms == 500,
    {
        ProbePair { upath1: None, upath2: None, tries_left: 5, wait_ms: 500 }
    }

    /// The probe to run next, or `None` when the round set is done.
    pub fn next_probe(&self) -> (r: Option<ProbeSlot>)
        ensures
            r == if self.tries_left == 0 {
                Option::<ProbeSlot>::None
            } else if self.upath1 is None {
                Option::Some(ProbeSlot::First)
            } else if self.upath2 is None {
                Option::Some(ProbeSlot::Second)
            } else {
                Option::<ProbeSlot>::None
            },
    {
        if self.tries_left == 0 {
            None
        } else if self.upath1.is_none() {
            Some(ProbeSlot::First)
        } else if self.upath2.is_none() {
            Some(ProbeSlot::Second)
        } else {
            None
        }
    }

    /// Feeds one probe outcome back. A non-empty path resolves the slot; an
    /// empty one leaves it open for retry; a timeout rejection leaves it
    /// open too; everything else aborts the derivation with that error.
    pub fn on_probe(&mut self, slot: ProbeSlot, outcome: ProbeOutcome) -> (r: Result<
        (),
        MafaError,
    >)
        ensures
            old(self).tries_left == final(self).tries_left,
            old(self).wait_ms == final(self).wait_ms,
            match outcome {
                ProbeOutcome::Found(p) => r is Ok && if p@.len() > 0 {
                    (if slot == ProbeSlot::First {
                        final(self).upath1 == Option::Some(p) && final(self).upath2 == old(
                            self,
                        ).upath2
                    } else {
                        final(self).upath2 == Option::Some(p) && final(self).upath1 == old(
                            self,
                        ).upath1
                    })
                } else {
                    final(self).upath1 == old(self).upath1 && final(self).upath2 == old(
                        self,
                    ).upath2
                },
                ProbeOutcome::Rejected(err, msg) => if rejection_is_timeout(vstd::utf8::encode_utf8(err@)) {
                    r is Ok && final(self).upath1 == old(self).upath1 && final(self).upath2 == old(
                        self,
                    ).upath2
                } else {
                    r == Result::<(), MafaError>::Err(MafaError::WebDrvCmdRejected(err, msg))
                },
                ProbeOutcome::Other(d) => r == Result::<(), MafaError>::Err(
                    MafaError::UnexpectedWda(d),
                ),
            },
    {
        match outcome {
            ProbeOutcome::Found(p) => {
                if p.len() > 0 {
                    match slot {
                        ProbeSlot::First => {
                            self.upath1 = Some(p);
                        },
                        ProbeSlot::Second => {
                            self.upath2 = Some(p);
                        },
                    }
                }
                Ok(())
            },
            ProbeOutcome::Rejected(err, msg) => {
                if contains_bytes(err.as_str().as_bytes(), "timeout".as_bytes()) {
                    Ok(())
                } else {
                    Err(MafaError::WebDrvCmdRejected(err, msg))
                }
            },
            ProbeOutcome::Other(d) => Err(MafaError::UnexpectedWda(d)),
        }
    }

    /// Closes a round: done when both probes resolved; otherwise one retry
    /// is spent and the wait before the next attempt doubles.
    pub fn end_round(&mut self) -> (done: bool)
        requires
            old(self).tries_left > 0,
        ensures
            done == (old(self).upath1 is Some && old(self).upath2 is Some),
            final(self).upath1 == old(self).upath1 && final(self).upath2 == old(self).upath2,
            done ==> final(self).tries_left == old(self).tries_left && final(self).wait_ms == old(
                self,
            ).wait_ms,
            !done ==> final(self).tries_left == old(self).tries_left - 1 && final(self).wait_ms
                == if old(self).wait_ms * 2 <= u64::MAX {
                old(self).wait_ms * 2
            } else {
                old(self).wait_ms as int
            },
    {
        if self.upath1.is_some() && self.upath2.is_some() {
            true
        } else {
            self.tries_left = self.tries_left - 1;
            if self.wait_ms <= 0x7fff_ffff_ffff_ffff {
                self.wait_ms = self.wait_ms * 2;
            }
            false
        }
    }

    /// Ends a derivation by generalising the two paths to their longest
    /// common prefix. An unresolved probe fails the rebuild; a resolved but
    /// empty path cannot be generalised. No minimum length is asked of the
    /// prefix itself.
    pub fn finish_generalized(&self) -> (r: Result<Upath, MafaError>)
        ensures
            self.upath1 is None || self.upath2 is None ==> r == Result::<Upath, MafaError>::Err(
                MafaError::CacheRebuildFail(crate::error::CacheRebuildFailKind::UpathNotFound),
            ),
            self.upath1 is Some && self.upath2 is Some ==> ({
                let a = self.upath1->Some_0;
                let b = self.upath2->Some_0;
                if a@.len() == 0 || b@.len() == 0 {
                    r == Result::<Upath, MafaError>::Err(
                        MafaError::CacheRebuildFail(
                            crate::error::CacheRebuildFailKind::UpathLenZero,
                        ),
                    )
                } else {
                    r matches Ok(u) && is_prefix_of(u.0@, a@) && is_prefix_of(u.0@, b@) && (forall|
                        q: Seq<u8>,
                    |
                        is_prefix_of(q, a@) && is_prefix_of(q, b@) ==> q.len() <= u.0@.len())
                }
            }),
    {
        match &self.upath1 {
            Some(a) => match &self.upath2 {
                Some(b) => {
                    if a.len() == 0 || b.len() == 0 {
                        Err(
                            MafaError::CacheRebuildFail(
                                crate::error::CacheRebuildFailKind::UpathLenZero,
                            ),
                        )
                    } else {
                        Ok(Upath(generalize_pair(a, b)))
                    }
                },
                None => Err(
                    MafaError::CacheRebuildFail(crate::error::CacheRebuildFailKind::UpathNotFound),
                ),
            },
            None => Err(
                MafaError::CacheRebuildFail(crate::error::CacheRebuildFailKind::UpathNotFound),
            ),
        }
    }

}

} // verus!
