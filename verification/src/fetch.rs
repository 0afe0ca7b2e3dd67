//! The resilient fetch loop, as a state machine over caller-reported
//! transport outcomes.
//!
//! One fetch walks an ordered list of cached fingerprint candidates:
//! navigate, wait, evaluate the extraction script against the current
//! candidate. Navigation timeouts retry navigation without moving the
//! candidate cursor; an extraction timeout advances the cursor by exactly
//! one; the first extraction success ends the fetch at once. The machine
//! decides; the caller performs the navigation, the wait and the
//! evaluation, and reports what happened.

use vstd::prelude::*;
use crate::error::MafaError;
use crate::strutil::{contains_bytes, contains_seq};
use vstd::string::StringSliceAdditionalSpecFns;

verus! {

/// Where a fetch stands.
pub enum FetchState {
    /// The target page must (re-)navigate next.
    Navigating,
    /// Navigation is done; the current candidate must be evaluated next.
    Evaluating,
    /// The fetch is over: the extracted text, or `None` when the retry
    /// budget ran out after the page had been reached at least once.
    Done(Option<String>),
    /// The fetch failed with this error.
    Failed(MafaError),
}

/// What the caller should do next.
pub enum FetchStep {
    /// Navigate to the target page.
    Navigate,
    /// Wait `wait_ms`, then evaluate the extraction script against
    /// candidate `candidate`.
    Evaluate { candidate: usize, wait_ms: u64 },
    /// Nothing; the fetch is over.
    Finished,
}

/// How one navigation attempt ended.
pub enum NavOutcome {
    Reached,
    Rejected(String, String),
    Other(String),
}

/// How one evaluation attempt ended.
pub enum EvalOutcome {
    Extracted(String),
    /// The page answered, but with its transient "try again" notice.
    Busy,
    Rejected(String, String),
    Other(String),
}

/// Only timeout-classified rejections are retried anywhere in the loop.
pub open spec fn is_timeout_err(err: Seq<u8>) -> bool {
    contains_seq(err, "timeout".spec_bytes())
}

/// The candidates evaluated so far, in the order they were attempted:
/// starts at the first candidate and never skips one.
pub open spec fn attempts_in_order(s: Seq<int>) -> bool {
    (s.len() > 0 ==> s[0] == 0) && (forall|j: int| #![trigger s[j]]
        0 < j < s.len() ==> s[j] == s[j - 1] || s[j] == s[j - 1] + 1)
}

/// The fetch state machine.
pub struct FetchFlow {
    pub n_candidates: usize,
    pub cursor: usize,
    pub tries_left: u8,
    pub wait_ms: u64,
    pub url_reached: bool,
    pub state: FetchState,
    /// Ghost trace of every candidate handed out for evaluation.
    pub attempted: Ghost<Seq<int>>,
}

/// The machine's invariant: the cursor never passes the candidate count,
/// and the evaluation trace visits candidates in order, without skips,
/// current candidate last.
pub open spec fn flow_wf(m: &FetchFlow) -> bool {
    &&& m.cursor <= m.n_candidates
    &&& attempts_in_order(m.attempted@)
    &&& (m.attempted@.len() == 0 ==> m.cursor == 0)
    &&& (m.attempted@.len() > 0 ==> m.cursor == m.attempted@.last() || m.cursor == m.attempted@.last()
        + 1)
    &&& (m.state is Evaluating ==> m.cursor < m.n_candidates)
}

impl FetchFlow {
    /// Starts a fetch over `n_candidates` cached fingerprints with the
    /// given navigation retry budget and initial pre-evaluation wait. An
    /// empty candidate list fails at once with `AllCachesInvalid`, before
    /// any navigation.
    pub fn new(n_candidates: usize, budget: u8, backoff_ms: u64) -> (r: Self)
        ensures
            flow_wf(&r),
            r.n_candidates == n_candidates,
            r.cursor == 0,
            r.tries_left == budget,
            r.wait_ms == backoff_ms,
            !r.url_reached,
            r.attempted@.len() == 0,
            n_candidates == 0 ==> r.state == FetchState::Failed(MafaError::AllCachesInvalid),
            n_candidates > 0 ==> r.state == FetchState::Navigating,
    {
        let state = if n_candidates == 0 {
            FetchState::Failed(MafaError::AllCachesInvalid)
        } else {
            FetchState::Navigating
        };
        FetchFlow {
            n_candidates,
            cursor: 0,
            tries_left: budget,
            wait_ms: backoff_ms,
            url_reached: false,
            state,
            attempted: Ghost(Seq::empty()),
        }
    }

    /// What to do next, read off the state.
    pub fn next_step(&self) -> (r: FetchStep)
        ensures
            self.state is Navigating && self.tries_left > 0 ==> r == FetchStep::Navigate,
            self.state is Navigating && self.tries_left == 0 ==> r == FetchStep::Finished,
            self.state is Evaluating ==> r == (FetchStep::Evaluate {
                candidate: self.cursor,
                wait_ms: self.wait_ms,
            }),
            self.state is Done || self.state is Failed ==> r == FetchStep::Finished,
    {
        match &self.state {
            FetchState::Navigating => {
                if self.tries_left > 0 {
                    FetchStep::Navigate
                } else {
                    FetchStep::Finished
                }
            },
            FetchState::Evaluating => FetchStep::Evaluate {
                candidate: self.cursor,
                wait_ms: self.wait_ms,
            },
            _ => FetchStep::Finished,
        }
    }

    /// Takes the finished fetch apart: the extracted text, or the error.
    /// Running out of navigation retries without ever reaching the page is
    /// `DataFetchedNotReachable`; running out after reaching it ends with
    /// no text.
    pub fn into_result(self) -> (r: Result<Option<String>, MafaError>)
        requires
            !(self.state is Evaluating),
        ensures
            self.state matches FetchState::Done(t) ==> r == Result::<
                Option<String>,
                MafaError,
            >::Ok(t),
            self.state matches FetchState::Failed(e) ==> r == Result::<
                Option<String>,
                MafaError,
            >::Err(e),
            self.state is Navigating ==> r == if self.url_reached {
                Result::<Option<String>, MafaError>::Ok(Option::<String>::None)
            } else {
                Result::<Option<String>, MafaError>::Err(MafaError::DataFetchedNotReachable)
            },
    {
        match self.state {
            FetchState::Done(t) => Ok(t),
            FetchState::Failed(e) => Err(e),
            _ => {
                if self.url_reached {
                    Ok(None)
                } else {
                    Err(MafaError::DataFetchedNotReachable)
                }
            },
        }
    }

    /// Feeds back a navigation outcome. Reaching the page moves on to
    /// evaluation; a timeout rejection spends one retry and navigates
    /// again; any other failure is fatal at once. The candidate cursor
    /// never moves here.
    pub fn on_nav(&mut self, outcome: NavOutcome)
        requires
            flow_wf(old(self)),
            old(self).state is Navigating,
            old(self).tries_left > 0,
            old(self).cursor < old(self).n_candidates,
        ensures
            flow_wf(final(self)),
            final(self).cursor == old(self).cursor,
            final(self).n_candidates == old(self).n_candidates,
            final(self).wait_ms == old(self).wait_ms,
            final(self).attempted@ == old(self).attempted@,
            match outcome {
                NavOutcome::Reached => final(self).state is Evaluating && final(self).url_reached
                    && final(self).tries_left == old(self).tries_left,
                NavOutcome::Rejected(err, msg) => if is_timeout_err(vstd::utf8::encode_utf8(err@)) {
                    final(self).state is Navigating && final(self).tries_left == old(
                        self,
                    ).tries_left - 1 && final(self).url_reached == old(self).url_reached
                } else {
                    final(self).state == FetchState::Failed(MafaError::WebDrvCmdRejected(err, msg))
                        && final(self).url_reached == old(self).url_reached
                },
                NavOutcome::Other(d) => final(self).state == FetchState::Failed(
                    MafaError::UnexpectedWda(d),
                ) && final(self).url_reached == old(self).url_reached,
            },
    {
        match outcome {
            NavOutcome::Reached => {
                self.url_reached = true;
                self.state = FetchState::Evaluating;
            },
            NavOutcome::Rejected(err, msg) => {
                if contains_bytes(err.as_str().as_bytes(), "timeout".as_bytes()) {
                    self.tries_left = self.tries_left - 1;
                } else {
                    self.state = FetchState::Failed(MafaError::WebDrvCmdRejected(err, msg));
                }
            },
            NavOutcome::Other(d) => {
                self.state = FetchState::Failed(MafaError::UnexpectedWda(d));
            },
        }
    }

    /// Feeds back an evaluation outcome for the current candidate. Success
    /// ends the fetch at once — no further candidate is touched. An
    /// extraction timeout advances the cursor by exactly one, failing with
    /// `AllCachesInvalid` when the candidates are exhausted, else spending
    /// a retry and navigating again with a doubled wait. The transient
    /// busy notice spends a retry without moving the cursor. Any other
    /// failure is fatal at once.
    pub fn on_eval(&mut self, outcome: EvalOutcome)
        requires
            flow_wf(old(self)),
            old(self).state is Evaluating,
        ensures
            flow_wf(final(self)),
            final(self).n_candidates == old(self).n_candidates,
            final(self).url_reached == old(self).url_reached,
            final(self).attempted@ == old(self).attempted@.push(old(self).cursor as int),
            match outcome {
                EvalOutcome::Extracted(t) => final(self).state == FetchState::Done(
                    Option::Some(t),
                ) && final(self).cursor == old(self).cursor,
                EvalOutcome::Busy => final(self).cursor == old(self).cursor && (if old(
                    self,
                ).tries_left <= 1 {
                    final(self).state == FetchState::Done(Option::<String>::None)
                } else {
                    final(self).state is Navigating && final(self).tries_left == old(
                        self,
                    ).tries_left - 1
                }),
                EvalOutcome::Rejected(err, msg) => if is_timeout_err(vstd::utf8::encode_utf8(err@)) {
                    final(self).cursor == old(self).cursor + 1 && (if old(self).cursor + 1 >= old(
                        self,
                    ).n_candidates {
                        final(self).state == FetchState::Failed(MafaError::AllCachesInvalid)
                    } else if old(self).tries_left <= 1 {
                        final(self).state == FetchState::Done(Option::<String>::None)
                    } else {
                        final(self).state is Navigating && final(self).tries_left == old(
                            self,
                        ).tries_left - 1
                    })
                } else {
                    final(self).state == FetchState::Failed(MafaError::WebDrvCmdRejected(err, msg))
                        && final(self).cursor == old(self).cursor
                },
                EvalOutcome::Other(d) => final(self).state == FetchState::Failed(
                    MafaError::UnexpectedWda(d),
                ) && final(self).cursor == old(self).cursor,
            },
    {
        proof {
            self.attempted@ = self.attempted@.push(self.cursor as int);
        }
        match outcome {
            EvalOutcome::Extracted(t) => {
                self.state = FetchState::Done(Some(t));
            },
            EvalOutcome::Busy => {
                if self.tries_left <= 1 {
                    self.tries_left = 0;
                    self.state = FetchState::Done(None);
                } else {
                    self.tries_left = self.tries_left - 1;
                    if self.wait_ms <= 0x7fff_ffff_ffff_ffff {
                        self.wait_ms = self.wait_ms * 2;
                    }
                    self.state = FetchState::Navigating;
                }
            },
            EvalOutcome::Rejected(err, msg) => {
                if contains_bytes(err.as_str().as_bytes(), "timeout".as_bytes()) {
                    self.cursor = self.cursor + 1;
                    if self.cursor >= self.n_candidates {
                        self.state = FetchState::Failed(MafaError::AllCachesInvalid);
                    } else if self.tries_left <= 1 {
                        self.tries_left = 0;
                        self.state = FetchState::Done(None);
                    } else {
                        self.tries_left = self.tries_left - 1;
                        if self.wait_ms <= 0x7fff_ffff_ffff_ffff {
                            self.wait_ms = self.wait_ms * 2;
                        }
                        self.state = FetchState::Navigating;
                    }
                } else {
                    self.state = FetchState::Failed(MafaError::WebDrvCmdRejected(err, msg));
                }
            },
            EvalOutcome::Other(d) => {
                self.state = FetchState::Failed(MafaError::UnexpectedWda(d));
            },
        }
    }
}

/// Candidate order, as a law of the whole loop: whatever outcomes arrive,
/// the trace of evaluated candidates starts at the first and never skips —
/// a later candidate is only ever reached after every earlier one was
/// attempted.
pub proof fn lemma_candidates_tried_in_order(m: &FetchFlow, k: int)
    requires
        flow_wf(m),
        0 <= k < m.attempted@.len(),
        m.attempted@[k] > 0,
    ensures
        exists|j: int| 0 <= j < k && m.attempted@[j] == m.attempted@[k] - 1,
    decreases k,
{
    if k == 0 {
        assert(m.attempted@[0] == 0);
    } else {
        if m.attempted@[k - 1] == m.attempted@[k] - 1 {
        } else {
            assert(m.attempted@[k - 1] == m.attempted@[k]);
            lemma_candidates_tried_in_order(m, k - 1);
        }
    }
}

} // verus!
