//! The progress/event notifier: a shared sequential log of events plus the
//! rendering rules every retry loop reports through.
//!
//! `notify` appends an event to the log and computes, character for
//! character, what the terminal should show for it; the caller writes the
//! two returned strings to standard output and standard error. The silent
//! and colour toggles are read at write time, so they may change mid-run.
//! Timestamps come in as milliseconds since the notifier's creation; the
//! caller owns the clock.

use vstd::prelude::*;
use crate::error::MafaError;
use crate::strutil::contains_seq;
use vstd::string::StringExecFns;
use vstd::string::StringSliceAdditionalSpecFns;

verus! {

/// The site or integration an event or cache belongs to.
#[derive(Debug, Copy, Clone, PartialEq, Eq, Structural)]
pub enum Category {
    Gtrans,
    Twtl,
    Mafa,
    Camd,
}

/// The display name of a category.
pub open spec fn cate_name(c: Category) -> Seq<char> {
    match c {
        Category::Mafa => "Mafa"@,
        Category::Gtrans => "Google Translate"@,
        Category::Twtl => "Twitter Timeline"@,
        Category::Camd => "Cambridge Dictionary"@,
    }
}

impl Category {
    /// The display name of this category.
    pub fn as_str(&self) -> (r: &'static str)
        ensures
            r@ == cate_name(*self),
    {
        match self {
            Category::Mafa => "Mafa",
            Category::Gtrans => "Google Translate",
            Category::Twtl => "Twitter Timeline",
            Category::Camd => "Cambridge Dictionary",
        }
    }
}

/// What kind of final answer a run hands its user.
#[derive(Debug, Copy, Clone, PartialEq, Eq, Structural)]
pub enum EurKind {
    ImodeHelper,
    GtransResult,
    GtransAllLang,
    TwtlResult,
    TwtlTryLogin,
    CamdResult,
}

/// One notified event. Phase kinds (`Initialize`, `BuildCache`,
/// `FetchResult`) come as a start/finish pair; repeatable kinds come as one
/// or more starts then one finish.
#[derive(Debug)]
pub enum MafaEvent {
    Initialize { cate: Category, is_fin: bool },
    BuildCache { cate: Category, is_fin: bool },
    FetchResult { cate: Category, is_fin: bool },
    TryNextCache { cate: Category, is_fin: bool },
    CacheRetry { cate: Category, is_fin: bool },
    SrvTempUnavRetry { cate: Category, is_fin: bool },
    ConnectTimeoutRetry { cate: Category, is_fin: bool },
    SimpleProgress { cate: Category, total: u32, curr: u32, is_fin: bool },
    FatalMafaError { cate: Category, err: MafaError },
    HandlerMissed { cate: Category, err: MafaError },
    ExactWhatRequest { cate: Category, kind: EurKind },
    ExactUserRequest { cate: Category, kind: EurKind, output: String },
    WaitSecsMayInterrupt { cate: Category, count: u64, safe: bool },
}

/// What `notify` wants written: `out` to standard output, `err` to standard
/// error, in that order, flushed.
pub struct RenderOut {
    pub out: String,
    pub err: String,
}

/// Whether the event that was logged last left its line closed. An empty
/// log counts as closed; events outside the six line-leaving kinds count
/// as closed too.
pub open spec fn prev_is_final(q: Seq<(MafaEvent, u64)>) -> bool {
    if q.len() == 0 {
        true
    } else {
        match q.last().0 {
            MafaEvent::Initialize { is_fin, .. } => is_fin,
            MafaEvent::BuildCache { is_fin, .. } => is_fin,
            MafaEvent::FetchResult { is_fin, .. } => is_fin,
            MafaEvent::CacheRetry { is_fin, .. } => is_fin,
            MafaEvent::ConnectTimeoutRetry { is_fin, .. } => is_fin,
            MafaEvent::SrvTempUnavRetry { is_fin, .. } => is_fin,
            _ => true,
        }
    }
}

/// The newline that reopens a closed line, or nothing.
pub open spec fn fresh_line(q: Seq<(MafaEvent, u64)>) -> Seq<char> {
    if prev_is_final(q) {
        Seq::<char>::empty()
    } else {
        "\n"@
    }
}

/// A phase label, line left open: `[Cate] Word...`.
pub open spec fn phase_open(c: Category, word: Seq<char>) -> Seq<char> {
    "["@ + cate_name(c) + "] "@ + word + "..."@
}

/// A repeatable-retry label, line left open: `[Cate] words`.
pub open spec fn retry_open(c: Category, words: Seq<char>) -> Seq<char> {
    "["@ + cate_name(c) + "] "@ + words
}

/// The word a phase kind is announced with.
pub open spec fn phase_word(ev: MafaEvent) -> Seq<char> {
    match ev {
        MafaEvent::Initialize { .. } => "Initializing"@,
        MafaEvent::BuildCache { .. } => "Building cache"@,
        _ => "Fetching result"@,
    }
}

/// The words a repeatable kind is announced with.
pub open spec fn retry_words(ev: MafaEvent) -> Seq<char> {
    match ev {
        MafaEvent::CacheRetry { .. } => "Build cache failed, retrying"@,
        MafaEvent::SrvTempUnavRetry { .. } => "Service temporarily unavaiable, retrying"@,
        MafaEvent::ConnectTimeoutRetry { .. } => "Connection timeout, retrying"@,
        _ => "Trying other caches"@,
    }
}

/// Do two events carry the same kind?
pub open spec fn same_kind(a: MafaEvent, b: MafaEvent) -> bool {
    match (a, b) {
        (MafaEvent::Initialize { .. }, MafaEvent::Initialize { .. }) => true,
        (MafaEvent::BuildCache { .. }, MafaEvent::BuildCache { .. }) => true,
        (MafaEvent::FetchResult { .. }, MafaEvent::FetchResult { .. }) => true,
        (MafaEvent::TryNextCache { .. }, MafaEvent::TryNextCache { .. }) => true,
        (MafaEvent::CacheRetry { .. }, MafaEvent::CacheRetry { .. }) => true,
        (MafaEvent::SrvTempUnavRetry { .. }, MafaEvent::SrvTempUnavRetry { .. }) => true,
        (MafaEvent::ConnectTimeoutRetry { .. }, MafaEvent::ConnectTimeoutRetry { .. }) => true,
        (MafaEvent::SimpleProgress { .. }, MafaEvent::SimpleProgress { .. }) => true,
        _ => false,
    }
}

/// The category an event carries.
pub open spec fn ev_cate(ev: MafaEvent) -> Category {
    match ev {
        MafaEvent::Initialize { cate, .. } => cate,
        MafaEvent::BuildCache { cate, .. } => cate,
        MafaEvent::FetchResult { cate, .. } => cate,
        MafaEvent::TryNextCache { cate, .. } => cate,
        MafaEvent::CacheRetry { cate, .. } => cate,
        MafaEvent::SrvTempUnavRetry { cate, .. } => cate,
        MafaEvent::ConnectTimeoutRetry { cate, .. } => cate,
        MafaEvent::SimpleProgress { cate, .. } => cate,
        MafaEvent::FatalMafaError { cate, .. } => cate,
        MafaEvent::HandlerMissed { cate, .. } => cate,
        MafaEvent::ExactWhatRequest { cate, .. } => cate,
        MafaEvent::ExactUserRequest { cate, .. } => cate,
        MafaEvent::WaitSecsMayInterrupt { cate, .. } => cate,
    }
}

/// Whether an event carries `is_fin == true`.
pub open spec fn ev_is_fin(ev: MafaEvent) -> bool {
    match ev {
        MafaEvent::Initialize { is_fin, .. } => is_fin,
        MafaEvent::BuildCache { is_fin, .. } => is_fin,
        MafaEvent::FetchResult { is_fin, .. } => is_fin,
        MafaEvent::TryNextCache { is_fin, .. } => is_fin,
        MafaEvent::CacheRetry { is_fin, .. } => is_fin,
        MafaEvent::SrvTempUnavRetry { is_fin, .. } => is_fin,
        MafaEvent::ConnectTimeoutRetry { is_fin, .. } => is_fin,
        MafaEvent::SimpleProgress { is_fin, .. } => is_fin,
        _ => false,
    }
}

/// What a phase event (`Initialize`, `BuildCache`, `FetchResult`) prints.
/// A start prints its label and leaves the line open. A finish appends
/// `ok` to its own still-open label, or prints a whole fresh `label...ok`
/// line; on an empty log a finish prints nothing.
pub open spec fn render_phase(q: Seq<(MafaEvent, u64)>, ev: MafaEvent) -> Seq<char> {
    if !ev_is_fin(ev) {
        phase_open(ev_cate(ev), phase_word(ev))
    } else if q.len() == 0 {
        Seq::<char>::empty()
    } else if same_kind(q.last().0, ev) {
        "ok\n"@
    } else {
        fresh_line(q) + phase_open(ev_cate(ev), phase_word(ev)) + "ok\n"@
    }
}

/// What a repeatable retry event prints. The first start prints its label
/// and leaves the line open; each further start of the same category
/// appends one dot; the finish closes the line — but only if the retrying
/// actually printed, else the finish is absorbed without output.
pub open spec fn render_retry(q: Seq<(MafaEvent, u64)>, ev: MafaEvent) -> Seq<char> {
    if ev_is_fin(ev) {
        if q.len() > 0 && same_kind(q.last().0, ev) {
            "\n"@
        } else {
            Seq::<char>::empty()
        }
    } else {
        if q.len() > 0 && same_kind(q.last().0, ev) {
            if ev_cate(q.last().0) == ev_cate(ev) && ev_is_fin(q.last().0) == ev_is_fin(ev) {
                "."@
            } else {
                Seq::<char>::empty()
            }
        } else {
            fresh_line(q) + retry_open(ev_cate(ev), retry_words(ev))
        }
    }
}

/// A finish with no matching start logged right before it is dropped from
/// the log entirely — the one-off absorb rule.
pub open spec fn absorbs(q: Seq<(MafaEvent, u64)>, ev: MafaEvent) -> bool {
    match ev {
        MafaEvent::TryNextCache { .. } => ev_is_fin(ev) && !(q.len() > 0 && same_kind(
            q.last().0,
            ev,
        )),
        MafaEvent::CacheRetry { .. } => ev_is_fin(ev) && !(q.len() > 0 && same_kind(
            q.last().0,
            ev,
        )),
        MafaEvent::SrvTempUnavRetry { .. } => ev_is_fin(ev) && !(q.len() > 0 && same_kind(
            q.last().0,
            ev,
        )),
        MafaEvent::ConnectTimeoutRetry { .. } => ev_is_fin(ev) && !(q.len() > 0 && same_kind(
            q.last().0,
            ev,
        )),
        _ => false,
    }
}

/// The decimal digit characters of `n`, most significant first.
pub open spec fn dec_chars(n: nat) -> Seq<char>
    decreases n,
{
    if n < 10 {
        seq![digit_char(n)]
    } else {
        dec_chars(n / 10) + seq![digit_char(n % 10)]
    }
}

/// The character of one decimal digit.
pub open spec fn digit_char(n: nat) -> char {
    if n == 0 {
        '0'
    } else if n == 1 {
        '1'
    } else if n == 2 {
        '2'
    } else if n == 3 {
        '3'
    } else if n == 4 {
        '4'
    } else if n == 5 {
        '5'
    } else if n == 6 {
        '6'
    } else if n == 7 {
        '7'
    } else if n == 8 {
        '8'
    } else {
        '9'
    }
}

/// Writes `n` in decimal.
pub fn u64_dec_str(n: u64) -> (r: String)
    ensures
        r@ == dec_chars(n as nat),
    decreases n,
{
    if n < 10 {
        let mut s = String::new();
        let d: &'static str = match n {
            0 => "0",
            1 => "1",
            2 => "2",
            3 => "3",
            4 => "4",
            5 => "5",
            6 => "6",
            7 => "7",
            8 => "8",
            _ => "9",
        };
        proof {
            reveal_strlit("0");
            reveal_strlit("1");
            reveal_strlit("2");
            reveal_strlit("3");
            reveal_strlit("4");
            reveal_strlit("5");
            reveal_strlit("6");
            reveal_strlit("7");
            reveal_strlit("8");
            reveal_strlit("9");
        }
        s.append(d);
        proof {
            assert(s@ =~= dec_chars(n as nat));
        }
        s
    } else {
        let mut s = u64_dec_str(n / 10);
        let d: &'static str = match n % 10 {
            0 => "0",
            1 => "1",
            2 => "2",
            3 => "3",
            4 => "4",
            5 => "5",
            6 => "6",
            7 => "7",
            8 => "8",
            _ => "9",
        };
        proof {
            reveal_strlit("0");
            reveal_strlit("1");
            reveal_strlit("2");
            reveal_strlit("3");
            reveal_strlit("4");
            reveal_strlit("5");
            reveal_strlit("6");
            reveal_strlit("7");
            reveal_strlit("8");
            reveal_strlit("9");
        }
        s.append(d);
        proof {
            assert(s@ =~= dec_chars(n as nat));
        }
        s
    }
}

/// The integer percentage a progress event shows: truncated, and zero when
/// the total is zero.
pub open spec fn progress_pct(curr: u32, total: u32) -> nat {
    if total == 0 {
        0
    } else {
        (((curr as nat) * 100) / (total as nat)) as nat
    }
}

/// The body a progress event prints: `[Cate] curr/total (pct%)`.
pub open spec fn progress_body(c: Category, curr: u32, total: u32) -> Seq<char> {
    "["@ + cate_name(c) + "] "@ + dec_chars(curr as nat) + "/"@ + dec_chars(total as nat) + " ("@
        + dec_chars(progress_pct(curr, total)) + "%)"@
}

/// What a progress event prints: a carriage return rewinds the line while
/// the previous event was the same progress (same category and total); the
/// final event closes the line.
pub open spec fn render_progress(
    q: Seq<(MafaEvent, u64)>,
    c: Category,
    total: u32,
    curr: u32,
    is_fin: bool,
) -> Seq<char> {
    let head = if q.len() > 0 && same_kind(q.last().0, MafaEvent::SimpleProgress {
        cate: c,
        total,
        curr,
        is_fin,
    }) {
        if ev_cate(q.last().0) == c && progress_total(q.last().0) == total {
            "\r"@
        } else {
            Seq::<char>::empty()
        }
    } else {
        fresh_line(q)
    };
    head + progress_body(c, curr, total) + (if is_fin {
        "\n"@
    } else {
        Seq::<char>::empty()
    })
}

/// The total a progress event carries.
pub open spec fn progress_total(ev: MafaEvent) -> u32 {
    match ev {
        MafaEvent::SimpleProgress { total, .. } => total,
        _ => 0,
    }
}

/// The `error: ` prefix, coloured or plain.
pub open spec fn err_prefix(color: bool) -> Seq<char> {
    if color {
        "\u{1b}[31;1merror: \u{1b}[0m"@
    } else {
        "error: "@
    }
}

/// The name of a rebuild failure kind.
pub open spec fn rebuild_kind_name(k: crate::error::CacheRebuildFailKind) -> Seq<char> {
    match k {
        crate::error::CacheRebuildFailKind::UpathNotFound => "UpathNotFound"@,
        crate::error::CacheRebuildFailKind::UpathLenNotMatched => "UpathLenNotMatched"@,
        crate::error::CacheRebuildFailKind::UpathValNotMatched => "UpathValNotMatched"@,
        crate::error::CacheRebuildFailKind::UpathLenZero => "UpathLenZero"@,
    }
}

/// A short, stable description of an error: its variant name with any
/// plain fields spelled out.
pub open spec fn err_describe(e: MafaError) -> Seq<char> {
    match e {
        MafaError::Buggy => "Buggy"@,
        MafaError::BugFound(n) => "BugFound("@ + dec_chars(n as nat) + ")"@,
        MafaError::ClapMatchError(s) => "ClapMatchError("@ + s@ + ")"@,
        MafaError::InvalidTimeoutPageLoad => "InvalidTimeoutPageLoad"@,
        MafaError::InvalidTimeoutScript => "InvalidTimeoutScript"@,
        MafaError::InvalidSocks5Proxy => "InvalidSocks5Proxy"@,
        MafaError::InvalidSourceLang => "InvalidSourceLang"@,
        MafaError::InvalidTargetLang => "InvalidTargetLang"@,
        MafaError::InvalidWords => "InvalidWords"@,
        MafaError::InvalidTwitterUsername => "InvalidTwitterUsername"@,
        MafaError::InvalidNumTweets => "InvalidNumTweets"@,
        MafaError::InvalidWrapWidth => "InvalidWrapWidth"@,
        MafaError::WebDrvCmdRejected(a, b) => "WebDrvCmdRejected("@ + a@ + ", "@ + b@ + ")"@,
        MafaError::UnexpectedWda(s) => "UnexpectedWda("@ + s@ + ")"@,
        MafaError::InvalidUseProfile => "InvalidUseProfile"@,
        MafaError::FirefoxNotFound => "FirefoxNotFound"@,
        MafaError::CacheRebuildFail(k) => "CacheRebuildFail("@ + rebuild_kind_name(k) + ")"@,
        MafaError::CacheNotBuildable => "CacheNotBuildable"@,
        MafaError::AllCachesInvalid => "AllCachesInvalid"@,
        MafaError::DataFetchedNotReachable => "DataFetchedNotReachable"@,
        MafaError::UpathNotFound => "UpathNotFound"@,
        MafaError::UpathLenNotMatched => "UpathLenNotMatched"@,
        MafaError::UpathValNotMatched => "UpathValNotMatched"@,
        MafaError::TweetNotRecoginized(n) => "TweetNotRecoginized("@ + dec_chars(n as nat) + ")"@,
        MafaError::CamdLevelNotRecoginized(n) => "CamdLevelNotRecoginized("@ + dec_chars(n as nat)
            + ")"@,
        MafaError::CacheCorrupted => "CacheCorrupted"@,
        MafaError::MafaDataCacheNotFound => "MafaDataCacheNotFound"@,
        MafaError::RequireLogin => "RequireLogin"@,
        MafaError::MustGui => "MustGui"@,
    }
}

/// The one-line message a fatal error is reported with. Transport
/// rejections are folded by their message text: name-resolution and
/// certificate failures and proxy failures get a plain wording, script
/// timeouts their own, everything else the raw rejection.
pub open spec fn fatal_msg(cate: Category, err: MafaError) -> Seq<char> {
    match err {
        MafaError::InvalidSocks5Proxy => "socks5 proxy is not a valid value("@ + cate_name(cate)
            + ")"@,
        MafaError::InvalidTimeoutPageLoad => "page load timeout is not a valid value("@ + cate_name(
            cate,
        ) + ")"@,
        MafaError::InvalidTimeoutScript => "script timeout is not a valid value("@ + cate_name(
            cate,
        ) + ")"@,
        MafaError::InvalidSourceLang => "invalid source language("@ + cate_name(cate) + ")"@,
        MafaError::InvalidTargetLang => "invalid target language("@ + cate_name(cate) + ")"@,
        MafaError::AllCachesInvalid => "all caches invalid("@ + cate_name(cate) + ")"@,
        MafaError::CacheNotBuildable => "cache not buildable("@ + cate_name(cate) + ")"@,
        MafaError::RequireLogin => "login required ("@ + cate_name(cate) + ")"@,
        MafaError::MustGui => "GUI mode required, try again with --gui option ("@ + cate_name(cate)
            + ")"@,
        MafaError::DataFetchedNotReachable => "website is not reachable ("@ + cate_name(cate)
            + ")"@,
        MafaError::WebDrvCmdRejected(e, m) => {
            let mb = vstd::utf8::encode_utf8(m@);
            if contains_seq(mb, "neterror".spec_bytes()) && (contains_seq(
                mb,
                "dnsNotFound".spec_bytes(),
            ) || contains_seq(mb, "nssFailure".spec_bytes())) {
                "internet connection failed"@
            } else if contains_seq(mb, "neterror".spec_bytes()) && contains_seq(
                mb,
                "proxyConnectFailure".spec_bytes(),
            ) {
                "proxy connection failed"@
            } else if vstd::utf8::encode_utf8(e@) == "script timeout".spec_bytes() {
                "script evaluation timeout ("@ + cate_name(cate) + ")"@
            } else {
                "webdriver cmd rejected("@ + cate_name(cate) + ","@ + e@ + ","@ + m@ + ")"@
            }
        },
        MafaError::UnexpectedWda(s) => "unexpected wda error("@ + cate_name(cate) + "): "@ + s@,
        MafaError::CacheRebuildFail(k) => "rebuild cache failed("@ + cate_name(cate) + "): "@
            + rebuild_kind_name(k),
        _ => "unexpected: "@ + err_describe(err),
    }
}

/// Everything `notify` writes to standard error. Errors are never
/// silenced. A command-line usage error prints as the usage text alone;
/// every other fatal error gets the `error: ` prefix and one line.
pub open spec fn notify_err_spec(color: bool, q: Seq<(MafaEvent, u64)>, ev: MafaEvent) -> Seq<
    char,
> {
    match ev {
        MafaEvent::FatalMafaError { cate, err } => match err {
            MafaError::ClapMatchError(s) => fresh_line(q) + s@,
            _ => fresh_line(q) + err_prefix(color) + fatal_msg(cate, err) + "\n"@,
        },
        MafaEvent::HandlerMissed { cate, err } => fresh_line(q) + err_prefix(color)
            + "handler for "@ + err_describe(err) + " not found ("@ + cate_name(cate) + ")"@
            + "\n"@,
        _ => Seq::<char>::empty(),
    }
}

/// Everything `notify` writes to standard output. The silent toggle
/// suppresses progress output; the final answer and the explicit
/// wait-for-user notice still print.
pub open spec fn notify_out_spec(
    smode: bool,
    color: bool,
    q: Seq<(MafaEvent, u64)>,
    ev: MafaEvent,
) -> Seq<char> {
    match ev {
        MafaEvent::ExactUserRequest { output, .. } => fresh_line(q) + (if vstd::utf8::encode_utf8(
            output@,
        )[0] != 0x5f {
            output@ + "\n"@
        } else {
            Seq::<char>::empty()
        }),
        MafaEvent::WaitSecsMayInterrupt { cate, count, safe } => fresh_line(q) + "["@ + cate_name(
            cate,
        ) + "] Please finish in "@ + dec_chars(count as nat) + " seconds, "@ + (if safe {
            if color {
                "press \u{1b}[40;1mCtrl-C\u{1b}[0m here if finished."@
            } else {
                "press Ctrl-C here if finished."@
            }
        } else {
            if color {
                "do \u{1b}[40;1mNOT\u{1b}[0m press other keys."@
            } else {
                "do NOT press other keys."@
            }
        }) + "\n"@,
        MafaEvent::Initialize { .. } => if smode {
            Seq::<char>::empty()
        } else {
            render_phase(q, ev)
        },
        MafaEvent::BuildCache { .. } => if smode {
            Seq::<char>::empty()
        } else {
            render_phase(q, ev)
        },
        MafaEvent::FetchResult { .. } => if smode {
            Seq::<char>::empty()
        } else {
            render_phase(q, ev)
        },
        MafaEvent::TryNextCache { .. } => if smode {
            Seq::<char>::empty()
        } else {
            render_retry(q, ev)
        },
        MafaEvent::CacheRetry { .. } => if smode {
            Seq::<char>::empty()
        } else {
            render_retry(q, ev)
        },
        MafaEvent::SrvTempUnavRetry { .. } => if smode {
            Seq::<char>::empty()
        } else {
            render_retry(q, ev)
        },
        MafaEvent::ConnectTimeoutRetry { .. } => if smode {
            Seq::<char>::empty()
        } else {
            render_retry(q, ev)
        },
        MafaEvent::SimpleProgress { cate, total, curr, is_fin } => if smode {
            Seq::<char>::empty()
        } else {
            render_progress(q, cate, total, curr, is_fin)
        },
        _ => Seq::<char>::empty(),
    }
}

/// The shared event log and its two write-time toggles.
pub struct EventNotifier {
    pub smode: bool,
    pub color: bool,
    pub queue: Vec<(MafaEvent, u64)>,
}

impl EventNotifier {
    /// A fresh notifier: not silent, coloured, empty log.
    pub fn new() -> (r: Self)
        ensures
            !r.smode,
            r.color,
            r.queue@.len() == 0,
    {
        EventNotifier { smode: false, color: true, queue: Vec::new() }
    }

    pub fn set_silent(&mut self)
        ensures
            final(self).smode && final(self).color == old(self).color && final(self).queue@ == old(
                self,
            ).queue@,
    {
        self.smode = true;
    }

    pub fn set_nsilent(&mut self)
        ensures
            !final(self).smode && final(self).color == old(self).color && final(self).queue@
                == old(self).queue@,
    {
        self.smode = false;
    }

    pub fn set_color(&mut self)
        ensures
            final(self).color && final(self).smode == old(self).smode && final(self).queue@ == old(
                self,
            ).queue@,
    {
        self.color = true;
    }

    pub fn set_nocolor(&mut self)
        ensures
            !final(self).color && final(self).smode == old(self).smode && final(self).queue@
                == old(self).queue@,
    {
        self.color = false;
    }

    fn is_prev_final(&self) -> (r: bool)
        ensures
            r == prev_is_final(self.queue@),
    {
        if self.queue.len() == 0 {
            return true;
        }
        let last = &self.queue[self.queue.len() - 1].0;
        match last {
            MafaEvent::Initialize { is_fin, .. } => *is_fin,
            MafaEvent::BuildCache { is_fin, .. } => *is_fin,
            MafaEvent::FetchResult { is_fin, .. } => *is_fin,
            MafaEvent::CacheRetry { is_fin, .. } => *is_fin,
            MafaEvent::ConnectTimeoutRetry { is_fin, .. } => *is_fin,
            MafaEvent::SrvTempUnavRetry { is_fin, .. } => *is_fin,
            _ => true,
        }
    }

    fn fresh_line_str(&self) -> (r: &'static str)
        ensures
            r@ == fresh_line(self.queue@),
    {
        if self.is_prev_final() {
            proof {
                reveal_strlit("");
            }
            ""
        } else {
            "\n"
        }
    }
}

/// Phase kinds, for checking the log's last entry against an event.
#[derive(Copy, Clone, PartialEq, Eq, Structural)]
enum PhaseTag {
    Init,
    Build,
    Fetch,
}

/// Repeatable kinds, likewise.
#[derive(Copy, Clone, PartialEq, Eq, Structural)]
enum RetryTag {
    TryNext,
    CacheR,
    SrvR,
    ConnR,
}

impl EventNotifier {
    fn render_phase_exec(
        &self,
        cate: Category,
        is_fin: bool,
        tag: PhaseTag,
        word: &'static str,
        Ghost(ev): Ghost<MafaEvent>,
    ) -> (o: String)
        requires
            word@ == phase_word(ev),
            ev_cate(ev) == cate,
            ev_is_fin(ev) == is_fin,
            tag == PhaseTag::Init <==> ev matches MafaEvent::Initialize { .. },
            tag == PhaseTag::Build <==> ev matches MafaEvent::BuildCache { .. },
            tag == PhaseTag::Fetch <==> ev matches MafaEvent::FetchResult { .. },
        ensures
            o@ == if self.smode {
                Seq::<char>::empty()
            } else {
                render_phase(self.queue@, ev)
            },
    {
        let mut o = String::new();
        if self.smode {
            return o;
        }
        if !is_fin {
            o.append("[");
            o.append(cate.as_str());
            o.append("] ");
            o.append(word);
            o.append("...");
            proof {
                assert(o@ =~= render_phase(self.queue@, ev));
            }
        } else if self.queue.len() > 0 {
            let last = &self.queue[self.queue.len() - 1].0;
            let last_same: bool = match (last, tag) {
                (MafaEvent::Initialize { .. }, PhaseTag::Init) => true,
                (MafaEvent::BuildCache { .. }, PhaseTag::Build) => true,
                (MafaEvent::FetchResult { .. }, PhaseTag::Fetch) => true,
                _ => false,
            };
            proof {
                assert(self.queue@[self.queue@.len() - 1] == self.queue@.last());
                assert(last_same == same_kind(self.queue@.last().0, ev));
            }
            if last_same {
                o.append("ok\n");
                proof {
                    assert(o@ =~= render_phase(self.queue@, ev));
                }
            } else {
                let fl = self.fresh_line_str();
                o.append(fl);
                o.append("[");
                o.append(cate.as_str());
                o.append("] ");
                o.append(word);
                o.append("...");
                o.append("ok\n");
                proof {
                    assert(o@ =~= render_phase(self.queue@, ev));
                }
            }
        } else {
            proof {
                assert(o@ =~= render_phase(self.queue@, ev));
            }
        }
        o
    }

    fn render_retry_exec(
        &self,
        cate: Category,
        is_fin: bool,
        tag: RetryTag,
        words: &'static str,
        Ghost(ev): Ghost<MafaEvent>,
    ) -> (o: String)
        requires
            words@ == retry_words(ev),
            ev_cate(ev) == cate,
            ev_is_fin(ev) == is_fin,
            tag == RetryTag::TryNext <==> ev matches MafaEvent::TryNextCache { .. },
            tag == RetryTag::CacheR <==> ev matches MafaEvent::CacheRetry { .. },
            tag == RetryTag::SrvR <==> ev matches MafaEvent::SrvTempUnavRetry { .. },
            tag == RetryTag::ConnR <==> ev matches MafaEvent::ConnectTimeoutRetry { .. },
        ensures
            o@ == if self.smode {
                Seq::<char>::empty()
            } else {
                render_retry(self.queue@, ev)
            },
    {
        let mut o = String::new();
        if self.smode {
            return o;
        }
        let qlen = self.queue.len();
        let mut last_same: bool = false;
        let mut last_cate: Category = cate;
        let mut last_fin: bool = false;
        if qlen > 0 {
            let last = &self.queue[qlen - 1].0;
            match (last, tag) {
                (MafaEvent::TryNextCache { cate: oc, is_fin: ofin }, RetryTag::TryNext) => {
                    last_same = true;
                    last_cate = *oc;
                    last_fin = *ofin;
                },
                (MafaEvent::CacheRetry { cate: oc, is_fin: ofin }, RetryTag::CacheR) => {
                    last_same = true;
                    last_cate = *oc;
                    last_fin = *ofin;
                },
                (MafaEvent::SrvTempUnavRetry { cate: oc, is_fin: ofin }, RetryTag::SrvR) => {
                    last_same = true;
                    last_cate = *oc;
                    last_fin = *ofin;
                },
                (MafaEvent::ConnectTimeoutRetry { cate: oc, is_fin: ofin }, RetryTag::ConnR) => {
                    last_same = true;
                    last_cate = *oc;
                    last_fin = *ofin;
                },
                _ => {},
            }
            proof {
                assert(self.queue@[self.queue@.len() - 1] == self.queue@.last());
                assert(last_same == same_kind(self.queue@.last().0, ev));
                assert(last_same ==> last_cate == ev_cate(self.queue@.last().0) && last_fin
                    == ev_is_fin(self.queue@.last().0));
            }
        }
        if is_fin {
            if last_same {
                o.append("\n");
            }
            proof {
                assert(o@ =~= render_retry(self.queue@, ev));
            }
        } else {
            if last_same {
                if last_cate == cate && last_fin == is_fin {
                    o.append(".");
                }
                proof {
                    assert(o@ =~= render_retry(self.queue@, ev));
                }
            } else {
                let fl = self.fresh_line_str();
                o.append(fl);
                o.append("[");
                o.append(cate.as_str());
                o.append("] ");
                o.append(words);
                proof {
                    assert(o@ =~= render_retry(self.queue@, ev));
                }
            }
        }
        o
    }

    #[verifier::rlimit(100)]
    fn render_progress_exec(&self, cate: Category, total: u32, curr: u32, is_fin: bool) -> (o:
        String)
        ensures
            o@ == if self.smode {
                Seq::<char>::empty()
            } else {
                render_progress(self.queue@, cate, total, curr, is_fin)
            },
    {
        let mut o = String::new();
        if self.smode {
            return o;
        }
        let ghost ev = MafaEvent::SimpleProgress { cate, total, curr, is_fin };
        let qlen = self.queue.len();
        let mut last_same: bool = false;
        let mut last_cate: Category = cate;
        let mut last_total: u32 = 0;
        if qlen > 0 {
            let last = &self.queue[qlen - 1].0;
            match last {
                MafaEvent::SimpleProgress { cate: oc, total: ot, .. } => {
                    last_same = true;
                    last_cate = *oc;
                    last_total = *ot;
                },
                _ => {},
            }
            proof {
                assert(self.queue@[self.queue@.len() - 1] == self.queue@.last());
                assert(last_same == same_kind(self.queue@.last().0, ev));
                assert(last_same ==> last_cate == ev_cate(self.queue@.last().0) && last_total
                    == progress_total(self.queue@.last().0));
            }
        }
        if last_same {
            if last_cate == cate && last_total == total {
                o.append("\r");
            }
        } else {
            let fl = self.fresh_line_str();
            o.append(fl);
        }
        let ghost head = o@;
        o.append("[");
        o.append(cate.as_str());
        o.append("] ");
        let c = u64_dec_str(curr as u64);
        o.append(c.as_str());
        o.append("/");
        let t = u64_dec_str(total as u64);
        o.append(t.as_str());
        o.append(" (");
        let pct: u64 = if total == 0 {
            0
        } else {
            (curr as u64) * 100 / (total as u64)
        };
        proof {
            assert(pct as nat == progress_pct(curr, total));
        }
        let p = u64_dec_str(pct);
        o.append(p.as_str());
        o.append("%)");
        proof {
            assert(o@ =~= head + progress_body(cate, curr, total));
        }
        if is_fin {
            o.append("\n");
        }
        proof {
            assert(o@ =~= render_progress(self.queue@, cate, total, curr, is_fin));
        }
        o
    }
}

/// Writes out an error's short description.
pub fn describe_err(e: &MafaError) -> (r: String)
    ensures
        r@ == err_describe(*e),
{
    let mut o = String::new();
    match e {
        MafaError::Buggy => o.append("Buggy"),
        MafaError::BugFound(n) => {
            o.append("BugFound(");
            let d = u64_dec_str(*n as u64);
            o.append(d.as_str());
            o.append(")");
        },
        MafaError::ClapMatchError(s) => {
            o.append("ClapMatchError(");
            o.append(s.as_str());
            o.append(")");
        },
        MafaError::InvalidTimeoutPageLoad => o.append("InvalidTimeoutPageLoad"),
        MafaError::InvalidTimeoutScript => o.append("InvalidTimeoutScript"),
        MafaError::InvalidSocks5Proxy => o.append("InvalidSocks5Proxy"),
        MafaError::InvalidSourceLang => o.append("InvalidSourceLang"),
        MafaError::InvalidTargetLang => o.append("InvalidTargetLang"),
        MafaError::InvalidWords => o.append("InvalidWords"),
        MafaError::InvalidTwitterUsername => o.append("InvalidTwitterUsername"),
        MafaError::InvalidNumTweets => o.append("InvalidNumTweets"),
        MafaError::InvalidWrapWidth => o.append("InvalidWrapWidth"),
        MafaError::WebDrvCmdRejected(a, b) => {
            o.append("WebDrvCmdRejected(");
            o.append(a.as_str());
            o.append(", ");
            o.append(b.as_str());
            o.append(")");
        },
        MafaError::UnexpectedWda(s) => {
            o.append("UnexpectedWda(");
            o.append(s.as_str());
            o.append(")");
        },
        MafaError::InvalidUseProfile => o.append("InvalidUseProfile"),
        MafaError::FirefoxNotFound => o.append("FirefoxNotFound"),
        MafaError::CacheRebuildFail(k) => {
            o.append("CacheRebuildFail(");
            match k {
                crate::error::CacheRebuildFailKind::UpathNotFound => o.append("UpathNotFound"),
                crate::error::CacheRebuildFailKind::UpathLenNotMatched => o.append(
                    "UpathLenNotMatched",
                ),
                crate::error::CacheRebuildFailKind::UpathValNotMatched => o.append(
                    "UpathValNotMatched",
                ),
                crate::error::CacheRebuildFailKind::UpathLenZero => o.append("UpathLenZero"),
            }
            o.append(")");
        },
        MafaError::CacheNotBuildable => o.append("CacheNotBuildable"),
        MafaError::AllCachesInvalid => o.append("AllCachesInvalid"),
        MafaError::DataFetchedNotReachable => o.append("DataFetchedNotReachable"),
        MafaError::UpathNotFound => o.append("UpathNotFound"),
        MafaError::UpathLenNotMatched => o.append("UpathLenNotMatched"),
        MafaError::UpathValNotMatched => o.append("UpathValNotMatched"),
        MafaError::TweetNotRecoginized(n) => {
            o.append("TweetNotRecoginized(");
            let d = u64_dec_str(*n as u64);
            o.append(d.as_str());
            o.append(")");
        },
        MafaError::CamdLevelNotRecoginized(n) => {
            o.append("CamdLevelNotRecoginized(");
            let d = u64_dec_str(*n as u64);
            o.append(d.as_str());
            o.append(")");
        },
        MafaError::CacheCorrupted => o.append("CacheCorrupted"),
        MafaError::MafaDataCacheNotFound => o.append("MafaDataCacheNotFound"),
        MafaError::RequireLogin => o.append("RequireLogin"),
        MafaError::MustGui => o.append("MustGui"),
    }
    proof {
        assert(o@ =~= err_describe(*e));
    }
    o
}

/// Writes out the one-line message of a fatal error.
pub fn fatal_msg_exec(cate: Category, err: &MafaError) -> (r: String)
    ensures
        r@ == fatal_msg(cate, *err),
{
    let mut o = String::new();
    match err {
        MafaError::InvalidSocks5Proxy => {
            o.append("socks5 proxy is not a valid value(");
            o.append(cate.as_str());
            o.append(")");
        },
        MafaError::InvalidTimeoutPageLoad => {
            o.append("page load timeout is not a valid value(");
            o.append(cate.as_str());
            o.append(")");
        },
        MafaError::InvalidTimeoutScript => {
            o.append("script timeout is not a valid value(");
            o.append(cate.as_str());
            o.append(")");
        },
        MafaError::InvalidSourceLang => {
            o.append("invalid source language(");
            o.append(cate.as_str());
            o.append(")");
        },
        MafaError::InvalidTargetLang => {
            o.append("invalid target language(");
            o.append(cate.as_str());
            o.append(")");
        },
        MafaError::AllCachesInvalid => {
            o.append("all caches invalid(");
            o.append(cate.as_str());
            o.append(")");
        },
        MafaError::CacheNotBuildable => {
            o.append("cache not buildable(");
            o.append(cate.as_str());
            o.append(")");
        },
        MafaError::RequireLogin => {
            o.append("login required (");
            o.append(cate.as_str());
            o.append(")");
        },
        MafaError::MustGui => {
            o.append("GUI mode required, try again with --gui option (");
            o.append(cate.as_str());
            o.append(")");
        },
        MafaError::DataFetchedNotReachable => {
            o.append("website is not reachable (");
            o.append(cate.as_str());
            o.append(")");
        },
        MafaError::WebDrvCmdRejected(e, m) => {
            let mb = m.as_str().as_bytes();
            let has_net = crate::strutil::contains_bytes(mb, "neterror".as_bytes());
            if has_net && (crate::strutil::contains_bytes(mb, "dnsNotFound".as_bytes())
                || crate::strutil::contains_bytes(mb, "nssFailure".as_bytes())) {
                o.append("internet connection failed");
            } else if has_net && crate::strutil::contains_bytes(
                mb,
                "proxyConnectFailure".as_bytes(),
            ) {
                o.append("proxy connection failed");
            } else if crate::strutil::bytes_eq(e.as_str().as_bytes(), "script timeout".as_bytes()) {
                o.append("script evaluation timeout (");
                o.append(cate.as_str());
                o.append(")");
            } else {
                o.append("webdriver cmd rejected(");
                o.append(cate.as_str());
                o.append(",");
                o.append(e.as_str());
                o.append(",");
                o.append(m.as_str());
                o.append(")");
            }
        },
        MafaError::UnexpectedWda(s) => {
            o.append("unexpected wda error(");
            o.append(cate.as_str());
            o.append("): ");
            o.append(s.as_str());
        },
        MafaError::CacheRebuildFail(k) => {
            o.append("rebuild cache failed(");
            o.append(cate.as_str());
            o.append("): ");
            match k {
                crate::error::CacheRebuildFailKind::UpathNotFound => o.append("UpathNotFound"),
                crate::error::CacheRebuildFailKind::UpathLenNotMatched => o.append(
                    "UpathLenNotMatched",
                ),
                crate::error::CacheRebuildFailKind::UpathValNotMatched => o.append(
                    "UpathValNotMatched",
                ),
                crate::error::CacheRebuildFailKind::UpathLenZero => o.append("UpathLenZero"),
            }
        },
        _ => {
            o.append("unexpected: ");
            let d = describe_err(err);
            o.append(d.as_str());
        },
    }
    proof {
        assert(o@ =~= fatal_msg(cate, *err));
    }
    o
}

impl EventNotifier {
    /// Logs one event and computes exactly what the terminal shows for it.
    /// The caller performs the writes; a finish with no retry logged right
    /// before it is absorbed — rendered as nothing and left off the log.
    pub fn notify(&mut self, ev: MafaEvent, now_ms: u64) -> (r: RenderOut)
        requires
            (old(self).queue@.len() + 1) < usize::MAX,
            ev matches MafaEvent::ExactUserRequest { output, .. } ==> output@.len() > 0,
        ensures
            final(self).smode == old(self).smode,
            final(self).color == old(self).color,
            final(self).queue@ == if absorbs(old(self).queue@, ev) {
                old(self).queue@
            } else {
                old(self).queue@.push((ev, now_ms))
            },
            r.out@ == notify_out_spec(old(self).smode, old(self).color, old(self).queue@, ev),
            r.err@ == notify_err_spec(old(self).color, old(self).queue@, ev),
    {
        let mut out = String::new();
        let mut err = String::new();
        let mut skip_push: bool = false;
        match &ev {
            MafaEvent::ExactUserRequest { output, .. } => {
                let fl = self.fresh_line_str();
                out.append(fl);
                let ob = output.as_str().as_bytes();
                proof {
                    assert(vstd::utf8::encode_utf8(output@).len() > 0);
                }
                if ob[0] != 0x5f {
                    out.append(output.as_str());
                    out.append("\n");
                }
                proof {
                    assert(out@ =~= notify_out_spec(self.smode, self.color, self.queue@, ev));
                }
            },
            MafaEvent::WaitSecsMayInterrupt { cate, count, safe } => {
                let fl = self.fresh_line_str();
                out.append(fl);
                out.append("[");
                out.append(cate.as_str());
                out.append("] Please finish in ");
                let c = u64_dec_str(*count);
                out.append(c.as_str());
                out.append(" seconds, ");
                if *safe {
                    if self.color {
                        out.append("press \u{1b}[40;1mCtrl-C\u{1b}[0m here if finished.");
                    } else {
                        out.append("press Ctrl-C here if finished.");
                    }
                } else {
                    if self.color {
                        out.append("do \u{1b}[40;1mNOT\u{1b}[0m press other keys.");
                    } else {
                        out.append("do NOT press other keys.");
                    }
                }
                out.append("\n");
                proof {
                    assert(out@ =~= notify_out_spec(self.smode, self.color, self.queue@, ev));
                }
            },
            MafaEvent::Initialize { cate, is_fin } => {
                out = self.render_phase_exec(
                    *cate,
                    *is_fin,
                    PhaseTag::Init,
                    "Initializing",
                    Ghost(ev),
                );
            },
            MafaEvent::BuildCache { cate, is_fin } => {
                out = self.render_phase_exec(
                    *cate,
                    *is_fin,
                    PhaseTag::Build,
                    "Building cache",
                    Ghost(ev),
                );
            },
            MafaEvent::FetchResult { cate, is_fin } => {
                out = self.render_phase_exec(
                    *cate,
                    *is_fin,
                    PhaseTag::Fetch,
                    "Fetching result",
                    Ghost(ev),
                );
            },
            MafaEvent::TryNextCache { cate, is_fin } => {
                out = self.render_retry_exec(
                    *cate,
                    *is_fin,
                    RetryTag::TryNext,
                    "Trying other caches",
                    Ghost(ev),
                );
                skip_push = self.absorbs_exec(&ev);
            },
            MafaEvent::CacheRetry { cate, is_fin } => {
                out = self.render_retry_exec(
                    *cate,
                    *is_fin,
                    RetryTag::CacheR,
                    "Build cache failed, retrying",
                    Ghost(ev),
                );
                skip_push = self.absorbs_exec(&ev);
            },
            MafaEvent::SrvTempUnavRetry { cate, is_fin } => {
                out = self.render_retry_exec(
                    *cate,
                    *is_fin,
                    RetryTag::SrvR,
                    "Service temporarily unavaiable, retrying",
                    Ghost(ev),
                );
                skip_push = self.absorbs_exec(&ev);
            },
            MafaEvent::ConnectTimeoutRetry { cate, is_fin } => {
                out = self.render_retry_exec(
                    *cate,
                    *is_fin,
                    RetryTag::ConnR,
                    "Connection timeout, retrying",
                    Ghost(ev),
                );
                skip_push = self.absorbs_exec(&ev);
            },
            MafaEvent::SimpleProgress { cate, total, curr, is_fin } => {
                out = self.render_progress_exec(*cate, *total, *curr, *is_fin);
            },
            MafaEvent::FatalMafaError { cate, err: e } => {
                let fl = self.fresh_line_str();
                err.append(fl);
                match e {
                    MafaError::ClapMatchError(s) => {
                        err.append(s.as_str());
                    },
                    _ => {
                        if self.color {
                            err.append("\u{1b}[31;1merror: \u{1b}[0m");
                        } else {
                            err.append("error: ");
                        }
                        let m = fatal_msg_exec(*cate, e);
                        err.append(m.as_str());
                        err.append("\n");
                    },
                }
                proof {
                    assert(err@ =~= notify_err_spec(self.color, self.queue@, ev));
                }
            },
            MafaEvent::HandlerMissed { cate, err: e } => {
                let fl = self.fresh_line_str();
                err.append(fl);
                if self.color {
                    err.append("\u{1b}[31;1merror: \u{1b}[0m");
                } else {
                    err.append("error: ");
                }
                err.append("handler for ");
                let d = describe_err(e);
                err.append(d.as_str());
                err.append(" not found (");
                err.append(cate.as_str());
                err.append(")");
                err.append("\n");
                proof {
                    assert(err@ =~= notify_err_spec(self.color, self.queue@, ev));
                }
            },
            MafaEvent::ExactWhatRequest { .. } => {},
        }
        if !skip_push {
            self.queue.push((ev, now_ms));
        }
        RenderOut { out, err }
    }

    fn absorbs_exec(&self, ev: &MafaEvent) -> (r: bool)
        ensures
            r == absorbs(self.queue@, *ev),
    {
        let qlen = self.queue.len();
        match ev {
            MafaEvent::TryNextCache { is_fin, .. } => {
                if !*is_fin {
                    return false;
                }
                if qlen == 0 {
                    return true;
                }
                let last = &self.queue[qlen - 1].0;
                proof {
                    assert(self.queue@[self.queue@.len() - 1] == self.queue@.last());
                }
                match last {
                    MafaEvent::TryNextCache { .. } => false,
                    _ => true,
                }
            },
            MafaEvent::CacheRetry { is_fin, .. } => {
                if !*is_fin {
                    return false;
                }
                if qlen == 0 {
                    return true;
                }
                let last = &self.queue[qlen - 1].0;
                proof {
                    assert(self.queue@[self.queue@.len() - 1] == self.queue@.last());
                }
                match last {
                    MafaEvent::CacheRetry { .. } => false,
                    _ => true,
                }
            },
            MafaEvent::SrvTempUnavRetry { is_fin, .. } => {
                if !*is_fin {
                    return false;
                }
                if qlen == 0 {
                    return true;
                }
                let last = &self.queue[qlen - 1].0;
                proof {
                    assert(self.queue@[self.queue@.len() - 1] == self.queue@.last());
                }
                match last {
                    MafaEvent::SrvTempUnavRetry { .. } => false,
                    _ => true,
                }
            },
            MafaEvent::ConnectTimeoutRetry { is_fin, .. } => {
                if !*is_fin {
                    return false;
                }
                if qlen == 0 {
                    return true;
                }
                let last = &self.queue[qlen - 1].0;
                proof {
                    assert(self.queue@[self.queue@.len() - 1] == self.queue@.last());
                }
                match last {
                    MafaEvent::ConnectTimeoutRetry { .. } => false,
                    _ => true,
                }
            },
            _ => false,
        }
    }
}

/// The timestamps `elap` hunts for, each per category.
#[derive(Copy, Clone, PartialEq, Eq, Structural)]
pub enum ElapSlot {
    InitStart,
    InitFin,
    BuildStart,
    BuildFin,
    FetchStart,
    FetchFin,
    WhatReq,
}

/// Does an event carry the timestamp a slot wants?
pub open spec fn slot_matches(ev: MafaEvent, cate: Category, slot: ElapSlot) -> bool {
    match (slot, ev) {
        (ElapSlot::InitStart, MafaEvent::Initialize { cate: c, is_fin }) => c == cate && !is_fin,
        (ElapSlot::InitFin, MafaEvent::Initialize { cate: c, is_fin }) => c == cate && is_fin,
        (ElapSlot::BuildStart, MafaEvent::BuildCache { cate: c, is_fin }) => c == cate && !is_fin,
        (ElapSlot::BuildFin, MafaEvent::BuildCache { cate: c, is_fin }) => c == cate && is_fin,
        (ElapSlot::FetchStart, MafaEvent::FetchResult { cate: c, is_fin }) => c == cate && !is_fin,
        (ElapSlot::FetchFin, MafaEvent::FetchResult { cate: c, is_fin }) => c == cate && is_fin,
        (ElapSlot::WhatReq, MafaEvent::ExactWhatRequest { cate: c, .. }) => c == cate,
        _ => false,
    }
}

/// Timestamp of the last slot match among the first `hi` log entries, or
/// `-1` when there is none. An entry stamped at exactly zero never fills a
/// slot — a zero duration counts as unfilled — so the scan walks past it.
pub open spec fn last_ts_below(
    q: Seq<(MafaEvent, u64)>,
    hi: int,
    cate: Category,
    slot: ElapSlot,
) -> int
    decreases hi + 1,
{
    if hi <= 0 || hi > q.len() {
        -1
    } else if slot_matches(q[hi - 1].0, cate, slot) && q[hi - 1].1 != 0 {
        q[hi - 1].1 as int
    } else {
        last_ts_below(q, hi - 1, cate, slot)
    }
}

/// Timestamp of the last slot match in the whole log, or `-1`.
pub open spec fn last_ts(q: Seq<(MafaEvent, u64)>, cate: Category, slot: ElapSlot) -> int {
    last_ts_below(q, q.len() as int, cate, slot)
}

/// An unfound timestamp counts as the start of time.
pub open spec fn ts_or_zero(x: int) -> int {
    if x < 0 {
        0
    } else {
        x
    }
}

/// A phase duration: finish minus start, clamping an inverted pair to zero.
pub open spec fn phase_dur(s: int, e: int) -> int {
    if ts_or_zero(e) < ts_or_zero(s) {
        0
    } else {
        ts_or_zero(e) - ts_or_zero(s)
    }
}

/// The four durations `elap` reports, in milliseconds.
pub struct ElapReport {
    pub prepare_ms: u64,
    pub cache_ms: u64,
    pub fetch_ms: u64,
    pub all_ms: u64,
}

impl EventNotifier {
    fn find_last_ts(&self, cate: Category, slot: ElapSlot) -> (r: Option<u64>)
        ensures
            r matches Some(ts) ==> last_ts(self.queue@, cate, slot) == ts as int,
            r is None ==> last_ts(self.queue@, cate, slot) == -1,
    {
        let mut hi: usize = self.queue.len();
        while hi > 0
            invariant
                0 <= hi <= self.queue@.len(),
                last_ts(self.queue@, cate, slot) == last_ts_below(
                    self.queue@,
                    hi as int,
                    cate,
                    slot,
                ),
            decreases hi,
        {
            let entry = &self.queue[hi - 1];
            let m: bool = match (&slot, &entry.0) {
                (ElapSlot::InitStart, MafaEvent::Initialize { cate: c, is_fin }) => *c == cate
                    && !*is_fin,
                (ElapSlot::InitFin, MafaEvent::Initialize { cate: c, is_fin }) => *c == cate
                    && *is_fin,
                (ElapSlot::BuildStart, MafaEvent::BuildCache { cate: c, is_fin }) => *c == cate
                    && !*is_fin,
                (ElapSlot::BuildFin, MafaEvent::BuildCache { cate: c, is_fin }) => *c == cate
                    && *is_fin,
                (ElapSlot::FetchStart, MafaEvent::FetchResult { cate: c, is_fin }) => *c == cate
                    && !*is_fin,
                (ElapSlot::FetchFin, MafaEvent::FetchResult { cate: c, is_fin }) => *c == cate
                    && *is_fin,
                (ElapSlot::WhatReq, MafaEvent::ExactWhatRequest { cate: c, .. }) => *c == cate,
                _ => false,
            };
            proof {
                assert(m == slot_matches(self.queue@[hi - 1].0, cate, slot));
            }
            if m && entry.1 != 0 {
                return Some(entry.1);
            }
            hi = hi - 1;
        }
        None
    }

    fn slot_dur(&self, cate: Category, s_slot: ElapSlot, e_slot: ElapSlot) -> (r: u64)
        ensures
            r as int == phase_dur(
                last_ts(self.queue@, cate, s_slot),
                last_ts(self.queue@, cate, e_slot),
            ),
    {
        let s = match self.find_last_ts(cate, s_slot) {
            Some(v) => v,
            None => 0,
        };
        let e = match self.find_last_ts(cate, e_slot) {
            Some(v) => v,
            None => 0,
        };
        if e < s {
            0
        } else {
            e - s
        }
    }

    /// The durations of the prepare, cache-build and fetch phases of one
    /// category's run, and the span from first preparation to the final
    /// answer: each taken between the last logged start and the last
    /// logged finish of its phase, an inverted pair counting as zero.
    /// Only the two data-serving categories report.
    pub fn elap(&self, cate: Category) -> (r: Option<ElapReport>)
        ensures
            (r is Some) == (cate == Category::Gtrans || cate == Category::Twtl),
            r matches Some(rep) ==> {
                &&& rep.prepare_ms as int == phase_dur(
                    last_ts(self.queue@, cate, ElapSlot::InitStart),
                    last_ts(self.queue@, cate, ElapSlot::InitFin),
                )
                &&& rep.cache_ms as int == phase_dur(
                    last_ts(self.queue@, cate, ElapSlot::BuildStart),
                    last_ts(self.queue@, cate, ElapSlot::BuildFin),
                )
                &&& rep.fetch_ms as int == phase_dur(
                    last_ts(self.queue@, cate, ElapSlot::FetchStart),
                    last_ts(self.queue@, cate, ElapSlot::FetchFin),
                )
                &&& rep.all_ms as int == phase_dur(
                    last_ts(self.queue@, cate, ElapSlot::InitStart),
                    last_ts(self.queue@, cate, ElapSlot::WhatReq),
                )
            },
    {
        match cate {
            Category::Gtrans | Category::Twtl => Some(
                ElapReport {
                    prepare_ms: self.slot_dur(cate, ElapSlot::InitStart, ElapSlot::InitFin),
                    cache_ms: self.slot_dur(cate, ElapSlot::BuildStart, ElapSlot::BuildFin),
                    fetch_ms: self.slot_dur(cate, ElapSlot::FetchStart, ElapSlot::FetchFin),
                    all_ms: self.slot_dur(cate, ElapSlot::InitStart, ElapSlot::WhatReq),
                },
            ),
            _ => None,
        }
    }

    /// The line the elapsed-time report prints, phase by phase.
    pub fn elap_line(&self, cate: Category) -> (r: Option<String>)
        ensures
            (r is Some) == (cate == Category::Gtrans || cate == Category::Twtl),
            r matches Some(line) ==> line@ == elap_line_spec(self.queue@, cate),
    {
        let rep = match self.elap(cate) {
            Some(v) => v,
            None => {
                return None;
            },
        };
        let mut o = String::new();
        o.append("(");
        match cate {
            Category::Twtl => o.append("Twtl"),
            _ => o.append("Google Translate"),
        }
        o.append(" | PREPARE:");
        let d1 = u64_dec_str(rep.prepare_ms);
        o.append(d1.as_str());
        o.append("ms | CACHE:");
        let d2 = u64_dec_str(rep.cache_ms);
        o.append(d2.as_str());
        o.append("ms | FETCH:");
        let d3 = u64_dec_str(rep.fetch_ms);
        o.append(d3.as_str());
        o.append("ms | ALL:");
        let d4 = u64_dec_str(rep.all_ms);
        o.append(d4.as_str());
        o.append("ms)");
        o.append("\n");
        proof {
            assert(o@ =~= elap_line_spec(self.queue@, cate));
        }
        Some(o)
    }
}

/// What the elapsed-time report shows for one category's log.
pub open spec fn elap_line_spec(q: Seq<(MafaEvent, u64)>, cate: Category) -> Seq<char> {
    "("@ + (if cate == Category::Twtl {
        "Twtl"@
    } else {
        "Google Translate"@
    }) + " | PREPARE:"@ + dec_chars(
        phase_dur(
            last_ts(q, cate, ElapSlot::InitStart),
            last_ts(q, cate, ElapSlot::InitFin),
        ) as nat,
    ) + "ms | CACHE:"@ + dec_chars(
        phase_dur(
            last_ts(q, cate, ElapSlot::BuildStart),
            last_ts(q, cate, ElapSlot::BuildFin),
        ) as nat,
    ) + "ms | FETCH:"@ + dec_chars(
        phase_dur(
            last_ts(q, cate, ElapSlot::FetchStart),
            last_ts(q, cate, ElapSlot::FetchFin),
        ) as nat,
    ) + "ms | ALL:"@ + dec_chars(
        phase_dur(
            last_ts(q, cate, ElapSlot::InitStart),
            last_ts(q, cate, ElapSlot::WhatReq),
        ) as nat,
    ) + "ms)"@ + "\n"@
}

} // verus!
