// The notifier: rendering, coalescing, the absorb rule, elapsed times.

use mafa::error::MafaError;
use mafa::ev_ntf::{Category, EventNotifier, MafaEvent};

fn retry(cate: Category, is_fin: bool) -> MafaEvent {
    MafaEvent::CacheRetry { cate, is_fin }
}

#[test]
fn cache_retry_label_dot_newline() {
    let mut ntf = EventNotifier::new();
    let r1 = ntf.notify(retry(Category::Gtrans, false), 1);
    assert_eq!(r1.out, "[Google Translate] Build cache failed, retrying");
    assert_eq!(r1.err, "");
    let r2 = ntf.notify(retry(Category::Gtrans, false), 2);
    assert_eq!(r2.out, ".");
    let r3 = ntf.notify(retry(Category::Gtrans, true), 3);
    assert_eq!(r3.out, "\n");
    // label printed once, each further start one dot, the finish closes
    let whole = format!("{}{}{}", r1.out, r2.out, r3.out);
    assert_eq!(whole, "[Google Translate] Build cache failed, retrying.\n");
}

#[test]
fn a_finish_without_a_start_is_absorbed() {
    let mut ntf = EventNotifier::new();
    let r = ntf.notify(retry(Category::Twtl, true), 1);
    assert_eq!(r.out, "");
    assert_eq!(r.err, "");
    // the absorbed event left no trace: a fresh start still prints its label
    let r2 = ntf.notify(retry(Category::Twtl, false), 2);
    assert_eq!(r2.out, "[Twitter Timeline] Build cache failed, retrying");
}

#[test]
fn phase_start_and_finish_share_a_line() {
    let mut ntf = EventNotifier::new();
    let r1 = ntf.notify(MafaEvent::Initialize { cate: Category::Mafa, is_fin: false }, 1);
    assert_eq!(r1.out, "[Mafa] Initializing...");
    let r2 = ntf.notify(MafaEvent::Initialize { cate: Category::Mafa, is_fin: true }, 2);
    assert_eq!(r2.out, "ok\n");
}

#[test]
fn interrupted_phase_finish_prints_a_whole_line() {
    let mut ntf = EventNotifier::new();
    ntf.notify(MafaEvent::Initialize { cate: Category::Gtrans, is_fin: false }, 1);
    ntf.notify(MafaEvent::BuildCache { cate: Category::Gtrans, is_fin: false }, 2);
    let r = ntf.notify(MafaEvent::Initialize { cate: Category::Gtrans, is_fin: true }, 3);
    // the open build-cache line is closed first, then the whole line prints
    assert_eq!(r.out, "\n[Google Translate] Initializing...ok\n");
}

#[test]
fn phase_finish_on_empty_log_prints_nothing() {
    let mut ntf = EventNotifier::new();
    let r = ntf.notify(MafaEvent::FetchResult { cate: Category::Camd, is_fin: true }, 1);
    assert_eq!(r.out, "");
}

#[test]
fn silent_suppresses_progress_output() {
    let mut ntf = EventNotifier::new();
    ntf.set_silent();
    let r = ntf.notify(MafaEvent::Initialize { cate: Category::Mafa, is_fin: false }, 1);
    assert_eq!(r.out, "");
    ntf.set_nsilent();
    let r2 = ntf.notify(MafaEvent::Initialize { cate: Category::Mafa, is_fin: true }, 2);
    assert_eq!(r2.out, "ok\n");
}

#[test]
fn errors_print_to_stderr_with_prefix() {
    let mut ntf = EventNotifier::new();
    ntf.set_nocolor();
    let r = ntf.notify(
        MafaEvent::FatalMafaError { cate: Category::Gtrans, err: MafaError::AllCachesInvalid },
        1,
    );
    assert_eq!(r.out, "");
    assert_eq!(r.err, "error: all caches invalid(Google Translate)\n");
}

#[test]
fn colored_error_prefix_carries_escapes() {
    let mut ntf = EventNotifier::new();
    let r = ntf.notify(
        MafaEvent::FatalMafaError {
            cate: Category::Twtl,
            err: MafaError::DataFetchedNotReachable,
        },
        1,
    );
    assert_eq!(
        r.err,
        "\u{1b}[31;1merror: \u{1b}[0mwebsite is not reachable (Twitter Timeline)\n"
    );
}

#[test]
fn transport_rejections_fold_by_message() {
    let mut ntf = EventNotifier::new();
    ntf.set_nocolor();
    let r = ntf.notify(
        MafaEvent::FatalMafaError {
            cate: Category::Gtrans,
            err: MafaError::WebDrvCmdRejected(
                "e".to_string(),
                "neterror something dnsNotFound".to_string(),
            ),
        },
        1,
    );
    assert_eq!(r.err, "error: internet connection failed\n");
    let r2 = ntf.notify(
        MafaEvent::FatalMafaError {
            cate: Category::Gtrans,
            err: MafaError::WebDrvCmdRejected(
                "script timeout".to_string(),
                "plain".to_string(),
            ),
        },
        2,
    );
    assert_eq!(r2.err, "error: script evaluation timeout (Google Translate)\n");
}

#[test]
fn progress_rewinds_its_line() {
    let mut ntf = EventNotifier::new();
    ntf.notify(
        MafaEvent::SimpleProgress { cate: Category::Twtl, total: 10, curr: 3, is_fin: false },
        1,
    );
    let r = ntf.notify(
        MafaEvent::SimpleProgress { cate: Category::Twtl, total: 10, curr: 7, is_fin: false },
        2,
    );
    assert_eq!(r.out, "\r[Twitter Timeline] 7/10 (70%)");
    let done = ntf.notify(
        MafaEvent::SimpleProgress { cate: Category::Twtl, total: 10, curr: 10, is_fin: true },
        3,
    );
    assert_eq!(done.out, "\r[Twitter Timeline] 10/10 (100%)\n");
}

#[test]
fn final_answer_prints_even_when_silent() {
    let mut ntf = EventNotifier::new();
    ntf.set_silent();
    let r = ntf.notify(
        MafaEvent::ExactUserRequest {
            cate: Category::Gtrans,
            kind: mafa::ev_ntf::EurKind::GtransResult,
            output: "merci".to_string(),
        },
        1,
    );
    assert_eq!(r.out, "merci\n");
    // an answer opening with an underscore stays quiet
    let r2 = ntf.notify(
        MafaEvent::ExactUserRequest {
            cate: Category::Gtrans,
            kind: mafa::ev_ntf::EurKind::GtransResult,
            output: "_".to_string(),
        },
        2,
    );
    assert_eq!(r2.out, "");
}

#[test]
fn elapsed_takes_last_start_and_finish() {
    let mut ntf = EventNotifier::new();
    ntf.notify(MafaEvent::Initialize { cate: Category::Gtrans, is_fin: false }, 100);
    ntf.notify(MafaEvent::Initialize { cate: Category::Gtrans, is_fin: true }, 350);
    ntf.notify(MafaEvent::BuildCache { cate: Category::Gtrans, is_fin: false }, 350);
    ntf.notify(MafaEvent::BuildCache { cate: Category::Gtrans, is_fin: true }, 400);
    ntf.notify(MafaEvent::FetchResult { cate: Category::Gtrans, is_fin: false }, 400);
    ntf.notify(MafaEvent::FetchResult { cate: Category::Gtrans, is_fin: true }, 900);
    ntf.notify(
        MafaEvent::ExactWhatRequest {
            cate: Category::Gtrans,
            kind: mafa::ev_ntf::EurKind::GtransResult,
        },
        910,
    );
    let rep = ntf.elap(Category::Gtrans).expect("a data-serving category");
    assert_eq!(rep.prepare_ms, 250);
    assert_eq!(rep.cache_ms, 50);
    assert_eq!(rep.fetch_ms, 500);
    assert_eq!(rep.all_ms, 810);
    let line = ntf.elap_line(Category::Gtrans).unwrap();
    assert_eq!(
        line,
        "(Google Translate | PREPARE:250ms | CACHE:50ms | FETCH:500ms | ALL:810ms)\n"
    );
    assert!(ntf.elap(Category::Mafa).is_none());
}

#[test]
fn elapsed_clamps_inverted_phases() {
    let mut ntf = EventNotifier::new();
    // only a finish is on record: its pair clamps to zero
    ntf.notify(MafaEvent::Initialize { cate: Category::Twtl, is_fin: false }, 700);
    let rep = ntf.elap(Category::Twtl).unwrap();
    assert_eq!(rep.prepare_ms, 0);
    assert_eq!(rep.all_ms, 0);
}

#[test]
fn wait_notice_names_the_interrupt_key() {
    let mut ntf = EventNotifier::new();
    ntf.set_nocolor();
    let r = ntf.notify(
        MafaEvent::WaitSecsMayInterrupt { cate: Category::Twtl, count: 60, safe: true },
        1,
    );
    assert_eq!(
        r.out,
        "[Twitter Timeline] Please finish in 60 seconds, press Ctrl-C here if finished.\n"
    );
}

#[test]
fn elapsed_skips_zero_stamped_events() {
    let mut ntf = EventNotifier::new();
    ntf.notify(MafaEvent::Initialize { cate: Category::Gtrans, is_fin: false }, 100);
    ntf.notify(MafaEvent::Initialize { cate: Category::Gtrans, is_fin: true }, 400);
    // a later finish stamped at the zero instant counts as unfilled
    ntf.notify(MafaEvent::Initialize { cate: Category::Gtrans, is_fin: true }, 0);
    let rep = ntf.elap(Category::Gtrans).unwrap();
    assert_eq!(rep.prepare_ms, 300);
}

#[test]
fn rebuild_failures_name_their_kind() {
    let mut ntf = EventNotifier::new();
    ntf.set_nocolor();
    let r = ntf.notify(
        MafaEvent::FatalMafaError {
            cate: Category::Camd,
            err: MafaError::CacheRebuildFail(
                mafa::error::CacheRebuildFailKind::UpathNotFound,
            ),
        },
        1,
    );
    assert_eq!(r.err, "error: rebuild cache failed(Cambridge Dictionary): UpathNotFound\n");
    let r2 = ntf.notify(
        MafaEvent::FatalMafaError {
            cate: Category::Gtrans,
            err: MafaError::CacheRebuildFail(
                mafa::error::CacheRebuildFailKind::UpathLenNotMatched,
            ),
        },
        2,
    );
    assert_eq!(
        r2.err,
        "error: rebuild cache failed(Google Translate): UpathLenNotMatched\n"
    );
}
