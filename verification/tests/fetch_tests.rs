// The fetch state machine: candidate order, retries, failure kinds.

use mafa::error::MafaError;
use mafa::fetch::{EvalOutcome, FetchFlow, FetchStep, NavOutcome};

#[test]
fn empty_candidates_fail_before_any_navigation() {
    let flow = FetchFlow::new(0, 5, 10);
    match flow.next_step() {
        FetchStep::Finished => {}
        _ => panic!("an empty candidate list must not navigate"),
    }
    assert_eq!(flow.into_result().unwrap_err(), MafaError::AllCachesInvalid);
}

#[test]
fn first_candidate_times_out_second_succeeds() {
    let mut flow = FetchFlow::new(2, 5, 10);
    match flow.next_step() {
        FetchStep::Navigate => {}
        _ => panic!("must navigate first"),
    }
    flow.on_nav(NavOutcome::Reached);
    match flow.next_step() {
        FetchStep::Evaluate { candidate, .. } => assert_eq!(candidate, 0),
        _ => panic!("must evaluate the first candidate"),
    }
    flow.on_eval(EvalOutcome::Rejected("script timeout".to_string(), "x".to_string()));
    assert_eq!(flow.cursor, 1);
    match flow.next_step() {
        FetchStep::Navigate => {}
        _ => panic!("must re-navigate"),
    }
    flow.on_nav(NavOutcome::Reached);
    match flow.next_step() {
        FetchStep::Evaluate { candidate, .. } => assert_eq!(candidate, 1),
        _ => panic!("must evaluate the second candidate"),
    }
    flow.on_eval(EvalOutcome::Extracted("payload".to_string()));
    assert_eq!(flow.cursor, 1);
    assert_eq!(flow.into_result().unwrap(), Some("payload".to_string()));
}

#[test]
fn success_returns_at_once() {
    let mut flow = FetchFlow::new(3, 5, 10);
    flow.on_nav(NavOutcome::Reached);
    flow.on_eval(EvalOutcome::Extracted("hit".to_string()));
    match flow.next_step() {
        FetchStep::Finished => {}
        _ => panic!("a successful extraction ends the fetch"),
    }
    assert_eq!(flow.cursor, 0, "no further candidate is touched");
}

#[test]
fn exhausting_candidates_fails_all_caches_invalid() {
    let mut flow = FetchFlow::new(2, 9, 10);
    flow.on_nav(NavOutcome::Reached);
    flow.on_eval(EvalOutcome::Rejected("timeout".to_string(), "m".to_string()));
    flow.on_nav(NavOutcome::Reached);
    flow.on_eval(EvalOutcome::Rejected("timeout".to_string(), "m".to_string()));
    assert_eq!(flow.into_result().unwrap_err(), MafaError::AllCachesInvalid);
}

#[test]
fn navigation_never_succeeding_is_not_reachable() {
    let mut flow = FetchFlow::new(1, 3, 10);
    for _ in 0..3 {
        match flow.next_step() {
            FetchStep::Navigate => {}
            _ => panic!("still navigating"),
        }
        flow.on_nav(NavOutcome::Rejected("timeout".to_string(), "m".to_string()));
    }
    match flow.next_step() {
        FetchStep::Finished => {}
        _ => panic!("budget is gone"),
    }
    assert_eq!(flow.into_result().unwrap_err(), MafaError::DataFetchedNotReachable);
}

#[test]
fn nav_timeout_keeps_the_cursor() {
    let mut flow = FetchFlow::new(2, 5, 10);
    flow.on_nav(NavOutcome::Rejected("timeout".to_string(), "m".to_string()));
    assert_eq!(flow.cursor, 0);
    assert_eq!(flow.tries_left, 4);
}

#[test]
fn fatal_rejection_aborts_with_the_rejection() {
    let mut flow = FetchFlow::new(2, 5, 10);
    flow.on_nav(NavOutcome::Rejected("invalid session".to_string(), "gone".to_string()));
    assert_eq!(
        flow.into_result().unwrap_err(),
        MafaError::WebDrvCmdRejected("invalid session".to_string(), "gone".to_string())
    );
}

#[test]
fn busy_page_retries_then_gives_empty_result() {
    let mut flow = FetchFlow::new(1, 2, 10);
    flow.on_nav(NavOutcome::Reached);
    flow.on_eval(EvalOutcome::Busy);
    flow.on_nav(NavOutcome::Reached);
    flow.on_eval(EvalOutcome::Busy);
    // the budget ran out after the page was reached: no text, no error
    assert_eq!(flow.into_result().unwrap(), None);
}

#[test]
fn backoff_doubles_on_retry() {
    let mut flow = FetchFlow::new(2, 5, 10);
    flow.on_nav(NavOutcome::Reached);
    flow.on_eval(EvalOutcome::Rejected("timeout".to_string(), "m".to_string()));
    assert_eq!(flow.wait_ms, 20);
}
