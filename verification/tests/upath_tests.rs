// Fingerprint derivation: common prefixes and the probe retry rounds.

use mafa::error::{CacheRebuildFailKind, MafaError};
use mafa::upath::{common_prefix_len, generalize_pair, ProbeOutcome, ProbePair, ProbeSlot};

#[test]
fn derive_generalizes_to_the_common_prefix() {
    let probe_a: Vec<u8> = vec![4, 0, 1, 0, 1, 0, 1, 1, 2, 1, 1, 9, 0, 2, 0, 0, 1];
    let probe_b: Vec<u8> = vec![4, 0, 1, 0, 1, 0, 1, 1, 2, 1, 1, 9, 0, 3, 0, 0, 1];
    let lcp = generalize_pair(&probe_a, &probe_b);
    assert_eq!(lcp, vec![4, 0, 1, 0, 1, 0, 1, 1, 2, 1, 1, 9, 0]);
    assert_eq!(lcp.len(), 13);
    assert_eq!(common_prefix_len(&probe_a, &probe_b), 13);
}

#[test]
fn derive_through_the_probe_rounds() {
    let mut pair = ProbePair::new();
    assert_eq!(pair.tries_left, 5);
    assert_eq!(pair.wait_ms, 500);
    assert_eq!(pair.next_probe(), Some(ProbeSlot::First));
    // the first probe has not found its anchor yet; the round is spent
    pair.on_probe(ProbeSlot::First, ProbeOutcome::Found(vec![])).unwrap();
    assert_eq!(pair.next_probe(), Some(ProbeSlot::First));
    assert!(!pair.end_round());
    assert_eq!(pair.tries_left, 4);
    assert_eq!(pair.wait_ms, 1000);
    // next round both resolve
    pair.on_probe(ProbeSlot::First, ProbeOutcome::Found(vec![4, 0, 1, 7])).unwrap();
    assert_eq!(pair.next_probe(), Some(ProbeSlot::Second));
    pair.on_probe(ProbeSlot::Second, ProbeOutcome::Found(vec![4, 0, 1, 9])).unwrap();
    assert!(pair.end_round());
    let got = pair.finish_generalized().unwrap();
    assert_eq!(got.0, vec![4, 0, 1]);
}

#[test]
fn timeout_rejections_are_retried_others_abort() {
    let mut pair = ProbePair::new();
    let r = pair.on_probe(
        ProbeSlot::First,
        ProbeOutcome::Rejected("timeout".to_string(), "m".to_string()),
    );
    assert!(r.is_ok());
    let r = pair.on_probe(
        ProbeSlot::First,
        ProbeOutcome::Rejected("invalid session".to_string(), "m".to_string()),
    );
    assert_eq!(
        r.unwrap_err(),
        MafaError::WebDrvCmdRejected("invalid session".to_string(), "m".to_string())
    );
}

#[test]
fn unresolved_probes_fail_the_rebuild() {
    let pair = ProbePair::new();
    match pair.finish_generalized().unwrap_err() {
        MafaError::CacheRebuildFail(CacheRebuildFailKind::UpathNotFound) => {}
        e => panic!("unexpected failure kind {:?}", e),
    }
}

#[test]
fn empty_paths_cannot_generalize() {
    let mut pair = ProbePair::new();
    pair.upath1 = Some(vec![]);
    pair.upath2 = Some(vec![1]);
    match pair.finish_generalized().unwrap_err() {
        MafaError::CacheRebuildFail(CacheRebuildFailKind::UpathLenZero) => {}
        e => panic!("unexpected failure kind {:?}", e),
    }
}

#[test]
fn prefix_of_identical_paths_is_the_whole_path() {
    let a: Vec<u8> = vec![5, 5, 5];
    let lcp = generalize_pair(&a, &a);
    assert_eq!(lcp, vec![5, 5, 5]);
    let empty: Vec<u8> = vec![];
    assert_eq!(common_prefix_len(&a, &empty), 0);
}
