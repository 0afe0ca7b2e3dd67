// The fingerprint cache: seeding, appending, decoding.

use mafa::cache::{encode_ulpath_line, encode_upath_line, load_ulpaths, load_upaths,
    parse_ulpath_line, parse_upath_line, split_lines_exec, CacheFile};
use mafa::error::MafaError;

#[test]
fn load_single_seed_line() {
    let data = b"[11,1,1,3,3]\n-";
    let got = load_upaths(data).expect("clean file");
    assert_eq!(got, vec![vec![11u8, 1, 1, 3, 3]]);
}

#[test]
fn load_two_lines_newest_first() {
    let data = b"[4,0,1]\n[11,1,1,3,3]\n-";
    let got = load_upaths(data).expect("clean file");
    assert_eq!(got, vec![vec![4u8, 0, 1], vec![11u8, 1, 1, 3, 3]]);
}

#[test]
fn load_rejects_empty_array_line() {
    let data = b"[]\n-";
    assert_eq!(load_upaths(data).unwrap_err(), MafaError::CacheCorrupted);
}

#[test]
fn load_rejects_malformed_line() {
    assert_eq!(load_upaths(b"[1,2\n-").unwrap_err(), MafaError::CacheCorrupted);
    assert_eq!(load_upaths(b"nonsense\n-").unwrap_err(), MafaError::CacheCorrupted);
    assert_eq!(load_upaths(b"[1,999]\n-").unwrap_err(), MafaError::CacheCorrupted);
}

#[test]
fn load_empty_file_is_empty() {
    let got = load_upaths(b"").expect("no lines at all");
    assert!(got.is_empty());
}

#[test]
fn try_seed_is_idempotent() {
    let mut f1 = CacheFile { data: None };
    f1.try_seed(b"[11,1,1,3,3]\n-");
    let once = f1.data.clone().unwrap();
    f1.try_seed(b"[11,1,1,3,3]\n-");
    let twice = f1.data.clone().unwrap();
    assert_eq!(once, twice);
    // seeding never overwrites other content either
    let mut f2 = CacheFile { data: Some(b"[7]\n-".to_vec()) };
    f2.try_seed(b"[11,1,1,3,3]\n-");
    assert_eq!(f2.data.unwrap(), b"[7]\n-".to_vec());
}

#[test]
fn replace_overwrites() {
    let mut f = CacheFile { data: Some(b"[7]\n-".to_vec()) };
    f.replace(b"[1,2]\n-");
    assert_eq!(f.data.unwrap(), b"[1,2]\n-".to_vec());
}

#[test]
fn append_is_lifo_under_load() {
    let mut f = CacheFile { data: None };
    let first = encode_upath_line(&[11, 1, 1, 3, 3]);
    let mut fallback = first.clone();
    fallback.push(b'-');
    f.append(&first, &fallback);
    let second = encode_upath_line(&[4, 0, 1]);
    f.append(&second, &fallback);
    let third = encode_upath_line(&[9, 9]);
    f.append(&third, &fallback);
    let got = load_upaths(f.data.as_ref().unwrap()).expect("clean file");
    assert_eq!(got.len(), 3);
    assert_eq!(got[0], vec![9u8, 9]);
    assert_eq!(got[1], vec![4u8, 0, 1]);
    assert_eq!(got[2], vec![11u8, 1, 1, 3, 3]);
}

#[test]
fn encode_then_parse_round_trip() {
    let line = encode_upath_line(&[4, 0, 1, 0, 255]);
    assert_eq!(line, b"[4,0,1,0,255]\n".to_vec());
    // the stored line body (without the newline) decodes back
    let body = &line[..line.len() - 1];
    assert_eq!(parse_upath_line(body), Some(vec![4u8, 0, 1, 0, 255]));
}

#[test]
fn parse_line_grammar_details() {
    assert_eq!(parse_upath_line(b"[]"), Some(vec![]));
    assert_eq!(parse_upath_line(b"[0]"), Some(vec![0u8]));
    assert_eq!(parse_upath_line(b" [1, 2 ,3] "), Some(vec![1u8, 2, 3]));
    assert_eq!(parse_upath_line(b"[01]"), None);
    assert_eq!(parse_upath_line(b"[256]"), None);
    assert_eq!(parse_upath_line(b"[1,]"), None);
    assert_eq!(parse_upath_line(b"[1] x"), None);
}

#[test]
fn ulpath_lines_round_trip() {
    let line = encode_ulpath_line(&[2, 0, 0], &[0, 1]);
    assert_eq!(line, b"[[2,0,0],[0,1]]\n".to_vec());
    let body = &line[..line.len() - 1];
    assert_eq!(parse_ulpath_line(body), Some((vec![2u8, 0, 0], vec![0u8, 1])));
    // the bundled two-path seed decodes
    let seed = b"[[2,0,0,2,3,0,0,0,0,0,2,0,0,2,1,0,0,0],[0,0,0,0,0,1,1,1]]\n-";
    let got = load_ulpaths(seed).expect("clean file");
    assert_eq!(got.len(), 1);
    assert_eq!(got[0].0, vec![2u8, 0, 0, 2, 3, 0, 0, 0, 0, 0, 2, 0, 0, 2, 1, 0, 0, 0]);
    assert_eq!(got[0].1, vec![0u8, 0, 0, 0, 0, 1, 1, 1]);
}

#[test]
fn ulpath_wrong_arity_is_corrupt() {
    assert_eq!(load_ulpaths(b"[[1],[2],[3]]\n-").unwrap_err(), MafaError::CacheCorrupted);
    assert_eq!(load_ulpaths(b"[[1]]\n-").unwrap_err(), MafaError::CacheCorrupted);
}

#[test]
fn split_drops_sentinel_tail() {
    let lines = split_lines_exec(b"[1]\n[2]\n-");
    assert_eq!(lines, vec![b"[1]".to_vec(), b"[2]".to_vec()]);
    let nothing = split_lines_exec(b"-");
    assert!(nothing.is_empty());
}
