// Shared helpers: encodings, replication, the cache-mechanism switch.

use mafa::comm::{make_readable, percent_encode, rebuild_action, replicate, unescape_snapshot,
    CacheMechanism, RebuildAction};

#[test]
fn percent_encode_escapes_reserved_bytes() {
    assert_eq!(percent_encode(b"a b"), b"a%20b".to_vec());
    assert_eq!(percent_encode(b"a+b/c?d"), b"a%2Bb%2Fc%3Fd".to_vec());
    assert_eq!(percent_encode(b"plain"), b"plain".to_vec());
    assert_eq!(percent_encode(b"[x]@!"), b"%5Bx%5D%40%21".to_vec());
    assert_eq!(percent_encode(b""), b"".to_vec());
}

#[test]
fn replicate_repeats() {
    assert_eq!(replicate("ab", 3), "ababab");
    assert_eq!(replicate("x", 0), "");
}

#[test]
fn cache_mechanism_words() {
    assert_eq!(CacheMechanism::from_str("LOCAL"), CacheMechanism::Local);
    assert_eq!(CacheMechanism::from_str("remote"), CacheMechanism::Remote);
    assert_eq!(CacheMechanism::from_str("NO"), CacheMechanism::No);
    assert_eq!(CacheMechanism::from_str("whatever"), CacheMechanism::Local);
}

#[test]
fn make_readable_trims_and_unescapes() {
    assert_eq!(make_readable("  say \\\"hi\\\"  "), "say \"hi\"");
    assert_eq!(make_readable("plain"), "plain");
    assert_eq!(make_readable(" \u{a0} "), "");
}

#[test]
fn snapshot_unescaping_writes_real_lines() {
    let fetched = "\"[4,0,1]\\n[1,2]\\n-\"";
    assert_eq!(unescape_snapshot(fetched), b"[4,0,1]\n[1,2]\n-".to_vec());
    // the unescaped snapshot is a loadable cache file
    let loaded = mafa::cache::load_upaths(&unescape_snapshot(fetched)).unwrap();
    assert_eq!(loaded, vec![vec![4u8, 0, 1], vec![1u8, 2]]);
}

#[test]
fn socks5_validity_is_nonemptiness() {
    assert!(mafa::comm::is_valid_socks5("127.0.0.1:1080"));
    assert!(!mafa::comm::is_valid_socks5(""));
}

#[test]
fn help_texts_come_back_wrapped() {
    let long = mafa::opts::Socks5Proxy::long_helper();
    // the wrapper folded the long explanation onto several lines
    assert!(long.contains('\n'));
    assert!(long.lines().all(|l| l.chars().count() <= 71));
    assert!(long.starts_with("Fetch with SOCKS5 proxy"));
    let two = mafa::gtrans::opts::SourceLang::long_helper();
    assert!(two.contains("Check --list-lang"));
}

#[test]
fn rebuild_dispatch_is_one_to_one() {
    assert_eq!(rebuild_action(CacheMechanism::Local), RebuildAction::SeedLocal);
    assert_eq!(rebuild_action(CacheMechanism::Remote), RebuildAction::AdoptRemote);
    assert_eq!(rebuild_action(CacheMechanism::No), RebuildAction::ProbeLive);
}
