// The per-component inputs and result shaping.

use mafa::gtrans::{is_spc_delim, is_valid_lang, GtransResult};
use mafa::twtl::{normalized_username, SaveFormat, TimelineCollect};
use mafa::twov::TweetOverview;
use mafa::error::MafaError;

#[test]
fn languages_known_and_unknown() {
    assert!(is_valid_lang("auto"));
    assert!(is_valid_lang("en"));
    assert!(is_valid_lang("zh-TW"));
    assert!(is_valid_lang("mni-Mtei"));
    assert!(!is_valid_lang("xxx"));
    assert!(!is_valid_lang(""));
}

#[test]
fn space_delimited_languages() {
    assert!(is_spc_delim("en"));
    assert!(is_spc_delim("ru"));
    assert!(!is_spc_delim("ja"));
}

#[test]
fn translation_result_loses_its_quotes() {
    let g = GtransResult::from_str("en", "fr", "thank you", "\"merci\"").unwrap();
    assert_eq!(g.trans_words, "merci");
    assert_eq!(g.sl, "en");
    assert_eq!(g.tl, "fr");
    assert_eq!(g.orig_words, "thank you");
    assert_eq!(g.trans_pronun, "");
    // a result too short to carry quotes yields nothing
    let g2 = GtransResult::from_str("en", "fr", "a", "x").unwrap();
    assert_eq!(g2.trans_words, "");
}

#[test]
fn usernames_normalize() {
    assert_eq!(normalized_username("@Twitter"), "Twitter");
    assert_eq!(normalized_username("  twitter  "), "twitter");
    assert_eq!(normalized_username("@"), "");
}

#[test]
fn save_format_words() {
    assert_eq!(SaveFormat::from_str("xml"), SaveFormat::Xml);
    assert_eq!(SaveFormat::from_str("JSON"), SaveFormat::Json);
    assert_eq!(SaveFormat::from_str("weird"), SaveFormat::Json);
}

#[test]
fn timeline_collection_dedups_and_counts() {
    let mut c = TimelineCollect::new(3);
    c.take_batch(vec!["a".to_string(), "b".to_string(), "a".to_string()]);
    assert_eq!(c.kept, vec!["a".to_string(), "b".to_string()]);
    assert_eq!(c.nleft, 1);
    assert!(!c.end_round());
    // the same batch again brings nothing new: a stall
    c.take_batch(vec!["a".to_string(), "b".to_string()]);
    assert!(!c.end_round());
    assert_eq!(c.stall_rounds, 1);
    // a fresh entry finishes the count
    c.take_batch(vec!["c".to_string(), "d".to_string()]);
    assert_eq!(c.kept.len(), 3);
    assert_eq!(c.nleft, 0);
}

#[test]
fn timeline_gives_up_after_ten_barren_rounds() {
    let mut c = TimelineCollect::new(5);
    c.take_batch(vec!["only".to_string()]);
    let mut gave_up = c.end_round();
    for _ in 0..10 {
        gave_up = c.end_round();
    }
    assert!(gave_up);
    assert_eq!(c.kept, vec!["only".to_string()]);
}

#[test]
fn tweet_error_codes() {
    // no version header
    match TweetOverview::from_str("nope").unwrap_err() {
        MafaError::TweetNotRecoginized(c) => assert_eq!(c, 1),
        e => panic!("unexpected {:?}", e),
    }
    // header alone
    match TweetOverview::from_str("twtl_v1").unwrap_err() {
        MafaError::TweetNotRecoginized(c) => assert_eq!(c, 2),
        e => panic!("unexpected {:?}", e),
    }
    // a bad id line
    match TweetOverview::from_str("twtl_v1\nshort\nx").unwrap_err() {
        MafaError::TweetNotRecoginized(c) => assert_eq!(c, 6),
        e => panic!("unexpected {:?}", e),
    }
    // no timestamp line anywhere
    match TweetOverview::from_str("twtl_v1\n1656697812266909696\nName\n@name\nbody").unwrap_err()
    {
        MafaError::TweetNotRecoginized(c) => assert_eq!(c, 3),
        e => panic!("unexpected {:?}", e),
    }
    // a timestamp but no username above it
    match TweetOverview::from_str("twtl_v1\n1656697812266909696\nName\nOther\n·\nMay 12\nbody")
        .unwrap_err()
    {
        MafaError::TweetNotRecoginized(c) => assert_eq!(c, 4),
        e => panic!("unexpected {:?}", e),
    }
    // nothing but noise under the timestamp
    match TweetOverview::from_str("twtl_v1\n1656697812266909696\nName\n@name\n·\nMay 12\n123")
        .unwrap_err()
    {
        MafaError::TweetNotRecoginized(c) => assert_eq!(c, 5),
        e => panic!("unexpected {:?}", e),
    }
}

#[test]
fn refine_folds_mention_blocks() {
    let folded = mafa::twov::refine_twtxt(b"see\n@a\n@b\nrest");
    assert_eq!(folded, "see@a@b\nrest");
    let plain = mafa::twov::refine_twtxt(b"one\ntwo");
    assert_eq!(plain, "one\ntwo");
}
