//! Error taxonomy of the library.
//!
//! Only timeout-classified transport failures are ever retried; every other
//! kind is fatal for the operation that raised it.

use vstd::prelude::*;

verus! {

/// A failure mode of the library, distinguishable so a caller can map each
/// kind to its own exit path.
#[derive(Debug, PartialEq)]
pub enum MafaError {
    Buggy,
    BugFound(u16),
    ClapMatchError(String),
    InvalidTimeoutPageLoad,
    InvalidTimeoutScript,
    InvalidSocks5Proxy,
    InvalidSourceLang,
    InvalidTargetLang,
    InvalidWords,
    InvalidTwitterUsername,
    InvalidNumTweets,
    InvalidWrapWidth,
    WebDrvCmdRejected(String, String),
    UnexpectedWda(String),
    InvalidUseProfile,
    FirefoxNotFound,
    CacheRebuildFail(CacheRebuildFailKind),
    CacheNotBuildable,
    AllCachesInvalid,
    DataFetchedNotReachable,
    UpathNotFound,
    UpathLenNotMatched,
    UpathValNotMatched,
    TweetNotRecoginized(u8),
    CamdLevelNotRecoginized(u8),
    CacheCorrupted,
    MafaDataCacheNotFound,
    RequireLogin,
    MustGui,
}

/// Why a live rebuild of the fingerprint cache failed.
#[derive(Debug, PartialEq)]
pub enum CacheRebuildFailKind {
    UpathNotFound,
    UpathLenNotMatched,
    UpathValNotMatched,
    UpathLenZero,
}

} // verus!
