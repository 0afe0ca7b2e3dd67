//! Resilient locator-cache and fetch protocol for driving a browser
//! automation session against pages whose DOM layout is mostly stable.
//!
//! The library models the protocol itself: fingerprints (DOM child-index
//! paths) derived from anchor probes, a lockable on-disk fingerprint cache,
//! a candidate-by-candidate fetch state machine with timeout-classified
//! retries, and the progress notifier that every retry loop reports through.
//! All file, network and terminal work stays with the caller; the functions
//! here compute, and their contracts say exactly what they compute.

use vstd::prelude::*;

pub mod cache;
pub mod camd;
pub mod camd_res;
pub mod comm;
pub mod error;
pub mod ev_ntf;
pub mod fetch;
pub mod gtrans;
pub mod opts;
pub mod strutil;
pub mod twov;
pub mod twtl;
pub mod upath;

verus! {

/// The options every run shares, parsed and merged for the components.
#[derive(Debug, Default)]
pub struct MafaInput {
    pub silent: bool,
    pub nocolor: bool,
    pub ascii: bool,
    pub wrap_width: u16,
    pub wrap_may_break: bool,
    pub tout_page_load: u32,
    pub tout_script: u32,
    pub socks5: String,
    pub gui: bool,
    pub list_profile: bool,
    pub use_profile: String,
    pub cachm: comm::CacheMechanism,
    pub elap: bool,
}

} // verus!
