//! The dictionary component's own types.

use vstd::prelude::*;

pub mod opts;

pub use crate::upath::Upath;

verus! {

/// What a dictionary run was asked to look up.
#[derive(Debug, Default)]
pub struct CamdInput {
    pub words: String,
}

/// Query words count as given whenever they are non-empty.
pub fn is_valid_words(v: &str) -> (r: bool)
    ensures
        r == (v@.len() > 0),
{
    !v.is_empty()
}

} // verus!
