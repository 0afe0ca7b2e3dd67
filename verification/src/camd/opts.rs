//! The dictionary component's command-line options.

use vstd::prelude::*;

verus! {

/// The words to look up.
pub struct Words;

impl Words {
    /// The `id` word of this option.
    #[inline]
    pub fn id() -> (r: &'static str)
        ensures
            r@ == "WORD"@,
    {
        "WORD"
    }

    /// How many values the option takes: one or more.
    #[inline]
    pub fn n_args() -> core::ops::RangeFrom<usize> {
        crate::opts::range_from(1)
    }

    /// The `helper` word of this option.
    #[inline]
    pub fn helper() -> (r: &'static str)
        ensures
            r@ == "The words you want to translate"@,
    {
        "The words you want to translate"
    }
    /// The option's long help, wrapped for the terminal.
    pub fn long_helper() -> (r: String)
        ensures
            r@ == crate::comm::wrap70_of("The words you want to translate\n\nWORDS can be single or multiple, for example:\n\n$ mafa Camd thanks\n\nor \n\n$ mafa Camd thank you"@),
    {
        crate::comm::wrap_help("The words you want to translate\n\nWORDS can be single or multiple, for example:\n\n$ mafa Camd thanks\n\nor \n\n$ mafa Camd thank you")
    }
}

} // verus!
