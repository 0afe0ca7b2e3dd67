//! The translation component's command-line options.

use vstd::prelude::*;

verus! {

/// The words to translate.
pub struct Words;

impl Words {
    /// The `id` word of this option.
    #[inline]
    pub fn id() -> (r: &'static str)
        ensures
            r@ == "WORDS"@,
    {
        "WORDS"
    }

    /// How many values the option takes: one or more.
    #[inline]
    pub fn n_args() -> core::ops::RangeFrom<usize> {
        crate::opts::range_from(1)
    }

    /// The `helper` word of this option.
    #[inline]
    pub fn helper() -> (r: &'static str)
        ensures
            r@ == "The words you want to translate"@,
    {
        "The words you want to translate"
    }
    /// The option's long help, wrapped for the terminal.
    pub fn long_helper() -> (r: String)
        ensures
            r@ == crate::comm::wrap70_of("The words you want to translate\n\nWORDS can be single or multiple, for example:\n\n$ mafa gtrans thanks\n\nor \n\n$ mafa gtrans thank you"@),
    {
        crate::comm::wrap_help("The words you want to translate\n\nWORDS can be single or multiple, for example:\n\n$ mafa gtrans thanks\n\nor \n\n$ mafa gtrans thank you")
    }
}

/// List every supported language.
pub struct ListLang;

impl ListLang {
    /// The `id` word of this option.
    #[inline]
    pub fn id() -> (r: &'static str)
        ensures
            r@ == "LIST_LANG"@,
    {
        "LIST_LANG"
    }

    /// The `longopt` word of this option.
    #[inline]
    pub fn longopt() -> (r: &'static str)
        ensures
            r@ == "list-lang"@,
    {
        "list-lang"
    }

    /// The `helper` word of this option.
    #[inline]
    pub fn helper() -> (r: &'static str)
        ensures
            r@ == "List all supported languages"@,
    {
        "List all supported languages"
    }
}

/// The language a query is rendered into.
pub struct TargetLang;

impl TargetLang {
    /// The `id` word of this option.
    #[inline]
    pub fn id() -> (r: &'static str)
        ensures
            r@ == "TARGET_LANG"@,
    {
        "TARGET_LANG"
    }

    /// The `longopt` word of this option.
    #[inline]
    pub fn longopt() -> (r: &'static str)
        ensures
            r@ == "tl"@,
    {
        "tl"
    }

    /// How many values the option takes.
    #[inline]
    pub fn n_args() -> (r: core::ops::Range<usize>)
        ensures
            r.start == 1 && r.end == 2,
    {
        1..2
    }

    /// The `def_val` word of this option.
    #[inline]
    pub fn def_val() -> (r: &'static str)
        ensures
            r@ == "auto"@,
    {
        "auto"
    }

    /// The `helper` word of this option.
    #[inline]
    pub fn helper() -> (r: &'static str)
        ensures
            r@ == "Target language"@,
    {
        "Target language"
    }
    /// The option's long help, wrapped for the terminal.
    pub fn long_helper() -> (r: String)
        ensures
            r@ == crate::comm::wrap70_of("Target language\n\nThe target language is the language you want to translate into, for example, translate auto-detected language \"thank you\" into French(fr):\n\n$ mafa gtrans --tl fr thank you\n-> merci\n\nCheck --list-lang for all supported languages."@),
    {
        crate::comm::wrap_help("Target language\n\nThe target language is the language you want to translate into, for example, translate auto-detected language \"thank you\" into French(fr):\n\n$ mafa gtrans --tl fr thank you\n-> merci\n\nCheck --list-lang for all supported languages.")
    }
}

/// The language a query arrives in.
pub struct SourceLang;

impl SourceLang {
    /// The `id` word of this option.
    #[inline]
    pub fn id() -> (r: &'static str)
        ensures
            r@ == "SOURCE_LANG"@,
    {
        "SOURCE_LANG"
    }

    /// The `longopt` word of this option.
    #[inline]
    pub fn longopt() -> (r: &'static str)
        ensures
            r@ == "sl"@,
    {
        "sl"
    }

    /// How many values the option takes.
    #[inline]
    pub fn n_args() -> (r: core::ops::Range<usize>)
        ensures
            r.start == 1 && r.end == 2,
    {
        1..2
    }

    /// The `def_val` word of this option.
    #[inline]
    pub fn def_val() -> (r: &'static str)
        ensures
            r@ == "auto"@,
    {
        "auto"
    }

    /// The `helper` word of this option.
    #[inline]
    pub fn helper() -> (r: &'static str)
        ensures
            r@ == "Source language"@,
    {
        "Source language"
    }
    /// The option's long help, wrapped for the terminal.
    pub fn long_helper() -> (r: String)
        ensures
            r@ == crate::comm::wrap70_of("Source language\n\nThe source language is the language your words start out in, for example, translate Spanish(es) \"gracias\" into English(en):\n\n$ mafa gtrans gracias --sl es --tl en\n-> thank you\n\nCheck --list-lang for all supported languages."@),
    {
        crate::comm::wrap_help("Source language\n\nThe source language is the language your words start out in, for example, translate Spanish(es) \"gracias\" into English(en):\n\n$ mafa gtrans gracias --sl es --tl en\n-> thank you\n\nCheck --list-lang for all supported languages.")
    }
}

} // verus!
