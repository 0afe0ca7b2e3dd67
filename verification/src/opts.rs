//! The shared command-line options: each option's identifier, flag word,
//! short description and default, as plain constants.

use vstd::prelude::*;

verus! {

/// Relies on `core::ops::RangeFrom`, the standard half-open range, for
/// options that take one or more values; the type is declared here so the
/// option tables can carry it.
#[verifier::external_type_specification]
#[verifier::external_body]
#[verifier::reject_recursive_types(A)]
pub struct ExRangeFrom<A>(core::ops::RangeFrom<A>);

/// Relies on `core::ops::RangeFrom`'s literal syntax: builds the range
/// starting at `start`.
#[verifier::external_body]
pub(crate) fn range_from(start: usize) -> core::ops::RangeFrom<usize> {
    start..
}

/// Hide insignificant standard output.
pub struct SilentMode;

impl SilentMode {
    /// The `id` word of this option.
    #[inline]
    pub fn id() -> (r: &'static str)
        ensures
            r@ == "SILENT_MODE"@,
    {
        "SILENT_MODE"
    }

    /// The `longopt` word of this option.
    #[inline]
    pub fn longopt() -> (r: &'static str)
        ensures
            r@ == "silent"@,
    {
        "silent"
    }

    /// The `helper` word of this option.
    #[inline]
    pub fn helper() -> (r: &'static str)
        ensures
            r@ == "Enable silent mode"@,
    {
        "Enable silent mode"
    }
    /// The option's long help, wrapped for the terminal.
    pub fn long_helper() -> (r: String)
        ensures
            r@ == crate::comm::wrap70_of("Enable silent mode\n\nAny insignificant information redirected to STDOUT will be hidden."@),
    {
        crate::comm::wrap_help("Enable silent mode\n\nAny insignificant information redirected to STDOUT will be hidden.")
    }
}

/// Print without ANSI colour codes.
pub struct NoColorMode;

impl NoColorMode {
    /// The `id` word of this option.
    #[inline]
    pub fn id() -> (r: &'static str)
        ensures
            r@ == "NOCOLOR_MODE"@,
    {
        "NOCOLOR_MODE"
    }

    /// The `longopt` word of this option.
    #[inline]
    pub fn longopt() -> (r: &'static str)
        ensures
            r@ == "nocolor"@,
    {
        "nocolor"
    }

    /// The `helper` word of this option.
    #[inline]
    pub fn helper() -> (r: &'static str)
        ensures
            r@ == "Print without color."@,
    {
        "Print without color."
    }
    /// The option's long help, wrapped for the terminal.
    pub fn long_helper() -> (r: String)
        ensures
            r@ == crate::comm::wrap70_of("Print without color\n\nAny information will be printed without using ANSI escape codes."@),
    {
        crate::comm::wrap_help("Print without color\n\nAny information will be printed without using ANSI escape codes.")
    }
}

/// Draw with classical ASCII characters only.
pub struct AsciiMode;

impl AsciiMode {
    /// The `id` word of this option.
    #[inline]
    pub fn id() -> (r: &'static str)
        ensures
            r@ == "ASCIIMODE"@,
    {
        "ASCIIMODE"
    }

    /// The `longopt` word of this option.
    #[inline]
    pub fn longopt() -> (r: &'static str)
        ensures
            r@ == "ascii"@,
    {
        "ascii"
    }

    /// The `helper` word of this option.
    #[inline]
    pub fn helper() -> (r: &'static str)
        ensures
            r@ == "Use classical ASCII style"@,
    {
        "Use classical ASCII style"
    }
}

/// Wrap output at a column limit.
pub struct WrapWidth;

impl WrapWidth {
    /// The `id` word of this option.
    #[inline]
    pub fn id() -> (r: &'static str)
        ensures
            r@ == "WRAPWIDTH"@,
    {
        "WRAPWIDTH"
    }

    /// How many values the option takes.
    #[inline]
    pub fn n_args() -> (r: core::ops::Range<usize>)
        ensures
            r.start == 1 && r.end == 2,
    {
        1..2
    }

    /// The `longopt` word of this option.
    #[inline]
    pub fn longopt() -> (r: &'static str)
        ensures
            r@ == "wrap-width"@,
    {
        "wrap-width"
    }

    /// The `def_val` word of this option.
    #[inline]
    pub fn def_val() -> (r: &'static str)
        ensures
            r@ == "80"@,
    {
        "80"
    }

    /// The `helper` word of this option.
    #[inline]
    pub fn helper() -> (r: &'static str)
        ensures
            r@ == "Wrap output with width limit"@,
    {
        "Wrap output with width limit"
    }
    /// The option's long help, wrapped for the terminal.
    pub fn long_helper() -> (r: String)
        ensures
            r@ == crate::comm::wrap70_of("Wrap output with width limit\n\nNOTE: the minimum is 18, any value smaller than 18 will fallback to 80."@),
    {
        crate::comm::wrap_help("Wrap output with width limit\n\nNOTE: the minimum is 18, any value smaller than 18 will fallback to 80.")
    }
}

/// Allow wrapping inside words.
pub struct WrapMayBreak;

impl WrapMayBreak {
    /// The `id` word of this option.
    #[inline]
    pub fn id() -> (r: &'static str)
        ensures
            r@ == "WRAPMAYBREAK"@,
    {
        "WRAPMAYBREAK"
    }

    /// The `longopt` word of this option.
    #[inline]
    pub fn longopt() -> (r: &'static str)
        ensures
            r@ == "wrap-may-break"@,
    {
        "wrap-may-break"
    }

    /// The `helper` word of this option.
    #[inline]
    pub fn helper() -> (r: &'static str)
        ensures
            r@ == "Wrap output in MayBreak style"@,
    {
        "Wrap output in MayBreak style"
    }
    /// The option's long help, wrapped for the terminal.
    pub fn long_helper() -> (r: String)
        ensures
            r@ == crate::comm::wrap70_of("Wrap output in MayBreak style\n\nDefault is \"NoBreak\" style. This change the style to \"MayBreak\".\n\nNOTE: This is a hint option, components may ignore it."@),
    {
        crate::comm::wrap_help("Wrap output in MayBreak style\n\nDefault is \"NoBreak\" style. This change the style to \"MayBreak\".\n\nNOTE: This is a hint option, components may ignore it.")
    }
}

/// Run the underlying browser with its interface shown.
pub struct GuiMode;

impl GuiMode {
    /// The `id` word of this option.
    #[inline]
    pub fn id() -> (r: &'static str)
        ensures
            r@ == "GUI_MODE"@,
    {
        "GUI_MODE"
    }

    /// The `longopt` word of this option.
    #[inline]
    pub fn longopt() -> (r: &'static str)
        ensures
            r@ == "gui"@,
    {
        "gui"
    }

    /// The `helper` word of this option.
    #[inline]
    pub fn helper() -> (r: &'static str)
        ensures
            r@ == "Enable GUI mode"@,
    {
        "Enable GUI mode"
    }
    /// The option's long help, wrapped for the terminal.
    pub fn long_helper() -> (r: String)
        ensures
            r@ == crate::comm::wrap70_of("Enable GUI mode\n\nRun the underlying web browser in GUI mode.\n\nUSED WITH CAUTION: when GUI mode is on, any user operation on web browser interface MAY affect mafa's correctness."@),
    {
        crate::comm::wrap_help("Enable GUI mode\n\nRun the underlying web browser in GUI mode.\n\nUSED WITH CAUTION: when GUI mode is on, any user operation on web browser interface MAY affect mafa's correctness.")
    }
}

/// List the existing browser profiles.
pub struct ListProfile;

impl ListProfile {
    /// The `id` word of this option.
    #[inline]
    pub fn id() -> (r: &'static str)
        ensures
            r@ == "LIST_PROFILE"@,
    {
        "LIST_PROFILE"
    }

    /// The `longopt` word of this option.
    #[inline]
    pub fn longopt() -> (r: &'static str)
        ensures
            r@ == "list-p"@,
    {
        "list-p"
    }

    /// The `helper` word of this option.
    #[inline]
    pub fn helper() -> (r: &'static str)
        ensures
            r@ == "List all existing browser profiles"@,
    {
        "List all existing browser profiles"
    }
    /// The option's long help, wrapped for the terminal.
    pub fn long_helper() -> (r: String)
        ensures
            r@ == crate::comm::wrap70_of("List all existing browser profiles\n\nNote that...."@),
    {
        crate::comm::wrap_help("List all existing browser profiles\n\nNote that....")
    }
}

/// Run with a specific browser profile.
pub struct UseProfile;

impl UseProfile {
    /// The `id` word of this option.
    #[inline]
    pub fn id() -> (r: &'static str)
        ensures
            r@ == "USE_PROFILE"@,
    {
        "USE_PROFILE"
    }

    /// How many values the option takes.
    #[inline]
    pub fn n_args() -> (r: core::ops::Range<usize>)
        ensures
            r.start == 1 && r.end == 2,
    {
        1..2
    }

    /// The `longopt` word of this option.
    #[inline]
    pub fn longopt() -> (r: &'static str)
        ensures
            r@ == "profile"@,
    {
        "profile"
    }

    /// The `shortopt` letter of this option.
    #[inline]
    pub fn shortopt() -> (r: char)
        ensures
            r == 'p',
    {
        'p'
    }

    /// The `helper` word of this option.
    #[inline]
    pub fn helper() -> (r: &'static str)
        ensures
            r@ == "Use specific browser profile"@,
    {
        "Use specific browser profile"
    }
    /// The option's long help, wrapped for the terminal.
    pub fn long_helper() -> (r: String)
        ensures
            r@ == crate::comm::wrap70_of("Use specific browser profile\n\nNOTE: the profile will be created if not existing.\n\nNOTE: the size of browser profiles is non-trivial, use with caution!\n"@),
    {
        crate::comm::wrap_help("Use specific browser profile\n\nNOTE: the profile will be created if not existing.\n\nNOTE: the size of browser profiles is non-trivial, use with caution!\n")
    }
}

/// Fetch through a SOCKS5 proxy.
pub struct Socks5Proxy;

impl Socks5Proxy {
    /// The `id` word of this option.
    #[inline]
    pub fn id() -> (r: &'static str)
        ensures
            r@ == "SOCKS5_PROXY"@,
    {
        "SOCKS5_PROXY"
    }

    /// How many values the option takes.
    #[inline]
    pub fn n_args() -> (r: core::ops::Range<usize>)
        ensures
            r.start == 1 && r.end == 2,
    {
        1..2
    }

    /// The `longopt` word of this option.
    #[inline]
    pub fn longopt() -> (r: &'static str)
        ensures
            r@ == "socks5"@,
    {
        "socks5"
    }

    /// The `helper` word of this option.
    #[inline]
    pub fn helper() -> (r: &'static str)
        ensures
            r@ == "Fetch with SOCKS5 proxy                                        "@,
    {
        "Fetch with SOCKS5 proxy                                        "
    }
    /// The option's long help, wrapped for the terminal.
    pub fn long_helper() -> (r: String)
        ensures
            r@ == crate::comm::wrap70_of("Fetch with SOCKS5 proxy\n\nThe default SOCKS5 proxy used by the underlying web browser to fetch data. This is also used by mafa to fetch webdriver server binaries at first initialization."@),
    {
        crate::comm::wrap_help("Fetch with SOCKS5 proxy\n\nThe default SOCKS5 proxy used by the underlying web browser to fetch data. This is also used by mafa to fetch webdriver server binaries at first initialization.")
    }
}

/// Page-load timeout in milliseconds.
pub struct TimeoutPageLoad;

impl TimeoutPageLoad {
    /// The `id` word of this option.
    #[inline]
    pub fn id() -> (r: &'static str)
        ensures
            r@ == "TIMEOUT_PAGE_LOAD"@,
    {
        "TIMEOUT_PAGE_LOAD"
    }

    /// The `longopt` word of this option.
    #[inline]
    pub fn longopt() -> (r: &'static str)
        ensures
            r@ == "timeout-pageload"@,
    {
        "timeout-pageload"
    }

    /// How many values the option takes.
    #[inline]
    pub fn n_args() -> (r: core::ops::Range<usize>)
        ensures
            r.start == 1 && r.end == 2,
    {
        1..2
    }

    /// The `def_val` word of this option.
    #[inline]
    pub fn def_val() -> (r: &'static str)
        ensures
            r@ == "30000"@,
    {
        "30000"
    }

    /// The `helper` word of this option.
    #[inline]
    pub fn helper() -> (r: &'static str)
        ensures
            r@ == "Timeout for page loading(ms)"@,
    {
        "Timeout for page loading(ms)"
    }
    /// The option's long help, wrapped for the terminal.
    pub fn long_helper() -> (r: String)
        ensures
            r@ == crate::comm::wrap70_of("Timeout for page loading(ms)\n\nThe default timeout for loading web page(i.e., opening a website). Refer to WebDriver standard(https://www.w3.org/TR/webdriver2/#timeouts) for more details."@),
    {
        crate::comm::wrap_help("Timeout for page loading(ms)\n\nThe default timeout for loading web page(i.e., opening a website). Refer to WebDriver standard(https://www.w3.org/TR/webdriver2/#timeouts) for more details.")
    }
}

/// Script-evaluation timeout in milliseconds.
pub struct TimeoutScript;

impl TimeoutScript {
    /// The `id` word of this option.
    #[inline]
    pub fn id() -> (r: &'static str)
        ensures
            r@ == "TIMEOUT_SCRIPT"@,
    {
        "TIMEOUT_SCRIPT"
    }

    /// The `longopt` word of this option.
    #[inline]
    pub fn longopt() -> (r: &'static str)
        ensures
            r@ == "timeout-script"@,
    {
        "timeout-script"
    }

    /// How many values the option takes.
    #[inline]
    pub fn n_args() -> (r: core::ops::Range<usize>)
        ensures
            r.start == 1 && r.end == 2,
    {
        1..2
    }

    /// The `def_val` word of this option.
    #[inline]
    pub fn def_val() -> (r: &'static str)
        ensures
            r@ == "30000"@,
    {
        "30000"
    }

    /// The `helper` word of this option.
    #[inline]
    pub fn helper() -> (r: &'static str)
        ensures
            r@ == "Timeout for script evaluation(ms)"@,
    {
        "Timeout for script evaluation(ms)"
    }
    /// The option's long help, wrapped for the terminal.
    pub fn long_helper() -> (r: String)
        ensures
            r@ == crate::comm::wrap70_of("Timeout for script evaluation(ms)\n\nThe default timeout for script evaluation(i.e., evaluating JavaScript synchronously or asynchronously). Refer to WebDriver standard(https://www.w3.org/TR/webdriver2/#timeouts) for more details."@),
    {
        crate::comm::wrap_help("Timeout for script evaluation(ms)\n\nThe default timeout for script evaluation(i.e., evaluating JavaScript synchronously or asynchronously). Refer to WebDriver standard(https://www.w3.org/TR/webdriver2/#timeouts) for more details.")
    }
}

/// Which caching mechanism to use.
pub struct CacheMech;

impl CacheMech {
    /// The `id` word of this option.
    #[inline]
    pub fn id() -> (r: &'static str)
        ensures
            r@ == "CACHE_MECHNISM"@,
    {
        "CACHE_MECHNISM"
    }

    /// How many values the option takes.
    #[inline]
    pub fn n_args() -> (r: core::ops::Range<usize>)
        ensures
            r.start == 1 && r.end == 2,
    {
        1..2
    }

    /// The `longopt` word of this option.
    #[inline]
    pub fn longopt() -> (r: &'static str)
        ensures
            r@ == "cache"@,
    {
        "cache"
    }

    /// The `def_val` word of this option.
    #[inline]
    pub fn def_val() -> (r: &'static str)
        ensures
            r@ == "LOCAL"@,
    {
        "LOCAL"
    }

    /// The `helper` word of this option.
    #[inline]
    pub fn helper() -> (r: &'static str)
        ensures
            r@ == "The caching mechanism"@,
    {
        "The caching mechanism"
    }
    /// The option's long help, wrapped for the terminal.
    pub fn long_helper() -> (r: String)
        ensures
            r@ == crate::comm::wrap70_of("The caching mechanism\n\nAvailable values are: LOCAL, REMOTE, NO.\n\nLOCAL instructs mafa to use local cache, typically located in mafa's dedicated cache directory; REMOTE instructs mafa to use remote cache, which is stored on the internet and can be readily accessed and fetched, note that this option will override the corresponding cache; NO instructs mafa to build cache freshly, this usually needs more time, compared to other mechanisms."@),
    {
        crate::comm::wrap_help("The caching mechanism\n\nAvailable values are: LOCAL, REMOTE, NO.\n\nLOCAL instructs mafa to use local cache, typically located in mafa's dedicated cache directory; REMOTE instructs mafa to use remote cache, which is stored on the internet and can be readily accessed and fetched, note that this option will override the corresponding cache; NO instructs mafa to build cache freshly, this usually needs more time, compared to other mechanisms.")
    }
}

/// Report the time spent in the major phases.
pub struct Elapsed;

impl Elapsed {
    /// The `id` word of this option.
    #[inline]
    pub fn id() -> (r: &'static str)
        ensures
            r@ == "ELAPSED"@,
    {
        "ELAPSED"
    }

    /// The `longopt` word of this option.
    #[inline]
    pub fn longopt() -> (r: &'static str)
        ensures
            r@ == "elap"@,
    {
        "elap"
    }

    /// The `helper` word of this option.
    #[inline]
    pub fn helper() -> (r: &'static str)
        ensures
            r@ == "Report the time cost in major phases"@,
    {
        "Report the time cost in major phases"
    }
}

} // verus!
