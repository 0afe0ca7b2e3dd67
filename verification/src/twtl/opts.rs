//! The timeline component's command-line options.

use vstd::prelude::*;

verus! {

/// The account whose timeline to fetch.
pub struct Username;

impl Username {
    /// The `id` word of this option.
    #[inline]
    pub fn id() -> (r: &'static str)
        ensures
            r@ == "USERNAME"@,
    {
        "USERNAME"
    }

    /// How many values the option takes.
    #[inline]
    pub fn n_args() -> (r: core::ops::Range<usize>)
        ensures
            r.start == 1 && r.end == 2,
    {
        1..2
    }

    /// The `helper` word of this option.
    #[inline]
    pub fn helper() -> (r: &'static str)
        ensures
            r@ == "A valid Twitter username"@,
    {
        "A valid Twitter username"
    }
    /// The option's long help, wrapped for the terminal.
    pub fn long_helper() -> (r: String)
        ensures
            r@ == crate::comm::wrap70_of("A valid Twitter username\n\nFor example, the valid usernames for Twitter official account are: `@twitter`, `twitter`, `@Twitter` or `Twitter`(quotes excluded)."@),
    {
        crate::comm::wrap_help("A valid Twitter username\n\nFor example, the valid usernames for Twitter official account are: `@twitter`, `twitter`, `@Twitter` or `Twitter`(quotes excluded).")
    }
}

/// How many entries to fetch.
pub struct NumTweets;

impl NumTweets {
    /// The `id` word of this option.
    #[inline]
    pub fn id() -> (r: &'static str)
        ensures
            r@ == "NUMTWEETS"@,
    {
        "NUMTWEETS"
    }

    /// How many values the option takes.
    #[inline]
    pub fn n_args() -> (r: core::ops::Range<usize>)
        ensures
            r.start == 1 && r.end == 2,
    {
        1..2
    }

    /// The `longopt` word of this option.
    #[inline]
    pub fn longopt() -> (r: &'static str)
        ensures
            r@ == "ntweets"@,
    {
        "ntweets"
    }

    /// The `shortopt` letter of this option.
    #[inline]
    pub fn shortopt() -> (r: char)
        ensures
            r == 'n',
    {
        'n'
    }

    /// The `def_val` word of this option.
    #[inline]
    pub fn def_val() -> (r: &'static str)
        ensures
            r@ == "10"@,
    {
        "10"
    }

    /// The `helper` word of this option.
    #[inline]
    pub fn helper() -> (r: &'static str)
        ensures
            r@ == "Number of tweets being fetched"@,
    {
        "Number of tweets being fetched"
    }
    /// The option's long help, wrapped for the terminal.
    pub fn long_helper() -> (r: String)
        ensures
            r@ == crate::comm::wrap70_of("Number of tweets being fetched\n\nATTENTION: The maximum is 800. Due to restricted environment of Twitter website, any value larger than 800 will fallback to 800, and this value will likely change in the future."@),
    {
        crate::comm::wrap_help("Number of tweets being fetched\n\nATTENTION: The maximum is 800. Due to restricted environment of Twitter website, any value larger than 800 will fallback to 800, and this value will likely change in the future.")
    }
}

/// The file to save the fetched data to.
pub struct SaveTo;

impl SaveTo {
    /// The `id` word of this option.
    #[inline]
    pub fn id() -> (r: &'static str)
        ensures
            r@ == "SAVE_TO"@,
    {
        "SAVE_TO"
    }

    /// How many values the option takes.
    #[inline]
    pub fn n_args() -> (r: core::ops::Range<usize>)
        ensures
            r.start == 1 && r.end == 2,
    {
        1..2
    }

    /// The `longopt` word of this option.
    #[inline]
    pub fn longopt() -> (r: &'static str)
        ensures
            r@ == "save-to"@,
    {
        "save-to"
    }

    /// The `helper` word of this option.
    #[inline]
    pub fn helper() -> (r: &'static str)
        ensures
            r@ == "The file to save the data"@,
    {
        "The file to save the data"
    }
    /// The option's long help, wrapped for the terminal.
    pub fn long_helper() -> (r: String)
        ensures
            r@ == crate::comm::wrap70_of("The file to save the data\n\nAny path is allowed as long as it is a valid path on disk, and file extension is not significant.\n\nNOTE: in case of any non-existing directory found, this will fallback to \"./twtl-saved.<SAVE_FORMAT>\"."@),
    {
        crate::comm::wrap_help("The file to save the data\n\nAny path is allowed as long as it is a valid path on disk, and file extension is not significant.\n\nNOTE: in case of any non-existing directory found, this will fallback to \"./twtl-saved.<SAVE_FORMAT>\".")
    }
}

/// The format of the saved data.
pub struct SaveFormat;

impl SaveFormat {
    /// The `id` word of this option.
    #[inline]
    pub fn id() -> (r: &'static str)
        ensures
            r@ == "SAVE_FORMAT"@,
    {
        "SAVE_FORMAT"
    }

    /// How many values the option takes.
    #[inline]
    pub fn n_args() -> (r: core::ops::Range<usize>)
        ensures
            r.start == 1 && r.end == 2,
    {
        1..2
    }

    /// The `longopt` word of this option.
    #[inline]
    pub fn longopt() -> (r: &'static str)
        ensures
            r@ == "save-format"@,
    {
        "save-format"
    }

    /// The `def_val` word of this option.
    #[inline]
    pub fn def_val() -> (r: &'static str)
        ensures
            r@ == "json"@,
    {
        "json"
    }

    /// The `helper` word of this option.
    #[inline]
    pub fn helper() -> (r: &'static str)
        ensures
            r@ == "Format of saved data"@,
    {
        "Format of saved data"
    }

    /// The `long_helper` word of this option.
    #[inline]
    pub fn long_helper() -> (r: &'static str)
        ensures
            r@ == "Format of saved data\n\nAvailable values are: json, xml."@,
    {
        "Format of saved data\n\nAvailable values are: json, xml."
    }
}

/// Log the account in or out first.
pub struct TryLogin;

impl TryLogin {
    /// The `id` word of this option.
    #[inline]
    pub fn id() -> (r: &'static str)
        ensures
            r@ == "TRYLOGIN"@,
    {
        "TRYLOGIN"
    }

    /// The `longopt` word of this option.
    #[inline]
    pub fn longopt() -> (r: &'static str)
        ensures
            r@ == "login"@,
    {
        "login"
    }

    /// The `helper` word of this option.
    #[inline]
    pub fn helper() -> (r: &'static str)
        ensures
            r@ == "Login or logout Twitter account"@,
    {
        "Login or logout Twitter account"
    }
}

/// Hide insignificant standard output.
pub struct SilentMode;

impl SilentMode {
    /// The `id` word of this option.
    #[inline]
    pub fn id() -> (r: &'static str)
        ensures
            r@ == "SILENT_MODE"@,
    {
        "SILENT_MODE"
    }

    /// The `longopt` word of this option.
    #[inline]
    pub fn longopt() -> (r: &'static str)
        ensures
            r@ == "silent"@,
    {
        "silent"
    }

    /// The `helper` word of this option.
    #[inline]
    pub fn helper() -> (r: &'static str)
        ensures
            r@ == "Enable silent mode                                      "@,
    {
        "Enable silent mode                                      "
    }
}

/// Run the underlying browser with its interface shown.
pub struct GuiMode;

impl GuiMode {
    /// The `id` word of this option.
    #[inline]
    pub fn id() -> (r: &'static str)
        ensures
            r@ == "GUI_MODE"@,
    {
        "GUI_MODE"
    }

    /// The `longopt` word of this option.
    #[inline]
    pub fn longopt() -> (r: &'static str)
        ensures
            r@ == "gui"@,
    {
        "gui"
    }

    /// The `helper` word of this option.
    #[inline]
    pub fn helper() -> (r: &'static str)
        ensures
            r@ == "Enable GUI mode"@,
    {
        "Enable GUI mode"
    }
}

/// Fetch through a SOCKS5 proxy.
pub struct Socks5Proxy;

impl Socks5Proxy {
    /// The `id` word of this option.
    #[inline]
    pub fn id() -> (r: &'static str)
        ensures
            r@ == "SOCKS5_PROXY"@,
    {
        "SOCKS5_PROXY"
    }

    /// How many values the option takes.
    #[inline]
    pub fn n_args() -> (r: core::ops::Range<usize>)
        ensures
            r.start == 1 && r.end == 2,
    {
        1..2
    }

    /// The `longopt` word of this option.
    #[inline]
    pub fn longopt() -> (r: &'static str)
        ensures
            r@ == "socks5"@,
    {
        "socks5"
    }

    /// The `helper` word of this option.
    #[inline]
    pub fn helper() -> (r: &'static str)
        ensures
            r@ == "Fetch with SOCKS5 proxy"@,
    {
        "Fetch with SOCKS5 proxy"
    }
}

/// Page-load timeout in milliseconds.
pub struct TimeoutPageLoad;

impl TimeoutPageLoad {
    /// The `id` word of this option.
    #[inline]
    pub fn id() -> (r: &'static str)
        ensures
            r@ == "TIMEOUT_PAGE_LOAD"@,
    {
        "TIMEOUT_PAGE_LOAD"
    }

    /// The `longopt` word of this option.
    #[inline]
    pub fn longopt() -> (r: &'static str)
        ensures
            r@ == "timeout-pageload"@,
    {
        "timeout-pageload"
    }

    /// How many values the option takes.
    #[inline]
    pub fn n_args() -> (r: core::ops::Range<usize>)
        ensures
            r.start == 1 && r.end == 2,
    {
        1..2
    }

    /// The `helper` word of this option.
    #[inline]
    pub fn helper() -> (r: &'static str)
        ensures
            r@ == "Timeout for page loading(ms)"@,
    {
        "Timeout for page loading(ms)"
    }
}

/// Script-evaluation timeout in milliseconds.
pub struct TimeoutScript;

impl TimeoutScript {
    /// The `id` word of this option.
    #[inline]
    pub fn id() -> (r: &'static str)
        ensures
            r@ == "TIMEOUT_SCRIPT"@,
    {
        "TIMEOUT_SCRIPT"
    }

    /// The `longopt` word of this option.
    #[inline]
    pub fn longopt() -> (r: &'static str)
        ensures
            r@ == "timeout-script"@,
    {
        "timeout-script"
    }

    /// How many values the option takes.
    #[inline]
    pub fn n_args() -> (r: core::ops::Range<usize>)
        ensures
            r.start == 1 && r.end == 2,
    {
        1..2
    }

    /// The `helper` word of this option.
    #[inline]
    pub fn helper() -> (r: &'static str)
        ensures
            r@ == "Timeout for script evaluation(ms)"@,
    {
        "Timeout for script evaluation(ms)"
    }
}

} // verus!
