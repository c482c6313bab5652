//! Help page providers: the default URL of each provider and the page URL
//! built for a command.
//!
//! Fetching a page over HTTP is network I/O and lives outside the verified
//! library; what is verified here is the exact URL each provider asks for
//! and the test that tells an answer page from the cheat.sh "unknown topic"
//! answer.

use vstd::prelude::*;

use crate::strutil::starts_with_spec;
use crate::strutil::str_starts_with;

verus! {

/// Default cheat sheet provider URL.
pub const DEFAULT_CHEAT_SHEET_PROVIDER: &'static str = "https://cheat.sh";

/// The default cheatsheets provider URL.
pub const DEFAULT_CHEATSHEETS_PROVIDER: &'static str =
    "https://raw.githubusercontent.com/cheat/cheatsheets/master";

/// EG page provider URL.
pub const DEFAULT_EG_PAGES_PROVIDER: &'static str =
    "https://raw.githubusercontent.com/srsudar/eg/master/eg/examples";

/// The `cheat.sh` provider.
pub struct CheatDotSh;

impl CheatDotSh {
    /// Returns the default provider URL.
    pub fn url(&self) -> (r: &'static str)
        ensures
            r@ == DEFAULT_CHEAT_SHEET_PROVIDER@,
    {
        DEFAULT_CHEAT_SHEET_PROVIDER
    }

    /// The URL of the page for `cmd` under the provider root `url`:
    /// `<url>/<cmd>`.
    pub fn page_url(&self, cmd: &str, url: &str) -> (r: String)
        ensures
            r@ == url@ + "/"@ + cmd@,
    {
        let mut s = String::from_str(url);
        s.append("/");
        s.append(cmd);
        s
    }

    /// Whether a fetched page is the provider's "unknown topic" answer,
    /// which is reported as an error rather than shown.
    pub fn is_unknown_topic(&self, page: &str) -> (r: bool)
        ensures
            r == starts_with_spec(page@, "Unknown topic."@),
    {
        str_starts_with(page, "Unknown topic.")
    }
}

/// The `cheatsheets` provider.
pub struct Cheatsheets;

impl Cheatsheets {
    /// Returns the default provider URL.
    pub fn url(&self) -> (r: &'static str)
        ensures
            r@ == DEFAULT_CHEATSHEETS_PROVIDER@,
    {
        DEFAULT_CHEATSHEETS_PROVIDER
    }

    /// The URL of the page for `cmd` under the provider root `url`:
    /// `<url>/<cmd>`.
    pub fn page_url(&self, cmd: &str, url: &str) -> (r: String)
        ensures
            r@ == url@ + "/"@ + cmd@,
    {
        let mut s = String::from_str(url);
        s.append("/");
        s.append(cmd);
        s
    }
}

/// The `eg` pages provider.
pub struct Eg;

impl Eg {
    /// Returns the default provider URL.
    pub fn url(&self) -> (r: &'static str)
        ensures
            r@ == DEFAULT_EG_PAGES_PROVIDER@,
    {
        DEFAULT_EG_PAGES_PROVIDER
    }

    /// The URL of the page for `cmd` under the provider root `url`:
    /// `<url>/<cmd>.md`.
    pub fn page_url(&self, cmd: &str, url: &str) -> (r: String)
        ensures
            r@ == url@ + "/"@ + cmd@ + ".md"@,
    {
        let mut s = String::from_str(url);
        s.append("/");
        s.append(cmd);
        s.append(".md");
        s
    }
}

} // verus!
