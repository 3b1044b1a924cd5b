//! Browser session configuration.

use vstd::prelude::*;
use crate::text::owned;

verus! {

/// Configuration for launching and driving a browser session.
#[derive(Debug, Clone)]
pub struct BrowserConfig {
    /// Path to the Chrome/Chromium binary; `None` to detect it.
    pub chrome_path: Option<String>,
    /// Run headless.
    pub headless: bool,
    pub viewport_width: u32,
    pub viewport_height: u32,
    /// Default navigation timeout in milliseconds.
    pub navigation_timeout_ms: u64,
    /// Default action timeout in milliseconds.
    pub action_timeout_ms: u64,
    /// User agent override.
    pub user_agent: Option<String>,
    /// Extra Chrome launch arguments.
    pub extra_args: Vec<String>,
    /// Intercept requests (ad blocking and the like).
    pub intercept_requests: bool,
    /// URL patterns to block (ads, trackers).
    pub blocked_url_patterns: Vec<String>,
    /// Maximum number of concurrent tabs.
    pub max_tabs: usize,
    /// Log CDP traffic verbosely.
    pub verbose_cdp_logging: bool,
}

/// The default user agent.
pub open spec fn default_user_agent() -> Seq<char> {
    "Wraith-Browser/0.1.0 (AI Agent; +https://github.com/suhteevah/wraith-browser)"@
}

/// The default extra Chrome arguments.
pub open spec fn default_extra_args() -> Seq<Seq<char>> {
    seq![
        "--disable-gpu"@,
        "--no-sandbox"@,
        "--disable-dev-shm-usage"@,
        "--disable-extensions"@,
        "--disable-background-networking"@,
    ]
}

/// The URL patterns blocked by default.
pub open spec fn default_blocked_patterns() -> Seq<Seq<char>> {
    seq!["*google-analytics.com*"@, "*doubleclick.net*"@, "*facebook.com/tr*"@, "*hotjar.com*"@]
}

impl Default for BrowserConfig {
    fn default() -> (c: Self)
        ensures
            c.chrome_path is None,
            c.headless,
            c.viewport_width == 1920,
            c.viewport_height == 1080,
            c.navigation_timeout_ms == 30_000,
            c.action_timeout_ms == 10_000,
            c.user_agent matches Some(u) && u@ == default_user_agent(),
            c.extra_args@.map_values(|a: String| a@) == default_extra_args(),
            c.intercept_requests,
            c.blocked_url_patterns@.map_values(|a: String| a@) == default_blocked_patterns(),
            c.max_tabs == 10,
            !c.verbose_cdp_logging,
    {
        let extra_args = vec![
            owned("--disable-gpu"),
            owned("--no-sandbox"),
            owned("--disable-dev-shm-usage"),
            owned("--disable-extensions"),
            owned("--disable-background-networking"),
        ];
        assert(extra_args@.map_values(|a: String| a@) =~= default_extra_args());
        let blocked_url_patterns = vec![
            owned("*google-analytics.com*"),
            owned("*doubleclick.net*"),
            owned("*facebook.com/tr*"),
            owned("*hotjar.com*"),
        ];
        assert(blocked_url_patterns@.map_values(|a: String| a@) =~= default_blocked_patterns());
        BrowserConfig {
            chrome_path: None,
            headless: true,
            viewport_width: 1920,
            viewport_height: 1080,
            navigation_timeout_ms: 30_000,
            action_timeout_ms: 10_000,
            user_agent: Some(
                owned("Wraith-Browser/0.1.0 (AI Agent; +https://github.com/suhteevah/wraith-browser)"),
            ),
            extra_args,
            intercept_requests: true,
            blocked_url_patterns,
            max_tabs: 10,
            verbose_cdp_logging: false,
        }
    }
}

} // verus!
