//! What a browser engine can do.

use vstd::prelude::*;
use crate::text::{owned, push_str, str_eq};

verus! {

/// Screenshot capability level.
#[derive(Debug, Clone, Copy, PartialEq, Eq, Structural)]
pub enum ScreenshotCapability {
    /// Cannot take screenshots.
    NoScreenshots,
    /// Viewport-only screenshots.
    ViewportOnly,
    /// Full-page screenshots.
    FullPage,
}

/// What a browser engine can do.
#[derive(Debug, Clone, Copy, PartialEq, Eq, Structural)]
pub struct EngineCapabilities {
    /// Executes JavaScript.
    pub javascript: bool,
    /// Screenshot support.
    pub screenshots: ScreenshotCapability,
    /// Computes element bounding boxes / layout.
    pub layout: bool,
    /// Keeps a persistent cookie jar.
    pub cookies: bool,
    /// Can inject stealth evasions.
    pub stealth: bool,
}


/// The engines a session can run on.
#[derive(Debug, Clone, Copy, PartialEq, Eq, Structural)]
pub enum EngineKind {
    /// Pure HTTP, always available.
    Native,
}

/// The engine chosen for a name, or why none is: `native` and `auto`
/// give the native engine (this build has no Chrome engine to try first),
/// `chrome` and `sevro` are not available, anything else is unknown.
pub open spec fn engine_choice(name: Seq<char>) -> Result<EngineKind, Seq<char>> {
    if name == "native"@ || name == "auto"@ {
        Ok(EngineKind::Native)
    } else if name == "chrome"@ {
        Err("Chrome engine not available \u{2014} compile with --features chrome-legacy"@)
    } else if name == "sevro"@ {
        Err("Sevro engine not yet implemented"@)
    } else {
        Err("Unknown engine: '"@ + name + "'. Options: native, chrome, sevro, auto"@)
    }
}

/// Choose the engine for `name`.
pub fn engine_for_name(name: &str) -> (r: Result<EngineKind, String>)
    ensures
        match r {
            Ok(k) => engine_choice(name@) == Ok::<EngineKind, Seq<char>>(k),
            Err(e) => engine_choice(name@) == Err::<EngineKind, Seq<char>>(e@),
        },
{
    if str_eq(name, "native") || str_eq(name, "auto") {
        Ok(EngineKind::Native)
    } else if str_eq(name, "chrome") {
        Err(owned("Chrome engine not available \u{2014} compile with --features chrome-legacy"))
    } else if str_eq(name, "sevro") {
        Err(owned("Sevro engine not yet implemented"))
    } else {
        let mut e = owned("Unknown engine: '");
        push_str(&mut e, name);
        push_str(&mut e, "'. Options: native, chrome, sevro, auto");
        Err(e)
    }
}

} // verus!
