//! Actions an agent can perform on a browser tab, and their results.

use vstd::prelude::*;

verus! {

/// Actions an AI agent can perform on a browser tab. Elements are named by
/// the `ref_id` of a DOM snapshot (e.g. "click @e5").
#[derive(Debug, Clone)]
pub enum BrowserAction {
    /// Navigate to a URL.
    Navigate { url: String },
    /// Click an element; `force: Some(true)` skips the visibility checks.
    Click { ref_id: u32, force: Option<bool> },
    /// Fill a text input.
    Fill { ref_id: u32, text: String, force: Option<bool> },
    /// Select an option of a drop-down.
    Select { ref_id: u32, value: String, force: Option<bool> },
    /// Press a keyboard key (Enter, Tab, Escape, ...).
    KeyPress { key: String },
    /// Type text with realistic delays.
    TypeText { ref_id: u32, text: String, delay_ms: u32, force: Option<bool> },
    /// Scroll the page.
    Scroll { direction: ScrollDirection, amount: i32 },
    /// Hover over an element.
    Hover { ref_id: u32 },
    /// Go back in history.
    GoBack,
    /// Go forward in history.
    GoForward,
    /// Reload the page.
    Reload,
    /// Wait for a number of milliseconds.
    Wait { ms: u64 },
    /// Wait for a CSS selector to appear.
    WaitForSelector { selector: String, timeout_ms: u64 },
    /// Wait for a navigation to complete.
    WaitForNavigation { timeout_ms: u64 },
    /// Execute raw JavaScript.
    EvalJs { script: String },
    /// Take a screenshot.
    Screenshot { full_page: bool },
    /// Extract the page as markdown.
    ExtractContent,
    /// Upload a file (base64 content) to a file input.
    UploadFile { ref_id: u32, file_name: String, file_data: String, mime_type: String },
    /// Submit the form that holds an element.
    SubmitForm { ref_id: u32 },
    /// Scroll an element into the middle of the viewport.
    ScrollTo { ref_id: u32 },
}

/// Direction of a scroll.
#[derive(Debug, Clone, Copy, PartialEq, Eq, Structural)]
pub enum ScrollDirection {
    Up,
    Down,
    Left,
    Right,
}

/// Result of executing a browser action.
#[derive(Debug, Clone)]
pub enum ActionResult {
    /// The action completed.
    Success { message: String },
    /// A navigation completed.
    Navigated { url: String, title: String },
    /// A screenshot was captured.
    Screenshot { png_base64: String, width: u32, height: u32 },
    /// Content extracted as markdown.
    Content { markdown: String, word_count: usize },
    /// Result of evaluating JavaScript.
    JsResult { value: String },
    /// The action failed.
    Failed { error: String },
}

/// `r` reports success with the text `message`.
pub open spec fn reports_success(r: ActionResult, message: Seq<char>) -> bool {
    r matches ActionResult::Success { message: m } && m@ == message
}

/// `r` reports failure with the text `error`.
pub open spec fn reports_failure(r: ActionResult, error: Seq<char>) -> bool {
    r matches ActionResult::Failed { error: e } && e@ == error
}

/// A success reporting `message`.
pub fn success(message: String) -> (r: ActionResult)
    ensures
        reports_success(r, message@),
{
    ActionResult::Success { message }
}

/// A failure reporting `error`.
pub fn failure(error: String) -> (r: ActionResult)
    ensures
        reports_failure(r, error@),
{
    ActionResult::Failed { error }
}

} // verus!
