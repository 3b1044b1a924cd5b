//! The decisions the CDP engine takes while it carries out an agent's
//! action on a page.
//!
//! Talking to the browser (evaluating a script, dispatching an input event,
//! waiting) is the caller's part. After each exchange it hands the page's
//! answer to one of these functions, which says what comes next: another
//! step, or the [`ActionResult`] to report.

use vstd::prelude::*;
use crate::actions::{ActionResult, ScrollDirection, reports_success, reports_failure, success, failure};
use crate::text::{
    decimal, signed_decimal, utf8_len, bool_text, debug_text, contains_seq, whitespace, push_str,
    push_decimal, push_signed, push_bool, debug_quoted, str_eq, str_contains, owned, chars_of,
    is_whitespace,
};

verus! {

// ---------------------------------------------------------------------------
// Timings
// ---------------------------------------------------------------------------

/// Pause after a click, in milliseconds, for a navigation to begin.
pub const POST_CLICK_WAIT_MS: u64 = 500;

/// Pause after a navigation, in milliseconds, for a single-page app to hydrate.
pub const HYDRATION_WAIT_MS: u64 = 2000;

/// Pause after a fill, in milliseconds, before its value is read back.
pub const FILL_SETTLE_MS: u64 = 50;

/// How many times an open drop-down is searched for the wanted option.
pub const OPTION_POLLS: u32 = 15;

/// Pause between two searches for a drop-down option, in milliseconds.
pub const OPTION_POLL_MS: u64 = 100;

/// Pause after an option was clicked, in milliseconds, for the commit to render.
pub const SELECT_SETTLE_MS: u64 = 200;

/// Interval between two probes for a selector, in milliseconds.
pub const SELECTOR_POLL_MS: u64 = 100;

/// Pause after a history step, in milliseconds.
pub const HISTORY_WAIT_MS: u64 = 1000;

/// Pause after a form submission, in milliseconds.
pub const SUBMIT_WAIT_MS: u64 = 2000;

/// Width of a captured screenshot.
pub const SCREENSHOT_WIDTH: u32 = 1280;

/// Height of a captured screenshot.
pub const SCREENSHOT_HEIGHT: u32 = 720;

// ---------------------------------------------------------------------------
// Shared reports
// ---------------------------------------------------------------------------

/// `Element @eN not found`.
pub open spec fn missing_text(ref_id: u32) -> Seq<char> {
    "Element @e"@ + decimal(ref_id as nat) + " not found"@
}

/// The failure for an element that is not on the page.
pub fn element_missing(ref_id: u32) -> (r: ActionResult)
    ensures
        reports_failure(r, missing_text(ref_id)),
{
    let mut s = String::new();
    push_str(&mut s, "Element @e");
    push_decimal(&mut s, ref_id as u64);
    push_str(&mut s, " not found");
    failure(s)
}

/// The text `{head}N`, for a head that ends in `@e`.
fn ref_text(head: &str, ref_id: u32) -> (s: String)
    ensures
        s@ == head@ + decimal(ref_id as nat),
{
    let mut s = owned(head);
    push_decimal(&mut s, ref_id as u64);
    s
}

// ---------------------------------------------------------------------------
// Click
// ---------------------------------------------------------------------------

/// What follows a click.
pub enum ClickStep {
    /// Report `result`; where the click moved the page within the same
    /// target, `moved_to` is its new address.
    Report { result: ActionResult, moved_to: Option<String> },
    /// The click destroyed the page target: reconnect to the new one, then
    /// report the navigation.
    Reconnect,
}

/// Decides the outcome of a click on `ref_id`. `clicked` tells whether the
/// element was found and clicked; `url_after` is the page address read
/// after the pause, or `None` when reading it failed because the target is
/// gone.
pub fn click_step(ref_id: u32, clicked: bool, url_before: &str, url_after: Option<&str>) -> (r: ClickStep)
    ensures
        !clicked ==> (r matches ClickStep::Report { result, moved_to }
            && reports_failure(result, missing_text(ref_id)) && moved_to is None),
        clicked && url_after is None ==> r is Reconnect,
        clicked && url_after is Some ==> (r matches ClickStep::Report { result, moved_to }
            && reports_success(result, "Clicked @e"@ + decimal(ref_id as nat))
            && (moved_to is None <==> url_after.unwrap()@ == url_before@)
            && (moved_to matches Some(m) ==> m@ == url_after.unwrap()@)),
{
    if !clicked {
        return ClickStep::Report { result: element_missing(ref_id), moved_to: None };
    }
    match url_after {
        None => ClickStep::Reconnect,
        Some(after) => {
            let moved_to = if str_eq(after, url_before) {
                None
            } else {
                Some(owned(after))
            };
            ClickStep::Report { result: success(ref_text("Clicked @e", ref_id)), moved_to }
        },
    }
}

// ---------------------------------------------------------------------------
// Fill
// ---------------------------------------------------------------------------

/// The page's answer to the fill preparation script.
pub struct FillPrep {
    /// The element was found, is fillable, and was focused.
    pub ok: bool,
    /// Why not, where it was refused.
    pub reason: Option<String>,
    /// Its tag name, where given.
    pub tag: Option<String>,
}

/// The text of `o`, or `default` when it has none.
pub open spec fn text_or(o: Option<String>, default: Seq<char>) -> Seq<char> {
    match o {
        Some(s) => s@,
        None => default,
    }
}

/// The failure text for a refused fill preparation.
pub open spec fn fill_refusal(ref_id: u32, prep: FillPrep) -> Seq<char> {
    let reason = text_or(prep.reason, "unknown"@);
    if reason == "not_found"@ {
        missing_text(ref_id)
    } else {
        "Element @e"@ + decimal(ref_id as nat) + " is not fillable ("@ + reason + "; tag="@
            + text_or(prep.tag, "?"@) + ")"@
    }
}

/// Decides whether a fill may go on after its preparation: `None` to go
/// on, or the failure to report.
pub fn fill_prep_step(ref_id: u32, prep: &FillPrep) -> (r: Option<ActionResult>)
    ensures
        prep.ok <==> r is None,
        !prep.ok ==> reports_failure(r.unwrap(), fill_refusal(ref_id, *prep)),
{
    if prep.ok {
        return None;
    }
    let reason: &str = match &prep.reason {
        Some(s) => s.as_str(),
        None => "unknown",
    };
    if str_eq(reason, "not_found") {
        return Some(element_missing(ref_id));
    }
    let mut s = String::new();
    push_str(&mut s, "Element @e");
    push_decimal(&mut s, ref_id as u64);
    push_str(&mut s, " is not fillable (");
    push_str(&mut s, reason);
    push_str(&mut s, "; tag=");
    match &prep.tag {
        Some(t) => push_str(&mut s, t.as_str()),
        None => push_str(&mut s, "?"),
    }
    push_str(&mut s, ")");
    Some(failure(s))
}

/// Decides the outcome of the value-setter fallback, which answers
/// `not_found` when the element has gone: `None` to go on.
pub fn fill_fallback_step(ref_id: u32, answer: &str) -> (r: Option<ActionResult>)
    ensures
        answer@ == "not_found"@ <==> r is Some,
        r is Some ==> reports_failure(r.unwrap(), missing_text(ref_id)),
{
    if str_eq(answer, "not_found") {
        Some(element_missing(ref_id))
    } else {
        None
    }
}

/// What the page holds after a fill.
pub struct FillCheck {
    /// The value in the DOM.
    pub dom_value: String,
    /// React props are attached to the element.
    pub has_react: bool,
    /// The value React holds, where it is a string.
    pub react_value: Option<String>,
}

/// What follows the check of a fill.
pub enum FillStep {
    /// Report this result.
    Done(ActionResult),
    /// The DOM took the value but React did not: write it through the
    /// value setter, then check again.
    Nudge,
}

/// React holds exactly `text`.
pub open spec fn react_holds(check: FillCheck, text: Seq<char>) -> bool {
    check.react_value matches Some(v) && v@ == text
}

/// The success text of a fill of `len` bytes.
pub open spec fn filled_text(ref_id: u32, len: nat, used_fallback: bool) -> Seq<char> {
    "Filled @e"@ + decimal(ref_id as nat) + " ("@ + decimal(len) + " chars"@
        + (if used_fallback { ", via setter fallback"@ } else { ""@ }) + ")"@
}

/// How the React state is described in a failed fill.
pub open spec fn react_state_text(check: FillCheck) -> Seq<char> {
    if check.has_react {
        match check.react_value {
            Some(v) => debug_text(v@),
            None => "null"@,
        }
    } else {
        "no-react-fiber"@
    }
}

/// The failure text of a fill whose value did not land.
pub open spec fn fill_mismatch_text(ref_id: u32, len: nat, check: FillCheck) -> Seq<char> {
    "Fill @e"@ + decimal(ref_id as nat) + " failed: expected "@ + decimal(len) + " chars, got "@
        + decimal(utf8_len(check.dom_value@)) + " chars in DOM (reactState="@
        + react_state_text(check) + ")"@
}

/// Decides the outcome of a fill of `text` from what the page holds
/// afterwards; `used_fallback` tells whether the value setter was used
/// because text insertion failed.
pub fn fill_check_step(ref_id: u32, text: &str, used_fallback: bool, check: &FillCheck) -> (r: FillStep)
    ensures
        ({
            let dom_ok = check.dom_value@ == text@;
            let react_ok = check.has_react && react_holds(*check, text@);
            if dom_ok && (!check.has_react || react_ok) {
                r matches FillStep::Done(res) && reports_success(
                    res,
                    filled_text(ref_id, utf8_len(text@), used_fallback),
                )
            } else if dom_ok && !used_fallback {
                r is Nudge
            } else {
                r matches FillStep::Done(res) && reports_failure(
                    res,
                    fill_mismatch_text(ref_id, utf8_len(text@), *check),
                )
            }
        }),
{
    let dom_ok = str_eq(check.dom_value.as_str(), text);
    let react_ok = check.has_react && match &check.react_value {
        Some(v) => str_eq(v.as_str(), text),
        None => false,
    };
    if dom_ok && (!check.has_react || react_ok) {
        let mut s = String::new();
        push_str(&mut s, "Filled @e");
        push_decimal(&mut s, ref_id as u64);
        push_str(&mut s, " (");
        push_decimal(&mut s, text.len() as u64);
        push_str(&mut s, " chars");
        if used_fallback {
            push_str(&mut s, ", via setter fallback");
        } else {
            push_str(&mut s, "");
        }
        push_str(&mut s, ")");
        return FillStep::Done(success(s));
    }
    if dom_ok && !used_fallback {
        return FillStep::Nudge;
    }
    let mut s = String::new();
    push_str(&mut s, "Fill @e");
    push_decimal(&mut s, ref_id as u64);
    push_str(&mut s, " failed: expected ");
    push_decimal(&mut s, text.len() as u64);
    push_str(&mut s, " chars, got ");
    push_decimal(&mut s, check.dom_value.as_str().len() as u64);
    push_str(&mut s, " chars in DOM (reactState=");
    if check.has_react {
        match &check.react_value {
            Some(v) => {
                let d = debug_quoted(v.as_str());
                push_str(&mut s, d.as_str());
            },
            None => push_str(&mut s, "null"),
        }
    } else {
        push_str(&mut s, "no-react-fiber");
    }
    push_str(&mut s, ")");
    FillStep::Done(failure(s))
}

/// Decides the outcome of a fill after React was nudged through the value
/// setter: it succeeded only where the DOM and React both hold `text`.
pub fn fill_nudge_result(ref_id: u32, text: &str, check: &FillCheck) -> (r: ActionResult)
    ensures
        (check.dom_value@ == text@ && react_holds(*check, text@)) ==> reports_success(
            r,
            "Filled @e"@ + decimal(ref_id as nat) + " ("@ + decimal(utf8_len(text@)) + " chars, React state nudged via setter)"@,
        ),
        !(check.dom_value@ == text@ && react_holds(*check, text@)) ==> reports_failure(
            r,
            "Filled @e"@ + decimal(ref_id as nat) + " DOM-side but React state did not update — controlled component may need per-char keystrokes (dom="@
                + debug_text(check.dom_value@) + ", reactMatch="@ + bool_text(react_holds(*check, text@)) + ")"@,
        ),
{
    let react_ok = match &check.react_value {
        Some(v) => str_eq(v.as_str(), text),
        None => false,
    };
    if str_eq(check.dom_value.as_str(), text) && react_ok {
        let mut s = String::new();
        push_str(&mut s, "Filled @e");
        push_decimal(&mut s, ref_id as u64);
        push_str(&mut s, " (");
        push_decimal(&mut s, text.len() as u64);
        push_str(&mut s, " chars, React state nudged via setter)");
        return success(s);
    }
    let mut s = String::new();
    push_str(&mut s, "Filled @e");
    push_decimal(&mut s, ref_id as u64);
    push_str(
        &mut s,
        " DOM-side but React state did not update — controlled component may need per-char keystrokes (dom=",
    );
    let d = debug_quoted(check.dom_value.as_str());
    push_str(&mut s, d.as_str());
    push_str(&mut s, ", reactMatch=");
    push_bool(&mut s, react_ok);
    push_str(&mut s, ")");
    failure(s)
}

// ---------------------------------------------------------------------------
// Select
// ---------------------------------------------------------------------------

/// How an option is chosen on an element, given the tag name the page
/// reported for it.
pub enum SelectRoute {
    /// The element is not on the page: report this failure.
    Missing(ActionResult),
    /// A native `<select>`: set its value directly.
    Native,
    /// A custom drop-down: open it with a real click and click the option.
    Custom,
}

/// Chooses how to select on `ref_id` from its reported tag name.
pub fn select_route(ref_id: u32, tag: &str) -> (r: SelectRoute)
    ensures
        tag@ == "NOT_FOUND"@ ==> (r matches SelectRoute::Missing(f) && reports_failure(f, missing_text(ref_id))),
        tag@ != "NOT_FOUND"@ && tag@ == "select"@ ==> r is Native,
        tag@ != "NOT_FOUND"@ && tag@ != "select"@ ==> r is Custom,
{
    if str_eq(tag, "NOT_FOUND") {
        SelectRoute::Missing(element_missing(ref_id))
    } else if str_eq(tag, "select") {
        SelectRoute::Native
    } else {
        SelectRoute::Custom
    }
}

/// `SELECTED: {shown} on @eN`.
pub open spec fn selected_text(shown: Seq<char>, ref_id: u32) -> Seq<char> {
    "SELECTED: "@ + shown + " on @e"@ + decimal(ref_id as nat)
}

fn selected(shown: &str, ref_id: u32) -> (r: ActionResult)
    ensures
        reports_success(r, selected_text(shown@, ref_id)),
{
    let mut s = String::new();
    push_str(&mut s, "SELECTED: ");
    push_str(&mut s, shown);
    push_str(&mut s, " on @e");
    push_decimal(&mut s, ref_id as u64);
    success(s)
}

/// The report of a native `<select>` set to `value`.
pub fn native_select_result(ref_id: u32, value: &str) -> (r: ActionResult)
    ensures
        reports_success(r, selected_text(value@, ref_id)),
{
    selected(value, ref_id)
}

/// The failure when no option `value` showed up in the opened drop-down.
pub fn option_missing_result(ref_id: u32, value: &str) -> (r: ActionResult)
    ensures
        reports_failure(
            r,
            "Could not find option '"@ + value@ + "' in the dropdown opened from @e"@
                + decimal(ref_id as nat)
                + " — menu may not have rendered or option label may not match"@,
        ),
{
    let mut s = String::new();
    push_str(&mut s, "Could not find option '");
    push_str(&mut s, value);
    push_str(&mut s, "' in the dropdown opened from @e");
    push_decimal(&mut s, ref_id as u64);
    push_str(&mut s, " — menu may not have rendered or option label may not match");
    failure(s)
}

/// The page's answer to the check that a clicked option was committed.
pub struct SelectCheck {
    /// A commit indicator showed the value.
    pub ok: bool,
    /// Why not, where it did not.
    pub reason: Option<String>,
    /// The committed text shown, where given.
    pub display: Option<String>,
    /// The text of the trigger, where given.
    pub trigger_text: Option<String>,
}

/// The text reported for a committed option: what the page showed, else
/// the label of the clicked option, else the requested value.
pub open spec fn shown_text(check: SelectCheck, display: Seq<char>, value: Seq<char>) -> Seq<char> {
    match check.display {
        Some(d) if d@.len() > 0 => d@,
        _ => if display.len() > 0 { display } else { value },
    }
}

/// Decides the report of a custom drop-down after the option labelled
/// `display` was clicked for the requested `value`.
pub fn select_commit_result(ref_id: u32, value: &str, display: &str, check: &SelectCheck) -> (r: ActionResult)
    ensures
        check.ok ==> reports_success(r, selected_text(shown_text(*check, display@, value@), ref_id)),
        !check.ok ==> reports_failure(
            r,
            "Clicked option '"@ + display@ + "' for @e"@ + decimal(ref_id as nat)
                + " but no commit indicator appeared ("@ + text_or(check.reason, "unknown"@)
                + "). Trigger text after click: "@ + debug_text(text_or(check.trigger_text, ""@)),
        ),
{
    if !check.ok {
        let mut s = String::new();
        push_str(&mut s, "Clicked option '");
        push_str(&mut s, display);
        push_str(&mut s, "' for @e");
        push_decimal(&mut s, ref_id as u64);
        push_str(&mut s, " but no commit indicator appeared (");
        match &check.reason {
            Some(reason) => push_str(&mut s, reason.as_str()),
            None => push_str(&mut s, "unknown"),
        }
        push_str(&mut s, "). Trigger text after click: ");
        let trigger: &str = match &check.trigger_text {
            Some(t) => t.as_str(),
            None => "",
        };
        let d = debug_quoted(trigger);
        push_str(&mut s, d.as_str());
        return failure(s);
    }
    let shown: &str = match &check.display {
        Some(d) if d.as_str().is_empty() == false => d.as_str(),
        _ => if !display.is_empty() { display } else { value },
    };
    selected(shown, ref_id)
}

// ---------------------------------------------------------------------------
// Answers of element scripts
// ---------------------------------------------------------------------------

/// The answer of an element script says the element is missing.
pub open spec fn says_missing(answer: Seq<char>) -> bool {
    contains_seq(answer, "not found"@)
}

/// Decides whether typing may go on after the focus script: `None` to go
/// on, or the script's own answer as the failure.
pub fn focus_step(answer: &str) -> (r: Option<ActionResult>)
    ensures
        says_missing(answer@) <==> r is Some,
        r is Some ==> reports_failure(r.unwrap(), answer@),
{
    if str_contains(answer, "not found") {
        Some(failure(owned(answer)))
    } else {
        None
    }
}

/// The report after characters were typed into `ref_id`.
pub fn typed_result(ref_id: u32) -> (r: ActionResult)
    ensures
        reports_success(r, "Typed text into @e"@ + decimal(ref_id as nat)),
{
    success(ref_text("Typed text into @e", ref_id))
}

/// Decides the report of a hover from the hover script's answer.
pub fn hover_result(ref_id: u32, answer: &str) -> (r: ActionResult)
    ensures
        says_missing(answer@) ==> reports_failure(r, missing_text(ref_id)),
        !says_missing(answer@) ==> reports_success(r, "Hovered @e"@ + decimal(ref_id as nat)),
{
    if str_contains(answer, "not found") {
        element_missing(ref_id)
    } else {
        success(ref_text("Hovered @e", ref_id))
    }
}

/// Decides the report of a form submission from the script's answer: a
/// missing element or a form without a way to submit is a failure with
/// that answer.
pub fn submit_result(ref_id: u32, answer: &str) -> (r: ActionResult)
    ensures
        (says_missing(answer@) || contains_seq(answer@, "no submit"@)) ==> reports_failure(r, answer@),
        !(says_missing(answer@) || contains_seq(answer@, "no submit"@)) ==> reports_success(
            r,
            "Submitted form at @e"@ + decimal(ref_id as nat),
        ),
{
    if str_contains(answer, "not found") || str_contains(answer, "no submit") {
        failure(owned(answer))
    } else {
        success(ref_text("Submitted form at @e", ref_id))
    }
}

/// Decides the report of scrolling an element into view from the script's answer.
pub fn scroll_into_view_result(ref_id: u32, answer: &str) -> (r: ActionResult)
    ensures
        says_missing(answer@) ==> reports_failure(r, answer@),
        !says_missing(answer@) ==> reports_success(r, "Scrolled to @e"@ + decimal(ref_id as nat)),
{
    if str_contains(answer, "not found") {
        failure(owned(answer))
    } else {
        success(ref_text("Scrolled to @e", ref_id))
    }
}

// ---------------------------------------------------------------------------
// Keys and scrolling
// ---------------------------------------------------------------------------

/// The report after `key` was pressed.
pub fn key_pressed_result(key: &str) -> (r: ActionResult)
    ensures
        reports_success(r, "Pressed key: "@ + key@),
{
    let mut s = String::new();
    push_str(&mut s, "Pressed key: ");
    push_str(&mut s, key);
    success(s)
}

/// The page offset `(dx, dy)` of a scroll of `amount` pixels.
pub open spec fn scroll_offsets_spec(direction: ScrollDirection, amount: int) -> (int, int) {
    match direction {
        ScrollDirection::Up => (0, -amount),
        ScrollDirection::Down => (0, amount),
        ScrollDirection::Left => (-amount, 0),
        ScrollDirection::Right => (amount, 0),
    }
}

/// The page offset `(dx, dy)` of a scroll of `amount` pixels.
pub fn scroll_offsets(direction: ScrollDirection, amount: i32) -> (r: (i32, i32))
    requires
        amount != i32::MIN,
    ensures
        (r.0 as int, r.1 as int) == scroll_offsets_spec(direction, amount as int),
{
    match direction {
        ScrollDirection::Up => (0, -amount),
        ScrollDirection::Down => (0, amount),
        ScrollDirection::Left => (-amount, 0),
        ScrollDirection::Right => (amount, 0),
    }
}

/// The name of a direction, as its `Debug` form writes it.
pub open spec fn direction_name(direction: ScrollDirection) -> Seq<char> {
    match direction {
        ScrollDirection::Up => "Up"@,
        ScrollDirection::Down => "Down"@,
        ScrollDirection::Left => "Left"@,
        ScrollDirection::Right => "Right"@,
    }
}

/// The script that scrolls the window by `(dx, dy)`.
pub fn scroll_by_script(dx: i32, dy: i32) -> (r: String)
    ensures
        r@ == "window.scrollBy("@ + signed_decimal(dx as int) + ", "@ + signed_decimal(dy as int) + ")"@,
{
    let mut s = String::new();
    push_str(&mut s, "window.scrollBy(");
    push_signed(&mut s, dx as i64);
    push_str(&mut s, ", ");
    push_signed(&mut s, dy as i64);
    push_str(&mut s, ")");
    s
}

/// The report of a scroll.
pub fn scrolled_result(direction: ScrollDirection, amount: i32) -> (r: ActionResult)
    ensures
        reports_success(
            r,
            "Scrolled "@ + direction_name(direction) + " by "@ + signed_decimal(amount as int) + "px"@,
        ),
{
    let mut s = String::new();
    push_str(&mut s, "Scrolled ");
    match direction {
        ScrollDirection::Up => push_str(&mut s, "Up"),
        ScrollDirection::Down => push_str(&mut s, "Down"),
        ScrollDirection::Left => push_str(&mut s, "Left"),
        ScrollDirection::Right => push_str(&mut s, "Right"),
    }
    push_str(&mut s, " by ");
    push_signed(&mut s, amount as i64);
    push_str(&mut s, "px");
    success(s)
}

// ---------------------------------------------------------------------------
// Waiting
// ---------------------------------------------------------------------------

/// The report of a plain wait of `ms` milliseconds.
pub fn waited_result(ms: u64) -> (r: ActionResult)
    ensures
        reports_success(r, "Waited "@ + decimal(ms as nat) + "ms"@),
{
    let mut s = String::new();
    push_str(&mut s, "Waited ");
    push_decimal(&mut s, ms);
    push_str(&mut s, "ms");
    success(s)
}

/// How many probes a wait for a selector makes within `timeout_ms`.
pub fn selector_polls(timeout_ms: u64) -> (n: u64)
    ensures
        n == timeout_ms / SELECTOR_POLL_MS,
{
    timeout_ms / SELECTOR_POLL_MS
}

/// The report of a wait for `selector`: found, or not within `timeout_ms`.
pub fn selector_wait_result(selector: &str, found: bool, timeout_ms: u64) -> (r: ActionResult)
    ensures
        found ==> reports_success(r, "Selector '"@ + selector@ + "' found"@),
        !found ==> reports_failure(
            r,
            "Selector '"@ + selector@ + "' not found after "@ + decimal(timeout_ms as nat) + "ms"@,
        ),
{
    let mut s = String::new();
    push_str(&mut s, "Selector '");
    push_str(&mut s, selector);
    if found {
        push_str(&mut s, "' found");
        success(s)
    } else {
        push_str(&mut s, "' not found after ");
        push_decimal(&mut s, timeout_ms);
        push_str(&mut s, "ms");
        failure(s)
    }
}

/// The report of a wait for a navigation: completed, or not within `timeout_ms`.
pub fn navigation_wait_result(completed: bool, timeout_ms: u64) -> (r: ActionResult)
    ensures
        completed ==> reports_success(r, "Navigation completed"@),
        !completed ==> reports_failure(
            r,
            "Navigation did not complete within "@ + decimal(timeout_ms as nat) + "ms"@,
        ),
{
    if completed {
        success(owned("Navigation completed"))
    } else {
        let mut s = String::new();
        push_str(&mut s, "Navigation did not complete within ");
        push_decimal(&mut s, timeout_ms);
        push_str(&mut s, "ms");
        failure(s)
    }
}

// ---------------------------------------------------------------------------
// Page content, screenshots and uploads
// ---------------------------------------------------------------------------

/// Number of words in `s`: maximal runs of characters that are not white
/// space, as `str::split_whitespace` yields them.
pub open spec fn word_count(s: Seq<char>) -> nat
    decreases s.len(),
{
    if s.len() == 0 {
        0
    } else {
        let starts_word = !whitespace(s.last()) && (s.len() == 1 || whitespace(s[s.len() - 2]));
        word_count(s.drop_last()) + if starts_word { 1nat } else { 0nat }
    }
}

/// Counts the words of `text`.
pub fn count_words(text: &str) -> (n: usize)
    ensures
        n == word_count(text@),
{
    let v = chars_of(text);
    let len = v.len();
    let mut n: usize = 0;
    let mut i: usize = 0;
    while i < len
        invariant
            len == v.len(),
            v@ == text@,
            i <= len,
            n == word_count(v@.take(i as int)),
            n <= i,
        decreases len - i,
    {
        let c = v[i];
        let starts = !is_whitespace(c) && (i == 0 || is_whitespace(v[i - 1]));
        proof {
            let t = v@.take(i as int + 1);
            assert(t.drop_last() == v@.take(i as int));
            assert(t.last() == c);
            if i > 0 {
                assert(t[t.len() - 2] == v@[i - 1]);
            }
        }
        if starts {
            n = n + 1;
        }
        i += 1;
    }
    assert(v@.take(len as int) == v@);
    n
}

/// The report of extracted page text: the text itself and its word count.
pub fn content_result(text: String) -> (r: ActionResult)
    ensures
        r matches ActionResult::Content { markdown, word_count: n } && markdown@ == text@
            && n == word_count(text@),
{
    let n = count_words(text.as_str());
    ActionResult::Content { markdown: text, word_count: n }
}

/// The report of a captured screenshot, at the engine's fixed viewport size.
pub fn screenshot_result(png_base64: String) -> (r: ActionResult)
    ensures
        r matches ActionResult::Screenshot { png_base64: p, width, height } && p@ == png_base64@
            && width == SCREENSHOT_WIDTH && height == SCREENSHOT_HEIGHT,
{
    ActionResult::Screenshot { png_base64, width: SCREENSHOT_WIDTH, height: SCREENSHOT_HEIGHT }
}

/// Decides whether an upload may go on after the file-input check, which
/// answers `-1` for a missing input: `None` to go on.
pub fn file_input_step(ref_id: u32, answer: &str) -> (r: Option<ActionResult>)
    ensures
        answer@ == "-1"@ <==> r is Some,
        r is Some ==> reports_failure(
            r.unwrap(),
            "File input @e"@ + decimal(ref_id as nat) + " not found"@,
        ),
{
    if str_eq(answer, "-1") {
        let mut s = ref_text("File input @e", ref_id);
        push_str(&mut s, " not found");
        Some(failure(s))
    } else {
        None
    }
}

/// The name of the temporary file an upload is written to.
pub fn upload_file_name(file_name: &str) -> (r: String)
    ensures
        r@ == "wraith-upload-"@ + file_name@,
{
    let mut s = String::new();
    push_str(&mut s, "wraith-upload-");
    push_str(&mut s, file_name);
    s
}

/// `s` with every backslash turned into a forward slash.
pub open spec fn forward_slashed(s: Seq<char>) -> Seq<char> {
    s.map_values(|c: char| if c == '\\' { '/' } else { c })
}

/// A file path written with forward slashes, as the browser takes it.
pub fn forward_slashes(path: &str) -> (r: String)
    ensures
        r@ == forward_slashed(path@),
{
    let v = chars_of(path);
    let mut out: Vec<char> = Vec::new();
    let mut i: usize = 0;
    while i < v.len()
        invariant
            i <= v.len(),
            v@ == path@,
            out@ == forward_slashed(v@.take(i as int)),
        decreases v.len() - i,
    {
        let c = v[i];
        out.push(if c == '\\' { '/' } else { c });
        i += 1;
        assert(out@ == forward_slashed(v@.take(i as int)));
    }
    assert(v@.take(v.len() as int) == v@);
    crate::text::string_of(&out)
}

/// The report of a file uploaded to the input `ref_id`.
pub fn uploaded_result(file_name: &str, ref_id: u32) -> (r: ActionResult)
    ensures
        reports_success(r, "Uploaded '"@ + file_name@ + "' to @e"@ + decimal(ref_id as nat)),
{
    let mut s = String::new();
    push_str(&mut s, "Uploaded '");
    push_str(&mut s, file_name);
    push_str(&mut s, "' to @e");
    push_decimal(&mut s, ref_id as u64);
    success(s)
}

/// The reason a navigation was refused, from the `errorText` the browser
/// answered: only a non-empty text refuses it.
pub fn navigation_refusal(error_text: Option<String>) -> (r: Option<String>)
    ensures
        match error_text {
            Some(e) => if e@.len() > 0 { r == Some(e) } else { r is None },
            None => r is None,
        },
{
    match error_text {
        Some(e) => if e.as_str().is_empty() { None } else { Some(e) },
        None => None,
    }
}

} // verus!
