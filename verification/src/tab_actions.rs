//! The decisions of a tab driven through `chromiumoxide`: the scripts it
//! evaluates and what it reports.
//!
//! A tab finds an element by its position among the page's visible
//! interactive elements: reference `N` is the `N`-th of them.

use vstd::prelude::*;
use crate::actions::{ActionResult, reports_success, success};
use crate::text::{decimal, utf8_len, push_str, push_decimal, owned, str_eq, push_char, chars_of};

verus! {

// ---------------------------------------------------------------------------
// Scripts
// ---------------------------------------------------------------------------

/// Opening of every element script: the visible interactive elements, then
/// the one at the reference's position.
pub const VISIBLE_HEAD: &'static str = r#"(() => {
    const els = document.querySelectorAll(
        'a, button, input, select, textarea, [role="button"], [role="link"], [role="tab"], [onclick], summary, details, label'
    );
    const visible = Array.from(els).filter(el => {
        const r = el.getBoundingClientRect();
        return r.width > 0 && r.height > 0;
    });
    const el = visible["#;

/// Closing of the element lookup, right after the reference number.
pub const VISIBLE_INDEX_END: &'static str = " - 1];\n";

/// The script that takes the visible element `ref_id` and runs `body`.
pub open spec fn visible_script(ref_id: u32, body: Seq<char>) -> Seq<char> {
    VISIBLE_HEAD@ + decimal(ref_id as nat) + VISIBLE_INDEX_END@ + body
}

fn visible_script_start(ref_id: u32) -> (r: String)
    ensures
        r@ == VISIBLE_HEAD@ + decimal(ref_id as nat) + VISIBLE_INDEX_END@,
{
    let mut s = owned(VISIBLE_HEAD);
    push_decimal(&mut s, ref_id as u64);
    push_str(&mut s, VISIBLE_INDEX_END);
    s
}

/// Start of the click-point body, up to the reference number.
pub const CLICK_POINT_A: &'static str = "    if (!el) return JSON.stringify({error: \"Element @e";

/// Rest of the click-point body.
pub const CLICK_POINT_B: &'static str = r#" not found"});
    const r = el.getBoundingClientRect();
    return JSON.stringify({x: r.x + r.width/2, y: r.y + r.height/2});
})()"#;

/// The script that reports the centre of element `ref_id`, or an error.
pub fn click_point_script(ref_id: u32) -> (r: String)
    ensures
        r@ == visible_script(ref_id, CLICK_POINT_A@ + decimal(ref_id as nat) + CLICK_POINT_B@),
{
    let mut s = visible_script_start(ref_id);
    push_str(&mut s, CLICK_POINT_A);
    push_decimal(&mut s, ref_id as u64);
    push_str(&mut s, CLICK_POINT_B);
    s
}

/// Body of the hover script: the centre of the element, or `{error: true}`.
pub const HOVER_POINT_BODY: &'static str = r#"    if (!el) return JSON.stringify({error: true});
    const r = el.getBoundingClientRect();
    return JSON.stringify({x: r.x + r.width/2, y: r.y + r.height/2});
})()"#;

/// The script that reports the centre of element `ref_id` for a hover.
pub fn hover_point_script(ref_id: u32) -> (r: String)
    ensures
        r@ == visible_script(ref_id, HOVER_POINT_BODY@),
{
    let mut s = visible_script_start(ref_id);
    push_str(&mut s, HOVER_POINT_BODY);
    s
}

/// Body of the script that focuses and empties an element before text is
/// inserted: `OK`, or `NOT_FOUND`.
pub const CLEAR_BODY: &'static str = r#"    if (!el) return "NOT_FOUND";
    el.focus();
    el.value = '';
    return "OK";
})()"#;

/// The script that focuses and empties element `ref_id`.
pub fn clear_script(ref_id: u32) -> (r: String)
    ensures
        r@ == visible_script(ref_id, CLEAR_BODY@),
{
    let mut s = visible_script_start(ref_id);
    push_str(&mut s, CLEAR_BODY);
    s
}

/// Body of the script that tells frameworks an element's value changed.
pub const NOTIFY_BODY: &'static str = r#"    if (el) {
        el.dispatchEvent(new Event('input', {bubbles: true}));
        el.dispatchEvent(new Event('change', {bubbles: true}));
    }
})()"#;

/// The script that fires `input` and `change` on element `ref_id`.
pub fn notify_script(ref_id: u32) -> (r: String)
    ensures
        r@ == visible_script(ref_id, NOTIFY_BODY@),
{
    let mut s = visible_script_start(ref_id);
    push_str(&mut s, NOTIFY_BODY);
    s
}

/// Body of the script that focuses an element: `OK`, or `NOT_FOUND`.
pub const FOCUS_BODY: &'static str = r#"    if (!el) return "NOT_FOUND";
    el.focus();
    return "OK";
})()"#;

/// The script that focuses element `ref_id`.
pub fn tab_focus_script(ref_id: u32) -> (r: String)
    ensures
        r@ == visible_script(ref_id, FOCUS_BODY@),
{
    let mut s = visible_script_start(ref_id);
    push_str(&mut s, FOCUS_BODY);
    s
}

/// Start of the select body, up to the JSON-quoted value.
pub const CHOOSE_A: &'static str = "    if (!el || el.tagName !== 'SELECT') return \"NOT_FOUND\";\n    el.value = ";

/// Rest of the select body.
pub const CHOOSE_B: &'static str = r#";
    el.dispatchEvent(new Event('change', {bubbles: true}));
    return "OK";
})()"#;

/// A lower-case hexadecimal digit.
pub open spec fn hex_digit(n: nat) -> char {
    if n < 10 {
        (48 + n) as char
    } else {
        (87 + n) as char
    }
}

/// How JSON writes one character inside a string literal, as
/// `serde_json` writes it: quote and backslash escaped, line feed, carriage
/// return, tab, backspace and form feed by their short escapes, other
/// control characters below U+0020 as `\u00XX` in lower-case hex, anything
/// else as itself.
pub open spec fn json_escape_char(c: char) -> Seq<char> {
    if c == '"' {
        seq!['\\', '"']
    } else if c == '\\' {
        seq!['\\', '\\']
    } else if c == '\n' {
        seq!['\\', 'n']
    } else if c == '\r' {
        seq!['\\', 'r']
    } else if c == '\t' {
        seq!['\\', 't']
    } else if c == '\x08' {
        seq!['\\', 'b']
    } else if c == '\x0c' {
        seq!['\\', 'f']
    } else if (c as u32) < 0x20 {
        seq!['\\', 'u', '0', '0', hex_digit((c as u32 / 16) as nat), hex_digit((c as u32 % 16) as nat)]
    } else {
        seq![c]
    }
}

/// The characters of `s`, each escaped for a JSON string literal.
pub open spec fn json_escaped(s: Seq<char>) -> Seq<char>
    decreases s.len(),
{
    if s.len() == 0 {
        Seq::empty()
    } else {
        json_escaped(s.drop_last()) + json_escape_char(s.last())
    }
}

/// The JSON string literal of `s`, as `serde_json::to_string` writes it.
pub open spec fn json_quoted(s: Seq<char>) -> Seq<char> {
    seq!['"'] + json_escaped(s) + seq!['"']
}

fn hex_digit_exec(n: u32) -> (c: char)
    requires
        n < 16,
    ensures
        c == hex_digit(n as nat),
{
    if n < 10 {
        (48u8 + n as u8) as char
    } else {
        (87u8 + n as u8) as char
    }
}

fn push_json_escaped(out: &mut String, c: char)
    ensures
        final(out)@ == old(out)@ + json_escape_char(c),
{
    let code = c as u32;
    if c == '"' {
        push_char(out, '\\');
        push_char(out, '"');
    } else if c == '\\' {
        push_char(out, '\\');
        push_char(out, '\\');
    } else if c == '\n' {
        push_char(out, '\\');
        push_char(out, 'n');
    } else if c == '\r' {
        push_char(out, '\\');
        push_char(out, 'r');
    } else if c == '\t' {
        push_char(out, '\\');
        push_char(out, 't');
    } else if c == '\x08' {
        push_char(out, '\\');
        push_char(out, 'b');
    } else if c == '\x0c' {
        push_char(out, '\\');
        push_char(out, 'f');
    } else if code < 0x20 {
        push_char(out, '\\');
        push_char(out, 'u');
        push_char(out, '0');
        push_char(out, '0');
        push_char(out, hex_digit_exec(code / 16));
        push_char(out, hex_digit_exec(code % 16));
    } else {
        push_char(out, c);
    }
    assert(final(out)@ =~= old(out)@ + json_escape_char(c));
}

/// The JSON string literal of `s`: what `serde_json::to_string` gives for
/// a string.
pub(crate) fn json_string(s: &str) -> (r: String)
    ensures
        r@ == json_quoted(s@),
{
    let v = chars_of(s);
    let mut out = String::new();
    push_char(&mut out, '"');
    let mut i: usize = 0;
    while i < v.len()
        invariant
            i <= v@.len(),
            v@ == s@,
            out@ == seq!['"'] + json_escaped(v@.take(i as int)),
        decreases v.len() - i,
    {
        let ghost before = out@;
        push_json_escaped(&mut out, v[i]);
        assert(v@.take(i as int + 1).drop_last() =~= v@.take(i as int));
        assert(v@.take(i as int + 1).last() == v@[i as int]);
        assert(out@ =~= seq!['"'] + json_escaped(v@.take(i as int + 1)));
        i += 1;
    }
    assert(v@.take(i as int) =~= s@);
    push_char(&mut out, '"');
    out
}

/// The script that sets the `<select>` element `ref_id` to `value`.
pub fn choose_script(ref_id: u32, value: &str) -> (r: String)
    ensures
        r@ == visible_script(ref_id, CHOOSE_A@ + json_quoted(value@) + CHOOSE_B@),
{
    let mut s = visible_script_start(ref_id);
    push_str(&mut s, CHOOSE_A);
    let q = json_string(value);
    push_str(&mut s, q.as_str());
    push_str(&mut s, CHOOSE_B);
    s
}

/// Start of the selector wait, up to the JSON-quoted selector.
pub const WAIT_FOR_A: &'static str = r#"new Promise((resolve, reject) => {
    const start = Date.now();
    const check = () => {
        if (document.querySelector("#;

/// Wait script, between the selector and the time limit.
pub const WAIT_FOR_B: &'static str = ")) return resolve(\"found\");\n        if (Date.now() - start > ";

/// End of the wait script.
pub const WAIT_FOR_C: &'static str = r#") return resolve("timeout");
        requestAnimationFrame(check);
    };
    check();
})"#;

/// The script that answers `found` once `selector` matches, or `timeout`
/// after `timeout_ms` milliseconds.
pub fn wait_for_script(selector: &str, timeout_ms: u64) -> (r: String)
    ensures
        r@ == WAIT_FOR_A@ + json_quoted(selector@) + WAIT_FOR_B@ + decimal(timeout_ms as nat) + WAIT_FOR_C@,
{
    let mut s = owned(WAIT_FOR_A);
    let q = json_string(selector);
    push_str(&mut s, q.as_str());
    push_str(&mut s, WAIT_FOR_B);
    push_decimal(&mut s, timeout_ms);
    push_str(&mut s, WAIT_FOR_C);
    s
}

// ---------------------------------------------------------------------------
// Answers and reports
// ---------------------------------------------------------------------------

/// The selector reported for an element that is not found: `@eN`.
pub fn missing_selector(ref_id: u32) -> (r: String)
    ensures
        r@ == "@e"@ + decimal(ref_id as nat),
{
    let mut s = owned("@e");
    push_decimal(&mut s, ref_id as u64);
    s
}

/// The answer to a point lookup: refused with the element's selector when
/// the page reports an error (element `ref_id` is missing), else accepted.
pub fn point_lookup(ref_id: u32, answer_has_error: bool) -> (r: Result<(), String>)
    ensures
        answer_has_error ==> (r matches Err(sel) && sel@ == "@e"@ + decimal(ref_id as nat)),
        !answer_has_error ==> r is Ok,
{
    if answer_has_error {
        Err(missing_selector(ref_id))
    } else {
        Ok(())
    }
}

/// Decides from a script's answer whether element `ref_id` was found:
/// `NOT_FOUND` refuses the action with the element's selector.
pub fn lookup_result(ref_id: u32, answer: &str) -> (r: Result<(), String>)
    ensures
        answer@ == "NOT_FOUND"@ ==> (r matches Err(sel) && sel@ == "@e"@ + decimal(ref_id as nat)),
        answer@ != "NOT_FOUND"@ ==> r is Ok,
{
    if str_eq(answer, "NOT_FOUND") {
        Err(missing_selector(ref_id))
    } else {
        Ok(())
    }
}

/// The report of a text fill of `text` into `ref_id`.
pub fn tab_filled_result(ref_id: u32, text: &str) -> (r: ActionResult)
    ensures
        reports_success(
            r,
            "Filled @e"@ + decimal(ref_id as nat) + " with text ("@ + decimal(utf8_len(text@)) + " chars)"@,
        ),
{
    let mut s = owned("Filled @e");
    push_decimal(&mut s, ref_id as u64);
    push_str(&mut s, " with text (");
    push_decimal(&mut s, text.len() as u64);
    push_str(&mut s, " chars)");
    success(s)
}

/// The report of `value` selected on `ref_id`.
pub fn tab_selected_result(ref_id: u32, value: &str) -> (r: ActionResult)
    ensures
        reports_success(r, "Selected '"@ + value@ + "' on @e"@ + decimal(ref_id as nat)),
{
    let mut s = owned("Selected '");
    push_str(&mut s, value);
    push_str(&mut s, "' on @e");
    push_decimal(&mut s, ref_id as u64);
    success(s)
}

/// The report of `text` typed into `ref_id` with `delay_ms` between keys.
pub fn tab_typed_result(ref_id: u32, text: &str, delay_ms: u32) -> (r: ActionResult)
    ensures
        reports_success(
            r,
            "Typed "@ + decimal(utf8_len(text@)) + " chars into @e"@ + decimal(ref_id as nat) + " with "@
                + decimal(delay_ms as nat) + "ms delay"@,
        ),
{
    let mut s = owned("Typed ");
    push_decimal(&mut s, text.len() as u64);
    push_str(&mut s, " chars into @e");
    push_decimal(&mut s, ref_id as u64);
    push_str(&mut s, " with ");
    push_decimal(&mut s, delay_ms as u64);
    push_str(&mut s, "ms delay");
    success(s)
}

/// The report of a click on `ref_id`.
pub fn tab_clicked_result(ref_id: u32) -> (r: ActionResult)
    ensures
        reports_success(r, "Clicked @e"@ + decimal(ref_id as nat)),
{
    let mut s = owned("Clicked @e");
    push_decimal(&mut s, ref_id as u64);
    success(s)
}

/// The report of a hover over `ref_id`.
pub fn tab_hovered_result(ref_id: u32) -> (r: ActionResult)
    ensures
        reports_success(r, "Hovered @e"@ + decimal(ref_id as nat)),
{
    let mut s = owned("Hovered @e");
    push_decimal(&mut s, ref_id as u64);
    success(s)
}

/// A wait that ran out: what was waited for, and for how long.
pub struct WaitTimeout {
    pub action: String,
    pub ms: u64,
}

/// Decides a wait for `selector` from the wait script's answer: `timeout`
/// refuses it, anything else reports it found.
pub fn tab_selector_result(selector: &str, answer: &str, timeout_ms: u64) -> (r: Result<ActionResult, WaitTimeout>)
    ensures
        answer@ == "timeout"@ ==> (r matches Err(t) && t.action@ == "wait_for("@ + selector@ + ")"@
            && t.ms == timeout_ms),
        answer@ != "timeout"@ ==> (r matches Ok(res) && reports_success(
            res,
            "Selector '"@ + selector@ + "' found"@,
        )),
{
    if str_eq(answer, "timeout") {
        let mut a = owned("wait_for(");
        push_str(&mut a, selector);
        push_str(&mut a, ")");
        Err(WaitTimeout { action: a, ms: timeout_ms })
    } else {
        let mut s = owned("Selector '");
        push_str(&mut s, selector);
        push_str(&mut s, "' found");
        Ok(success(s))
    }
}

/// How long a tab waits for a navigation: the time asked, at most five seconds.
pub fn navigation_pause_ms(timeout_ms: u64) -> (r: u64)
    ensures
        r == if timeout_ms < 5000 { timeout_ms } else { 5000 },
{
    if timeout_ms < 5000 {
        timeout_ms
    } else {
        5000
    }
}

/// The big-endian number in bytes `off .. off + 4` of `b`.
pub open spec fn be_u32(b: Seq<u8>, off: int) -> int {
    b[off] * 16777216 + b[off + 1] * 65536 + b[off + 2] * 256 + b[off + 3]
}

/// The width and height a PNG's header gives (bytes 16 to 23), or zeros
/// for data too short to hold one.
pub fn png_dimensions(png: &[u8]) -> (r: (u32, u32))
    ensures
        png@.len() >= 24 ==> r.0 as int == be_u32(png@, 16) && r.1 as int == be_u32(png@, 20),
        png@.len() < 24 ==> r == (0u32, 0u32),
{
    if png.len() < 24 {
        return (0, 0);
    }
    let w: u32 = png[16] as u32 * 16777216 + png[17] as u32 * 65536 + png[18] as u32 * 256 + png[19] as u32;
    let h: u32 = png[20] as u32 * 16777216 + png[21] as u32 * 65536 + png[22] as u32 * 256 + png[23] as u32;
    (w, h)
}

/// Script that lists a page's interactive elements and headings with the
/// page's metadata, as a JSON text.
pub const PAGE_SNAPSHOT_SCRIPT: &'static str = r#"(() => {
    // Collect interactive elements
    const selectors = 'a, button, input, select, textarea, [role="button"], [role="link"], [role="tab"], [onclick], summary, details, label';
    const allEls = document.querySelectorAll(selectors);
    const elements = [];

    for (const el of allEls) {
        const rect = el.getBoundingClientRect();
        if (rect.width === 0 && rect.height === 0) continue;

        const style = getComputedStyle(el);
        if (style.display === 'none' || style.visibility === 'hidden' || style.opacity === '0') continue;

        const tag = el.tagName.toLowerCase();
        let role = el.getAttribute('role') || tag;
        if (tag === 'a') role = 'link';
        if (tag === 'input') role = el.type === 'submit' ? 'button' : 'input';
        if (tag === 'textarea') role = 'textarea';
        if (tag === 'select') role = 'select';

        const text = (el.textContent || '').trim().substring(0, 100) || null;
        const href = el.href || null;
        const placeholder = el.placeholder || null;
        const value = el.value || null;
        const ariaLabel = el.getAttribute('aria-label') || null;

        // Build a minimal CSS selector for fallback
        let selector = tag;
        if (el.id) selector += '#' + el.id;
        else if (el.className && typeof el.className === 'string') {
            const cls = el.className.trim().split(/\s+/).slice(0, 2).join('.');
            if (cls) selector += '.' + cls;
        }

        elements.push({
            role,
            text,
            href,
            placeholder,
            value,
            enabled: !el.disabled,
            visible: true,
            aria_label: ariaLabel,
            selector,
            bounds: [rect.x, rect.y, rect.width, rect.height],
        });
    }

    // Also grab headings and main text blocks for context
    const headings = document.querySelectorAll('h1, h2, h3');
    for (const h of headings) {
        const rect = h.getBoundingClientRect();
        if (rect.width === 0 && rect.height === 0) continue;
        const text = (h.textContent || '').trim().substring(0, 150);
        if (!text) continue;
        elements.push({
            role: 'heading',
            text,
            href: null,
            placeholder: null,
            value: null,
            enabled: true,
            visible: true,
            aria_label: null,
            selector: h.tagName.toLowerCase(),
            bounds: [rect.x, rect.y, rect.width, rect.height],
        });
    }

    // Page metadata
    const forms = document.querySelectorAll('form');
    const hasPasswordField = !!document.querySelector('input[type="password"]');
    const hasCaptcha = !!(
        document.querySelector('iframe[src*="recaptcha"]') ||
        document.querySelector('iframe[src*="hcaptcha"]') ||
        document.querySelector('.g-recaptcha') ||
        document.querySelector('.h-captcha') ||
        document.querySelector('[data-turnstile-callback]')
    );

    // Detect page type
    let pageType = null;
    const url = location.href.toLowerCase();
    if (hasPasswordField) pageType = 'login';
    else if (url.includes('search') || document.querySelector('input[type="search"]')) pageType = 'search_results';
    else if (document.querySelector('article') || document.querySelector('[role="article"]')) pageType = 'article';
    else if (forms.length > 1) pageType = 'form';

    // Main content preview
    const article = document.querySelector('article, main, [role="main"], .content, #content');
    const preview = article ? (article.textContent || '').trim().substring(0, 500) : null;

    // Meta description
    const metaDesc = document.querySelector('meta[name="description"]');
    const description = metaDesc ? metaDesc.getAttribute('content') : null;

    return JSON.stringify({
        elements,
        page_type: pageType,
        main_content_preview: preview,
        description,
        form_count: forms.length,
        has_login_form: hasPasswordField,
        has_captcha: hasCaptcha,
    });
})()"#;

} // verus!
