//! JavaScript snippets sent to a page over CDP, and the escaping of text
//! embedded in single-quoted JavaScript string literals.
//!
//! Elements of a snapshot are found again through their
//! `data-wraith-ref` attribute; every element script starts by looking the
//! element up that way.

use vstd::prelude::*;
use crate::text::{decimal, push_str, push_decimal, push_char, chars_of};

verus! {

// ---------------------------------------------------------------------------
// Escaping text for a single-quoted JavaScript literal
// ---------------------------------------------------------------------------

/// How one character is written inside a single-quoted JavaScript literal:
/// backslash and quote get a backslash in front, and, where `newlines` is
/// set, a line feed becomes `\n`.
pub open spec fn escape_char(c: char, newlines: bool) -> Seq<char> {
    if c == '\\' {
        seq!['\\', '\\']
    } else if c == '\'' {
        seq!['\\', '\'']
    } else if newlines && c == '\n' {
        seq!['\\', 'n']
    } else {
        seq![c]
    }
}

/// `s` escaped character by character with [`escape_char`].
pub open spec fn js_escaped(s: Seq<char>, newlines: bool) -> Seq<char>
    decreases s.len(),
{
    if s.len() == 0 {
        seq![]
    } else {
        escape_char(s[0], newlines) + js_escaped(s.drop_first(), newlines)
    }
}

/// What a JavaScript engine reads back from the body of a single-quoted
/// literal written with [`escape_char`]: a backslash takes the next
/// character literally, except that `\n` is a line feed.
pub open spec fn js_unescaped(s: Seq<char>) -> Seq<char>
    decreases s.len(),
{
    if s.len() == 0 {
        seq![]
    } else if s[0] == '\\' && s.len() >= 2 {
        seq![if s[1] == 'n' { '\n' } else { s[1] }] + js_unescaped(s.subrange(2, s.len() as int))
    } else {
        seq![s[0]] + js_unescaped(s.drop_first())
    }
}

/// Escaping distributes over concatenation.
pub proof fn lemma_escaped_concat(a: Seq<char>, b: Seq<char>, newlines: bool)
    ensures
        js_escaped(a + b, newlines) == js_escaped(a, newlines) + js_escaped(b, newlines),
    decreases a.len(),
{
    if a.len() == 0 {
        assert(a + b == b);
    } else {
        assert((a + b).drop_first() == a.drop_first() + b);
        lemma_escaped_concat(a.drop_first(), b, newlines);
    }
}

/// Escaping is lossless: the page reads back exactly the text that was
/// escaped, whether or not line feeds were escaped too.
pub proof fn lemma_escape_round_trip(s: Seq<char>, newlines: bool)
    ensures
        js_unescaped(js_escaped(s, newlines)) == s,
    decreases s.len(),
{
    if s.len() > 0 {
        let rest = js_escaped(s.drop_first(), newlines);
        let e = escape_char(s[0], newlines);
        let whole = e + rest;
        lemma_escape_round_trip(s.drop_first(), newlines);
        if e.len() == 2 {
            assert(whole.subrange(2, whole.len() as int) == rest);
        } else {
            assert(whole.drop_first() == rest);
        }
        assert(s == seq![s[0]] + s.drop_first());
    }
}

/// With line feeds escaped, the escaped text holds no line feed, so it
/// stays on one line of script.
pub proof fn lemma_escaped_single_line(s: Seq<char>)
    ensures
        !js_escaped(s, true).contains('\n'),
    decreases s.len(),
{
    if s.len() > 0 {
        lemma_escaped_single_line(s.drop_first());
        let e = escape_char(s[0], true);
        let rest = js_escaped(s.drop_first(), true);
        assert forall|i: int| 0 <= i < (e + rest).len() implies (e + rest)[i] != '\n' by {
            if i >= e.len() {
                assert((e + rest)[i] == rest[i - e.len()]);
            }
        }
    }
}

/// `s` escaped for a single-quoted JavaScript literal: `\` becomes `\\`,
/// `'` becomes `\'` and, where `newlines` is set, a line feed becomes `\n`.
pub fn escape_js(s: &str, newlines: bool) -> (r: String)
    ensures
        r@ == js_escaped(s@, newlines),
{
    let v = chars_of(s);
    let mut out = String::new();
    let mut i: usize = 0;
    let n = v.len();
    while i < n
        invariant
            n == v.len(),
            i <= n,
            v@ == s@,
            out@ == js_escaped(v@.take(i as int), newlines),
        decreases n - i,
    {
        let c = v[i];
        if c == '\\' {
            push_char(&mut out, '\\');
            push_char(&mut out, '\\');
        } else if c == '\'' {
            push_char(&mut out, '\\');
            push_char(&mut out, '\'');
        } else if newlines && c == '\n' {
            push_char(&mut out, '\\');
            push_char(&mut out, 'n');
        } else {
            push_char(&mut out, c);
        }
        proof {
            let t = v@.take(i as int);
            assert(v@.take(i as int + 1) == t + seq![c]);
            lemma_escaped_concat(t, seq![c], newlines);
            assert(seq![c].drop_first() == Seq::<char>::empty());
            assert(js_escaped(seq![c], newlines) == escape_char(c, newlines) + js_escaped(
                Seq::<char>::empty(),
                newlines,
            ));
        }
        i += 1;
    }
    assert(v@.take(n as int) == v@);
    out
}

// ---------------------------------------------------------------------------
// Element scripts
// ---------------------------------------------------------------------------

/// Opening of every element script, up to the reference number.
pub const ELEMENT_HEAD: &'static str = "(() => {\n    const el = document.querySelector('[data-wraith-ref=\"";

/// Closing of the element lookup, right after the reference number.
pub const ELEMENT_LOOKUP_END: &'static str = "\"]');\n";

/// The script that looks up the element `ref_id` and then runs `body`.
pub open spec fn element_script(ref_id: u32, body: Seq<char>) -> Seq<char> {
    ELEMENT_HEAD@ + decimal(ref_id as nat) + ELEMENT_LOOKUP_END@ + body
}

/// The opening of an element script, ready for its body.
fn element_script_start(ref_id: u32) -> (r: String)
    ensures
        r@ == ELEMENT_HEAD@ + decimal(ref_id as nat) + ELEMENT_LOOKUP_END@,
{
    let mut s = String::new();
    push_str(&mut s, ELEMENT_HEAD);
    push_decimal(&mut s, ref_id as u64);
    push_str(&mut s, ELEMENT_LOOKUP_END);
    s
}

/// Body of the script that scrolls an element into view and reports the
/// centre of its box as JSON `{ok, x, y}` (or `{ok: false, reason}`).
pub const POINT_BODY: &'static str = r#"    if (!el) return JSON.stringify({ok: false, reason: 'not_found'});
    el.scrollIntoView({block: 'center', inline: 'center'});
    const r = el.getBoundingClientRect();
    if (r.width === 0 && r.height === 0) {
        return JSON.stringify({ok: false, reason: 'zero_size'});
    }
    return JSON.stringify({ok: true, x: r.left + r.width / 2, y: r.top + r.height / 2});
})()"#;

/// The script that locates the click point of element `ref_id`.
pub fn point_script(ref_id: u32) -> (r: String)
    ensures
        r@ == element_script(ref_id, POINT_BODY@),
{
    let mut s = element_script_start(ref_id);
    push_str(&mut s, POINT_BODY);
    s
}

/// Body of the script that focuses a fillable element and selects its
/// content, answering JSON `{ok, tag, existing}` or `{ok: false, reason}`.
pub const FILL_PREP_BODY: &'static str = r#"    if (!el) return JSON.stringify({ok: false, reason: 'not_found'});
    const tag = el.tagName;
    if (tag !== 'INPUT' && tag !== 'TEXTAREA' && el.contentEditable !== 'true') {
        return JSON.stringify({ok: false, reason: 'not_fillable', tag});
    }
    el.scrollIntoView({block: 'center', inline: 'center'});
    if (typeof el.focus === 'function') el.focus();
    if (tag === 'INPUT' || tag === 'TEXTAREA') {
        try { el.setSelectionRange(0, (el.value || '').length); } catch (e) {}
    }
    return JSON.stringify({ok: true, tag, existing: (el.value || '').length});
})()"#;

/// The script that prepares element `ref_id` for text insertion.
pub fn fill_prep_script(ref_id: u32) -> (r: String)
    ensures
        r@ == element_script(ref_id, FILL_PREP_BODY@),
{
    let mut s = element_script_start(ref_id);
    push_str(&mut s, FILL_PREP_BODY);
    s
}

/// First part of the value-setter body, up to the escaped text.
pub const SETTER_BODY_A: &'static str = r#"    if (!el) return 'not_found';
    const proto = el.tagName === 'TEXTAREA'
        ? window.HTMLTextAreaElement.prototype
        : window.HTMLInputElement.prototype;
    const desc = Object.getOwnPropertyDescriptor(proto, 'value');
    if (desc && desc.set) { desc.set.call(el, '"#;

/// Second part of the value-setter body, between the two copies of the text.
pub const SETTER_BODY_B: &'static str = r#"'); } else { el.value = '"#;

/// End of the value-setter body.
pub const SETTER_BODY_C: &'static str = r#"'; }
    el.dispatchEvent(new Event('input', {bubbles: true}));
    el.dispatchEvent(new Event('change', {bubbles: true}));
    return 'ok';
})()"#;

/// The script that writes `escaped` through the native value setter of
/// element `ref_id` and fires `input` and `change`.
pub fn fill_setter_script(ref_id: u32, escaped: &str) -> (r: String)
    ensures
        r@ == element_script(
            ref_id,
            SETTER_BODY_A@ + escaped@ + SETTER_BODY_B@ + escaped@ + SETTER_BODY_C@,
        ),
{
    let mut s = element_script_start(ref_id);
    push_str(&mut s, SETTER_BODY_A);
    push_str(&mut s, escaped);
    push_str(&mut s, SETTER_BODY_B);
    push_str(&mut s, escaped);
    push_str(&mut s, SETTER_BODY_C);
    s
}

/// Body of the script that reads back the DOM value of an element and,
/// where React props are reachable, the value React holds.
pub const FILL_CHECK_BODY: &'static str = r#"    if (!el) return JSON.stringify({ok: false, reason: 'gone'});
    const domValue = el.value !== undefined ? el.value : (el.textContent || '');
    const propsKey = Object.keys(el).find(k => k.startsWith('__reactProps$'));
    let reactValue = null;
    if (propsKey) {
        try { const props = el[propsKey]; if (props && 'value' in props) reactValue = props.value; } catch (e) {}
    }
    return JSON.stringify({ok: true, domValue, reactValue, hasReact: !!propsKey});
})()"#;

/// The script that checks what element `ref_id` holds after a fill.
pub fn fill_check_script(ref_id: u32) -> (r: String)
    ensures
        r@ == element_script(ref_id, FILL_CHECK_BODY@),
{
    let mut s = element_script_start(ref_id);
    push_str(&mut s, FILL_CHECK_BODY);
    s
}

/// Body of the script that names the tag of an element, lower-cased, or
/// answers `NOT_FOUND`.
pub const TAG_BODY: &'static str = r#"    if (!el) return 'NOT_FOUND';
    return el.tagName.toLowerCase();
})()"#;

/// The script that asks for the tag name of element `ref_id`.
pub fn tag_script(ref_id: u32) -> (r: String)
    ensures
        r@ == element_script(ref_id, TAG_BODY@),
{
    let mut s = element_script_start(ref_id);
    push_str(&mut s, TAG_BODY);
    s
}

/// Start of the native `<select>` body, up to the reference number.
pub const NATIVE_SELECT_A: &'static str = "    if (!el) return JSON.stringify({error: 'Element @e";

/// Native `<select>` body, from the reference number to the escaped value.
pub const NATIVE_SELECT_B: &'static str = " not found'});\n    el.value = '";

/// Native `<select>` body, between the two copies of the escaped value.
pub const NATIVE_SELECT_C: &'static str = r#"';
    el.dispatchEvent(new Event('change', {bubbles: true}));
    const chosen = el.options[el.selectedIndex];
    return JSON.stringify({ok: true, display: chosen ? chosen.textContent.trim() : '"#;

/// End of the native `<select>` body.
pub const NATIVE_SELECT_D: &'static str = "'});\n})()";

/// The script that sets a native `<select>` to the escaped value.
pub fn native_select_script(ref_id: u32, escaped: &str) -> (r: String)
    ensures
        r@ == element_script(
            ref_id,
            NATIVE_SELECT_A@ + decimal(ref_id as nat) + NATIVE_SELECT_B@ + escaped@
                + NATIVE_SELECT_C@ + escaped@ + NATIVE_SELECT_D@,
        ),
{
    let mut s = element_script_start(ref_id);
    push_str(&mut s, NATIVE_SELECT_A);
    push_decimal(&mut s, ref_id as u64);
    push_str(&mut s, NATIVE_SELECT_B);
    push_str(&mut s, escaped);
    push_str(&mut s, NATIVE_SELECT_C);
    push_str(&mut s, escaped);
    push_str(&mut s, NATIVE_SELECT_D);
    s
}

/// Start of the option search, up to the escaped value.
pub const FIND_OPTION_A: &'static str = "(() => {\n    const valueLower = '";

/// Rest of the option search: only visibly open menus are searched, and an
/// option matches on its trimmed text or `data-value`, case-insensitively
/// and exactly.
pub const FIND_OPTION_B: &'static str = r#"'.toLowerCase();
    const menus = Array.from(document.querySelectorAll(
        '[role="listbox"], .select__menu, .select__menu-list, '
        + '[class*="MenuList"], [class*="Menu"][class*="open"], '
        + '[class*="dropdown-menu"][class*="show"], '
        + '[class*="popper"], [data-state="open"]'
    )).filter(m => { const r = m.getBoundingClientRect(); return r.width > 0 && r.height > 0; });
    if (menus.length === 0) return JSON.stringify({ok: false, reason: 'menu_not_open'});
    const optionSelectors = ['[role="option"]', '[class*="select__option"]',
        '[class*="MenuItem"]', 'li[role="menuitem"]', 'li'].join(',');
    const seen = new Set();
    for (const menu of menus) {
        for (const opt of menu.querySelectorAll(optionSelectors)) {
            if (seen.has(opt)) continue;
            seen.add(opt);
            const r = opt.getBoundingClientRect();
            if (r.width === 0 || r.height === 0) continue;
            const text = (opt.innerText || opt.textContent || '').trim();
            const dv = (opt.getAttribute('data-value') || '').toLowerCase();
            if (text.toLowerCase() === valueLower || dv === valueLower) {
                return JSON.stringify({ok: true, x: r.left + r.width / 2,
                    y: r.top + r.height / 2, display: text});
            }
        }
    }
    return JSON.stringify({ok: false, reason: 'no_exact_match'});
})()"#;

/// The script that looks for the option `escaped` in an open drop-down menu.
pub fn find_option_script(escaped: &str) -> (r: String)
    ensures
        r@ == FIND_OPTION_A@ + escaped@ + FIND_OPTION_B@,
{
    let mut s = String::new();
    push_str(&mut s, FIND_OPTION_A);
    push_str(&mut s, escaped);
    push_str(&mut s, FIND_OPTION_B);
    s
}

/// Start of the drop-down fallback body, up to the escaped value.
pub const SELECT_FALLBACK_A: &'static str = "    if (!el) return '';\n    if ('value' in el) {\n        el.value = '";

/// Drop-down fallback body, between the two copies of the escaped value.
pub const SELECT_FALLBACK_B: &'static str = "';\n        el.dispatchEvent(new Event('change', {bubbles: true}));\n    }\n    return '";

/// End of the drop-down fallback body.
pub const SELECT_FALLBACK_C: &'static str = "';\n})()";

/// The script that sets the value of a custom drop-down trigger directly.
pub fn select_fallback_script(ref_id: u32, escaped: &str) -> (r: String)
    ensures
        r@ == element_script(
            ref_id,
            SELECT_FALLBACK_A@ + escaped@ + SELECT_FALLBACK_B@ + escaped@ + SELECT_FALLBACK_C@,
        ),
{
    let mut s = element_script_start(ref_id);
    push_str(&mut s, SELECT_FALLBACK_A);
    push_str(&mut s, escaped);
    push_str(&mut s, SELECT_FALLBACK_B);
    push_str(&mut s, escaped);
    push_str(&mut s, SELECT_FALLBACK_C);
    s
}

/// Start of the commit check, up to the escaped value.
pub const SELECT_CHECK_A: &'static str = "    if (!el) return JSON.stringify({ok: false, reason: 'trigger_gone'});\n    const valueLower = '";

/// Rest of the commit check: a committed value shows as a single-value
/// node, an ARIA value or label, or the trigger's own text.
pub const SELECT_CHECK_B: &'static str = r#"'.toLowerCase();
    const single = el.querySelector('[class*="singleValue"], [class*="single-value"], '
        + '[class*="selectedValue"], [class*="selected-value"]');
    if (single) {
        const t = (single.innerText || single.textContent || '').trim();
        if (t.toLowerCase() === valueLower) return JSON.stringify({ok: true, via: 'single_value', display: t});
    }
    const aria = (el.getAttribute('aria-valuenow') || el.getAttribute('aria-label') || '').trim();
    if (aria.toLowerCase() === valueLower) return JSON.stringify({ok: true, via: 'aria', display: aria});
    const triggerText = (el.innerText || el.textContent || '').trim();
    if (triggerText.toLowerCase() === valueLower || triggerText.toLowerCase().endsWith(valueLower)) {
        return JSON.stringify({ok: true, via: 'trigger_text', display: triggerText});
    }
    const menuOpen = document.querySelectorAll('[role="listbox"], .select__menu').length > 0;
    return JSON.stringify({ok: false, reason: menuOpen ? 'menu_still_open' : 'no_commit_indicator', triggerText});
})()"#;

/// The script that checks that the option `escaped` was committed on the
/// drop-down `ref_id`.
pub fn select_check_script(ref_id: u32, escaped: &str) -> (r: String)
    ensures
        r@ == element_script(ref_id, SELECT_CHECK_A@ + escaped@ + SELECT_CHECK_B@),
{
    let mut s = element_script_start(ref_id);
    push_str(&mut s, SELECT_CHECK_A);
    push_str(&mut s, escaped);
    push_str(&mut s, SELECT_CHECK_B);
    s
}

/// Start of a body that answers `Element @eN not found` for a missing element.
pub const MISSING_A: &'static str = "    if (!el) return 'Element @e";

/// Continuation of [`MISSING_A`] after the reference number.
pub const MISSING_B: &'static str = " not found';\n";

/// The script that looks up element `ref_id`, answers `Element @eN not
/// found` when it is missing, and otherwise runs `rest`.
pub open spec fn reporting_script(ref_id: u32, rest: Seq<char>) -> Seq<char> {
    element_script(ref_id, MISSING_A@ + decimal(ref_id as nat) + MISSING_B@ + rest)
}

fn reporting_script_exec(ref_id: u32, rest: &str) -> (r: String)
    ensures
        r@ == reporting_script(ref_id, rest@),
{
    let mut s = element_script_start(ref_id);
    push_str(&mut s, MISSING_A);
    push_decimal(&mut s, ref_id as u64);
    push_str(&mut s, MISSING_B);
    push_str(&mut s, rest);
    s
}

/// Rest of the focus script.
pub const FOCUS_REST: &'static str = "    el.focus();\n    return 'focused';\n})()";

/// The script that focuses element `ref_id`.
pub fn focus_script(ref_id: u32) -> (r: String)
    ensures
        r@ == reporting_script(ref_id, FOCUS_REST@),
{
    reporting_script_exec(ref_id, FOCUS_REST)
}

/// Rest of the form-submission script: a submit button of the enclosing
/// form is clicked, else the form is submitted directly.
pub const SUBMIT_REST: &'static str = r#"    const form = el.closest('form') || el;
    const submit = form.querySelector('[type="submit"], button:not([type])');
    if (submit) { submit.click(); return 'submitted via button'; }
    if (form.submit) { form.submit(); return 'submitted via form.submit()'; }
    return 'no submit mechanism found';
})()"#;

/// The script that submits the form holding element `ref_id`.
pub fn submit_script(ref_id: u32) -> (r: String)
    ensures
        r@ == reporting_script(ref_id, SUBMIT_REST@),
{
    reporting_script_exec(ref_id, SUBMIT_REST)
}

/// Rest of the scroll-into-view script.
pub const SCROLL_INTO_VIEW_REST: &'static str = "    el.scrollIntoView({block: 'center', behavior: 'smooth'});\n    return 'scrolled';\n})()";

/// The script that scrolls element `ref_id` to the middle of the viewport.
pub fn scroll_into_view_script(ref_id: u32) -> (r: String)
    ensures
        r@ == reporting_script(ref_id, SCROLL_INTO_VIEW_REST@),
{
    reporting_script_exec(ref_id, SCROLL_INTO_VIEW_REST)
}

/// Body of the hover script: fires `mouseover` and `mouseenter` and
/// reports the centre of the element, or `{error: 'not found'}`.
pub const HOVER_BODY: &'static str = r#"    if (!el) return JSON.stringify({error: 'not found'});
    const rect = el.getBoundingClientRect();
    el.dispatchEvent(new MouseEvent('mouseover', {bubbles: true}));
    el.dispatchEvent(new MouseEvent('mouseenter', {bubbles: true}));
    return JSON.stringify({x: rect.x + rect.width/2, y: rect.y + rect.height/2});
})()"#;

/// The script that hovers element `ref_id`.
pub fn hover_script(ref_id: u32) -> (r: String)
    ensures
        r@ == element_script(ref_id, HOVER_BODY@),
{
    let mut s = element_script_start(ref_id);
    push_str(&mut s, HOVER_BODY);
    s
}

/// Body of the file-input check: answers the reference, or `-1`.
pub const FILE_INPUT_BODY: &'static str = "    if (!el) return '-1';\n    return el.getAttribute('data-wraith-ref');\n})()";

/// The script that checks that the file input `ref_id` exists.
pub fn file_input_script(ref_id: u32) -> (r: String)
    ensures
        r@ == element_script(ref_id, FILE_INPUT_BODY@),
{
    let mut s = element_script_start(ref_id);
    push_str(&mut s, FILE_INPUT_BODY);
    s
}

/// Start of the bare element expression, up to the reference number.
pub const ELEMENT_EXPR_HEAD: &'static str = "document.querySelector('[data-wraith-ref=\"";

/// End of the bare element expression.
pub const ELEMENT_EXPR_END: &'static str = "\"]')";

/// The expression that evaluates to element `ref_id` itself, for a remote
/// object handle.
pub fn element_expression(ref_id: u32) -> (r: String)
    ensures
        r@ == ELEMENT_EXPR_HEAD@ + decimal(ref_id as nat) + ELEMENT_EXPR_END@,
{
    let mut s = String::new();
    push_str(&mut s, ELEMENT_EXPR_HEAD);
    push_decimal(&mut s, ref_id as u64);
    push_str(&mut s, ELEMENT_EXPR_END);
    s
}

/// Start of the selector probe, up to the escaped selector.
pub const SELECTOR_PROBE_A: &'static str = "document.querySelector('";

/// End of the selector probe.
pub const SELECTOR_PROBE_B: &'static str = "') ? 'found' : 'not_found'";

/// The expression that answers `found` once the escaped selector matches.
pub fn selector_probe(escaped: &str) -> (r: String)
    ensures
        r@ == SELECTOR_PROBE_A@ + escaped@ + SELECTOR_PROBE_B@,
{
    let mut s = String::new();
    push_str(&mut s, SELECTOR_PROBE_A);
    push_str(&mut s, escaped);
    push_str(&mut s, SELECTOR_PROBE_B);
    s
}

/// The script that extracts the visible text of the page, without scripts,
/// styles and embedded frames.
pub const EXTRACT_TEXT_SCRIPT: &'static str = r#"(() => {
    const clone = document.body.cloneNode(true);
    clone.querySelectorAll('script, style, noscript, svg, iframe').forEach(e => e.remove());
    return clone.innerText || clone.textContent || '';
})()"#;

/// Body of the nudge script: writes the escaped text through the native
/// value setter (where there is one) and fires `input` and `change`,
/// answering `gone` for a missing element.
pub const NUDGE_BODY_A: &'static str = r#"    if (!el) return 'gone';
    const proto = el.tagName === 'TEXTAREA'
        ? window.HTMLTextAreaElement.prototype
        : window.HTMLInputElement.prototype;
    const desc = Object.getOwnPropertyDescriptor(proto, 'value');
    if (desc && desc.set) desc.set.call(el, '"#;

/// End of the nudge script.
pub const NUDGE_BODY_B: &'static str = r#"');
    el.dispatchEvent(new Event('input', {bubbles: true}));
    el.dispatchEvent(new Event('change', {bubbles: true}));
    return 'ok';
})()"#;

/// The script that nudges React into taking the escaped text on element `ref_id`.
pub fn fill_nudge_script(ref_id: u32, escaped: &str) -> (r: String)
    ensures
        r@ == element_script(ref_id, NUDGE_BODY_A@ + escaped@ + NUDGE_BODY_B@),
{
    let mut s = element_script_start(ref_id);
    push_str(&mut s, NUDGE_BODY_A);
    push_str(&mut s, escaped);
    push_str(&mut s, NUDGE_BODY_B);
    s
}

/// The script that snapshots a page: it numbers the visible interactive
/// elements and headings (marking each with `data-wraith-ref`), and answers
/// JSON with the page's address, title, elements and metadata.
pub const SNAPSHOT_SCRIPT: &'static str = r#"(() => {
    const elements = [];
    let refId = 0;

    const interactiveSelectors = [
        'a[href]',
        'button',
        'input',
        'select',
        'textarea',
        '[role="button"]',
        '[role="link"]',
        '[role="textbox"]',
        '[role="combobox"]',
        '[role="checkbox"]',
        '[role="radio"]',
        '[role="tab"]',
        '[role="menuitem"]',
        '[role="option"]',
        '[role="listbox"]',
        '[contenteditable="true"]',
    ].join(',');

    function isVisible(el) {
        if (!el.offsetParent && el.tagName !== 'BODY' && el.tagName !== 'HTML') {
            const style = window.getComputedStyle(el);
            if (style.display === 'none' || style.visibility === 'hidden') return false;
            if (style.position !== 'fixed' && style.position !== 'sticky') return false;
        }
        const rect = el.getBoundingClientRect();
        if (rect.width === 0 && rect.height === 0) return false;
        return true;
    }

    function getTextContent(el) {
        if (el.tagName === 'INPUT' || el.tagName === 'TEXTAREA') {
            return '';
        }
        if (el.tagName === 'SELECT') {
            const opt = el.options[el.selectedIndex];
            return opt ? opt.textContent.trim() : '';
        }
        const text = (el.innerText || el.textContent || '').trim();
        return text.length > 200 ? text.substring(0, 200) + '...' : text;
    }

    function getComboboxValue(el) {
        if (el.tagName === 'SELECT') {
            const opt = el.options[el.selectedIndex];
            return opt ? opt.textContent.trim() : (el.value || '');
        }
        if (el.tagName === 'INPUT' || el.tagName === 'TEXTAREA') {
            return el.value || '';
        }
        if (typeof el.value === 'string' && el.value !== '') {
            return el.value;
        }
        const ariaVal = el.getAttribute('aria-valuenow')
            || el.getAttribute('aria-valuetext')
            || el.getAttribute('data-value');
        if (ariaVal) return ariaVal;
        const valueChild = el.querySelector(
            '[class*="singleValue"], [class*="value"], [class*="selected"], '
            + '[class*="placeholder"]:not([class*="hidden"]), '
            + 'span:first-child, [class*="trigger"] > span'
        );
        if (valueChild) {
            const t = (valueChild.innerText || valueChild.textContent || '').trim();
            if (t) return t;
        }
        const directText = (el.innerText || el.textContent || '').trim();
        if (directText) return directText;
        const hidden = el.querySelector('input[type="hidden"]') || el.querySelector('input');
        if (hidden && hidden.value) return hidden.value;
        return '';
    }

    function getRole(el) {
        const ariaRole = el.getAttribute('role');
        if (ariaRole) return ariaRole;

        const tag = el.tagName.toLowerCase();
        switch (tag) {
            case 'a': return 'link';
            case 'button': return 'button';
            case 'input': return el.getAttribute('type') || 'textbox';
            case 'select': return 'combobox';
            case 'textarea': return 'textbox';
            default:
                if (el.contentEditable === 'true') return 'textbox';
                return tag;
        }
    }

    function buildSelector(el) {
        const tag = el.tagName.toLowerCase();
        if (el.id) return tag + '#' + CSS.escape(el.id);
        const attrs = [];
        if (el.getAttribute('name')) attrs.push('[name=\"' + el.getAttribute('name') + '\"]');
        if (tag === 'input' && el.getAttribute('type') && el.getAttribute('type') !== 'text')
            attrs.push('[type=\"' + el.getAttribute('type') + '\"]');
        if (el.getAttribute('data-field')) attrs.push('[data-field=\"' + el.getAttribute('data-field') + '\"]');
        if (attrs.length > 0) return tag + attrs.join('');
        const cls = Array.from(el.classList).slice(0, 2).map(c => '.' + CSS.escape(c)).join('');
        return tag + cls;
    }

    const nodes = document.querySelectorAll(interactiveSelectors);
    for (const el of nodes) {
        if (!isVisible(el)) continue;

        refId++;

        el.setAttribute('data-wraith-ref', String(refId));

        const rect = el.getBoundingClientRect();
        const isDisabled = el.disabled ||
            el.getAttribute('aria-disabled') === 'true' ||
            el.hasAttribute('readonly');

        const role = getRole(el);
        const isCombobox = role === 'combobox'
            || el.getAttribute('role') === 'combobox'
            || el.getAttribute('role') === 'listbox'
            || (el.className && typeof el.className === 'string' && /select|dropdown|combobox/i.test(el.className));
        const rawValue = isCombobox
            ? (getComboboxValue(el) || null)
            : ((el.value !== undefined && el.value !== '') ? el.value : null);

        const entry = {
            ref_id: refId,
            role: role,
            text: getTextContent(el) || null,
            href: el.getAttribute('href') || null,
            placeholder: el.getAttribute('placeholder') || null,
            value: rawValue,
            enabled: !isDisabled,
            visible: true,
            aria_label: el.getAttribute('aria-label') || null,
            selector: buildSelector(el),
            bounds: {
                x: rect.x,
                y: rect.y,
                width: rect.width,
                height: rect.height,
            },
        };

        elements.push(entry);
    }

    const headings = document.querySelectorAll('h1, h2, h3');
    for (const h of headings) {
        if (!isVisible(h)) continue;
        const text = (h.innerText || h.textContent || '').trim();
        if (!text) continue;
        refId++;
        h.setAttribute('data-wraith-ref', String(refId));
        const rect = h.getBoundingClientRect();
        elements.push({
            ref_id: refId,
            role: h.tagName.toLowerCase(),
            text: text.length > 200 ? text.substring(0, 200) + '...' : text,
            href: null,
            placeholder: null,
            value: null,
            enabled: true,
            visible: true,
            aria_label: null,
            selector: buildSelector(h),
            bounds: { x: rect.x, y: rect.y, width: rect.width, height: rect.height },
        });
    }

    const forms = document.querySelectorAll('form');
    const hasLoginForm = Array.from(forms).some(f => {
        const html = f.innerHTML.toLowerCase();
        return html.includes('password') || html.includes('login') || html.includes('sign in');
    });
    const hasCaptcha = !!(
        document.querySelector('[class*="captcha"], [id*="captcha"], [class*="recaptcha"], iframe[src*="recaptcha"], iframe[src*="hcaptcha"]')
    );
    const description = document.querySelector('meta[name="description"]');
    const mainContent = document.querySelector('main, article, [role="main"]');
    const contentPreview = mainContent
        ? (mainContent.innerText || '').trim().substring(0, 500)
        : null;

    const overlays = [];
    const overlaySelectors = [
        '[role="dialog"]',
        '[role="alertdialog"]',
        '[class*="modal"]',
        '[class*="overlay"]',
        '[class*="popup"]',
        '[class*="cookie"]',
    ];
    for (const sel of overlaySelectors) {
        for (const el of document.querySelectorAll(sel)) {
            if (!isVisible(el)) continue;
            const refAttr = el.getAttribute('data-wraith-ref');
            overlays.push({
                ref_id: refAttr || '?',
                type: el.getAttribute('role') || 'modal',
                title: (el.getAttribute('aria-label') || el.querySelector('h1,h2,h3')?.textContent || '').trim().substring(0, 100),
            });
        }
    }

    return JSON.stringify({
        url: window.location.href,
        title: document.title,
        elements: elements,
        meta: {
            page_type: null,
            main_content_preview: contentPreview,
            description: description ? description.getAttribute('content') : null,
            form_count: forms.length,
            has_login_form: hasLoginForm,
            has_captcha: hasCaptcha,
            overlays: overlays,
        },
    });
})()"#;

} // verus!
