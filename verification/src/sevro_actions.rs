//! The decisions of the Sevro engine backend: the scripts it runs in its
//! embedded JavaScript engine, what it reports for their answers, where an
//! applicant-tracking URL really leads, and how a page node is named.
//!
//! Sevro finds an element through `__wraith_get_by_ref(N)`, the page's own
//! index of snapshot references.

use vstd::prelude::*;
use crate::actions::{ActionResult, BrowserAction, reports_success, reports_failure, success, failure};
use crate::ats::{slug_candidates, greenhouse_slug_candidates, ats_endpoint, detect_ats_submit_endpoint};
use crate::rate_limit::{parsed_url_host, url_host};
use crate::text::{
    decimal, has_prefix, has_suffix, contains_seq, strip_end_char, views, push_str,
    push_decimal, owned, str_eq, str_contains, starts_with, ends_with, chars_of, string_of,
    strip_end_char_exec, push_char,
};

verus! {

// ---------------------------------------------------------------------------
// Scripts
// ---------------------------------------------------------------------------

/// Opening of every element script, up to the reference number.
pub const REF_HEAD: &'static str = "(() => {\n    var el = __wraith_get_by_ref(";

/// After the reference number: the element must be in the index.
pub const REF_CHECK_A: &'static str = ");\n    if (!el) return 'NOT_FOUND: @e";

/// After the second reference number: how many references the index holds.
pub const REF_CHECK_B: &'static str = " not in ref_index (' + Object.keys(__wraith_ref_index).length + ' refs)';\n";

/// The script that looks up element `ref_id`, answers `NOT_FOUND: ...`
/// when the index lacks it, and otherwise runs `body`.
pub open spec fn ref_script(ref_id: u32, body: Seq<char>) -> Seq<char> {
    REF_HEAD@ + decimal(ref_id as nat) + REF_CHECK_A@ + decimal(ref_id as nat) + REF_CHECK_B@ + body
}

fn ref_script_start(ref_id: u32) -> (r: String)
    ensures
        r@ == REF_HEAD@ + decimal(ref_id as nat) + REF_CHECK_A@ + decimal(ref_id as nat) + REF_CHECK_B@,
{
    let mut s = owned(REF_HEAD);
    push_decimal(&mut s, ref_id as u64);
    push_str(&mut s, REF_CHECK_A);
    push_decimal(&mut s, ref_id as u64);
    push_str(&mut s, REF_CHECK_B);
    s
}

/// Body of the click script: focus, click, and report the link followed or
/// the start of the element's text.
pub const CLICK_BODY: &'static str = r#"    try { el.focus(); } catch(e) {}
    try { el.click(); } catch(e) {}
    try { el.dispatchEvent(new Event('click', { bubbles: true })); } catch(e) {}
    var href = el.attrs ? el.attrs.href : null;
    if (href) return 'CLICKED_LINK: ' + href;
    return 'CLICKED: ' + (el.textContent || el.tag || '').substring(0, 50);
})()"#;

/// The script that clicks element `ref_id`.
pub fn sevro_click_script(ref_id: u32) -> (r: String)
    ensures
        r@ == ref_script(ref_id, CLICK_BODY@),
{
    let mut s = ref_script_start(ref_id);
    push_str(&mut s, CLICK_BODY);
    s
}

/// Start of the fill body, up to the escaped text.
pub const FILL_A: &'static str = "    try { el.focus(); } catch(e) {}\n    var result = __wraith_react_set_value(el, '";

/// Fill body, between the two copies of the escaped text.
pub const FILL_B: &'static str = "');\n    var readback = el.value || el._value || '';\n    var verified = (readback === '";

/// End of the fill body: the value read back, and whether it matches.
pub const FILL_C: &'static str = r#"');
    return 'FILLED (' + result + (verified ? ', verified' : ', UNVERIFIED: got "' + readback + '"') + '): ' + readback;
})()"#;

/// The script that sets the value of element `ref_id` to the escaped text,
/// the way React expects, and reads it back.
pub fn sevro_fill_script(ref_id: u32, escaped: &str) -> (r: String)
    ensures
        r@ == ref_script(ref_id, FILL_A@ + escaped@ + FILL_B@ + escaped@ + FILL_C@),
{
    let mut s = ref_script_start(ref_id);
    push_str(&mut s, FILL_A);
    push_str(&mut s, escaped);
    push_str(&mut s, FILL_B);
    push_str(&mut s, escaped);
    push_str(&mut s, FILL_C);
    s
}

/// Opening of the typing and select scripts, up to the reference number.
pub const SHORT_HEAD: &'static str = "(() => {\n    var el = __wraith_get_by_ref(";

/// After the reference number: a missing element answers `NOT_FOUND: @eN`.
pub const SHORT_CHECK: &'static str = ");\n    if (!el) return 'NOT_FOUND: @e";

/// The script that looks up element `ref_id`, answers `NOT_FOUND: @eN` when
/// it is missing, and otherwise runs `body`.
pub open spec fn short_ref_script(ref_id: u32, body: Seq<char>) -> Seq<char> {
    SHORT_HEAD@ + decimal(ref_id as nat) + SHORT_CHECK@ + decimal(ref_id as nat) + "';\n"@ + body
}

fn short_ref_script_start(ref_id: u32) -> (r: String)
    ensures
        r@ == SHORT_HEAD@ + decimal(ref_id as nat) + SHORT_CHECK@ + decimal(ref_id as nat) + "';\n"@,
{
    let mut s = owned(SHORT_HEAD);
    push_decimal(&mut s, ref_id as u64);
    push_str(&mut s, SHORT_CHECK);
    push_decimal(&mut s, ref_id as u64);
    push_str(&mut s, "';\n");
    s
}

/// Start of the typing body, up to the escaped text.
pub const TYPE_A: &'static str = "    try { el.focus(); } catch(e) {}\n    var text = '";

/// Rest of the typing body: one character at a time, each with an `input`
/// event, then `change` and `blur`.
pub const TYPE_B: &'static str = r#"';
    for (var i = 0; i < text.length; i++) {
        el.value = (el.value || el._value || '') + text.charAt(i);
        if (el._value !== undefined) el._value = el.value;
        try { el.dispatchEvent(new Event('input', { bubbles: true })); } catch(e) {}
    }
    try { el.dispatchEvent(new Event('change', { bubbles: true })); } catch(e) {}
    try { el.dispatchEvent(new Event('blur', { bubbles: true })); } catch(e) {}
    return 'TYPED: ' + (el.value || el._value || '');
})()"#;

/// The script that types the escaped text into element `ref_id`.
pub fn sevro_type_script(ref_id: u32, escaped: &str) -> (r: String)
    ensures
        r@ == short_ref_script(ref_id, TYPE_A@ + escaped@ + TYPE_B@),
{
    let mut s = short_ref_script_start(ref_id);
    push_str(&mut s, TYPE_A);
    push_str(&mut s, escaped);
    push_str(&mut s, TYPE_B);
    s
}

/// Start of the select body, up to the escaped value.
pub const SELECT_A: &'static str = "    try { el.focus(); } catch(e) {}\n    el.value = '";

/// Select body, between the two copies of the escaped value.
pub const SELECT_B: &'static str = "';\n    if (el._value !== undefined) el._value = '";

/// End of the select body.
pub const SELECT_C: &'static str = r#"';
    try { el.dispatchEvent(new Event('change', { bubbles: true })); } catch(e) {}
    try { el.dispatchEvent(new Event('input', { bubbles: true })); } catch(e) {}
    return 'SELECTED: ' + (el.value || el._value || '');
})()"#;

/// The script that selects the escaped value on element `ref_id`.
pub fn sevro_select_script(ref_id: u32, escaped: &str) -> (r: String)
    ensures
        r@ == short_ref_script(ref_id, SELECT_A@ + escaped@ + SELECT_B@ + escaped@ + SELECT_C@),
{
    let mut s = short_ref_script_start(ref_id);
    push_str(&mut s, SELECT_A);
    push_str(&mut s, escaped);
    push_str(&mut s, SELECT_B);
    push_str(&mut s, escaped);
    push_str(&mut s, SELECT_C);
    s
}

/// Start of the upload script, up to the reference number.
pub const UPLOAD_A: &'static str = "(() => {\n    var el = __wraith_get_by_ref(";

/// Upload script: a target that is not a file input is dropped for the
/// first file input of the page; then the missing-input answer names the
/// reference again.
pub const UPLOAD_B: &'static str = r#");
    if (el && el.attrs && el.attrs.type !== 'file') el = null;
    if (!el) {
        for (var i = 0; i < __wraith_nodes.length; i++) {
            var n = __wraith_nodes[i];
            if (n.tag === 'input' && n.attrs && n.attrs.type === 'file') { el = n; break; }
        }
    }
    if (!el) return 'NOT_FOUND: no file input found (ref @e"#;

/// Upload script, from the second reference number to the file's data.
pub const UPLOAD_C: &'static str = r#", searched ' + __wraith_nodes.length + ' nodes)';
    try {
        var b64 = '"#;

/// Upload script, from the data to the file's name.
pub const UPLOAD_D: &'static str = r#"';
        var binary = atob(b64);
        var bytes = new Uint8Array(binary.length);
        for (var i = 0; i < binary.length; i++) bytes[i] = binary.charCodeAt(i);
        var file = new File([bytes], '"#;

/// Upload script, from the file's name to its type.
pub const UPLOAD_E: &'static str = "', { type: '";

/// Upload script, from the type to the name in the answer.
pub const UPLOAD_F: &'static str = r#"' });
        var dt = new DataTransfer();
        dt.items.add(file);
        el.files = dt.files;
        el.dispatchEvent(new Event('change', { bubbles: true }));
        el.dispatchEvent(new Event('input', { bubbles: true }));
        return 'OK: uploaded ' + '"#;

/// End of the upload script.
pub const UPLOAD_G: &'static str = r#"' + ' (' + bytes.length + ' bytes)';
    } catch(e) {
        return 'ERROR: ' + e.message;
    }
})()"#;

/// The script that puts a file (base64 `data`, `name`, `mime` type) into
/// the file input `ref_id`, or the page's first file input; the three texts
/// are embedded as they are.
pub fn sevro_upload_script(ref_id: u32, data: &str, name: &str, mime: &str) -> (r: String)
    ensures
        r@ == UPLOAD_A@ + decimal(ref_id as nat) + UPLOAD_B@ + decimal(ref_id as nat) + UPLOAD_C@ + data@
            + UPLOAD_D@ + name@ + UPLOAD_E@ + mime@ + UPLOAD_F@ + name@ + UPLOAD_G@,
{
    let mut s = owned(UPLOAD_A);
    push_decimal(&mut s, ref_id as u64);
    push_str(&mut s, UPLOAD_B);
    push_decimal(&mut s, ref_id as u64);
    push_str(&mut s, UPLOAD_C);
    push_str(&mut s, data);
    push_str(&mut s, UPLOAD_D);
    push_str(&mut s, name);
    push_str(&mut s, UPLOAD_E);
    push_str(&mut s, mime);
    push_str(&mut s, UPLOAD_F);
    push_str(&mut s, name);
    push_str(&mut s, UPLOAD_G);
    s
}

/// Start of the form-serialisation script, up to the reference number.
pub const SERIALIZE_A: &'static str = "(() => {\n    var el = __wraith_get_by_ref(";

/// Serialisation script, from the reference to its repetition in the error.
pub const SERIALIZE_B: &'static str = ");\n    if (!el) return JSON.stringify({ error: 'NOT_FOUND: @e";

/// Rest of the serialisation script: the enclosing form (up to twenty
/// levels up), the named fields of the page with their values (checked
/// boxes only, file inputs apart), the form's action and method.
pub const SERIALIZE_C: &'static str = r#"' });
    var form = null;
    if (el.tag === 'form') { form = el; }
    else {
        var parent = el.parentNode;
        var depth = 0;
        while (parent && depth < 20) {
            if (parent.tag === 'form') { form = parent; break; }
            parent = parent.parentNode;
            depth++;
        }
    }
    var fields = {};
    var fileFields = {};
    var inputs = document.querySelectorAll('input, select, textarea');
    for (var i = 0; i < inputs.length; i++) {
        var inp = inputs[i];
        var name = inp.name || (inp.attrs ? inp.attrs.name : null) || (inp.attrs ? inp.attrs.id : null) || inp.id;
        if (!name) continue;
        var val = inp.value || inp._value || '';
        var type = (inp.attrs ? inp.attrs.type : null) || 'text';
        if (type === 'file') {
            if (inp.files && inp.files.length > 0) {
                fileFields[name] = { fileName: inp.files[0].name, fileType: inp.files[0].type, fileSize: inp.files[0].size };
            }
            continue;
        }
        if (type === 'checkbox' || type === 'radio') {
            if (inp.checked || (inp.attrs && inp.attrs.checked)) { fields[name] = val || 'on'; }
            continue;
        }
        if (val) fields[name] = val;
    }
    var action = '';
    if (form && form.attrs) { action = form.attrs.action || form.attrs['data-action'] || ''; }
    return JSON.stringify({
        action: action,
        method: (form && form.attrs ? form.attrs.method : '') || 'POST',
        fields: fields,
        fileFields: fileFields,
        formFound: !!form,
        fieldCount: Object.keys(fields).length
    });
})()"#;

/// The script that serialises the form around element `ref_id` as JSON.
pub fn sevro_serialize_script(ref_id: u32) -> (r: String)
    ensures
        r@ == SERIALIZE_A@ + decimal(ref_id as nat) + SERIALIZE_B@ + decimal(ref_id as nat) + SERIALIZE_C@,
{
    let mut s = owned(SERIALIZE_A);
    push_decimal(&mut s, ref_id as u64);
    push_str(&mut s, SERIALIZE_B);
    push_decimal(&mut s, ref_id as u64);
    push_str(&mut s, SERIALIZE_C);
    s
}

// ---------------------------------------------------------------------------
// Reports
// ---------------------------------------------------------------------------

/// The report of a script's answer about `ref_id`: `@eN: answer`.
pub fn answered_result(ref_id: u32, answer: &str) -> (r: ActionResult)
    ensures
        reports_success(r, "@e"@ + decimal(ref_id as nat) + ": "@ + answer@),
{
    let mut s = owned("@e");
    push_decimal(&mut s, ref_id as u64);
    push_str(&mut s, ": ");
    push_str(&mut s, answer);
    success(s)
}

/// The report of a click that fell back to the engine's own click, because
/// the script could not run.
pub fn basic_click_result(ref_id: u32) -> (r: ActionResult)
    ensures
        reports_success(r, "Clicked @e"@ + decimal(ref_id as nat) + " (basic)"@),
{
    let mut s = owned("Clicked @e");
    push_decimal(&mut s, ref_id as u64);
    push_str(&mut s, " (basic)");
    success(s)
}

/// The report of a fill that fell back to the engine's own fill; `error`
/// is why the script failed.
pub fn basic_fill_result(ref_id: u32, error: &str) -> (r: ActionResult)
    ensures
        reports_success(r, "Filled @e"@ + decimal(ref_id as nat) + " (basic): "@ + error@),
{
    let mut s = owned("Filled @e");
    push_decimal(&mut s, ref_id as u64);
    push_str(&mut s, " (basic): ");
    push_str(&mut s, error);
    success(s)
}

/// The report of typing that fell back to the engine's own fill.
pub fn basic_type_result(ref_id: u32, error: &str) -> (r: ActionResult)
    ensures
        reports_success(r, "Typed @e"@ + decimal(ref_id as nat) + " (basic): "@ + error@),
{
    let mut s = owned("Typed @e");
    push_decimal(&mut s, ref_id as u64);
    push_str(&mut s, " (basic): ");
    push_str(&mut s, error);
    success(s)
}

/// The report of a select whose script failed.
pub fn select_failed_result(ref_id: u32, error: &str) -> (r: ActionResult)
    ensures
        reports_failure(r, "Select @e"@ + decimal(ref_id as nat) + " failed: "@ + error@),
{
    let mut s = owned("Select @e");
    push_decimal(&mut s, ref_id as u64);
    push_str(&mut s, " failed: ");
    push_str(&mut s, error);
    failure(s)
}

/// The report of an upload script's answer: it succeeded only where the
/// answer starts with `OK:`.
pub fn upload_result(answer: &str) -> (r: ActionResult)
    ensures
        has_prefix(answer@, "OK:"@) ==> reports_success(r, answer@),
        !has_prefix(answer@, "OK:"@) ==> reports_failure(r, answer@),
{
    if starts_with(answer, "OK:") {
        success(owned(answer))
    } else {
        failure(owned(answer))
    }
}

/// What the form-serialisation script found.
pub struct FormSummary {
    /// The script's own error, where it reported one.
    pub error: Option<String>,
    /// How many field values were collected.
    pub field_count: u64,
    /// The form's action, or empty.
    pub action: String,
    /// A form encloses the element.
    pub form_found: bool,
}

/// What follows the serialisation of a form.
pub enum SubmitStep {
    /// Report this result.
    Report(ActionResult),
    /// Send the fields to `url` as `content_type`.
    Post { url: String, content_type: String },
}

/// Decides the submission of a serialised form on the page `page_url`:
/// an error or an empty form is reported, anything else is posted to the
/// endpoint the applicant-tracking system expects.
pub fn submit_step(page_url: &str, summary: &FormSummary) -> (r: SubmitStep)
    ensures
        summary.error matches Some(e) ==> (r matches SubmitStep::Report(res) && reports_failure(res, e@)),
        summary.error is None && summary.field_count == 0 ==> (r matches SubmitStep::Report(res)
            && reports_failure(
                res,
                "No field values found to submit (form_found="@
                    + (if summary.form_found { "true"@ } else { "false"@ })
                    + "). Fields may not have name attributes."@,
            )),
        summary.error is None && summary.field_count > 0 ==> (r matches SubmitStep::Post { url, content_type }
            && (url@, content_type@) == ats_endpoint(page_url@, summary.action@)),
{
    match &summary.error {
        Some(e) => SubmitStep::Report(failure(e.clone())),
        None => if summary.field_count == 0 {
            let mut s = owned("No field values found to submit (form_found=");
            if summary.form_found {
                push_str(&mut s, "true");
            } else {
                push_str(&mut s, "false");
            }
            push_str(&mut s, "). Fields may not have name attributes.");
            SubmitStep::Report(failure(s))
        } else {
            let (url, content_type) = detect_ats_submit_endpoint(page_url, summary.action.as_str());
            SubmitStep::Post { url, content_type }
        },
    }
}

/// The report of a posted form and the endpoint's answer.
pub fn submitted_result(url: &str, field_count: u64, response: &str) -> (r: ActionResult)
    ensures
        reports_success(
            r,
            "SUBMITTED: POST "@ + url@ + " ("@ + decimal(field_count as nat) + " fields) → "@ + response@,
        ),
{
    let mut s = owned("SUBMITTED: POST ");
    push_str(&mut s, url);
    push_str(&mut s, " (");
    push_decimal(&mut s, field_count);
    push_str(&mut s, " fields) → ");
    push_str(&mut s, response);
    success(s)
}

/// The first `n` characters of `s`.
pub open spec fn first_chars(s: Seq<char>, n: nat) -> Seq<char> {
    if s.len() <= n {
        s
    } else {
        s.take(n as int)
    }
}

/// The report of a form whose post failed, with what was collected (the
/// fields' JSON cut to its first 500 characters) so that the caller can retry.
pub fn serialized_result(field_count: u64, url: &str, error: &str, fields_json: &str) -> (r: ActionResult)
    ensures
        reports_success(
            r,
            "FORM_SERIALIZED: "@ + decimal(field_count as nat) + " fields collected, POST to "@ + url@
                + " failed: "@ + error@ + ". Fields: "@ + first_chars(fields_json@, 500),
        ),
{
    let mut s = owned("FORM_SERIALIZED: ");
    push_decimal(&mut s, field_count);
    push_str(&mut s, " fields collected, POST to ");
    push_str(&mut s, url);
    push_str(&mut s, " failed: ");
    push_str(&mut s, error);
    push_str(&mut s, ". Fields: ");
    let v = chars_of(fields_json);
    let mut i: usize = 0;
    let ghost start = s@;
    while i < v.len() && i < 500
        invariant
            i <= v.len(),
            i <= 500,
            v@ == fields_json@,
            s@ == start + v@.take(i as int),
        decreases v.len() - i,
    {
        push_char(&mut s, v[i]);
        assert(v@.take(i as int + 1) == v@.take(i as int).push(v@[i as int]));
        i += 1;
    }
    assert(first_chars(fields_json@, 500) == v@.take(i as int));
    success(s)
}

// ---------------------------------------------------------------------------
// Applicant-tracking URLs
// ---------------------------------------------------------------------------

/// The query parameters of `url` in order, names and values decoded as the
/// `url` crate decodes them; `None` when the URL does not parse. A function
/// of the text alone.
pub uninterp spec fn parsed_query_pairs(url: Seq<char>) -> Option<Seq<(Seq<char>, Seq<char>)>>;

/// `url::Url::parse(url)` then `query_pairs()`, each pair as two strings.
#[verifier::external_body]
fn url_query_pairs(url: &str) -> (r: Option<Vec<(String, String)>>)
    ensures
        match r {
            Some(v) => parsed_query_pairs(url@) == Some(v@.map_values(|p: (String, String)| (p.0@, p.1@))),
            None => parsed_query_pairs(url@) is None,
        },
{
    url::Url::parse(url).ok().map(|u| u.query_pairs().map(|(k, v)| (k.to_string(), v.to_string())).collect())
}

/// The value of the first pair named `key`.
pub open spec fn first_value(pairs: Seq<(Seq<char>, Seq<char>)>, key: Seq<char>) -> Option<Seq<char>>
    decreases pairs.len(),
{
    if pairs.len() == 0 {
        None
    } else if pairs[0].0 == key {
        Some(pairs[0].1)
    } else {
        first_value(pairs.drop_first(), key)
    }
}

/// The value of the first query parameter named `key` in `url`; `None`
/// when the URL does not parse or has no such parameter.
pub open spec fn query_value(url: Seq<char>, key: Seq<char>) -> Option<Seq<char>> {
    match parsed_query_pairs(url) {
        Some(ps) => first_value(ps, key),
        None => None,
    }
}

/// The value of the first query parameter named `key` in `url`.
fn url_query_value(url: &str, key: &str) -> (r: Option<String>)
    ensures
        match r {
            Some(v) => query_value(url@, key@) == Some(v@),
            None => query_value(url@, key@) is None,
        },
{
    match url_query_pairs(url) {
        None => None,
        Some(pairs) => {
            let ghost ps = pairs@.map_values(|p: (String, String)| (p.0@, p.1@));
            let mut i: usize = 0;
            assert(ps.subrange(0, ps.len() as int) =~= ps);
            while i < pairs.len()
                invariant
                    i <= pairs@.len(),
                    ps == pairs@.map_values(|p: (String, String)| (p.0@, p.1@)),
                    parsed_query_pairs(url@) == Some(ps),
                    first_value(ps, key@) == first_value(ps.subrange(i as int, ps.len() as int), key@),
                decreases pairs.len() - i,
            {
                let ghost rest = ps.subrange(i as int, ps.len() as int);
                assert(rest[0] == ps[i as int]);
                assert(ps[i as int] == (pairs@[i as int].0@, pairs@[i as int].1@));
                if str_eq(pairs[i].0.as_str(), key) {
                    let v = pairs[i].1.clone();
                    assert(first_value(rest, key@) == Some(rest[0].1));
                    return Some(v);
                }
                assert(rest.drop_first() =~= ps.subrange(i as int + 1, ps.len() as int));
                i += 1;
            }
            assert(ps.subrange(i as int, ps.len() as int).len() == 0);
            None
        },
    }
}

/// Every character is an ASCII digit.
pub open spec fn ascii_digits(s: Seq<char>) -> bool {
    forall|i: int| 0 <= i < s.len() ==> '0' <= #[trigger] s[i] <= '9'
}

/// Where an applicant-tracking link is opened.
pub enum AtsRoute {
    /// Open this address.
    Direct(String),
    /// A wrapped Greenhouse posting: probe the board API for each candidate
    /// board in order, and open the first board that knows the job.
    Probe { slugs: Vec<String>, job_id: String },
}

/// The route of a link: a Lever posting opens its application page; a
/// Greenhouse posting wrapped in a career site (numeric `gh_jid`) is looked
/// for on the boards its host suggests; anything else opens as it is.
pub open spec fn ats_route_spec(url: Seq<char>) -> (Option<Seq<char>>, Option<(Seq<Seq<char>>, Seq<char>)>) {
    let trimmed = strip_end_char(url, '/');
    if contains_seq(url, "lever.co"@) && !has_suffix(trimmed, "/apply"@) {
        (Some(trimmed + "/apply"@), None)
    } else {
        match query_value(url, "gh_jid"@) {
            Some(jid) => if ascii_digits(jid) && jid.len() > 0 {
                let host = match parsed_url_host(url) {
                    Some(h) => h,
                    None => Seq::empty(),
                };
                (None, Some((slug_candidates(host), jid)))
            } else {
                (Some(url), None)
            },
            None => (Some(url), None),
        }
    }
}

/// Decides where an applicant-tracking link is opened.
pub fn ats_route(url: &str) -> (r: AtsRoute)
    ensures
        ({
            let (direct, probe) = ats_route_spec(url@);
            match r {
                AtsRoute::Direct(u) => direct == Some(u@),
                AtsRoute::Probe { slugs, job_id } => probe == Some((views(slugs@), job_id@)),
            }
        }),
{
    let trimmed = string_of(&strip_end_char_exec(&chars_of(url), '/'));
    if str_contains(url, "lever.co") && !ends_with(trimmed.as_str(), "/apply") {
        let mut s = trimmed;
        push_str(&mut s, "/apply");
        return AtsRoute::Direct(s);
    }
    match url_query_value(url, "gh_jid") {
        Some(jid) => {
            let v = chars_of(jid.as_str());
            let mut all = true;
            let mut i: usize = 0;
            while i < v.len()
                invariant
                    i <= v.len(),
                    v@ == jid@,
                    all == (forall|k: int| 0 <= k < i ==> '0' <= #[trigger] v@[k] <= '9'),
                decreases v.len() - i,
            {
                all = all && '0' <= v[i] && v[i] <= '9';
                i += 1;
            }
            if all && v.len() > 0 {
                let host = match url_host(url) {
                    Some(h) => h,
                    None => String::new(),
                };
                AtsRoute::Probe { slugs: greenhouse_slug_candidates(host.as_str()), job_id: jid }
            } else {
                AtsRoute::Direct(owned(url))
            }
        },
        None => AtsRoute::Direct(owned(url)),
    }
}

/// The board-API address that tells whether board `slug` has job `job_id`.
pub fn board_probe_url(slug: &str, job_id: &str) -> (r: String)
    ensures
        r@ == "https://boards-api.greenhouse.io/v1/boards/"@ + slug@ + "/jobs/"@ + job_id@,
{
    let mut s = owned("https://boards-api.greenhouse.io/v1/boards/");
    push_str(&mut s, slug);
    push_str(&mut s, "/jobs/");
    push_str(&mut s, job_id);
    s
}

/// The application page of job `job_id` on board `slug`.
pub fn board_job_url(slug: &str, job_id: &str) -> (r: String)
    ensures
        r@ == "https://job-boards.greenhouse.io/"@ + slug@ + "/jobs/"@ + job_id@,
{
    let mut s = owned("https://job-boards.greenhouse.io/");
    push_str(&mut s, slug);
    push_str(&mut s, "/jobs/");
    push_str(&mut s, job_id);
    s
}

// ---------------------------------------------------------------------------
// Page nodes
// ---------------------------------------------------------------------------

/// The role of a page node by its tag: links, buttons, combo boxes and text
/// boxes by name, an input by its `type` (`textbox` without one), other
/// tags as themselves.
pub open spec fn node_role(tag: Seq<char>, input_type: Option<Seq<char>>) -> Seq<char> {
    if tag == "a"@ {
        "link"@
    } else if tag == "button"@ {
        "button"@
    } else if tag == "input"@ {
        match input_type {
            Some(t) => t,
            None => "textbox"@,
        }
    } else if tag == "select"@ {
        "combobox"@
    } else if tag == "textarea"@ {
        "textbox"@
    } else {
        tag
    }
}

/// The role of a page node.
pub fn sevro_role(tag: &str, input_type: Option<&str>) -> (r: String)
    ensures
        r@ == node_role(tag@, match input_type {
            Some(t) => Some(t@),
            None => None,
        }),
{
    if str_eq(tag, "a") {
        owned("link")
    } else if str_eq(tag, "button") {
        owned("button")
    } else if str_eq(tag, "input") {
        match input_type {
            Some(t) => owned(t),
            None => owned("textbox"),
        }
    } else if str_eq(tag, "select") {
        owned("combobox")
    } else if str_eq(tag, "textarea") {
        owned("textbox")
    } else {
        owned(tag)
    }
}

// ---------------------------------------------------------------------------
// Dispatch
// ---------------------------------------------------------------------------

/// How the Sevro engine takes an action.
pub enum SevroDispatch {
    /// The engine carries the action out (navigation, clicks, fills, typing,
    /// selection, uploads, form submission, scripts).
    Run,
    /// Refused: the engine takes no screenshots.
    NoScreenshot(String),
    /// Acknowledged without effect.
    Acknowledge(ActionResult),
}

/// The refusal of a screenshot.
pub open spec fn sevro_no_screenshot() -> Seq<char> {
    "Not available in Sevro (Phase 3)"@
}

/// How the Sevro engine takes `action`: it runs navigation, clicks, fills,
/// scripts, uploads, typing, selection and form submission; it refuses a
/// screenshot; anything else is acknowledged as a no-op.
pub fn sevro_dispatch(action: &BrowserAction) -> (r: SevroDispatch)
    ensures
        (action is Navigate || action is Click || action is Fill || action is EvalJs || action is UploadFile
            || action is TypeText || action is Select || action is SubmitForm) ==> r is Run,
        action is Screenshot ==> (r matches SevroDispatch::NoScreenshot(m) && m@ == sevro_no_screenshot()),
        !(action is Navigate || action is Click || action is Fill || action is EvalJs || action is UploadFile
            || action is TypeText || action is Select || action is SubmitForm || action is Screenshot) ==> (
        r matches SevroDispatch::Acknowledge(res) && reports_success(res, "Action acknowledged (Sevro stub)"@)),
{
    match action {
        BrowserAction::Navigate { .. } | BrowserAction::Click { .. } | BrowserAction::Fill { .. }
        | BrowserAction::EvalJs { .. } | BrowserAction::UploadFile { .. } | BrowserAction::TypeText { .. }
        | BrowserAction::Select { .. } | BrowserAction::SubmitForm { .. } => SevroDispatch::Run,
        BrowserAction::Screenshot { .. } => SevroDispatch::NoScreenshot(owned("Not available in Sevro (Phase 3)")),
        _ => SevroDispatch::Acknowledge(success(owned("Action acknowledged (Sevro stub)"))),
    }
}

} // verus!
