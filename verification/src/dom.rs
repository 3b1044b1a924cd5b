//! Page-level metadata of a DOM snapshot.

use vstd::prelude::*;
use crate::text::{owned, push_str, push_decimal, decimal, chars_of, push_char};

verus! {

/// Page-level metadata extracted during a snapshot.
#[derive(Debug, Clone)]
pub struct PageMeta {
    /// Detected page type: login, search_results, article, form, ...
    pub page_type: Option<String>,
    /// Preview of the main readable content.
    pub main_content_preview: Option<String>,
    /// Open Graph / meta description.
    pub description: Option<String>,
    /// Number of forms on the page.
    pub form_count: usize,
    /// A login form was detected.
    pub has_login_form: bool,
    /// A CAPTCHA was detected.
    pub has_captcha: bool,
    /// Number of interactive elements.
    pub interactive_element_count: usize,
}

impl Default for PageMeta {
    fn default() -> (m: Self)
        ensures
            m.page_type is None,
            m.main_content_preview is None,
            m.description is None,
            m.form_count == 0,
            !m.has_login_form,
            !m.has_captcha,
            m.interactive_element_count == 0,
    {
        PageMeta {
            page_type: None,
            main_content_preview: None,
            description: None,
            form_count: 0,
            has_login_form: false,
            has_captcha: false,
            interactive_element_count: 0,
        }
    }
}


/// What the agent-facing text shows of one element.
#[derive(Debug, Clone)]
pub struct ElementLine {
    pub ref_id: u32,
    pub role: String,
    pub text: Option<String>,
    pub placeholder: Option<String>,
}

/// `n` spaces.
pub open spec fn spaces(n: int) -> Seq<char> {
    Seq::new(if n > 0 { n as nat } else { 0 }, |i: int| ' ')
}

/// `s` padded with spaces on the right to at least `w` characters
/// (`{:<w}`).
pub open spec fn pad_right(s: Seq<char>, w: int) -> Seq<char> {
    s + spaces(w - s.len())
}

/// An optional string's characters, or nothing.
pub open spec fn or_empty(o: Option<String>) -> Seq<char> {
    match o {
        Some(s) => s@,
        None => Seq::empty(),
    }
}

/// The line for one element: its reference and role in fixed-width
/// columns, its text in quotes, and its placeholder if it has one.
pub open spec fn element_line(e: ElementLine) -> Seq<char> {
    let attrs = match e.placeholder {
        Some(p) => " placeholder=\""@ + p@ + "\""@,
        None => Seq::empty(),
    };
    pad_right("@e"@ + decimal(e.ref_id as nat), 6) + " "@ + pad_right("["@ + e.role@ + "]"@, 12)
        + " \""@ + or_empty(e.text) + "\""@ + attrs + "\n"@
}

/// The lines of `es`, concatenated.
pub open spec fn element_lines(es: Seq<ElementLine>) -> Seq<char>
    decreases es.len(),
{
    if es.len() == 0 {
        Seq::empty()
    } else {
        element_lines(es.drop_last()) + element_line(es.last())
    }
}

/// The compact text an agent reads for a page: title and URL, one line
/// per element, and the main-content preview if there is one.
pub open spec fn agent_text_of(
    title: Seq<char>,
    url: Seq<char>,
    es: Seq<ElementLine>,
    preview: Option<String>,
) -> Seq<char> {
    "Page: \""@ + title + "\" ("@ + url + ")\n\n"@ + element_lines(es) + match preview {
        Some(p) => "\n--- Main Content Preview ---\n"@ + p@ + "\n"@,
        None => Seq::empty(),
    }
}

fn push_padded(out: &mut String, s: &str, w: usize)
    ensures
        final(out)@ == old(out)@ + pad_right(s@, w as int),
{
    let ghost start = out@;
    push_str(out, s);
    let n = chars_of(s).len();
    let mut k: usize = n;
    assert(spaces(0) =~= Seq::<char>::empty());
    assert(out@ =~= start + s@ + spaces(k - n));
    while k < w
        invariant
            n == s@.len(),
            n <= k,
            k <= w || k == n,
            out@ == start + s@ + spaces(k - n),
        decreases w - k,
    {
        push_char(out, ' ');
        assert(spaces(k + 1 - n) =~= spaces(k - n).push(' '));
        k += 1;
    }
    assert(spaces(k - n) =~= spaces(w - n));
}

fn push_element_line(out: &mut String, e: &ElementLine)
    ensures
        final(out)@ == old(out)@ + element_line(*e),
{
    let ghost before = out@;
    let mut r = owned("@e");
    push_decimal(&mut r, e.ref_id as u64);
    push_padded(out, r.as_str(), 6);
    push_str(out, " ");
    let mut role = owned("[");
    push_str(&mut role, e.role.as_str());
    push_str(&mut role, "]");
    push_padded(out, role.as_str(), 12);
    push_str(out, " \"");
    match &e.text {
        Some(t) => push_str(out, t.as_str()),
        None => {},
    }
    push_str(out, "\"");
    match &e.placeholder {
        Some(p) => {
            push_str(out, " placeholder=\"");
            push_str(out, p.as_str());
            push_str(out, "\"");
        },
        None => {},
    }
    push_str(out, "\n");
    assert(out@ =~= before + element_line(*e));
}

/// The agent-facing text of a page with these elements (`preview` is the
/// main-content preview).
pub fn agent_text(title: &str, url: &str, elements: &[ElementLine], preview: &Option<String>) -> (r: String)
    ensures
        r@ == agent_text_of(title@, url@, elements@, *preview),
{
    let mut out = owned("Page: \"");
    push_str(&mut out, title);
    push_str(&mut out, "\" (");
    push_str(&mut out, url);
    push_str(&mut out, ")\n\n");
    let ghost head = out@;
    let mut i: usize = 0;
    assert(elements@.take(0) =~= Seq::<ElementLine>::empty());
    assert(head + element_lines(elements@.take(0)) =~= head);
    while i < elements.len()
        invariant
            i <= elements.len(),
            out@ == head + element_lines(elements@.take(i as int)),
        decreases elements.len() - i,
    {
        let e = &elements[i];
        let ghost before = out@;
        push_element_line(&mut out, e);
        proof {
            assert(elements@.take(i + 1).drop_last() =~= elements@.take(i as int));
            assert(elements@.take(i + 1).last() == *e);
        }
        i += 1;
    }
    assert(elements@.take(i as int) =~= elements@);
    match preview {
        Some(p) => {
            push_str(&mut out, "\n--- Main Content Preview ---\n");
            push_str(&mut out, p.as_str());
            push_str(&mut out, "\n");
        },
        None => {},
    }
    out
}
} // verus!
