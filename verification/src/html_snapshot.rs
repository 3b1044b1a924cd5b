//! The native client's snapshot of an HTML page: its title, its
//! interactive elements numbered for the agent, its metadata, and the form
//! data a submit button sends.
//!
//! HTML parsing and CSS selection are the `scraper` crate's; what the
//! snapshot reads of a matched element is an [`HtmlNode`]: its tag, its
//! text and its attributes.

use vstd::prelude::*;
use vstd::utf8::{decode_utf8, encode_utf8, is_char_boundary};
use crate::text::{
    trimmed, has_prefix, contains_seq, owned, to_lower, lowercase, starts_with, str_contains,
    str_eq, push_str, chars_of, trim_chars, string_of, utf8_len, join_with, views, join_strings,
};
use crate::native::{
    truncate, resolve_url, resolved_url, build_selector, selector_for, opt_view, detect_page_type,
    page_type,
};
use crate::dom::PageMeta;
use scraper::{ElementRef, Html, Selector};
use crate::native_session::filled_map;

verus! {

// ---------------------------------------------------------------------------
// Parsed HTML
// ---------------------------------------------------------------------------

/// An attribute of a matched element: its qualified name (prefix,
/// namespace URL, local name) and its value.
pub struct HtmlAttr {
    pub prefix: Option<String>,
    pub ns: String,
    pub local: String,
    pub value: String,
}

/// An element matched in a parsed page.
pub struct HtmlNode {
    /// Its tag name.
    pub tag: String,
    /// All text inside it, concatenated in document order.
    pub text: String,
    /// Its attributes, each qualified name once, in no particular order.
    pub attrs: Vec<HtmlAttr>,
}

/// The qualified name of an attribute, as characters.
pub open spec fn qual_name(a: HtmlAttr) -> (Option<Seq<char>>, Seq<char>, Seq<char>) {
    (match a.prefix {
        Some(p) => Some(p@),
        None => None,
    }, a.ns@, a.local@)
}

/// What is known of a matched element: tag, text, and attribute values by
/// qualified name.
pub struct HtmlNodeView {
    pub tag: Seq<char>,
    pub text: Seq<char>,
    pub attrs: Map<(Option<Seq<char>>, Seq<char>, Seq<char>), Seq<char>>,
}

/// The attribute map of a list of attributes; a later entry overrides an
/// earlier one of the same qualified name (a parsed element has each
/// qualified name once, so the map does not depend on the order).
pub open spec fn attr_map(a: Seq<HtmlAttr>) -> Map<(Option<Seq<char>>, Seq<char>, Seq<char>), Seq<char>>
    decreases a.len(),
{
    if a.len() == 0 {
        Map::empty()
    } else {
        attr_map(a.drop_last()).insert(qual_name(a.last()), a.last().value@)
    }
}

/// The key under which `scraper`'s `Element::attr(name)` looks an attribute
/// up: no prefix, no namespace, local name `name`.
pub open spec fn plain_name(name: Seq<char>) -> (Option<Seq<char>>, Seq<char>, Seq<char>) {
    (None, Seq::empty(), name)
}

impl View for HtmlNode {
    type V = HtmlNodeView;

    open spec fn view(&self) -> HtmlNodeView {
        HtmlNodeView { tag: self.tag@, text: self.text@, attrs: attr_map(self.attrs@) }
    }
}

/// The views of matched elements.
pub open spec fn node_views(ns: Seq<HtmlNode>) -> Seq<HtmlNodeView> {
    ns.map_values(|n: HtmlNode| n@)
}

/// The elements of the page `html` that match the CSS selector `css`, in
/// document order, as `scraper` parses and selects them (none for a
/// selector that does not parse): each one's tag name, its text, and its
/// attribute values by qualified name. A function of the two texts alone.
pub uninterp spec fn html_matches(html: Seq<char>, css: Seq<char>) -> Seq<HtmlNodeView>;

/// For each element of the page `html` matching `outer`, in document order,
/// that element and the elements inside it matching `inner`; a function of
/// the three texts.
pub uninterp spec fn html_nested_matches(html: Seq<char>, outer: Seq<char>, inner: Seq<char>) -> Seq<(HtmlNodeView, Seq<HtmlNodeView>)>;

/// The views of matched elements with the elements matched inside them.
pub open spec fn nested_views(ns: Seq<(HtmlNode, Vec<HtmlNode>)>) -> Seq<(HtmlNodeView, Seq<HtmlNodeView>)> {
    ns.map_values(|p: (HtmlNode, Vec<HtmlNode>)| (p.0@, node_views(p.1@)))
}

/// `scraper::Html::parse_document` then `select` with `Selector::parse(css)`,
/// each match converted to an [`HtmlNode`].
#[verifier::external_body]
fn select_nodes(html: &str, css: &str) -> (r: Vec<HtmlNode>)
    ensures
        node_views(r@) == html_matches(html@, css@),
{    let doc = Html::parse_document(html);
    match Selector::parse(css) {
        Ok(sel) => doc.select(&sel).map(|e| HtmlNode {
            tag: e.value().name().to_string(),
            text: e.text().collect(),
            attrs: e.value().attrs.iter().map(|(q, v)| HtmlAttr {
                prefix: q.prefix.as_deref().map(String::from),
                ns: q.ns.to_string(),
                local: q.local.to_string(),
                value: v.to_string(),
            }).collect(),
        }).collect(),
        Err(_) => Vec::new(),
    }
}

/// `scraper`: each match of `outer` in the parsed page, with the matches of
/// `inner` inside it.
#[verifier::external_body]
fn select_nested_nodes(html: &str, outer: &str, inner: &str) -> (r: Vec<(HtmlNode, Vec<HtmlNode>)>)
    ensures
        nested_views(r@) == html_nested_matches(html@, outer@, inner@),
{    let node = |e: ElementRef| HtmlNode {
        tag: e.value().name().to_string(),
        text: e.text().collect(),
        attrs: e.value().attrs.iter().map(|(q, v)| HtmlAttr {
            prefix: q.prefix.as_deref().map(String::from),
            ns: q.ns.to_string(),
            local: q.local.to_string(),
            value: v.to_string()
        }).collect()
    };
    match (Selector::parse(outer), Selector::parse(inner)) {
        (Ok(o), Ok(i)) => Html::parse_document(html).select(&o).map(|e| (node(e), e.select(&i).map(node).collect())).collect(),
        _ => Vec::new()
    }
}

/// The value of the attribute `name` without prefix or namespace, if the
/// element has it.
pub open spec fn attr_of(n: HtmlNodeView, name: Seq<char>) -> Option<Seq<char>> {
    if n.attrs.contains_key(plain_name(name)) {
        Some(n.attrs[plain_name(name)])
    } else {
        None
    }
}

/// The value of attribute `name` of `n`.
pub fn attr<'a>(n: &'a HtmlNode, name: &str) -> (r: Option<&'a str>)
    ensures
        opt_view(r) == attr_of(n@, name@),
{
    let mut i = n.attrs.len();
    assert(n.attrs@.take(i as int) == n.attrs@);
    while i > 0
        invariant
            i <= n.attrs@.len(),
            attr_map(n.attrs@).contains_key(plain_name(name@))
                == attr_map(n.attrs@.take(i as int)).contains_key(plain_name(name@)),
            attr_map(n.attrs@).contains_key(plain_name(name@)) ==> attr_map(n.attrs@)[plain_name(name@)]
                == attr_map(n.attrs@.take(i as int))[plain_name(name@)],
        decreases i,
    {
        proof {
            let t = n.attrs@.take(i as int);
            assert(t.drop_last() == n.attrs@.take(i as int - 1));
            assert(t.last() == n.attrs@[i as int - 1]);
        }
        let a = &n.attrs[i - 1];
        if a.prefix.is_none() && a.ns.as_str().unicode_len() == 0 && str_eq(a.local.as_str(), name) {
            assert(a.ns@ =~= Seq::<char>::empty());
            assert(qual_name(*a) == plain_name(name@));
            return Some(a.value.as_str());
        }
        assert(qual_name(*a) != plain_name(name@)) by {
            if a.ns@.len() != 0 {
                assert(a.ns@ != Seq::<char>::empty());
            }
        }
        i -= 1;
    }
    assert(n.attrs@.take(0) == Seq::<HtmlAttr>::empty());
    None
}

/// The text of attribute `name` of `n`, or `default`.
pub open spec fn attr_or(n: HtmlNodeView, name: Seq<char>, default: Seq<char>) -> Seq<char> {
    match attr_of(n, name) {
        Some(v) => v,
        None => default,
    }
}

/// `s` trimmed of white space, as an owned string.
fn trim(s: &str) -> (r: String)
    ensures
        r@ == trimmed(s@),
{
    string_of(&trim_chars(&chars_of(s)))
}

// ---------------------------------------------------------------------------
// Truncated texts
// ---------------------------------------------------------------------------

/// `s` cut to its first `max` UTF-8 bytes followed by `...` when it is longer.
pub open spec fn truncated_text(s: Seq<char>, max: nat) -> Seq<char> {
    if utf8_len(s) <= max {
        s
    } else {
        decode_utf8(encode_utf8(s).subrange(0, max as int)) + "..."@
    }
}

/// Cutting `s` at `max` bytes does not split a character (cutting at the
/// middle of one is where `truncate` would panic).
pub open spec fn cuts_cleanly(s: Seq<char>, max: nat) -> bool {
    utf8_len(s) <= max || is_char_boundary(encode_utf8(s), max as int)
}

/// `s` truncated, or `None` where the cut would split a character.
fn truncate_checked(s: &str, max: usize) -> (r: Option<String>)
    ensures
        cuts_cleanly(s@, max as nat) <==> r is Some,
        r matches Some(t) ==> t@ == truncated_text(s@, max as nat),
{
    if s.len() > max && !s.is_char_boundary(max) {
        None
    } else {
        Some(truncate(s, max))
    }
}

// ---------------------------------------------------------------------------
// Snapshot elements
// ---------------------------------------------------------------------------

/// An interactive element of a natively parsed page, numbered for the agent.
#[derive(Debug, Clone)]
pub struct NativeElement {
    /// Its reference (`@eN`).
    pub ref_id: u32,
    /// Its role: `link`, `submit`, `button`, `checkbox`, `radio`,
    /// `input[type=..]`, `select` or `textarea`.
    pub role: String,
    /// Its visible or descriptive text.
    pub text: Option<String>,
    /// Where it links to.
    pub href: Option<String>,
    /// Its placeholder.
    pub placeholder: Option<String>,
    /// Its value.
    pub value: Option<String>,
    /// It is not disabled.
    pub enabled: bool,
    /// It is visible (always, for a page without layout).
    pub visible: bool,
    /// Its ARIA label.
    pub aria_label: Option<String>,
    /// A CSS selector that finds it again.
    pub selector: String,
}

/// The content of a [`NativeElement`].
pub struct ElementView {
    pub ref_id: u32,
    pub role: Seq<char>,
    pub text: Option<Seq<char>>,
    pub href: Option<Seq<char>>,
    pub placeholder: Option<Seq<char>>,
    pub value: Option<Seq<char>>,
    pub enabled: bool,
    pub visible: bool,
    pub aria_label: Option<Seq<char>>,
    pub selector: Seq<char>,
}

/// The text of an optional string.
pub open spec fn opt_string(o: Option<String>) -> Option<Seq<char>> {
    match o {
        Some(s) => Some(s@),
        None => None,
    }
}

impl View for NativeElement {
    type V = ElementView;

    open spec fn view(&self) -> ElementView {
        ElementView {
            ref_id: self.ref_id,
            role: self.role@,
            text: opt_string(self.text),
            href: opt_string(self.href),
            placeholder: opt_string(self.placeholder),
            value: opt_string(self.value),
            enabled: self.enabled,
            visible: self.visible,
            aria_label: opt_string(self.aria_label),
            selector: self.selector@,
        }
    }
}

/// The contents of a sequence of elements.
pub open spec fn element_views(es: Seq<NativeElement>) -> Seq<ElementView> {
    es.map_values(|e: NativeElement| e@)
}

/// The selector that finds a matched element again.
pub open spec fn selector_of(n: HtmlNodeView) -> Seq<char> {
    selector_for(n.tag, attr_of(n, "id"@), attr_of(n, "name"@))
}

/// An owned copy of an optional attribute value.
fn owned_opt(o: Option<&str>) -> (r: Option<String>)
    ensures
        opt_string(r) == opt_view(o),
{
    match o {
        Some(s) => Some(owned(s)),
        None => None,
    }
}

/// The selector for a matched element.
fn node_selector(n: &HtmlNode) -> (r: String)
    ensures
        r@ == selector_of(n@),
{
    build_selector(n.tag.as_str(), attr(n, "id"), attr(n, "name"))
}

// Links ---------------------------------------------------------------------

/// A link is listed when it leads somewhere (not empty, not a fragment, not
/// a script) and has text or an ARIA label.
pub open spec fn link_kept(n: HtmlNodeView) -> bool {
    let href = attr_or(n, "href"@, Seq::empty());
    &&& !(href.len() == 0 || has_prefix(href, "#"@) || has_prefix(href, "javascript:"@))
    &&& !(trimmed(n.text).len() == 0 && attr_of(n, "aria-label"@) is None)
}

/// Listing the link does not cut its text inside a character.
pub open spec fn link_clean(n: HtmlNodeView) -> bool {
    !link_kept(n) || trimmed(n.text).len() == 0 || cuts_cleanly(trimmed(n.text), 80)
}

/// The element for a listed link, resolved against `base`.
pub open spec fn link_view(n: HtmlNodeView, base: Seq<char>, ref_id: u32) -> ElementView {
    let text = trimmed(n.text);
    ElementView {
        ref_id,
        role: "link"@,
        text: Some(if text.len() == 0 { attr_or(n, "aria-label"@, "[link]"@) } else { truncated_text(text, 80) }),
        href: Some(resolved_url(attr_or(n, "href"@, Seq::empty()), base)),
        placeholder: None,
        value: None,
        enabled: true,
        visible: true,
        aria_label: attr_of(n, "aria-label"@),
        selector: selector_of(n),
    }
}

/// The listed links of `ns`, numbered from `start`.
pub open spec fn link_elements(ns: Seq<HtmlNodeView>, base: Seq<char>, start: int) -> Seq<ElementView>
    decreases ns.len(),
{
    if ns.len() == 0 {
        Seq::empty()
    } else {
        let prev = link_elements(ns.drop_last(), base, start);
        if link_kept(ns.last()) {
            prev.push(link_view(ns.last(), base, (start + prev.len()) as u32))
        } else {
            prev
        }
    }
}

/// At most one element per node is listed.
proof fn lemma_link_elements_len(ns: Seq<HtmlNodeView>, base: Seq<char>, start: int)
    ensures
        link_elements(ns, base, start).len() <= ns.len(),
    decreases ns.len(),
{
    if ns.len() > 0 {
        lemma_link_elements_len(ns.drop_last(), base, start);
    }
}

/// The element of one matched link, if it is listed; `None` inside means
/// its text would be cut inside a character.
fn link_element(n: &HtmlNode, base: &str, ref_id: u32) -> (r: Option<Option<NativeElement>>)
    ensures
        link_clean(n@) <==> r is Some,
        r matches Some(o) ==> (link_kept(n@) <==> o is Some),
        r matches Some(Some(e)) ==> e@ == link_view(n@, base@, ref_id),
{
    let href: &str = match attr(n, "href") {
        Some(h) => h,
        None => "",
    };
    proof {
        reveal_strlit("");
    }
    if href.is_empty() || starts_with(href, "#") || starts_with(href, "javascript:") {
        return Some(None);
    }
    let text = trim(n.text.as_str());
    let aria = attr(n, "aria-label");
    if text.as_str().is_empty() && aria.is_none() {
        return Some(None);
    }
    let shown = if text.as_str().is_empty() {
        match aria {
            Some(a) => owned(a),
            None => owned("[link]"),
        }
    } else {
        match truncate_checked(text.as_str(), 80) {
            Some(t) => t,
            None => {
                return None;
            },
        }
    };
    Some(Some(NativeElement {
        ref_id,
        role: owned("link"),
        text: Some(shown),
        href: Some(resolve_url(href, base)),
        placeholder: None,
        value: None,
        enabled: true,
        visible: true,
        aria_label: owned_opt(aria),
        selector: node_selector(n),
    }))
}

/// The listed links of `nodes`, numbered from `start`, or `None` where a
/// link's text would be cut inside a character.
pub fn extract_links(nodes: &Vec<HtmlNode>, base: &str, start: u32) -> (r: Option<Vec<NativeElement>>)
    requires
        start as int + nodes@.len() <= u32::MAX,
    ensures
        (forall|i: int| 0 <= i < nodes@.len() ==> link_clean(#[trigger] nodes@[i]@)) <==> r is Some,
        r matches Some(es) ==> element_views(es@) == link_elements(node_views(nodes@), base@, start as int),
{
    let mut out: Vec<NativeElement> = Vec::new();
    let mut i: usize = 0;
    while i < nodes.len()
        invariant
            i <= nodes.len(),
            start as int + nodes@.len() <= u32::MAX,
            forall|k: int| 0 <= k < i ==> link_clean(#[trigger] nodes@[k]@),
            element_views(out@) == link_elements(node_views(nodes@.take(i as int)), base@, start as int),
            out@.len() <= i,
        decreases nodes.len() - i,
    {
        proof {
            assert(node_views(nodes@.take(i as int + 1)).drop_last() == node_views(nodes@.take(i as int)));
            assert(node_views(nodes@.take(i as int + 1)).last() == nodes@[i as int]@);
        }
        let ref_id = start + out.len() as u32;
        match link_element(&nodes[i], base, ref_id) {
            None => {
                return None;
            },
            Some(None) => {},
            Some(Some(e)) => {
                out.push(e);
                assert(element_views(out@) == element_views(out@.drop_last()).push(e@));
            },
        }
        i += 1;
    }
    assert(nodes@.take(nodes.len() as int) == nodes@);
    Some(out)
}

// Inputs --------------------------------------------------------------------

/// The lower-cased `type` of an input (`text` when absent).
pub open spec fn input_kind(n: HtmlNodeView) -> Seq<char> {
    lowercase(attr_or(n, "type"@, "text"@))
}

/// The role of an input of this kind.
pub open spec fn input_role(kind: Seq<char>) -> Seq<char> {
    if kind == "submit"@ || kind == "button"@ {
        "submit"@
    } else if kind == "checkbox"@ {
        "checkbox"@
    } else if kind == "radio"@ {
        "radio"@
    } else {
        "input[type="@ + kind + "]"@
    }
}

/// The first of `a`, `b`, `c` that is present.
pub open spec fn first_present(a: Option<Seq<char>>, b: Option<Seq<char>>, c: Option<Seq<char>>) -> Option<Seq<char>> {
    if a is Some {
        a
    } else if b is Some {
        b
    } else {
        c
    }
}

/// The element for an input that is not hidden.
pub open spec fn input_view(n: HtmlNodeView, ref_id: u32) -> ElementView {
    ElementView {
        ref_id,
        role: input_role(input_kind(n)),
        text: first_present(attr_of(n, "value"@), attr_of(n, "aria-label"@), attr_of(n, "title"@)),
        href: None,
        placeholder: attr_of(n, "placeholder"@),
        value: attr_of(n, "value"@),
        enabled: attr_of(n, "disabled"@) is None,
        visible: true,
        aria_label: attr_of(n, "aria-label"@),
        selector: selector_of(n),
    }
}

/// The inputs of `ns` that are not hidden, numbered from `start`.
pub open spec fn input_elements(ns: Seq<HtmlNodeView>, start: int) -> Seq<ElementView>
    decreases ns.len(),
{
    if ns.len() == 0 {
        Seq::empty()
    } else {
        let prev = input_elements(ns.drop_last(), start);
        if input_kind(ns.last()) != "hidden"@ {
            prev.push(input_view(ns.last(), (start + prev.len()) as u32))
        } else {
            prev
        }
    }
}

/// The element of one matched input, unless it is hidden.
fn input_element(n: &HtmlNode, ref_id: u32) -> (r: Option<NativeElement>)
    ensures
        (input_kind(n@) != "hidden"@) <==> r is Some,
        r matches Some(e) ==> e@ == input_view(n@, ref_id),
{
    let kind_raw: &str = match attr(n, "type") {
        Some(t) => t,
        None => "text",
    };
    let kind = to_lower(kind_raw);
    let k = kind.as_str();
    if str_eq(k, "hidden") {
        return None;
    }
    let role = if str_eq(k, "submit") || str_eq(k, "button") {
        owned("submit")
    } else if str_eq(k, "checkbox") {
        owned("checkbox")
    } else if str_eq(k, "radio") {
        owned("radio")
    } else {
        let mut r = owned("input[type=");
        push_str(&mut r, k);
        push_str(&mut r, "]");
        r
    };
    let value = attr(n, "value");
    let aria = attr(n, "aria-label");
    let text = if value.is_some() {
        owned_opt(value)
    } else if aria.is_some() {
        owned_opt(aria)
    } else {
        owned_opt(attr(n, "title"))
    };
    Some(NativeElement {
        ref_id,
        role,
        text,
        href: None,
        placeholder: owned_opt(attr(n, "placeholder")),
        value: owned_opt(value),
        enabled: attr(n, "disabled").is_none(),
        visible: true,
        aria_label: owned_opt(aria),
        selector: node_selector(n),
    })
}

/// The inputs of `nodes` that are not hidden, numbered from `start`.
pub fn extract_inputs(nodes: &Vec<HtmlNode>, start: u32) -> (r: Vec<NativeElement>)
    requires
        start as int + nodes@.len() <= u32::MAX,
    ensures
        element_views(r@) == input_elements(node_views(nodes@), start as int),
{
    let mut out: Vec<NativeElement> = Vec::new();
    let mut i: usize = 0;
    while i < nodes.len()
        invariant
            i <= nodes.len(),
            start as int + nodes@.len() <= u32::MAX,
            element_views(out@) == input_elements(node_views(nodes@.take(i as int)), start as int),
            out@.len() <= i,
        decreases nodes.len() - i,
    {
        proof {
            assert(node_views(nodes@.take(i as int + 1)).drop_last() == node_views(nodes@.take(i as int)));
            assert(node_views(nodes@.take(i as int + 1)).last() == nodes@[i as int]@);
        }
        let ref_id = start + out.len() as u32;
        match input_element(&nodes[i], ref_id) {
            None => {},
            Some(e) => {
                out.push(e);
                assert(element_views(out@) == element_views(out@.drop_last()).push(e@));
            },
        }
        i += 1;
    }
    assert(nodes@.take(nodes.len() as int) == nodes@);
    out
}

// Buttons -------------------------------------------------------------------

/// Listing the button does not cut its text inside a character.
pub open spec fn button_clean(n: HtmlNodeView) -> bool {
    trimmed(n.text).len() == 0 || cuts_cleanly(trimmed(n.text), 80)
}

/// The element for a button.
pub open spec fn button_view(n: HtmlNodeView, ref_id: u32) -> ElementView {
    let text = trimmed(n.text);
    ElementView {
        ref_id,
        role: if attr_or(n, "type"@, "button"@) == "submit"@ { "submit"@ } else { "button"@ },
        text: Some(if text.len() == 0 { attr_or(n, "aria-label"@, "[button]"@) } else { truncated_text(text, 80) }),
        href: None,
        placeholder: None,
        value: None,
        enabled: attr_of(n, "disabled"@) is None,
        visible: true,
        aria_label: attr_of(n, "aria-label"@),
        selector: selector_of(n),
    }
}

/// The buttons of `ns`, numbered from `start`.
pub open spec fn button_elements(ns: Seq<HtmlNodeView>, start: int) -> Seq<ElementView> {
    Seq::new(ns.len(), |i: int| button_view(ns[i], (start + i) as u32))
}

/// The element of one button, or `None` where its text would be cut inside
/// a character.
fn button_element(n: &HtmlNode, ref_id: u32) -> (r: Option<NativeElement>)
    ensures
        button_clean(n@) <==> r is Some,
        r matches Some(e) ==> e@ == button_view(n@, ref_id),
{
    let text = trim(n.text.as_str());
    let aria = attr(n, "aria-label");
    let kind: &str = match attr(n, "type") {
        Some(t) => t,
        None => "button",
    };
    let shown = if text.as_str().is_empty() {
        match aria {
            Some(a) => owned(a),
            None => owned("[button]"),
        }
    } else {
        match truncate_checked(text.as_str(), 80) {
            Some(t) => t,
            None => {
                return None;
            },
        }
    };
    Some(NativeElement {
        ref_id,
        role: if str_eq(kind, "submit") { owned("submit") } else { owned("button") },
        text: Some(shown),
        href: None,
        placeholder: None,
        value: None,
        enabled: attr(n, "disabled").is_none(),
        visible: true,
        aria_label: owned_opt(aria),
        selector: node_selector(n),
    })
}

/// The buttons of `nodes`, numbered from `start`, or `None` where a
/// button's text would be cut inside a character.
pub fn extract_buttons(nodes: &Vec<HtmlNode>, start: u32) -> (r: Option<Vec<NativeElement>>)
    requires
        start as int + nodes@.len() <= u32::MAX,
    ensures
        (forall|i: int| 0 <= i < nodes@.len() ==> button_clean(#[trigger] nodes@[i]@)) <==> r is Some,
        r matches Some(es) ==> element_views(es@) == button_elements(node_views(nodes@), start as int),
{
    let mut out: Vec<NativeElement> = Vec::new();
    let mut i: usize = 0;
    while i < nodes.len()
        invariant
            i <= nodes.len(),
            start as int + nodes@.len() <= u32::MAX,
            forall|k: int| 0 <= k < i ==> button_clean(#[trigger] nodes@[k]@),
            out@.len() == i,
            forall|k: int| 0 <= k < i ==> #[trigger] out@[k]@ == button_view(nodes@[k]@, (start + k) as u32),
        decreases nodes.len() - i,
    {
        match button_element(&nodes[i], start + i as u32) {
            None => {
                return None;
            },
            Some(e) => {
                out.push(e);
            },
        }
        i += 1;
    }
    assert(element_views(out@) =~= button_elements(node_views(nodes@), start as int));
    Some(out)
}

// Selects -------------------------------------------------------------------

/// The non-empty trimmed texts of a select's options.
pub open spec fn option_texts(os: Seq<HtmlNodeView>) -> Seq<Seq<char>>
    decreases os.len(),
{
    if os.len() == 0 {
        Seq::empty()
    } else {
        let prev = option_texts(os.drop_last());
        let t = trimmed(os.last().text);
        if t.len() > 0 { prev.push(t) } else { prev }
    }
}

/// How a select is labelled: its ARIA label, else its name, else `select`.
pub open spec fn select_label(n: HtmlNodeView) -> Seq<char> {
    match attr_of(n, "aria-label"@) {
        Some(a) => a,
        None => attr_or(n, "name"@, "select"@),
    }
}

/// The element for a select with these options.
pub open spec fn select_view(n: HtmlNodeView, os: Seq<HtmlNodeView>, ref_id: u32) -> ElementView {
    ElementView {
        ref_id,
        role: "select"@,
        text: Some(select_label(n) + " ["@ + join_with(option_texts(os), ", "@) + "]"@),
        href: None,
        placeholder: None,
        value: attr_of(n, "value"@),
        enabled: attr_of(n, "disabled"@) is None,
        visible: true,
        aria_label: Some(select_label(n)),
        selector: selector_of(n),
    }
}

/// The selects of `ns` with their options, numbered from `start`.
pub open spec fn select_elements(ns: Seq<(HtmlNodeView, Seq<HtmlNodeView>)>, start: int) -> Seq<ElementView> {
    Seq::new(ns.len(), |i: int| select_view(ns[i].0, ns[i].1, (start + i) as u32))
}

/// The non-empty trimmed texts of `options`.
fn collect_option_texts(options: &Vec<HtmlNode>) -> (r: Vec<String>)
    ensures
        views(r@) == option_texts(node_views(options@)),
{
    let mut out: Vec<String> = Vec::new();
    let mut i: usize = 0;
    while i < options.len()
        invariant
            i <= options.len(),
            views(out@) == option_texts(node_views(options@.take(i as int))),
        decreases options.len() - i,
    {
        proof {
            assert(node_views(options@.take(i as int + 1)).drop_last() == node_views(options@.take(i as int)));
            assert(node_views(options@.take(i as int + 1)).last() == options@[i as int]@);
        }
        let t = trim(options[i].text.as_str());
        if !t.as_str().is_empty() {
            out.push(t);
            assert(views(out@) == views(out@.drop_last()).push(out@.last()@));
        }
        i += 1;
    }
    assert(options@.take(options.len() as int) == options@);
    out
}

/// The element of one select with its options.
fn select_element(n: &HtmlNode, options: &Vec<HtmlNode>, ref_id: u32) -> (r: NativeElement)
    ensures
        r@ == select_view(n@, node_views(options@), ref_id),
{
    let texts = collect_option_texts(options);
    let label: &str = match attr(n, "aria-label") {
        Some(a) => a,
        None => match attr(n, "name") {
            Some(m) => m,
            None => "select",
        },
    };
    let mut text = owned(label);
    push_str(&mut text, " [");
    let joined = join_strings(&texts, ", ");
    push_str(&mut text, joined.as_str());
    push_str(&mut text, "]");
    NativeElement {
        ref_id,
        role: owned("select"),
        text: Some(text),
        href: None,
        placeholder: None,
        value: owned_opt(attr(n, "value")),
        enabled: attr(n, "disabled").is_none(),
        visible: true,
        aria_label: Some(owned(label)),
        selector: node_selector(n),
    }
}

/// The selects of `nodes` with their options, numbered from `start`.
pub fn extract_selects(nodes: &Vec<(HtmlNode, Vec<HtmlNode>)>, start: u32) -> (r: Vec<NativeElement>)
    requires
        start as int + nodes@.len() <= u32::MAX,
    ensures
        element_views(r@) == select_elements(nested_views(nodes@), start as int),
{
    let mut out: Vec<NativeElement> = Vec::new();
    let mut i: usize = 0;
    while i < nodes.len()
        invariant
            i <= nodes.len(),
            start as int + nodes@.len() <= u32::MAX,
            out@.len() == i,
            forall|k: int| 0 <= k < i ==> #[trigger] out@[k]@ == select_view(
                nodes@[k].0@,
                node_views(nodes@[k].1@),
                (start + k) as u32,
            ),
        decreases nodes.len() - i,
    {
        let e = select_element(&nodes[i].0, &nodes[i].1, start + i as u32);
        out.push(e);
        i += 1;
    }
    assert(element_views(out@) =~= select_elements(nested_views(nodes@), start as int));
    out
}

// Text areas ----------------------------------------------------------------

/// Listing the text area does not cut its text inside a character.
pub open spec fn textarea_clean(n: HtmlNodeView) -> bool {
    trimmed(n.text).len() == 0 || cuts_cleanly(trimmed(n.text), 80)
}

/// The element for a text area.
pub open spec fn textarea_view(n: HtmlNodeView, ref_id: u32) -> ElementView {
    let text = trimmed(n.text);
    ElementView {
        ref_id,
        role: "textarea"@,
        text: if text.len() == 0 { None } else { Some(truncated_text(text, 80)) },
        href: None,
        placeholder: attr_of(n, "placeholder"@),
        value: if text.len() == 0 { None } else { Some(text) },
        enabled: attr_of(n, "disabled"@) is None,
        visible: true,
        aria_label: attr_of(n, "aria-label"@),
        selector: selector_of(n),
    }
}

/// The text areas of `ns`, numbered from `start`.
pub open spec fn textarea_elements(ns: Seq<HtmlNodeView>, start: int) -> Seq<ElementView> {
    Seq::new(ns.len(), |i: int| textarea_view(ns[i], (start + i) as u32))
}

/// The element of one text area, or `None` where its text would be cut
/// inside a character.
fn textarea_element(n: &HtmlNode, ref_id: u32) -> (r: Option<NativeElement>)
    ensures
        textarea_clean(n@) <==> r is Some,
        r matches Some(e) ==> e@ == textarea_view(n@, ref_id),
{
    let text = trim(n.text.as_str());
    let (shown, value) = if text.as_str().is_empty() {
        (None, None)
    } else {
        match truncate_checked(text.as_str(), 80) {
            Some(t) => (Some(t), Some(text)),
            None => {
                return None;
            },
        }
    };
    Some(NativeElement {
        ref_id,
        role: owned("textarea"),
        text: shown,
        href: None,
        placeholder: owned_opt(attr(n, "placeholder")),
        value,
        enabled: attr(n, "disabled").is_none(),
        visible: true,
        aria_label: owned_opt(attr(n, "aria-label")),
        selector: node_selector(n),
    })
}

/// The text areas of `nodes`, numbered from `start`, or `None` where a
/// text would be cut inside a character.
pub fn extract_textareas(nodes: &Vec<HtmlNode>, start: u32) -> (r: Option<Vec<NativeElement>>)
    requires
        start as int + nodes@.len() <= u32::MAX,
    ensures
        (forall|i: int| 0 <= i < nodes@.len() ==> textarea_clean(#[trigger] nodes@[i]@)) <==> r is Some,
        r matches Some(es) ==> element_views(es@) == textarea_elements(node_views(nodes@), start as int),
{
    let mut out: Vec<NativeElement> = Vec::new();
    let mut i: usize = 0;
    while i < nodes.len()
        invariant
            i <= nodes.len(),
            start as int + nodes@.len() <= u32::MAX,
            forall|k: int| 0 <= k < i ==> textarea_clean(#[trigger] nodes@[k]@),
            out@.len() == i,
            forall|k: int| 0 <= k < i ==> #[trigger] out@[k]@ == textarea_view(nodes@[k]@, (start + k) as u32),
        decreases nodes.len() - i,
    {
        match textarea_element(&nodes[i], start + i as u32) {
            None => {
                return None;
            },
            Some(e) => {
                out.push(e);
            },
        }
        i += 1;
    }
    assert(element_views(out@) =~= textarea_elements(node_views(nodes@), start as int));
    Some(out)
}

// ---------------------------------------------------------------------------
// Title and metadata
// ---------------------------------------------------------------------------

/// The title: the trimmed text of the first `title` element, or empty.
pub open spec fn title_of(titles: Seq<HtmlNodeView>) -> Seq<char> {
    if titles.len() > 0 {
        trimmed(titles[0].text)
    } else {
        Seq::empty()
    }
}

/// The page's title from its `title` elements.
pub fn extract_title(titles: &Vec<HtmlNode>) -> (r: String)
    ensures
        r@ == title_of(node_views(titles@)),
{
    if titles.len() > 0 {
        trim(titles[0].text.as_str())
    } else {
        String::new()
    }
}

/// The description: the `content` of the first description element.
pub open spec fn description_of(ds: Seq<HtmlNodeView>) -> Option<Seq<char>> {
    if ds.len() > 0 {
        attr_of(ds[0], "content"@)
    } else {
        None
    }
}

/// The trimmed texts of the first three paragraphs that are longer than
/// twenty bytes.
pub open spec fn preview_parts(ps: Seq<HtmlNodeView>) -> Seq<Seq<char>>
    decreases ps.len(),
{
    let n = if ps.len() < 3 { ps.len() } else { 3 };
    if n == 0 {
        Seq::empty()
    } else {
        let prev = preview_parts(ps.take(n - 1));
        let t = trimmed(ps[n - 1].text);
        if utf8_len(t) > 20 { prev.push(t) } else { prev }
    }
}

/// The text the preview is cut from.
pub open spec fn preview_source(ps: Seq<HtmlNodeView>) -> Seq<char> {
    join_with(preview_parts(ps), " "@)
}

/// The preview of the main content: the joined paragraph texts cut to 500
/// bytes, or none when there are none.
pub open spec fn preview_of(ps: Seq<HtmlNodeView>) -> Option<Seq<char>> {
    let src = preview_source(ps);
    if src.len() == 0 {
        None
    } else {
        Some(truncated_text(src, 500))
    }
}

/// Cutting the preview does not split a character.
pub open spec fn preview_clean(ps: Seq<HtmlNodeView>) -> bool {
    preview_source(ps).len() == 0 || cuts_cleanly(preview_source(ps), 500)
}

/// The main-content preview from the page's paragraphs, or `None` inside
/// where the cut would split a character.
fn extract_preview(paragraphs: &Vec<HtmlNode>) -> (r: Option<Option<String>>)
    ensures
        preview_clean(node_views(paragraphs@)) <==> r is Some,
        r matches Some(p) ==> opt_string(p) == preview_of(node_views(paragraphs@)),
{
    let ghost ps = node_views(paragraphs@);
    let n: usize = if paragraphs.len() < 3 { paragraphs.len() } else { 3 };
    let mut parts: Vec<String> = Vec::new();
    let mut i: usize = 0;
    while i < n
        invariant
            n <= paragraphs.len(),
            n == (if paragraphs@.len() < 3 { paragraphs@.len() } else { 3 }),
            i <= n,
            ps == node_views(paragraphs@),
            views(parts@) == preview_parts(ps.take(i as int)),
        decreases n - i,
    {
        proof {
            let t = ps.take(i as int + 1);
            assert(t.take(i as int) == ps.take(i as int));
        }
        let t = trim(paragraphs[i].text.as_str());
        if t.as_str().len() > 20 {
            parts.push(t);
            assert(views(parts@) == views(parts@.drop_last()).push(parts@.last()@));
        }
        i += 1;
    }
    proof {
        if ps.len() >= 3 {
            assert(ps.take(3).len() == 3);
            assert(ps.take(3).take(2) == ps.take(2));
        }
        assert(preview_parts(ps.take(n as int)) == preview_parts(ps)) by {
            if ps.len() < 3 {
                assert(ps.take(n as int) == ps);
            } else {
                assert(ps.take(3).take(2) == ps.take(2));
                assert(ps.take(3)[2] == ps[2]);
            }
        }
    }
    let joined = join_strings(&parts, " ");
    if joined.as_str().is_empty() {
        Some(None)
    } else {
        match truncate_checked(joined.as_str(), 500) {
            Some(t) => Some(Some(t)),
            None => None,
        }
    }
}

/// A login form: a password field together with an email, text, username
/// or login field.
pub open spec fn login_form_in(html: Seq<char>) -> bool {
    contains_seq(html, "type=\"password\""@) && (contains_seq(html, "type=\"email\""@)
        || contains_seq(html, "type=\"text\""@) || contains_seq(html, "name=\"username\""@)
        || contains_seq(html, "name=\"login\""@))
}

/// A CAPTCHA widget.
pub open spec fn captcha_in(html: Seq<char>) -> bool {
    contains_seq(html, "g-recaptcha"@) || contains_seq(html, "h-captcha"@)
        || contains_seq(html, "captcha"@) || contains_seq(html, "cf-turnstile"@)
}

// ---------------------------------------------------------------------------
// Whole page
// ---------------------------------------------------------------------------

/// A natively parsed page.
#[derive(Debug, Clone)]
pub struct NativeSnapshot {
    /// Its address.
    pub url: String,
    /// Its title.
    pub title: String,
    /// Its interactive elements, numbered from 1: links, inputs, buttons,
    /// selects, text areas.
    pub elements: Vec<NativeElement>,
    /// Its metadata.
    pub meta: PageMeta,
}

/// The elements of a page, numbered from 1 in the order links, inputs,
/// buttons, selects, text areas.
pub open spec fn page_elements(html: Seq<char>, base: Seq<char>) -> Seq<ElementView> {
    let links = link_elements(html_matches(html, "a[href]"@), base, 1);
    let inputs = input_elements(html_matches(html, "input"@), 1 + links.len() as int);
    let buttons = button_elements(html_matches(html, "button"@), 1 + links.len() + inputs.len() as int);
    let selects = select_elements(
        html_nested_matches(html, "select"@, "option"@),
        1 + links.len() + inputs.len() + buttons.len() as int,
    );
    let areas = textarea_elements(
        html_matches(html, "textarea"@),
        1 + links.len() + inputs.len() + buttons.len() + selects.len() as int,
    );
    links + inputs + buttons + selects + areas
}

/// The elements of the page fit the reference numbering.
pub open spec fn page_fits(html: Seq<char>) -> bool {
    html_matches(html, "a[href]"@).len() + html_matches(html, "input"@).len()
        + html_matches(html, "button"@).len() + html_nested_matches(html, "select"@, "option"@).len()
        + html_matches(html, "textarea"@).len() < u32::MAX
}

/// No text of the page is cut inside a character.
pub open spec fn page_clean(html: Seq<char>) -> bool {
    &&& forall|i: int| 0 <= i < html_matches(html, "a[href]"@).len()
        ==> link_clean(#[trigger] html_matches(html, "a[href]"@)[i])
    &&& forall|i: int| 0 <= i < html_matches(html, "button"@).len()
        ==> button_clean(#[trigger] html_matches(html, "button"@)[i])
    &&& forall|i: int| 0 <= i < html_matches(html, "textarea"@).len()
        ==> textarea_clean(#[trigger] html_matches(html, "textarea"@)[i])
    &&& preview_clean(html_matches(html, "p"@))
}

/// The roles of a sequence of elements.
pub open spec fn element_roles(es: Seq<NativeElement>) -> Seq<String> {
    es.map_values(|e: NativeElement| e.role)
}

/// Parses `html`, fetched from `url`, into a snapshot. `None` where the
/// page would need more references than there are, or where listing a
/// text would cut it inside a character.
pub fn parse_html_to_snapshot(html: &str, url: &str) -> (r: Option<NativeSnapshot>)
    ensures
        (page_fits(html@) && page_clean(html@)) <==> r is Some,
        r matches Some(snap) ==> {
            &&& snap.url@ == url@
            &&& snap.title@ == title_of(html_matches(html@, "title"@))
            &&& element_views(snap.elements@) == page_elements(html@, url@)
            &&& opt_string(snap.meta.description) == description_of(
                html_matches(html@, "meta[name='description'], meta[property='og:description']"@),
            )
            &&& opt_string(snap.meta.main_content_preview) == preview_of(html_matches(html@, "p"@))
            &&& snap.meta.form_count == html_matches(html@, "form"@).len()
            &&& snap.meta.has_login_form == login_form_in(html@)
            &&& snap.meta.has_captcha == captcha_in(html@)
            &&& snap.meta.page_type matches Some(t) && t@ == page_type(
                html@,
                login_form_in(html@),
                captcha_in(html@),
                element_roles(snap.elements@),
            )
            &&& snap.meta.interactive_element_count == snap.elements@.len()
        },
{
    let links_n = select_nodes(html, "a[href]");
    let inputs_n = select_nodes(html, "input");
    let buttons_n = select_nodes(html, "button");
    let selects_n = select_nested_nodes(html, "select", "option");
    let areas_n = select_nodes(html, "textarea");
    let paragraphs = select_nodes(html, "p");
    proof {
        assert(node_views(links_n@).len() == links_n@.len());
        assert(node_views(inputs_n@).len() == inputs_n@.len());
        assert(node_views(buttons_n@).len() == buttons_n@.len());
        assert(nested_views(selects_n@).len() == selects_n@.len());
        assert(node_views(areas_n@).len() == areas_n@.len());
    }
    let limit: usize = 4294967295;
    if links_n.len() >= limit || inputs_n.len() >= limit || buttons_n.len() >= limit
        || selects_n.len() >= limit || areas_n.len() >= limit {
        return None;
    }
    let total: u64 = links_n.len() as u64 + inputs_n.len() as u64 + buttons_n.len() as u64
        + selects_n.len() as u64 + areas_n.len() as u64;
    if total >= 4294967295u64 {
        return None;
    }
    let links = match extract_links(&links_n, url, 1) {
        Some(v) => v,
        None => {
            proof {
                assert(!page_clean(html@)) by {
                    let k = choose|k: int| 0 <= k < links_n@.len() && !link_clean(#[trigger] links_n@[k]@);
                    assert(node_views(links_n@)[k] == links_n@[k]@);
                }
            }
            return None;
        },
    };
    proof {
        lemma_link_elements_len(node_views(links_n@), url@, 1);
    }
    let inputs = extract_inputs(&inputs_n, 1 + links.len() as u32);
    proof {
        lemma_input_elements_len(node_views(inputs_n@), 1 + links@.len() as int);
    }
    let buttons = match extract_buttons(&buttons_n, 1 + links.len() as u32 + inputs.len() as u32) {
        Some(v) => v,
        None => {
            proof {
                assert(!page_clean(html@)) by {
                    let k = choose|k: int| 0 <= k < buttons_n@.len() && !button_clean(#[trigger] buttons_n@[k]@);
                    assert(node_views(buttons_n@)[k] == buttons_n@[k]@);
                }
            }
            return None;
        },
    };
    proof {
        assert(element_views(links@).len() == links@.len());
        assert(element_views(inputs@).len() == inputs@.len());
        assert(element_views(buttons@).len() == buttons@.len());
    }
    let selects = extract_selects(&selects_n, 1 + links.len() as u32 + inputs.len() as u32 + buttons.len() as u32);
    proof {
        assert(element_views(selects@).len() == selects@.len());
    }
    let areas = match extract_textareas(
        &areas_n,
        1 + links.len() as u32 + inputs.len() as u32 + buttons.len() as u32 + selects.len() as u32,
    ) {
        Some(v) => v,
        None => {
            proof {
                assert(!page_clean(html@)) by {
                    let k = choose|k: int| 0 <= k < areas_n@.len() && !textarea_clean(#[trigger] areas_n@[k]@);
                    assert(node_views(areas_n@)[k] == areas_n@[k]@);
                }
            }
            return None;
        },
    };
    let preview = match extract_preview(&paragraphs) {
        Some(p) => p,
        None => {
            return None;
        },
    };
    proof {
        assert forall|i: int| 0 <= i < html_matches(html@, "a[href]"@).len()
            implies link_clean(#[trigger] html_matches(html@, "a[href]"@)[i]) by {
            assert(node_views(links_n@)[i] == links_n@[i]@);
        }
        assert forall|i: int| 0 <= i < html_matches(html@, "button"@).len()
            implies button_clean(#[trigger] html_matches(html@, "button"@)[i]) by {
            assert(node_views(buttons_n@)[i] == buttons_n@[i]@);
        }
        assert forall|i: int| 0 <= i < html_matches(html@, "textarea"@).len()
            implies textarea_clean(#[trigger] html_matches(html@, "textarea"@)[i]) by {
            assert(node_views(areas_n@)[i] == areas_n@[i]@);
        }
    }
    let mut elements = links;
    let mut rest = inputs;
    elements.append(&mut rest);
    let mut rest = buttons;
    elements.append(&mut rest);
    let mut rest = selects;
    elements.append(&mut rest);
    let mut rest = areas;
    elements.append(&mut rest);
    assert(element_views(elements@) =~= page_elements(html@, url@));
    let titles = select_nodes(html, "title");
    let descs = select_nodes(html, "meta[name='description'], meta[property='og:description']");
    let description: Option<String> = if descs.len() > 0 {
        owned_opt(attr(&descs[0], "content"))
    } else {
        None
    };
    let forms = select_nodes(html, "form");
    let has_login_form = str_contains(html, "type=\"password\"") && (str_contains(html, "type=\"email\"")
        || str_contains(html, "type=\"text\"") || str_contains(html, "name=\"username\"")
        || str_contains(html, "name=\"login\""));
    let has_captcha = str_contains(html, "g-recaptcha") || str_contains(html, "h-captcha")
        || str_contains(html, "captcha") || str_contains(html, "cf-turnstile");
    let mut roles: Vec<String> = Vec::new();
    let mut i: usize = 0;
    while i < elements.len()
        invariant
            i <= elements.len(),
            roles@ == element_roles(elements@).take(i as int),
        decreases elements.len() - i,
    {
        roles.push(elements[i].role.clone());
        assert(roles@ =~= element_roles(elements@).take(i as int + 1));
        i += 1;
    }
    assert(roles@ =~= element_roles(elements@));
    let kind = detect_page_type(html, &description, has_login_form, has_captcha, roles.as_slice());
    let count = elements.len();
    proof {
        assert(node_views(forms@).len() == forms@.len());
    }
    let meta = PageMeta {
        page_type: Some(kind),
        main_content_preview: preview,
        description,
        form_count: forms.len(),
        has_login_form,
        has_captcha,
        interactive_element_count: count,
    };
    Some(NativeSnapshot { url: owned(url), title: extract_title(&titles), elements, meta })
}

/// No more inputs are listed than matched.
proof fn lemma_input_elements_len(ns: Seq<HtmlNodeView>, start: int)
    ensures
        input_elements(ns, start).len() <= ns.len(),
    decreases ns.len(),
{
    if ns.len() > 0 {
        lemma_input_elements_len(ns.drop_last(), start);
    }
}

// ---------------------------------------------------------------------------
// Forms
// ---------------------------------------------------------------------------

/// What a form submission sends.
#[derive(Debug, Clone)]
pub struct FormData {
    /// Where to (`action`, possibly relative).
    pub action: String,
    /// How (`method`, `POST` by default).
    pub method: String,
    /// The name and value of each field sent, in document order.
    pub fields: Vec<(String, String)>,
}

/// The views of name/value pairs.
pub open spec fn pair_views(ps: Seq<(String, String)>) -> Seq<(Seq<char>, Seq<char>)> {
    ps.map_values(|p: (String, String)| (p.0@, p.1@))
}

/// A field is sent when it has a name and is not an unchecked check box or
/// radio button.
pub open spec fn field_sent(n: HtmlNodeView) -> bool {
    let kind = attr_or(n, "type"@, "text"@);
    &&& attr_or(n, "name"@, Seq::empty()).len() > 0
    &&& !((kind == "checkbox"@ || kind == "radio"@) && attr_of(n, "checked"@) is None)
}

/// The pairs sent for `fields`, each valued by `value(field)`.
pub open spec fn sent_pairs(fields: Seq<HtmlNodeView>, value: spec_fn(HtmlNodeView) -> Seq<char>) -> Seq<(Seq<char>, Seq<char>)>
    decreases fields.len(),
{
    if fields.len() == 0 {
        Seq::empty()
    } else {
        let prev = sent_pairs(fields.drop_last(), value);
        let f = fields.last();
        if field_sent(f) { prev.push((attr_or(f, "name"@, Seq::empty()), value(f))) } else { prev }
    }
}

/// A field's value as the page gives it.
pub open spec fn page_value(f: HtmlNodeView) -> Seq<char> {
    attr_or(f, "value"@, Seq::empty())
}

/// The submission of the first form of a page with its own values: `None`
/// when the page has no form.
pub open spec fn form_submission(forms: Seq<(HtmlNodeView, Seq<HtmlNodeView>)>, value: spec_fn(HtmlNodeView) -> Seq<char>) -> Option<(Seq<char>, Seq<char>, Seq<(Seq<char>, Seq<char>)>)> {
    if forms.len() == 0 {
        None
    } else {
        Some((
            attr_or(forms[0].0, "action"@, Seq::empty()),
            attr_or(forms[0].0, "method"@, "POST"@),
            sent_pairs(forms[0].1, value),
        ))
    }
}

/// The contents of optional form data.
pub open spec fn form_view(f: Option<FormData>) -> Option<(Seq<char>, Seq<char>, Seq<(Seq<char>, Seq<char>)>)> {
    match f {
        Some(d) => Some((d.action@, d.method@, pair_views(d.fields@))),
        None => None,
    }
}

/// Whether a field is sent.
fn is_sent(n: &HtmlNode) -> (b: bool)
    ensures
        b == field_sent(n@),
{
    let name: &str = match attr(n, "name") {
        Some(m) => m,
        None => "",
    };
    proof {
        reveal_strlit("");
    }
    let kind: &str = match attr(n, "type") {
        Some(t) => t,
        None => "text",
    };
    !name.is_empty() && !((str_eq(kind, "checkbox") || str_eq(kind, "radio")) && attr(n, "checked").is_none())
}

/// The form data of the first form of the parsed forms, with the values
/// chosen by `values[i]` for field `i` of that form.
fn first_form(
    forms: &Vec<(HtmlNode, Vec<HtmlNode>)>,
    values: &Vec<String>,
    Ghost(value): Ghost<spec_fn(HtmlNodeView) -> Seq<char>>,
) -> (r: Option<FormData>)
    requires
        forms@.len() > 0 ==> values@.len() == forms@[0].1@.len(),
        forms@.len() > 0 ==> forall|i: int| 0 <= i < values@.len() ==> #[trigger] values@[i]@ == value(forms@[0].1@[i]@),
    ensures
        form_view(r) == form_submission(nested_views(forms@), value),
{
    if forms.len() == 0 {
        return None;
    }
    let form = &forms[0].0;
    let fields = &forms[0].1;
    let action: String = match attr(form, "action") {
        Some(a) => owned(a),
        None => String::new(),
    };
    let method: String = match attr(form, "method") {
        Some(m) => owned(m),
        None => owned("POST"),
    };
    let ghost fv = node_views(fields@);
    let mut out: Vec<(String, String)> = Vec::new();
    let mut i: usize = 0;
    while i < fields.len()
        invariant
            i <= fields.len(),
            values@.len() == fields@.len(),
            fv == node_views(fields@),
            forall|k: int| 0 <= k < values@.len() ==> #[trigger] values@[k]@ == value(fields@[k]@),
            pair_views(out@) == sent_pairs(fv.take(i as int), value),
        decreases fields.len() - i,
    {
        proof {
            assert(fv.take(i as int + 1).drop_last() == fv.take(i as int));
            assert(fv.take(i as int + 1).last() == fields@[i as int]@);
        }
        let f = &fields[i];
        if is_sent(f) {
            let name: String = match attr(f, "name") {
                Some(m) => owned(m),
                None => String::new(),
            };
            out.push((name, values[i].clone()));
            assert(pair_views(out@) == pair_views(out@.drop_last()).push((out@.last().0@, out@.last().1@)));
        }
        i += 1;
    }
    assert(fv.take(fields.len() as int) == fv);
    proof {
        reveal_strlit("");
    }
    Some(FormData { action, method, fields: out })
}

/// The data the first form of `html` sends with the values in the page:
/// `None` when the page has no form. The form is the first of the page
/// whichever button `_submit_ref_id` submits it.
pub fn extract_form_for_submit(html: &str, _submit_ref_id: u32) -> (r: Option<FormData>)
    ensures
        form_view(r) == form_submission(
            html_nested_matches(html@, "form"@, "input, select, textarea"@),
            |f: HtmlNodeView| page_value(f),
        ),
{
    let forms = select_nested_nodes(html, "form", "input, select, textarea");
    let mut values: Vec<String> = Vec::new();
    if forms.len() > 0 {
        let fields = &forms[0].1;
        let mut i: usize = 0;
        while i < fields.len()
            invariant
                i <= fields.len(),
                values@.len() == i,
                forall|k: int| 0 <= k < i ==> #[trigger] values@[k]@ == page_value(fields@[k]@),
            decreases fields.len() - i,
        {
            let v: String = match attr(&fields[i], "value") {
                Some(x) => owned(x),
                None => String::new(),
            };
            proof {
                reveal_strlit("");
            }
            values.push(v);
            i += 1;
        }
    }
    first_form(&forms, &values, Ghost(|f: HtmlNodeView| page_value(f)))
}

/// A field takes a reference in the snapshot numbering unless it is hidden.
pub open spec fn field_numbered(n: HtmlNodeView) -> bool {
    lowercase(attr_or(n, "type"@, "text"@)) != "hidden"@
}

/// How many of `ns` are numbered.
pub open spec fn numbered_count(ns: Seq<HtmlNodeView>) -> nat
    decreases ns.len(),
{
    if ns.len() == 0 {
        0
    } else {
        numbered_count(ns.drop_last()) + if field_numbered(ns.last()) { 1nat } else { 0nat }
    }
}

/// How many of `ns` are listed links.
pub open spec fn kept_link_count(ns: Seq<HtmlNodeView>) -> nat
    decreases ns.len(),
{
    if ns.len() == 0 {
        0
    } else {
        kept_link_count(ns.drop_last()) + if link_kept(ns.last()) { 1nat } else { 0nat }
    }
}

/// The reference of each named field of the page, numbering the fields that
/// are not hidden from `start` in document order; of two fields with one
/// name the later wins.
pub open spec fn field_refs(ns: Seq<HtmlNodeView>, start: int) -> Map<Seq<char>, int>
    decreases ns.len(),
{
    if ns.len() == 0 {
        Map::empty()
    } else {
        let prev = field_refs(ns.drop_last(), start);
        let f = ns.last();
        let name = attr_or(f, "name"@, Seq::empty());
        if field_numbered(f) && name.len() > 0 {
            prev.insert(name, start + numbered_count(ns.drop_last()))
        } else {
            prev
        }
    }
}

/// The value sent for a field: what was filled into the element of its
/// name's reference, else its value in the page.
pub open spec fn filled_field_value(refs: Map<Seq<char>, int>, filled: Map<u32, Seq<char>>, f: HtmlNodeView) -> Seq<char> {
    let name = attr_or(f, "name"@, Seq::empty());
    if refs.contains_key(name) && 0 <= refs[name] <= u32::MAX && filled.contains_key(refs[name] as u32) {
        filled[refs[name] as u32]
    } else {
        page_value(f)
    }
}

/// The elements of the page fit the reference numbering for a submission.
pub open spec fn form_fits(html: Seq<char>) -> bool {
    html_matches(html, "a[href]"@).len() + html_matches(html, "input, select, textarea"@).len() < u32::MAX
}

/// The reference map as a map.
pub open spec fn ref_map(v: Seq<(String, u32)>) -> Map<Seq<char>, int>
    decreases v.len(),
{
    if v.len() == 0 {
        Map::empty()
    } else {
        ref_map(v.drop_last()).insert(v.last().0@, v.last().1 as int)
    }
}

/// Whether a matched link is listed.
fn link_is_kept(n: &HtmlNode) -> (b: bool)
    ensures
        b == link_kept(n@),
{
    let href: &str = match attr(n, "href") {
        Some(h) => h,
        None => "",
    };
    proof {
        reveal_strlit("");
    }
    if href.is_empty() || starts_with(href, "#") || starts_with(href, "javascript:") {
        return false;
    }
    let text = trim(n.text.as_str());
    !(text.as_str().is_empty() && attr(n, "aria-label").is_none())
}

/// The reference given to `name`, if any.
fn ref_of(refs: &Vec<(String, u32)>, name: &str) -> (r: Option<u32>)
    ensures
        match r {
            Some(k) => ref_map(refs@).contains_key(name@) && ref_map(refs@)[name@] == k as int,
            None => !ref_map(refs@).contains_key(name@),
        },
{
    let mut i = refs.len();
    assert(refs@.take(i as int) == refs@);
    while i > 0
        invariant
            i <= refs@.len(),
            ref_map(refs@).contains_key(name@) == ref_map(refs@.take(i as int)).contains_key(name@),
            ref_map(refs@).contains_key(name@) ==> ref_map(refs@)[name@] == ref_map(refs@.take(i as int))[name@],
        decreases i,
    {
        proof {
            let t = refs@.take(i as int);
            assert(t.drop_last() == refs@.take(i as int - 1));
            assert(t.last() == refs@[i as int - 1]);
        }
        if str_eq(refs[i - 1].0.as_str(), name) {
            return Some(refs[i - 1].1);
        }
        i -= 1;
    }
    assert(refs@.take(0) == Seq::<(String, u32)>::empty());
    None
}

/// The value filled into `ref_id`, if any.
fn filled_of(filled: &Vec<(u32, String)>, ref_id: u32) -> (r: Option<String>)
    ensures
        match r {
            Some(v) => filled_map(filled@).contains_key(ref_id) && filled_map(filled@)[ref_id] == v@,
            None => !filled_map(filled@).contains_key(ref_id),
        },
{
    let mut i = filled.len();
    assert(filled@.take(i as int) == filled@);
    while i > 0
        invariant
            i <= filled@.len(),
            filled_map(filled@).contains_key(ref_id) == filled_map(filled@.take(i as int)).contains_key(ref_id),
            filled_map(filled@).contains_key(ref_id) ==> filled_map(filled@)[ref_id]
                == filled_map(filled@.take(i as int))[ref_id],
        decreases i,
    {
        proof {
            let t = filled@.take(i as int);
            assert(t.drop_last() == filled@.take(i as int - 1));
            assert(t.last() == filled@[i as int - 1]);
        }
        if filled[i - 1].0 == ref_id {
            return Some(filled[i - 1].1.clone());
        }
        i -= 1;
    }
    assert(filled@.take(0) == Seq::<(u32, String)>::empty());
    None
}

/// The data the first form of `html` sends, with the values the agent
/// filled in (`filled`, by reference; a later entry wins) in place of the
/// page's own: `None` when the page has no form, or has more elements than
/// references can number. The form is the first of the page whichever
/// button `_submit_ref_id` submits it.
pub fn extract_form_with_fills(html: &str, _submit_ref_id: u32, filled: &Vec<(u32, String)>) -> (r: Option<FormData>)
    ensures
        !form_fits(html@) ==> r is None,
        form_fits(html@) ==> form_view(r) == form_submission(
            html_nested_matches(html@, "form"@, "input, select, textarea"@),
            |f: HtmlNodeView| filled_field_value(
                field_refs(
                    html_matches(html@, "input, select, textarea"@),
                    1 + kept_link_count(html_matches(html@, "a[href]"@)) as int,
                ),
                filled_map(filled@),
                f,
            ),
        ),
{
    let links_n = select_nodes(html, "a[href]");
    let all_fields = select_nodes(html, "input, select, textarea");
    proof {
        assert(node_views(links_n@).len() == links_n@.len());
        assert(node_views(all_fields@).len() == all_fields@.len());
    }
    let limit: usize = 4294967295;
    if links_n.len() >= limit || all_fields.len() >= limit
        || links_n.len() as u64 + all_fields.len() as u64 >= 4294967295u64 {
        return None;
    }
    let ghost lv = node_views(links_n@);
    let mut link_count: u32 = 0;
    let mut i: usize = 0;
    while i < links_n.len()
        invariant
            i <= links_n.len(),
            links_n.len() < 4294967295,
            lv == node_views(links_n@),
            link_count as int == kept_link_count(lv.take(i as int)),
            link_count <= i,
        decreases links_n.len() - i,
    {
        proof {
            assert(lv.take(i as int + 1).drop_last() == lv.take(i as int));
            assert(lv.take(i as int + 1).last() == links_n@[i as int]@);
        }
        if link_is_kept(&links_n[i]) {
            link_count = link_count + 1;
        }
        i += 1;
    }
    assert(lv.take(links_n.len() as int) == lv);
    let ghost fvs = node_views(all_fields@);
    let start: u32 = link_count + 1;
    let mut refs: Vec<(String, u32)> = Vec::new();
    let mut current: u32 = start;
    let mut j: usize = 0;
    while j < all_fields.len()
        invariant
            j <= all_fields.len(),
            links_n.len() + all_fields.len() < 4294967295,
            link_count <= links_n.len(),
            start == link_count + 1,
            fvs == node_views(all_fields@),
            current as int == start + numbered_count(fvs.take(j as int)),
            numbered_count(fvs.take(j as int)) <= j,
            ref_map(refs@) == field_refs(fvs.take(j as int), start as int),
        decreases all_fields.len() - j,
    {
        proof {
            assert(fvs.take(j as int + 1).drop_last() == fvs.take(j as int));
            assert(fvs.take(j as int + 1).last() == all_fields@[j as int]@);
        }
        let f = &all_fields[j];
        let kind_raw: &str = match attr(f, "type") {
            Some(t) => t,
            None => "text",
        };
        let kind = to_lower(kind_raw);
        if !str_eq(kind.as_str(), "hidden") {
            match attr(f, "name") {
                Some(m) => if !m.is_empty() {
                    let ghost before = refs@;
                    refs.push((owned(m), current));
                    assert(refs@.drop_last() == before);
                },
                None => {},
            }
            current = current + 1;
        }
        j += 1;
    }
    proof {
        assert(fvs.take(all_fields.len() as int) == fvs);
    }
    let forms = select_nested_nodes(html, "form", "input, select, textarea");
    let ghost value = |f: HtmlNodeView| filled_field_value(
        field_refs(fvs, 1 + kept_link_count(lv) as int),
        filled_map(filled@),
        f,
    );
    let mut values: Vec<String> = Vec::new();
    if forms.len() > 0 {
        let fields = &forms[0].1;
        let mut k: usize = 0;
        while k < fields.len()
            invariant
                k <= fields.len(),
                values@.len() == k,
                ref_map(refs@) == field_refs(fvs, 1 + kept_link_count(lv) as int),
                value == (|f: HtmlNodeView| filled_field_value(
                    field_refs(fvs, 1 + kept_link_count(lv) as int),
                    filled_map(filled@),
                    f,
                )),
                forall|q: int| 0 <= q < k ==> #[trigger] values@[q]@ == value(fields@[q]@),
            decreases fields.len() - k,
        {
            let f = &fields[k];
            let name: &str = match attr(f, "name") {
                Some(m) => m,
                None => "",
            };
            proof {
                reveal_strlit("");
            }
            let own: String = match attr(f, "value") {
                Some(x) => owned(x),
                None => String::new(),
            };
            assert(name@ == attr_or(f@, "name"@, Seq::empty()));
            assert(own@ == page_value(f@));
            let v = match ref_of(&refs, name) {
                Some(rid) => match filled_of(filled, rid) {
                    Some(fv) => fv,
                    None => own,
                },
                None => own,
            };
            assert(v@ == value(f@));
            values.push(v);
            k += 1;
        }
    }
    first_form(&forms, &values, Ghost(value))
}

// ---------------------------------------------------------------------------
// Numbering
// ---------------------------------------------------------------------------

/// Listed links are numbered consecutively from `start`.
proof fn lemma_link_refs(ns: Seq<HtmlNodeView>, base: Seq<char>, start: int)
    requires
        0 <= start,
        start + ns.len() <= u32::MAX,
    ensures
        forall|i: int| 0 <= i < link_elements(ns, base, start).len()
            ==> #[trigger] link_elements(ns, base, start)[i].ref_id == start + i,
    decreases ns.len(),
{
    if ns.len() > 0 {
        lemma_link_refs(ns.drop_last(), base, start);
        lemma_link_elements_len(ns.drop_last(), base, start);
    }
}

/// Listed inputs are numbered consecutively from `start`.
proof fn lemma_input_refs(ns: Seq<HtmlNodeView>, start: int)
    requires
        0 <= start,
        start + ns.len() <= u32::MAX,
    ensures
        forall|i: int| 0 <= i < input_elements(ns, start).len()
            ==> #[trigger] input_elements(ns, start)[i].ref_id == start + i,
    decreases ns.len(),
{
    if ns.len() > 0 {
        lemma_input_refs(ns.drop_last(), start);
        lemma_input_elements_len(ns.drop_last(), start);
    }
}

/// The elements of a natively parsed page carry the references 1, 2, 3, ...
/// in order, so that `@eN` names the `N`-th element of the snapshot.
pub proof fn lemma_page_refs_consecutive(html: Seq<char>, base: Seq<char>)
    requires
        page_fits(html),
    ensures
        forall|i: int| 0 <= i < page_elements(html, base).len()
            ==> #[trigger] page_elements(html, base)[i].ref_id == i + 1,
{
    let ls = html_matches(html, "a[href]"@);
    let is = html_matches(html, "input"@);
    let bs = html_matches(html, "button"@);
    let ss = html_nested_matches(html, "select"@, "option"@);
    let ts = html_matches(html, "textarea"@);
    let links = link_elements(ls, base, 1);
    lemma_link_elements_len(ls, base, 1);
    lemma_link_refs(ls, base, 1);
    let inputs = input_elements(is, 1 + links.len() as int);
    lemma_input_elements_len(is, 1 + links.len() as int);
    lemma_input_refs(is, 1 + links.len() as int);
    let buttons = button_elements(bs, 1 + links.len() + inputs.len() as int);
    let selects = select_elements(ss, 1 + links.len() + inputs.len() + buttons.len() as int);
    let areas = textarea_elements(ts, 1 + links.len() + inputs.len() + buttons.len() + selects.len() as int);
    let all = links + inputs + buttons + selects + areas;
    assert(all == page_elements(html, base));
    assert forall|i: int| 0 <= i < all.len() implies #[trigger] all[i].ref_id == i + 1 by {
        let a = links.len() as int;
        let b = a + inputs.len();
        let c = b + buttons.len();
        let d = c + selects.len();
        if i < a {
            assert(all[i] == links[i]);
        } else if i < b {
            assert(all[i] == inputs[i - a]);
        } else if i < c {
            assert(all[i] == buttons[i - b]);
        } else if i < d {
            assert(all[i] == selects[i - c]);
        } else {
            assert(all[i] == areas[i - d]);
        }
    }
}

} // verus!
