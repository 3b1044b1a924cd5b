//! Decisions of the native (HTTP-only) browser: URL handling, selectors
//! for fallback targeting, page classification and text truncation.

use vstd::prelude::*;
use vstd::utf8::{decode_utf8, encode_utf8, is_char_boundary, encode_utf8_decode_utf8};
use vstd::string::StringSliceAdditionalSpecFns;
use crate::text::{
    lowercase, trimmed, has_prefix, contains_seq, owned, to_lower, starts_with, str_contains,
    concat2, push_str, chars_of, trim_chars, string_of, str_eq,
};
use crate::selectors::{count_where};

verus! {

/// `s` cut to its first `max` bytes followed by `...` when it is longer.
pub fn truncate(s: &str, max: usize) -> (r: String)
    requires
        s.len() > max ==> is_char_boundary(s.spec_bytes(), max as int),
    ensures
        r@ == (if s.len() <= max {
            s@
        } else {
            decode_utf8(s.spec_bytes().subrange(0, max as int)) + "..."@
        }),
{
    if s.len() <= max {
        owned(s)
    } else {
        let (head, _) = s.split_at(max);
        proof {
            encode_utf8_decode_utf8(head@);
            assert(head.spec_bytes() == encode_utf8(head@));
        }
        concat2(head, "...")
    }
}

/// `base` joined with the reference `href` as the `url` crate resolves it,
/// or `None` when `base` does not parse or the join fails; a function of
/// the two texts alone.
pub uninterp spec fn joined_url(base: Seq<char>, href: Seq<char>) -> Option<Seq<char>>;

/// `url::Url::parse(base)` then `join(href)`, serialised.
#[verifier::external_body]
pub(crate) fn url_join(base: &str, href: &str) -> (r: Option<String>)
    ensures
        match r {
            Some(u) => joined_url(base@, href@) == Some(u@),
            None => joined_url(base@, href@) is None,
        },
{
    url::Url::parse(base).and_then(|b| b.join(href)).map(|u| u.to_string()).ok()
}

/// `href` resolved against `base`: absolute HTTP(S) URLs are kept,
/// protocol-relative ones get `https:`, others are joined to `base`, and
/// `href` is kept when that fails.
pub open spec fn resolved_url(href: Seq<char>, base: Seq<char>) -> Seq<char> {
    if has_prefix(href, "http://"@) || has_prefix(href, "https://"@) {
        href
    } else if has_prefix(href, "//"@) {
        "https:"@ + href
    } else {
        match joined_url(base, href) {
            Some(u) => u,
            None => href,
        }
    }
}

/// Resolve a possibly relative URL against a base URL.
pub fn resolve_url(href: &str, base: &str) -> (r: String)
    ensures
        r@ == resolved_url(href@, base@),
{
    if starts_with(href, "http://") || starts_with(href, "https://") {
        return owned(href);
    }
    if starts_with(href, "//") {
        return concat2("https:", href);
    }
    match url_join(base, href) {
        Some(u) => u,
        None => owned(href),
    }
}

/// A navigation refused before any request was made.
#[derive(Debug, Clone)]
pub struct NavigationRefused {
    pub url: String,
    pub reason: String,
}

/// The URL, trimmed and lower-cased, starts with `http://` or `https://`.
pub open spec fn allowed_scheme(url: Seq<char>) -> bool {
    let l = lowercase(trimmed(url));
    has_prefix(l, "http://"@) || has_prefix(l, "https://"@)
}

/// Accept only `http://` and `https://` URLs.
pub fn validate_url_scheme(url: &str) -> (r: Result<(), NavigationRefused>)
    ensures
        r is Ok <==> allowed_scheme(url@),
        r matches Err(e) ==> e.url@ == url@ && e.reason@
            == "Only http:// and https:// schemes are allowed"@,
{
    let t = string_of(&trim_chars(&chars_of(url)));
    let l = to_lower(t.as_str());
    if starts_with(l.as_str(), "http://") || starts_with(l.as_str(), "https://") {
        Ok(())
    } else {
        Err(
            NavigationRefused {
                url: owned(url),
                reason: owned("Only http:// and https:// schemes are allowed"),
            },
        )
    }
}

/// The CSS selector used to find an element again: by id, else by tag
/// and `name` attribute, else by tag.
pub open spec fn selector_for(tag: Seq<char>, id: Option<Seq<char>>, name: Option<Seq<char>>) -> Seq<char> {
    match id {
        Some(i) => "#"@ + i,
        None => match name {
            Some(n) => tag + "[name=\""@ + n + "\"]"@,
            None => tag,
        },
    }
}

/// The characters of an optional string slice.
pub open spec fn opt_view(o: Option<&str>) -> Option<Seq<char>> {
    match o {
        Some(s) => Some(s@),
        None => None,
    }
}

/// Build a selector for an element with tag `tag` and optional `id` and
/// `name` attributes.
pub fn build_selector(tag: &str, id: Option<&str>, name: Option<&str>) -> (r: String)
    ensures
        r@ == selector_for(tag@, opt_view(id), opt_view(name)),
{
    match id {
        Some(i) => concat2("#", i),
        None => match name {
            Some(n) => {
                let mut s = owned(tag);
                push_str(&mut s, "[name=\"");
                push_str(&mut s, n);
                push_str(&mut s, "\"]");
                s
            },
            None => owned(tag),
        },
    }
}

/// Element `i` has role `link`.
pub open spec fn link_pred(roles: Seq<String>) -> spec_fn(int) -> bool {
    |i: int| roles[i]@ == "link"@
}

/// Element `i`'s role starts with `input`.
pub open spec fn input_pred(roles: Seq<String>) -> spec_fn(int) -> bool {
    |i: int| has_prefix(roles[i]@, "input"@)
}

/// The page type from the page's HTML, what was detected on it and the
/// roles of its elements.
pub open spec fn page_type(html: Seq<char>, has_login: bool, has_captcha: bool, roles: Seq<String>) -> Seq<char> {
    let h = lowercase(html);
    if has_captcha {
        "captcha"@
    } else if has_login {
        "login_form"@
    } else if contains_seq(h, "search-results"@) || contains_seq(h, "searchresults"@)
        || contains_seq(h, "class=\"result\""@) {
        "search_results"@
    } else if contains_seq(h, "<article"@) || contains_seq(h, "class=\"post\""@) || contains_seq(
        h,
        "class=\"entry-content\""@,
    ) {
        "article"@
    } else if count_where(roles.len() as int, input_pred(roles)) > 5 {
        "form"@
    } else if count_where(roles.len() as int, link_pred(roles)) > 30 {
        "listing"@
    } else {
        "generic"@
    }
}

/// How many roles below `n` satisfy the link or input test.
fn count_roles(roles: &[String], links: bool) -> (c: usize)
    ensures
        c == count_where(
            roles@.len() as int,
            if links {
                link_pred(roles@)
            } else {
                input_pred(roles@)
            },
        ),
{
    let ghost p = if links {
        link_pred(roles@)
    } else {
        input_pred(roles@)
    };
    let mut c: usize = 0;
    let mut i: usize = 0;
    while i < roles.len()
        invariant
            i <= roles.len(),
            c <= i,
            c == count_where(i as int, p),
            p == (if links {
                link_pred(roles@)
            } else {
                input_pred(roles@)
            }),
        decreases roles.len() - i,
    {
        let hit = if links {
            str_eq(roles[i].as_str(), "link")
        } else {
            starts_with(roles[i].as_str(), "input")
        };
        if hit {
            c += 1;
        }
        i += 1;
    }
    c
}

/// Classify a page: captcha, login form, search results, article, form,
/// listing or generic. `roles` are the roles of the page's elements.
pub fn detect_page_type(
    html: &str,
    description: &Option<String>,
    has_login: bool,
    has_captcha: bool,
    roles: &[String],
) -> (r: String)
    ensures
        r@ == page_type(html@, has_login, has_captcha, roles@),
{
    if has_captcha {
        return owned("captcha");
    }
    if has_login {
        return owned("login_form");
    }
    let h = to_lower(html);
    let hs = h.as_str();
    if str_contains(hs, "search-results") || str_contains(hs, "searchresults") || str_contains(
        hs,
        "class=\"result\"",
    ) {
        return owned("search_results");
    }
    if str_contains(hs, "<article") || str_contains(hs, "class=\"post\"") || str_contains(
        hs,
        "class=\"entry-content\"",
    ) {
        return owned("article");
    }
    let link_count = count_roles(roles, true);
    let input_count = count_roles(roles, false);
    if input_count > 5 {
        return owned("form");
    }
    if link_count > 30 {
        return owned("listing");
    }
    owned("generic")
}

/// The page probably needs JavaScript to render: it is nearly empty, or a
/// single-page-app root with little content, or it carries an SPA
/// framework's state.
pub open spec fn spa_page(html: &str, element_count: usize, has_content_preview: bool) -> bool {
    let h = html@;
    let len = html.len();
    let body_is_empty = element_count == 0 && !has_content_preview && len < 500;
    let has_root_div = contains_seq(h, "id=\"root\""@) || contains_seq(h, "id=\"app\""@)
        || contains_seq(h, "id=\"__next\""@) || contains_seq(h, "id=\"__nuxt\""@);
    let has_spa_framework = contains_seq(h, "__NEXT_DATA__"@) || contains_seq(h, "__NUXT__"@)
        || contains_seq(h, "window.__INITIAL_STATE__"@);
    let minimal_content = len > 5000 && element_count < 3;
    body_is_empty || (has_root_div && minimal_content) || has_spa_framework
}

/// Whether a page with this HTML and snapshot likely needs JavaScript.
pub fn needs_javascript(html: &str, element_count: usize, has_content_preview: bool) -> (b: bool)
    ensures
        b == spa_page(html, element_count, has_content_preview),
{
    let len = html.len();
    let body_is_empty = element_count == 0 && !has_content_preview && len < 500;
    let has_root_div = str_contains(html, "id=\"root\"") || str_contains(html, "id=\"app\"")
        || str_contains(html, "id=\"__next\"") || str_contains(html, "id=\"__nuxt\"");
    let has_spa_framework = str_contains(html, "__NEXT_DATA__") || str_contains(html, "__NUXT__")
        || str_contains(html, "window.__INITIAL_STATE__");
    let minimal_content = len > 5000 && element_count < 3;
    body_is_empty || (has_root_div && minimal_content) || has_spa_framework
}

} // verus!
