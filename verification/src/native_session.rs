//! The state of a native (HTTP-only) browsing session and what each agent
//! action does to it.
//!
//! The session keeps the current address, the history of pages navigated
//! away from, the values the agent filled in, and the loaded page. Fetching
//! pages and submitting forms is the caller's part: [`NativeSession::begin`]
//! says what to do for an action, and [`NativeSession::page_loaded`] /
//! [`NativeSession::form_submitted`] record the page that came back.

use vstd::prelude::*;
use crate::actions::{ActionResult, BrowserAction, reports_success, reports_failure, success, failure};
use crate::cdp_actions::{word_count, content_result};
use crate::native::{NavigationRefused, validate_url_scheme, allowed_scheme, resolve_url, resolved_url};
use crate::text::{decimal, utf8_len, views, push_str, push_decimal, owned, str_eq, uppercase, to_upper};
use crate::html_snapshot::FormData;

verus! {

/// An element of the loaded page, as far as the session reads and writes it.
pub struct TrackedElement {
    /// Its snapshot reference.
    pub ref_id: u32,
    /// Its role (`link`, `button`, `submit`, `input[type=text]`, ...).
    pub role: String,
    /// Where it links to, for a link.
    pub href: Option<String>,
    /// Its current value.
    pub value: Option<String>,
}

/// The loaded page.
pub struct LoadedPage {
    /// The page's HTML.
    pub html: String,
    /// Its elements, in snapshot order.
    pub elements: Vec<TrackedElement>,
}

/// The state of a native browsing session.
pub struct NativeSession {
    /// The address of the loaded page.
    pub current_url: Option<String>,
    /// Pages navigated away from, the most recent last.
    pub history: Vec<String>,
    /// Values filled in, in the order they were given; a later value for
    /// the same reference replaces an earlier one.
    pub filled: Vec<(u32, String)>,
    /// The loaded page, once there is one.
    pub page: Option<LoadedPage>,
}

/// Why the session refuses an action.
pub enum NativeRefusal {
    /// No page has been loaded yet.
    NoPage,
    /// No element of the page has this reference, written `@eN`.
    ElementNotFound(String),
    /// The address is not an `http://` or `https://` one.
    Navigation(NavigationRefused),
}

/// What to do for an action.
pub enum NativeStep {
    /// Fetch `url` and record it with `page_loaded`; report the navigation
    /// to `url` itself where `back` is set, else to the recorded address.
    Fetch { url: String, back: bool },
    /// Submit the page's form with the filled values, as the button
    /// `ref_id` would; where the page has no form, report
    /// [`button_without_form`].
    SubmitForm { ref_id: u32 },
    /// Report this result.
    Report(ActionResult),
    /// Refuse the action.
    Refuse(NativeRefusal),
}

// ---------------------------------------------------------------------------
// Views
// ---------------------------------------------------------------------------

/// The values filled in, by reference: a later entry overrides an earlier one.
pub open spec fn filled_map(entries: Seq<(u32, String)>) -> Map<u32, Seq<char>>
    decreases entries.len(),
{
    if entries.len() == 0 {
        Map::empty()
    } else {
        filled_map(entries.drop_last()).insert(entries.last().0, entries.last().1@)
    }
}

/// The optional text of an optional string.
pub open spec fn opt_text(o: Option<String>) -> Option<Seq<char>> {
    match o {
        Some(s) => Some(s@),
        None => None,
    }
}

/// The history after navigating away from `current`: it is remembered,
/// when there is one.
pub open spec fn history_after_navigate(h: Seq<Seq<char>>, current: Option<Seq<char>>) -> Seq<Seq<char>> {
    match current {
        Some(c) => h.push(c),
        None => h,
    }
}

/// The page going back leads to: the most recent one in the history.
pub open spec fn back_target(h: Seq<Seq<char>>) -> Option<Seq<char>> {
    if h.len() > 0 {
        Some(h.last())
    } else {
        None
    }
}

/// The history after going back.
pub open spec fn history_after_back(h: Seq<Seq<char>>) -> Seq<Seq<char>> {
    if h.len() > 0 {
        h.drop_last()
    } else {
        h
    }
}

/// Going back right after navigating away from a page leads to that page
/// and leaves the history as it was before.
pub proof fn lemma_back_undoes_navigate(h: Seq<Seq<char>>, current: Seq<char>)
    ensures
        back_target(history_after_navigate(h, Some(current))) == Some(current),
        history_after_back(history_after_navigate(h, Some(current))) == h,
{
    assert(h.push(current).drop_last() == h);
}

/// A later fill of the same reference wins.
pub proof fn lemma_last_fill_wins(entries: Seq<(u32, String)>, ref_id: u32, first: String, second: String)
    ensures
        filled_map(entries.push((ref_id, first)).push((ref_id, second)))[ref_id] == second@,
        filled_map(entries.push((ref_id, first)).push((ref_id, second)))
            == filled_map(entries.push((ref_id, second))),
{
    let a = entries.push((ref_id, first)).push((ref_id, second));
    let b = entries.push((ref_id, second));
    assert(a.drop_last() == entries.push((ref_id, first)));
    assert(entries.push((ref_id, first)).drop_last() == entries);
    assert(b.drop_last() == entries);
    assert(filled_map(entries.push((ref_id, first))) == filled_map(entries).insert(ref_id, first@));
    assert(filled_map(a) == filled_map(entries.push((ref_id, first))).insert(ref_id, second@));
    assert(filled_map(b) == filled_map(entries).insert(ref_id, second@));
    assert(filled_map(a) =~= filled_map(b));
}

/// The index of the first element of `els` with reference `ref_id`.
pub open spec fn element_index(els: Seq<TrackedElement>, ref_id: u32) -> Option<int>
    decreases els.len(),
{
    if els.len() == 0 {
        None
    } else {
        match element_index(els.drop_last(), ref_id) {
            Some(i) => Some(i),
            None => if els.last().ref_id == ref_id { Some(els.len() - 1) } else { None },
        }
    }
}

/// `els` with the value of the first element `ref_id` set to `value`.
pub open spec fn with_value(els: Seq<TrackedElement>, ref_id: u32, value: Seq<char>) -> Seq<(u32, Option<Seq<char>>)> {
    Seq::new(els.len(), |i: int| {
        if element_index(els, ref_id) == Some(i) {
            (els[i].ref_id, Some(value))
        } else {
            (els[i].ref_id, opt_text(els[i].value))
        }
    })
}

/// The references and values of the elements.
pub open spec fn element_values(els: Seq<TrackedElement>) -> Seq<(u32, Option<Seq<char>>)> {
    Seq::new(els.len(), |i: int| (els[i].ref_id, opt_text(els[i].value)))
}

/// The references, roles and links of the elements.
pub open spec fn element_shapes(els: Seq<TrackedElement>) -> Seq<(u32, Seq<char>, Option<Seq<char>>)> {
    Seq::new(els.len(), |i: int| (els[i].ref_id, els[i].role@, opt_text(els[i].href)))
}

impl NativeSession {
    /// The address of the loaded page.
    pub open spec fn url_view(self) -> Option<Seq<char>> {
        opt_text(self.current_url)
    }

    /// The history.
    pub open spec fn history_view(self) -> Seq<Seq<char>> {
        views(self.history@)
    }

    /// The filled values.
    pub open spec fn filled_view(self) -> Map<u32, Seq<char>> {
        filled_map(self.filled@)
    }
}

// ---------------------------------------------------------------------------
// Reports
// ---------------------------------------------------------------------------

/// The report of a button whose page has no form to submit.
pub fn button_without_form(ref_id: u32) -> (r: ActionResult)
    ensures
        reports_success(r, "Clicked @e"@ + decimal(ref_id as nat) + " (button, no form found)"@),
{
    let mut s = owned("Clicked @e");
    push_decimal(&mut s, ref_id as u64);
    push_str(&mut s, " (button, no form found)");
    success(s)
}

/// What a native session reports for an action it cannot carry out
/// without a script engine, or `None` for the others.
pub open spec fn unsupported_report(action: BrowserAction) -> Option<Seq<char>> {
    match action {
        BrowserAction::EvalJs { .. } => Some(
            "JavaScript execution not available in native mode. Use Chrome backend for JS-heavy pages."@,
        ),
        BrowserAction::Screenshot { .. } => Some(
            "Screenshots not available in native mode. Use Chrome backend for visual capture."@,
        ),
        _ => None,
    }
}

impl NativeSession {
    /// A session with nothing loaded.
    pub fn new() -> (s: Self)
        ensures
            s.url_view() is None,
            s.history_view().len() == 0,
            s.filled_view() == Map::<u32, Seq<char>>::empty(),
            s.page is None,
    {
        NativeSession { current_url: None, history: Vec::new(), filled: Vec::new(), page: None }
    }

    /// The value filled in for `ref_id`, if any.
    pub fn filled_value(&self, ref_id: u32) -> (r: Option<String>)
        ensures
            match r {
                Some(v) => self.filled_view().contains_key(ref_id) && self.filled_view()[ref_id] == v@,
                None => !self.filled_view().contains_key(ref_id),
            },
    {
        let mut i = self.filled.len();
        assert(self.filled@.take(i as int) == self.filled@);
        while i > 0
            invariant
                i <= self.filled@.len(),
                forall|k: int| i <= k < self.filled@.len() ==> self.filled@[k].0 != ref_id,
                filled_map(self.filled@).contains_key(ref_id) == filled_map(self.filled@.take(i as int)).contains_key(ref_id),
                filled_map(self.filled@).contains_key(ref_id) ==> filled_map(self.filled@)[ref_id]
                    == filled_map(self.filled@.take(i as int))[ref_id],
            decreases i,
        {
            proof {
                let t = self.filled@.take(i as int);
                assert(t.drop_last() == self.filled@.take(i as int - 1));
                assert(t.last() == self.filled@[i as int - 1]);
            }
            if self.filled[i - 1].0 == ref_id {
                return Some(self.filled[i - 1].1.clone());
            }
            i -= 1;
        }
        assert(self.filled@.take(0) == Seq::<(u32, String)>::empty());
        None
    }

    /// Remembers the value filled into `ref_id` and shows it on the page's
    /// element, where there is one.
    fn fill_value(&mut self, ref_id: u32, value: &str)
        ensures
            final(self).filled_view() == old(self).filled_view().insert(ref_id, value@),
            final(self).url_view() == old(self).url_view(),
            final(self).history_view() == old(self).history_view(),
            old(self).page is None ==> final(self).page is None,
            old(self).page matches Some(p) ==> (final(self).page matches Some(q)
                && q.html@ == p.html@
                && element_shapes(q.elements@) == element_shapes(p.elements@)
                && element_values(q.elements@) == with_value(p.elements@, ref_id, value@)),
    {
        self.filled.push((ref_id, owned(value)));
        proof {
            assert(self.filled@.drop_last() == old(self).filled@);
        }
        match self.page.take() {
            None => {},
            Some(mut p) => {
                let ghost els = p.elements@;
                let mut i: usize = 0;
                let n = p.elements.len();
                while i < n && p.elements[i].ref_id != ref_id
                    invariant
                        n == p.elements.len(),
                        els.len() == n,
                        i <= n,
                        p.elements@ == els,
                        element_index(els.take(i as int), ref_id) is None,
                    decreases n - i,
                {
                    proof {
                        assert(els.take(i as int + 1).drop_last() == els.take(i as int));
                    }
                    i += 1;
                }
                proof {
                    lemma_element_index_prefix(els, i as int, ref_id);
                }
                if i < n {
                    let href = match &p.elements[i].href {
                        Some(h) => Some(h.clone()),
                        None => None,
                    };
                    let el = TrackedElement {
                        ref_id: p.elements[i].ref_id,
                        role: p.elements[i].role.clone(),
                        href,
                        value: Some(owned(value)),
                    };
                    p.elements.set(i, el);
                    assert(element_shapes(p.elements@) =~= element_shapes(els));
                    assert(element_values(p.elements@) =~= with_value(els, ref_id, value@));
                } else {
                    assert(element_values(p.elements@) =~= with_value(els, ref_id, value@));
                }
                self.page = Some(p);
            },
        }
    }
}

/// The first index with reference `ref_id` in `els` is the first such index
/// in a prefix that already holds one, and a prefix without one of the
/// whole sequence leaves none.
proof fn lemma_element_index_prefix(els: Seq<TrackedElement>, i: int, ref_id: u32)
    requires
        0 <= i <= els.len(),
        element_index(els.take(i), ref_id) is None,
        i < els.len() ==> els[i].ref_id == ref_id,
    ensures
        i < els.len() ==> element_index(els, ref_id) == Some(i),
        i == els.len() ==> element_index(els, ref_id) is None,
    decreases els.len(),
{
    if i == els.len() {
        assert(els.take(i) == els);
    } else if i + 1 == els.len() {
        assert(els.drop_last() == els.take(i));
    } else {
        assert(els.drop_last().take(i) == els.take(i));
        lemma_element_index_prefix(els.drop_last(), i, ref_id);
    }
}

// ---------------------------------------------------------------------------
// Actions
// ---------------------------------------------------------------------------

/// Nothing about the session changed.
pub open spec fn unchanged(old: NativeSession, new: NativeSession) -> bool {
    new.url_view() == old.url_view() && new.history_view() == old.history_view()
        && new.filled_view() == old.filled_view() && new.page == old.page
}

/// A navigation to `url` was begun: refused for a scheme other than HTTP(S),
/// else the current page is remembered in the history and `url` is fetched.
pub open spec fn navigation_begun(old: NativeSession, new: NativeSession, url: Seq<char>, r: NativeStep) -> bool {
    if allowed_scheme(url) {
        &&& new.history_view() == history_after_navigate(old.history_view(), old.url_view())
        &&& new.url_view() == old.url_view()
        &&& new.filled_view() == old.filled_view()
        &&& new.page == old.page
        &&& (r matches NativeStep::Fetch { url: u, back } && u@ == url && !back)
    } else {
        &&& unchanged(old, new)
        &&& (r matches NativeStep::Refuse(NativeRefusal::Navigation(e)) && e.url@ == url)
    }
}

/// The text of an optional address, or empty.
pub open spec fn url_or_empty(o: Option<Seq<char>>) -> Seq<char> {
    match o {
        Some(u) => u,
        None => Seq::empty(),
    }
}

/// A click on `ref_id` was begun: a link is followed, a button submits the
/// page's form, anything else is only acknowledged.
pub open spec fn click_begun(old: NativeSession, new: NativeSession, ref_id: u32, r: NativeStep) -> bool {
    match old.page {
        None => unchanged(old, new) && (r matches NativeStep::Refuse(NativeRefusal::NoPage)),
        Some(p) => match element_index(p.elements@, ref_id) {
            None => unchanged(old, new) && (r matches NativeStep::Refuse(NativeRefusal::ElementNotFound(sel))
                && sel@ == "@e"@ + decimal(ref_id as nat)),
            Some(i) => match p.elements@[i].href {
                Some(h) => navigation_begun(old, new, resolved_url(h@, url_or_empty(old.url_view())), r),
                None => unchanged(old, new) && (if p.elements@[i].role@ == "button"@
                    || p.elements@[i].role@ == "submit"@ {
                    r == NativeStep::SubmitForm { ref_id }
                } else {
                    r matches NativeStep::Report(res) && reports_success(
                        res,
                        "Clicked @e"@ + decimal(ref_id as nat) + " (no navigation target)"@,
                    )
                }),
            },
        },
    }
}

/// A value was filled into `ref_id`: it is remembered, shown on the page's
/// element, and `message` is reported.
pub open spec fn fill_begun(
    old: NativeSession,
    new: NativeSession,
    ref_id: u32,
    value: Seq<char>,
    message: Seq<char>,
    r: NativeStep,
) -> bool {
    &&& new.filled_view() == old.filled_view().insert(ref_id, value)
    &&& new.url_view() == old.url_view()
    &&& new.history_view() == old.history_view()
    &&& old.page is None ==> new.page is None
    &&& old.page matches Some(p) ==> (new.page matches Some(q) && q.html@ == p.html@
        && element_shapes(q.elements@) == element_shapes(p.elements@)
        && element_values(q.elements@) == with_value(p.elements@, ref_id, value))
    &&& (r matches NativeStep::Report(res) && reports_success(res, message))
}

/// What beginning `action` does to the session and asks of the caller.
pub open spec fn begun(old: NativeSession, new: NativeSession, action: BrowserAction, r: NativeStep) -> bool {
    match action {
        BrowserAction::Navigate { url } => navigation_begun(old, new, url@, r),
        BrowserAction::Click { ref_id, .. } => click_begun(old, new, ref_id, r),
        BrowserAction::Fill { ref_id, text, .. } => fill_begun(
            old,
            new,
            ref_id,
            text@,
            "Filled @e"@ + decimal(ref_id as nat) + " with "@ + decimal(utf8_len(text@)) + " chars"@,
            r,
        ),
        BrowserAction::Select { ref_id, value, .. } => fill_begun(
            old,
            new,
            ref_id,
            value@,
            "Selected '"@ + value@ + "' in @e"@ + decimal(ref_id as nat),
            r,
        ),
        BrowserAction::TypeText { ref_id, text, .. } => fill_begun(
            old,
            new,
            ref_id,
            text@,
            "Typed into @e"@ + decimal(ref_id as nat),
            r,
        ),
        BrowserAction::GoBack => match back_target(old.history_view()) {
            None => unchanged(old, new) && (r matches NativeStep::Report(res) && reports_failure(
                res,
                "No history to go back to"@,
            )),
            Some(u) => {
                &&& new.history_view() == history_after_back(old.history_view())
                &&& new.url_view() == old.url_view()
                &&& new.filled_view() == old.filled_view()
                &&& new.page == old.page
                &&& (r matches NativeStep::Fetch { url, back } && url@ == u && back)
            },
        },
        BrowserAction::ExtractContent => unchanged(old, new) && (match old.page {
            None => r matches NativeStep::Refuse(NativeRefusal::NoPage),
            Some(p) => r matches NativeStep::Report(ActionResult::Content { markdown, word_count: n })
                && markdown@ == p.html@ && n == word_count(p.html@),
        }),
        _ => unchanged(old, new) && (match unsupported_report(action) {
            Some(e) => r matches NativeStep::Report(res) && reports_failure(res, e),
            None => r matches NativeStep::Report(res) && reports_success(
                res,
                "Action acknowledged (no-op in native mode)"@,
            ),
        }),
    }
}

impl NativeSession {
    /// Begins a navigation to `url`.
    fn begin_navigation(&mut self, url: String) -> (r: NativeStep)
        ensures
            navigation_begun(*old(self), *final(self), url@, r),
    {
        match validate_url_scheme(url.as_str()) {
            Err(e) => NativeStep::Refuse(NativeRefusal::Navigation(e)),
            Ok(()) => {
                match &self.current_url {
                    Some(c) => {
                        let c2 = c.clone();
                        self.history.push(c2);
                        proof {
                            assert(views(self.history@) == views(old(self).history@).push(c2@));
                        }
                    },
                    None => {},
                }
                NativeStep::Fetch { url, back: false }
            },
        }
    }

    /// Begins a click on `ref_id`.
    fn begin_click(&mut self, ref_id: u32) -> (r: NativeStep)
        ensures
            click_begun(*old(self), *final(self), ref_id, r),
    {
        let (href, is_button): (Option<String>, bool) = match &self.page {
            None => {
                return NativeStep::Refuse(NativeRefusal::NoPage);
            },
            Some(p) => {
                let ghost els = p.elements@;
                let n = p.elements.len();
                let mut i: usize = 0;
                while i < n && p.elements[i].ref_id != ref_id
                    invariant
                        n == p.elements.len(),
                        els == p.elements@,
                        i <= n,
                        element_index(els.take(i as int), ref_id) is None,
                    decreases n - i,
                {
                    proof {
                        assert(els.take(i as int + 1).drop_last() == els.take(i as int));
                    }
                    i += 1;
                }
                proof {
                    lemma_element_index_prefix(els, i as int, ref_id);
                }
                if i == n {
                    let mut sel = owned("@e");
                    push_decimal(&mut sel, ref_id as u64);
                    return NativeStep::Refuse(NativeRefusal::ElementNotFound(sel));
                }
                let el = &p.elements[i];
                let href = match &el.href {
                    Some(h) => Some(h.clone()),
                    None => None,
                };
                (href, str_eq(el.role.as_str(), "button") || str_eq(el.role.as_str(), "submit"))
            },
        };
        match href {
            Some(h) => {
                let base: &str = match &self.current_url {
                    Some(u) => u.as_str(),
                    None => "",
                };
                proof {
                    reveal_strlit("");
                }
                assert(base@ == url_or_empty(self.url_view()));
                let resolved = resolve_url(h.as_str(), base);
                self.begin_navigation(resolved)
            },
            None => if is_button {
                NativeStep::SubmitForm { ref_id }
            } else {
                let mut m = owned("Clicked @e");
                push_decimal(&mut m, ref_id as u64);
                push_str(&mut m, " (no navigation target)");
                NativeStep::Report(success(m))
            },
        }
    }

    /// Begins going back in the history.
    fn begin_back(&mut self) -> (r: NativeStep)
        ensures
            begun(*old(self), *final(self), BrowserAction::GoBack, r),
    {
        match self.history.pop() {
            None => NativeStep::Report(failure(owned("No history to go back to"))),
            Some(prev) => {
                proof {
                    assert(views(self.history@) == views(old(self).history@).drop_last());
                }
                NativeStep::Fetch { url: prev, back: true }
            },
        }
    }

    /// What to do for `action`; the session is updated as far as the
    /// action goes before any page is fetched.
    pub fn begin(&mut self, action: &BrowserAction) -> (r: NativeStep)
        ensures
            begun(*old(self), *final(self), *action, r),
    {
        match action {
            BrowserAction::Navigate { url } => self.begin_navigation(url.clone()),
            BrowserAction::Click { ref_id, .. } => self.begin_click(*ref_id),
            BrowserAction::Fill { ref_id, text, .. } => {
                self.fill_value(*ref_id, text.as_str());
                let mut m = owned("Filled @e");
                push_decimal(&mut m, *ref_id as u64);
                push_str(&mut m, " with ");
                push_decimal(&mut m, text.as_str().len() as u64);
                push_str(&mut m, " chars");
                NativeStep::Report(success(m))
            },
            BrowserAction::Select { ref_id, value, .. } => {
                self.fill_value(*ref_id, value.as_str());
                let mut m = owned("Selected '");
                push_str(&mut m, value.as_str());
                push_str(&mut m, "' in @e");
                push_decimal(&mut m, *ref_id as u64);
                NativeStep::Report(success(m))
            },
            BrowserAction::TypeText { ref_id, text, .. } => {
                self.fill_value(*ref_id, text.as_str());
                let mut m = owned("Typed into @e");
                push_decimal(&mut m, *ref_id as u64);
                NativeStep::Report(success(m))
            },
            BrowserAction::GoBack => self.begin_back(),
            BrowserAction::ExtractContent => match &self.page {
                None => NativeStep::Refuse(NativeRefusal::NoPage),
                Some(p) => NativeStep::Report(content_result(p.html.clone())),
            },
            BrowserAction::EvalJs { .. } => NativeStep::Report(failure(owned(
                "JavaScript execution not available in native mode. Use Chrome backend for JS-heavy pages.",
            ))),
            BrowserAction::Screenshot { .. } => NativeStep::Report(failure(owned(
                "Screenshots not available in native mode. Use Chrome backend for visual capture.",
            ))),
            _ => NativeStep::Report(success(owned("Action acknowledged (no-op in native mode)"))),
        }
    }

    /// Records the page fetched for a navigation: it becomes the current page.
    pub fn page_loaded(&mut self, final_url: String, html: String, elements: Vec<TrackedElement>)
        ensures
            final(self).url_view() == Some(final_url@),
            final(self).history_view() == old(self).history_view(),
            final(self).filled_view() == old(self).filled_view(),
            final(self).page == Some(LoadedPage { html, elements }),
    {
        self.current_url = Some(final_url);
        self.page = Some(LoadedPage { html, elements });
    }

    /// Records the page a form submission led to: the submitting page is
    /// remembered in the history and the new one becomes current.
    pub fn form_submitted(&mut self, final_url: String, html: String, elements: Vec<TrackedElement>)
        ensures
            final(self).url_view() == Some(final_url@),
            final(self).history_view() == history_after_navigate(old(self).history_view(), old(self).url_view()),
            final(self).filled_view() == old(self).filled_view(),
            final(self).page == Some(LoadedPage { html, elements }),
    {
        match &self.current_url {
            Some(c) => {
                let c2 = c.clone();
                self.history.push(c2);
                proof {
                    assert(views(self.history@) == views(old(self).history@).push(c2@));
                }
            },
            None => {},
        }
        self.current_url = Some(final_url);
        self.page = Some(LoadedPage { html, elements });
    }
}

/// How a form is sent: to its action resolved against the current page,
/// as a query for `GET` (in any case) and as a posted body otherwise.
pub open spec fn form_request_spec(action: Seq<char>, method: Seq<char>, current: Option<Seq<char>>) -> (Seq<char>, bool) {
    (resolved_url(action, url_or_empty(current)), uppercase(method) == "GET"@)
}

impl NativeSession {
    /// Where and how the page's form is sent: its URL, and whether the
    /// fields go in the query (`GET`) rather than a posted body.
    pub fn form_request(&self, form: &FormData) -> (r: (String, bool))
        ensures
            (r.0@, r.1) == form_request_spec(form.action@, form.method@, self.url_view()),
    {
        let base: &str = match &self.current_url {
            Some(u) => u.as_str(),
            None => "",
        };
        proof {
            reveal_strlit("");
        }
        assert(base@ == url_or_empty(self.url_view()));
        let url = resolve_url(form.action.as_str(), base);
        let m = to_upper(form.method.as_str());
        (url, str_eq(m.as_str(), "GET"))
    }
}

} // verus!
