//! The tab table of a browser session: which tabs are open, at which URL,
//! and which one is active. The browser itself and its pages are driven
//! outside the library; the session consults this table before and after
//! each page operation.

use vstd::prelude::*;
use crate::text::{decimal, push_decimal, push_str, str_eq};
use crate::tor::new_uuid_string;

verus! {

/// An open tab: its identifier and the URL it was opened at.
#[derive(Debug, Clone)]
pub struct OpenTab {
    pub id: String,
    pub current_url: String,
}

/// A tab as a pair of identifier and URL.
pub open spec fn tab_view(t: OpenTab) -> (Seq<char>, Seq<char>) {
    (t.id@, t.current_url@)
}

/// No identifier occurs twice among `tabs`.
pub open spec fn ids_distinct(tabs: Seq<(Seq<char>, Seq<char>)>) -> bool {
    forall|i: int, j: int| 0 <= i < j < tabs.len() ==> #[trigger] tabs[i].0 != #[trigger] tabs[j].0
}

/// Some tab of `tabs` has identifier `id`.
pub open spec fn has_id(tabs: Seq<(Seq<char>, Seq<char>)>, id: Seq<char>) -> bool {
    exists|i: int| 0 <= i < tabs.len() && #[trigger] tabs[i].0 == id
}

/// The position of the tab with identifier `id`, where there is one.
pub open spec fn position_of(tabs: Seq<(Seq<char>, Seq<char>)>, id: Seq<char>) -> int {
    choose|i: int| 0 <= i < tabs.len() && #[trigger] tabs[i].0 == id
}

/// `tabs` after recording tab `id` at `url`: the tab's URL is replaced
/// where the identifier is known, and a new tab is added at the end
/// otherwise.
pub open spec fn with_tab(tabs: Seq<(Seq<char>, Seq<char>)>, id: Seq<char>, url: Seq<char>) -> Seq<(Seq<char>, Seq<char>)> {
    if has_id(tabs, id) {
        tabs.update(position_of(tabs, id), (id, url))
    } else {
        tabs.push((id, url))
    }
}

/// `tabs` without the tab `id`.
pub open spec fn without_tab(tabs: Seq<(Seq<char>, Seq<char>)>, id: Seq<char>) -> Seq<(Seq<char>, Seq<char>)> {
    if has_id(tabs, id) {
        tabs.remove(position_of(tabs, id))
    } else {
        tabs
    }
}

/// Why a tab operation was refused.
#[derive(Debug, Clone)]
pub enum SessionError {
    /// The session already holds `open` tabs out of `max` allowed.
    TabLimitReached { open: usize, max: usize },
    /// No tab has been opened yet.
    NoActiveTab,
    /// No open tab has this identifier.
    TabNotFound { tab_id: String },
}

/// The text of a refusal, where it has one of its own.
pub open spec fn session_error_text(e: SessionError) -> Seq<char> {
    match e {
        SessionError::TabLimitReached { open, max } =>
            "Tab limit reached: "@ + decimal(open as nat) + "/"@ + decimal(max as nat),
        SessionError::NoActiveTab => "No active tab"@,
        SessionError::TabNotFound { tab_id } => tab_id@,
    }
}

impl SessionError {
    /// The refusal's message: the limit and count for a full session, a
    /// fixed text when no tab is active, the identifier of a missing tab.
    pub fn message(&self) -> (r: String)
        ensures
            r@ == session_error_text(*self),
    {
        match self {
            SessionError::TabLimitReached { open, max } => {
                let mut s = String::new();
                push_str(&mut s, "Tab limit reached: ");
                push_decimal(&mut s, *open as u64);
                push_str(&mut s, "/");
                push_decimal(&mut s, *max as u64);
                s
            },
            SessionError::NoActiveTab => {
                let mut s = String::new();
                push_str(&mut s, "No active tab");
                s
            },
            SessionError::TabNotFound { tab_id } => tab_id.clone(),
        }
    }
}

/// The open tabs of a session, at most `max_tabs` of them admitted by
/// `admit_tab`, and the tab opened last.
pub struct TabTable {
    max_tabs: usize,
    tabs: Vec<OpenTab>,
    active_tab_id: Option<String>,
}

impl TabTable {
    /// The most tabs that `admit_tab` lets the session hold.
    pub closed spec fn limit(&self) -> usize {
        self.max_tabs
    }

    /// The open tabs, in the order they were first recorded.
    pub closed spec fn tabs(&self) -> Seq<(Seq<char>, Seq<char>)> {
        self.tabs@.map_values(|t: OpenTab| tab_view(t))
    }

    /// The identifier of the tab recorded last.
    pub closed spec fn active(&self) -> Option<Seq<char>> {
        match self.active_tab_id {
            Some(id) => Some(id@),
            None => None,
        }
    }

    /// The table's invariant: no identifier twice.
    pub closed spec fn wf(&self) -> bool {
        ids_distinct(self.tabs())
    }

    /// An empty table admitting up to `max_tabs` tabs.
    pub fn new(max_tabs: usize) -> (r: Self)
        ensures
            r.wf(),
            r.limit() == max_tabs,
            r.tabs() == Seq::<(Seq<char>, Seq<char>)>::empty(),
            r.active() is None,
    {
        let r = TabTable { max_tabs, tabs: Vec::new(), active_tab_id: None };
        assert(r.tabs() =~= Seq::<(Seq<char>, Seq<char>)>::empty());
        r
    }

    /// The number of open tabs.
    pub fn tab_count(&self) -> (r: usize)
        ensures
            r == self.tabs().len(),
    {
        self.tabs.len()
    }

    /// Whether one more tab may be opened: refused with the count and the
    /// limit when `max_tabs` tabs are already open.
    pub fn check_capacity(&self) -> (r: Result<(), SessionError>)
        ensures
            r is Ok <==> self.tabs().len() < self.limit(),
            r matches Err(e) ==> e == (SessionError::TabLimitReached {
                open: self.tabs().len() as usize,
                max: self.limit(),
            }),
    {
        let n = self.tabs.len();
        if n >= self.max_tabs {
            Err(SessionError::TabLimitReached { open: n, max: self.max_tabs })
        } else {
            Ok(())
        }
    }

    /// The identifier for a new tab: refused as `check_capacity` refuses,
    /// else a fresh random UUID.
    pub fn admit_tab(&self) -> (r: Result<String, SessionError>)
        ensures
            r is Ok <==> self.tabs().len() < self.limit(),
            r matches Err(e) ==> e == (SessionError::TabLimitReached {
                open: self.tabs().len() as usize,
                max: self.limit(),
            }),
            r matches Ok(id) ==> id@.len() == 36,
    {
        match self.check_capacity() {
            Err(e) => Err(e),
            Ok(()) => Ok(new_uuid_string()),
        }
    }

    /// The position of the tab `id` among the open ones.
    fn find(&self, id: &str) -> (r: Option<usize>)
        requires
            self.wf(),
        ensures
            r is Some <==> has_id(self.tabs(), id@),
            r matches Some(i) ==> i == position_of(self.tabs(), id@) && i < self.tabs().len()
                && self.tabs()[i as int].0 == id@,
    {
        let ghost ts = self.tabs();
        let mut i: usize = 0;
        while i < self.tabs.len()
            invariant
                ts == self.tabs(),
                self.wf(),
                i <= self.tabs@.len(),
                forall|k: int| 0 <= k < i ==> #[trigger] ts[k].0 != id@,
            decreases self.tabs.len() - i,
        {
            assert(ts[i as int] == tab_view(self.tabs@[i as int]));
            if str_eq(self.tabs[i].id.as_str(), id) {
                assert(ts[i as int].0 == id@);
                assert(has_id(ts, id@));
                let ghost p = position_of(ts, id@);
                assert(0 <= p < ts.len() && ts[p].0 == id@);
                assert(p == i as int) by {
                    if p < i as int {
                        assert(ts[p].0 != id@);
                    } else if p > i as int {
                        assert(ts[i as int].0 != ts[p].0);
                    }
                }
                return Some(i);
            }
            i = i + 1;
        }
        assert(!has_id(ts, id@)) by {
            if has_id(ts, id@) {
                let k = choose|k: int| 0 <= k < ts.len() && #[trigger] ts[k].0 == id@;
                assert(ts[k].0 != id@);
            }
        }
        None
    }

    /// Record the tab `id`, opened at `url`, and make it the active one.
    /// A known identifier has its URL replaced.
    pub fn record_tab(&mut self, id: String, url: String)
        requires
            old(self).wf(),
        ensures
            final(self).wf(),
            final(self).limit() == old(self).limit(),
            final(self).tabs() == with_tab(old(self).tabs(), id@, url@),
            final(self).active() == Some(id@),
    {
        let ghost ts = self.tabs();
        let found = self.find(id.as_str());
        let tab = OpenTab { id: id.clone(), current_url: url };
        match found {
            Some(i) => {
                self.tabs.set(i, tab);
                assert(self.tabs() =~= ts.update(i as int, (id@, tab.current_url@)));
                assert(ids_distinct(self.tabs())) by {
                    assert forall|a: int, b: int| 0 <= a < b < self.tabs().len() implies
                        #[trigger] self.tabs()[a].0 != #[trigger] self.tabs()[b].0 by {
                        assert(ts[a].0 != ts[b].0);
                    }
                }
            },
            None => {
                self.tabs.push(tab);
                assert(self.tabs() =~= ts.push((id@, tab.current_url@)));
                assert(ids_distinct(self.tabs())) by {
                    assert forall|a: int, b: int| 0 <= a < b < self.tabs().len() implies
                        #[trigger] self.tabs()[a].0 != #[trigger] self.tabs()[b].0 by {
                        if b < ts.len() {
                            assert(ts[a].0 != ts[b].0);
                        } else {
                            assert(!(0 <= a < ts.len() && ts[a].0 == id@));
                        }
                    }
                }
            },
        }
        self.active_tab_id = Some(id);
    }

    /// The identifier of the active tab: refused when no tab was ever
    /// recorded, and with the identifier when that tab has been closed.
    pub fn active_tab(&self) -> (r: Result<String, SessionError>)
        requires
            self.wf(),
        ensures
            self.active() is None ==> r matches Err(SessionError::NoActiveTab),
            self.active() matches Some(id) ==> (if has_id(self.tabs(), id) {
                r matches Ok(s) && s@ == id
            } else {
                r matches Err(SessionError::TabNotFound { tab_id }) && tab_id@ == id
            }),
    {
        match &self.active_tab_id {
            None => Err(SessionError::NoActiveTab),
            Some(id) => {
                match self.find(id.as_str()) {
                    Some(_) => Ok(id.clone()),
                    None => Err(SessionError::TabNotFound { tab_id: id.clone() }),
                }
            },
        }
    }

    /// Close the tab `id` and hand it back; refused when no such tab is
    /// open. The active tab is left as it was.
    pub fn close_tab(&mut self, id: &str) -> (r: Result<OpenTab, SessionError>)
        requires
            old(self).wf(),
        ensures
            final(self).wf(),
            final(self).limit() == old(self).limit(),
            final(self).active() == old(self).active(),
            final(self).tabs() == without_tab(old(self).tabs(), id@),
            r is Ok <==> has_id(old(self).tabs(), id@),
            r matches Ok(t) ==> tab_view(t) == old(self).tabs()[position_of(old(self).tabs(), id@)],
            r matches Err(e) ==> (e matches SessionError::TabNotFound { tab_id } && tab_id@ == id@),
    {
        let ghost ts = self.tabs();
        match self.find(id) {
            Some(i) => {
                let t = self.tabs.remove(i);
                assert(self.tabs() =~= ts.remove(i as int));
                assert(ids_distinct(self.tabs())) by {
                    assert forall|a: int, b: int| 0 <= a < b < self.tabs().len() implies
                        #[trigger] self.tabs()[a].0 != #[trigger] self.tabs()[b].0 by {
                        if b < i {
                            assert(ts[a].0 != ts[b].0);
                        } else if a < i {
                            assert(ts[a].0 != ts[b + 1].0);
                        } else {
                            assert(ts[a + 1].0 != ts[b + 1].0);
                        }
                    }
                }
                Ok(t)
            },
            None => {
                let mut s = String::new();
                push_str(&mut s, id);
                Err(SessionError::TabNotFound { tab_id: s })
            },
        }
    }

    /// Every open tab's identifier and URL.
    pub fn list_tabs(&self) -> (r: Vec<(String, String)>)
        ensures
            r@.map_values(|p: (String, String)| (p.0@, p.1@)) == self.tabs(),
    {
        let mut out: Vec<(String, String)> = Vec::new();
        let mut i: usize = 0;
        while i < self.tabs.len()
            invariant
                i <= self.tabs@.len(),
                out@.len() == i,
                forall|k: int| 0 <= k < i ==> (#[trigger] out@[k]).0@ == self.tabs@[k].id@
                    && out@[k].1@ == self.tabs@[k].current_url@,
            decreases self.tabs.len() - i,
        {
            out.push((self.tabs[i].id.clone(), self.tabs[i].current_url.clone()));
            i = i + 1;
        }
        assert(out@.map_values(|p: (String, String)| (p.0@, p.1@)) =~= self.tabs());
        out
    }
}

/// Closing a tab just opened under a new identifier gives back the tabs
/// open before.
pub proof fn lemma_close_undoes_open(tabs: Seq<(Seq<char>, Seq<char>)>, id: Seq<char>, url: Seq<char>)
    requires
        ids_distinct(tabs),
        !has_id(tabs, id),
    ensures
        without_tab(with_tab(tabs, id, url), id) == tabs,
{
    let t2 = tabs.push((id, url));
    assert(t2[tabs.len() as int].0 == id);
    assert(has_id(t2, id));
    let p = position_of(t2, id);
    assert(p == tabs.len()) by {
        if p < tabs.len() {
            assert(tabs[p].0 == id);
        }
    }
    assert(t2.remove(p) =~= tabs);
}

/// A tab admitted while the session had room leaves at most `max` tabs
/// open once recorded.
pub proof fn lemma_admitted_tab_fits(tabs: Seq<(Seq<char>, Seq<char>)>, max: nat, id: Seq<char>, url: Seq<char>)
    requires
        tabs.len() < max,
    ensures
        with_tab(tabs, id, url).len() <= max,
{
}

/// Recording a tab keeps the identifiers distinct, and the tab is then
/// found under its identifier with its URL.
pub proof fn lemma_recorded_tab_found(tabs: Seq<(Seq<char>, Seq<char>)>, id: Seq<char>, url: Seq<char>)
    requires
        ids_distinct(tabs),
    ensures
        has_id(with_tab(tabs, id, url), id),
        with_tab(tabs, id, url)[position_of(with_tab(tabs, id, url), id)] == (id, url),
{
    let t2 = with_tab(tabs, id, url);
    if has_id(tabs, id) {
        let p = position_of(tabs, id);
        assert(t2[p].0 == id);
        let q = position_of(t2, id);
        assert(q == p) by {
            if q != p {
                if q < p {
                    assert(tabs[q].0 != tabs[p].0);
                } else {
                    assert(tabs[p].0 != tabs[q].0);
                }
            }
        }
    } else {
        assert(t2[tabs.len() as int].0 == id);
        let q = position_of(t2, id);
        assert(q == tabs.len()) by {
            if q < tabs.len() {
                assert(tabs[q].0 == id);
            }
        }
    }
}

} // verus!
