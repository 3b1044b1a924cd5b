//! Chrome DevTools Protocol helpers: keyboard key mapping, the choice of a
//! debugging target, Chrome's launch arguments, the routing of incoming
//! messages, and the numbering of elements found in embedded frames.

use vstd::prelude::*;
use crate::text::{
    lowercase, to_lower, str_eq, contains_seq, decimal, join_with, views, has_prefix,
    push_str, push_decimal, str_contains, starts_with, owned, join_strings, };
use crate::selectors::{first_from, count_where};
use crate::cdp_actions::text_or;
use crate::rate_limit::{parsed_url_host, url_host};

verus! {

/// The CDP `(key, code, virtual key code)` of a key whose lower-cased name
/// is `l`; unknown names map to themselves with code 0.
pub open spec fn cdp_key(l: Seq<char>, key: Seq<char>) -> (Seq<char>, Seq<char>, u32) {
    if l == "enter"@ || l == "return"@ {
        ("Enter"@, "Enter"@, 13u32)
    } else if l == "tab"@ {
        ("Tab"@, "Tab"@, 9u32)
    } else if l == "escape"@ || l == "esc"@ {
        ("Escape"@, "Escape"@, 27u32)
    } else if l == "backspace"@ {
        ("Backspace"@, "Backspace"@, 8u32)
    } else if l == "delete"@ {
        ("Delete"@, "Delete"@, 46u32)
    } else if l == "arrowup"@ || l == "up"@ {
        ("ArrowUp"@, "ArrowUp"@, 38u32)
    } else if l == "arrowdown"@ || l == "down"@ {
        ("ArrowDown"@, "ArrowDown"@, 40u32)
    } else if l == "arrowleft"@ || l == "left"@ {
        ("ArrowLeft"@, "ArrowLeft"@, 37u32)
    } else if l == "arrowright"@ || l == "right"@ {
        ("ArrowRight"@, "ArrowRight"@, 39u32)
    } else if l == "space"@ || l == " "@ {
        (" "@, "Space"@, 32u32)
    } else if l == "home"@ {
        ("Home"@, "Home"@, 36u32)
    } else if l == "end"@ {
        ("End"@, "End"@, 35u32)
    } else if l == "pageup"@ {
        ("PageUp"@, "PageUp"@, 33u32)
    } else if l == "pagedown"@ {
        ("PageDown"@, "PageDown"@, 34u32)
    } else {
        (key, key, 0u32)
    }
}

/// Map a human-readable key name (any case) to CDP `(key, code,
/// windowsVirtualKeyCode)`.
pub fn key_to_cdp_key<'a>(key: &'a str) -> (r: (&'a str, &'a str, u32))
    ensures
        (r.0@, r.1@, r.2) == cdp_key(lowercase(key@), key@),
{
    let l = to_lower(key);
    let k = l.as_str();
    if str_eq(k, "enter") || str_eq(k, "return") {
        ("Enter", "Enter", 13)
    } else if str_eq(k, "tab") {
        ("Tab", "Tab", 9)
    } else if str_eq(k, "escape") || str_eq(k, "esc") {
        ("Escape", "Escape", 27)
    } else if str_eq(k, "backspace") {
        ("Backspace", "Backspace", 8)
    } else if str_eq(k, "delete") {
        ("Delete", "Delete", 46)
    } else if str_eq(k, "arrowup") || str_eq(k, "up") {
        ("ArrowUp", "ArrowUp", 38)
    } else if str_eq(k, "arrowdown") || str_eq(k, "down") {
        ("ArrowDown", "ArrowDown", 40)
    } else if str_eq(k, "arrowleft") || str_eq(k, "left") {
        ("ArrowLeft", "ArrowLeft", 37)
    } else if str_eq(k, "arrowright") || str_eq(k, "right") {
        ("ArrowRight", "ArrowRight", 39)
    } else if str_eq(k, "space") || str_eq(k, " ") {
        (" ", "Space", 32)
    } else if str_eq(k, "home") {
        ("Home", "Home", 36)
    } else if str_eq(k, "end") {
        ("End", "End", 35)
    } else if str_eq(k, "pageup") {
        ("PageUp", "PageUp", 33)
    } else if str_eq(k, "pagedown") {
        ("PageDown", "PageDown", 34)
    } else {
        (key, key, 0)
    }
}

// ---------------------------------------------------------------------------
// Debugging targets
// ---------------------------------------------------------------------------

/// A debugging target as Chrome's `/json` endpoint lists it.
pub struct TargetInfo {
    /// Its `type` (`page`, `service_worker`, ...).
    pub kind: Option<String>,
    /// Its `url`.
    pub url: Option<String>,
    /// Its `title`.
    pub title: Option<String>,
    /// Its `webSocketDebuggerUrl`.
    pub ws_url: Option<String>,
}

/// The target is a page (a tab).
pub open spec fn is_page(t: TargetInfo) -> bool {
    t.kind matches Some(k) && k@ == "page"@
}

/// Index `i` of `ts` is a page.
pub open spec fn page_at(ts: Seq<TargetInfo>) -> spec_fn(int) -> bool {
    |i: int| is_page(ts[i])
}

/// Index `i` of `ts` is a page whose lower-cased URL or title contains `needle`.
pub open spec fn matching_page_at(ts: Seq<TargetInfo>, needle: Seq<char>) -> spec_fn(int) -> bool {
    |i: int| is_page(ts[i]) && (contains_seq(lowercase(text_or(ts[i].url, ""@)), needle)
        || contains_seq(lowercase(text_or(ts[i].title, ""@)), needle))
}

/// Index `i` of `ts` is a page that can be connected to.
pub open spec fn connectable_page_at(ts: Seq<TargetInfo>) -> spec_fn(int) -> bool {
    |i: int| is_page(ts[i]) && ts[i].ws_url is Some
}

/// The line listing a tab in a refusal: `  [title] url`.
pub open spec fn tab_line(t: TargetInfo) -> Seq<char> {
    "  ["@ + text_or(t.title, ""@) + "] "@ + text_or(t.url, ""@)
}

/// The lines listing the pages of `ts`, in order.
pub open spec fn page_lines(ts: Seq<TargetInfo>) -> Seq<Seq<char>>
    decreases ts.len(),
{
    if ts.len() == 0 {
        Seq::empty()
    } else if is_page(ts.last()) {
        page_lines(ts.drop_last()).push(tab_line(ts.last()))
    } else {
        page_lines(ts.drop_last())
    }
}

/// The tab an attachment picks: the first page, or, with a filter, the first
/// page whose URL or title contains the filter, ignoring case.
pub open spec fn chosen_tab(ts: Seq<TargetInfo>, filter: Option<Seq<char>>) -> Option<int> {
    match filter {
        None => first_from(0, ts.len() as int, page_at(ts)),
        Some(f) => first_from(0, ts.len() as int, matching_page_at(ts, lowercase(f))),
    }
}

/// The refusal when Chrome lists no page.
pub open spec fn no_pages_text(port: u16) -> Seq<char> {
    "Chrome on port "@ + decimal(port as nat) + " has no page targets. Open at least one tab and retry."@
}

/// The refusal when no page matches the filter.
pub open spec fn no_match_text(filter: Seq<char>, ts: Seq<TargetInfo>) -> Seq<char> {
    "No tab matched filter '"@ + filter + "'. Available tabs:\n"@ + join_with(page_lines(ts), "\n"@)
}

/// Whether target `t` is a page.
fn target_is_page(t: &TargetInfo) -> (b: bool)
    ensures
        b == is_page(*t),
{
    match &t.kind {
        Some(k) => str_eq(k.as_str(), "page"),
        None => false,
    }
}

/// The lines listing the pages of `ts`.
fn list_pages(ts: &Vec<TargetInfo>) -> (r: Vec<String>)
    ensures
        views(r@) == page_lines(ts@),
{
    let mut lines: Vec<String> = Vec::new();
    let mut i: usize = 0;
    while i < ts.len()
        invariant
            i <= ts.len(),
            views(lines@) == page_lines(ts@.take(i as int)),
        decreases ts.len() - i,
    {
        proof {
            assert(ts@.take(i as int + 1).drop_last() == ts@.take(i as int));
            assert(ts@.take(i as int + 1).last() == ts@[i as int]);
        }
        if target_is_page(&ts[i]) {
            let mut line = String::new();
            push_str(&mut line, "  [");
            match &ts[i].title {
                Some(t) => push_str(&mut line, t.as_str()),
                None => push_str(&mut line, ""),
            }
            push_str(&mut line, "] ");
            match &ts[i].url {
                Some(u) => push_str(&mut line, u.as_str()),
                None => push_str(&mut line, ""),
            }
            lines.push(line);
            assert(views(lines@) == views(lines@.drop_last()).push(lines@.last()@));
        }
        i += 1;
    }
    assert(ts@.take(ts.len() as int) == ts@);
    lines
}

/// Chooses the tab of a running Chrome to attach to, listening on `port`:
/// the index of the chosen target, or the refusal to report.
pub fn choose_tab(port: u16, targets: &Vec<TargetInfo>, filter: Option<&str>) -> (r: Result<usize, String>)
    ensures
        ({
            let ts = targets@;
            let f = match filter {
                Some(x) => Some(x@),
                None => None,
            };
            if first_from(0, ts.len() as int, page_at(ts)) is None {
                r matches Err(e) && e@ == no_pages_text(port)
            } else {
                match chosen_tab(ts, f) {
                    None => r matches Err(e) && e@ == no_match_text(filter.unwrap()@, ts),
                    Some(i) => if ts[i].ws_url is Some {
                        r == Ok::<usize, String>(i as usize)
                    } else {
                        r matches Err(e) && e@ == "Chosen tab has no webSocketDebuggerUrl"@
                    },
                }
            }
        }),
{
    let ghost ts = targets@;
    let n = targets.len();
    let mut first_page: Option<usize> = None;
    let mut i: usize = 0;
    while i < n && first_page.is_none()
        invariant
            n == targets.len(),
            i <= n,
            ts == targets@,
            first_from(0, n as int, page_at(ts)) == match first_page {
                Some(k) => Some(k as int),
                None => first_from(i as int, n as int, page_at(ts)),
            },
            first_page matches Some(k) ==> k < n,
        decreases n - i,
    {
        if target_is_page(&targets[i]) {
            first_page = Some(i);
        }
        i += 1;
    }
    if first_page.is_none() {
        let mut e = String::new();
        push_str(&mut e, "Chrome on port ");
        push_decimal(&mut e, port as u64);
        push_str(&mut e, " has no page targets. Open at least one tab and retry.");
        return Err(e);
    }
    let chosen: usize = match filter {
        None => first_page.unwrap(),
        Some(f) => {
            let needle = to_lower(f);
            let mut found: Option<usize> = None;
            let mut j: usize = 0;
            while j < n && found.is_none()
                invariant
                    n == targets.len(),
                    j <= n,
                    ts == targets@,
                    first_from(0, n as int, matching_page_at(ts, needle@)) == match found {
                        Some(k) => Some(k as int),
                        None => first_from(j as int, n as int, matching_page_at(ts, needle@)),
                    },
                    found matches Some(k) ==> k < n,
                decreases n - j,
            {
                let t = &targets[j];
                if target_is_page(t) {
                    let url: &str = match &t.url {
                        Some(u) => u.as_str(),
                        None => "",
                    };
                    let title: &str = match &t.title {
                        Some(x) => x.as_str(),
                        None => "",
                    };
                    let lu = to_lower(url);
                    let lt = to_lower(title);
                    if str_contains(lu.as_str(), needle.as_str()) || str_contains(lt.as_str(), needle.as_str()) {
                        found = Some(j);
                    }
                }
                j += 1;
            }
            match found {
                Some(k) => k,
                None => {
                    let lines = list_pages(targets);
                    let listing = join_strings(&lines, "\n");
                    let mut e = String::new();
                    push_str(&mut e, "No tab matched filter '");
                    push_str(&mut e, f);
                    push_str(&mut e, "'. Available tabs:\n");
                    push_str(&mut e, listing.as_str());
                    return Err(e);
                },
            }
        },
    };
    if targets[chosen].ws_url.is_some() {
        Ok(chosen)
    } else {
        Err(owned("Chosen tab has no webSocketDebuggerUrl"))
    }
}

/// While Chrome starts: the first page target, connectable or refused for
/// lack of a debugger URL; `None` while no page is listed yet.
pub fn devtools_target(targets: &Vec<TargetInfo>) -> (r: Option<Result<usize, String>>)
    ensures
        match first_from(0, targets@.len() as int, page_at(targets@)) {
            None => r is None,
            Some(i) => if targets@[i].ws_url is Some {
                r == Some(Ok::<usize, String>(i as usize))
            } else {
                r matches Some(Err(e)) && e@ == "Page target has no webSocketDebuggerUrl"@
            },
        },
{
    let ghost ts = targets@;
    let n = targets.len();
    let mut found: Option<usize> = None;
    let mut i: usize = 0;
    while i < n && found.is_none()
        invariant
            n == targets.len(),
            i <= n,
            ts == targets@,
            first_from(0, n as int, page_at(ts)) == match found {
                Some(k) => Some(k as int),
                None => first_from(i as int, n as int, page_at(ts)),
            },
            found matches Some(k) ==> k < n,
        decreases n - i,
    {
        if target_is_page(&targets[i]) {
            found = Some(i);
        }
        i += 1;
    }
    match found {
        None => None,
        Some(k) => if targets[k].ws_url.is_some() {
            Some(Ok(k))
        } else {
            Some(Err(owned("Page target has no webSocketDebuggerUrl")))
        },
    }
}

/// After a navigation replaced the page target: the first page that can
/// be connected to, if Chrome lists one yet.
pub fn reconnect_target(targets: &Vec<TargetInfo>) -> (r: Option<usize>)
    ensures
        match first_from(0, targets@.len() as int, connectable_page_at(targets@)) {
            None => r is None,
            Some(i) => r == Some(i as usize),
        },
{
    let ghost ts = targets@;
    let n = targets.len();
    let mut found: Option<usize> = None;
    let mut i: usize = 0;
    while i < n && found.is_none()
        invariant
            n == targets.len(),
            i <= n,
            ts == targets@,
            first_from(0, n as int, connectable_page_at(ts)) == match found {
                Some(k) => Some(k as int),
                None => first_from(i as int, n as int, connectable_page_at(ts)),
            },
        decreases n - i,
    {
        if target_is_page(&targets[i]) && targets[i].ws_url.is_some() {
            found = Some(i);
        }
        i += 1;
    }
    found
}

// ---------------------------------------------------------------------------
// Launching Chrome
// ---------------------------------------------------------------------------

/// The name of the temporary profile directory of a launch.
pub fn profile_dir_name(pid: u32, port: u16) -> (r: String)
    ensures
        r@ == "wraith-cdp-"@ + decimal(pid as nat) + "-"@ + decimal(port as nat),
{
    let mut s = String::new();
    push_str(&mut s, "wraith-cdp-");
    push_decimal(&mut s, pid as u64);
    push_str(&mut s, "-");
    push_decimal(&mut s, port as u64);
    s
}

/// The command-line arguments Chrome is launched with: headless, with the
/// debugging port and profile directory, a fixed window size, and the
/// background features switched off.
pub open spec fn chrome_args_spec(port: u16, profile_dir: Seq<char>) -> Seq<Seq<char>> {
    seq![
        "--headless=new"@,
        "--remote-debugging-port="@ + decimal(port as nat),
        "--user-data-dir="@ + profile_dir,
        "--no-first-run"@,
        "--disable-extensions"@,
        "--disable-gpu"@,
        "--disable-background-networking"@,
        "--disable-default-apps"@,
        "--disable-sync"@,
        "--disable-translate"@,
        "--metrics-recording-only"@,
        "--no-default-browser-check"@,
        "--mute-audio"@,
        "--window-size=1280,720"@,
    ]
}

/// The command-line arguments Chrome is launched with.
pub fn chrome_args(port: u16, profile_dir: &str) -> (r: Vec<String>)
    ensures
        views(r@) == chrome_args_spec(port, profile_dir@),
{
    let mut v: Vec<String> = Vec::new();
    v.push(owned("--headless=new"));
    let mut p = owned("--remote-debugging-port=");
    push_decimal(&mut p, port as u64);
    v.push(p);
    let mut d = owned("--user-data-dir=");
    push_str(&mut d, profile_dir);
    v.push(d);
    v.push(owned("--no-first-run"));
    v.push(owned("--disable-extensions"));
    v.push(owned("--disable-gpu"));
    v.push(owned("--disable-background-networking"));
    v.push(owned("--disable-default-apps"));
    v.push(owned("--disable-sync"));
    v.push(owned("--disable-translate"));
    v.push(owned("--metrics-recording-only"));
    v.push(owned("--no-default-browser-check"));
    v.push(owned("--mute-audio"));
    v.push(owned("--window-size=1280,720"));
    assert(views(v@) =~= chrome_args_spec(port, profile_dir@));
    v
}

/// The operating system Chrome is looked for on.
#[derive(Debug, Clone, Copy, PartialEq, Eq, Structural)]
pub enum HostOs {
    Windows,
    MacOs,
    Linux,
    Other,
}

/// Where Chrome is looked for, in order, after the `CHROME_PATH` variable:
/// the standard install paths (on Windows also the per-user install under
/// `LOCALAPPDATA`), or on Linux the command names looked up on the path.
pub open spec fn chrome_candidates_spec(os: HostOs, local_app_data: Option<Seq<char>>) -> Seq<Seq<char>> {
    match os {
        HostOs::Windows => seq![
            "C:\\Program Files\\Google\\Chrome\\Application\\chrome.exe"@,
            "C:\\Program Files (x86)\\Google\\Chrome\\Application\\chrome.exe"@,
            "C:\\Program Files\\Chromium\\Application\\chrome.exe"@,
        ] + match local_app_data {
            Some(l) => seq![l + "\\Google\\Chrome\\Application\\chrome.exe"@],
            None => Seq::empty(),
        },
        HostOs::MacOs => seq![
            "/Applications/Google Chrome.app/Contents/MacOS/Google Chrome"@,
            "/Applications/Chromium.app/Contents/MacOS/Chromium"@,
        ],
        HostOs::Linux => seq!["google-chrome"@, "google-chrome-stable"@, "chromium"@, "chromium-browser"@],
        HostOs::Other => Seq::empty(),
    }
}

/// Where Chrome is looked for on `os`, in order.
pub fn chrome_candidates(os: HostOs, local_app_data: Option<&str>) -> (r: Vec<String>)
    ensures
        views(r@) == chrome_candidates_spec(os, match local_app_data {
            Some(l) => Some(l@),
            None => None,
        }),
{
    let mut v: Vec<String> = Vec::new();
    match os {
        HostOs::Windows => {
            v.push(owned("C:\\Program Files\\Google\\Chrome\\Application\\chrome.exe"));
            v.push(owned("C:\\Program Files (x86)\\Google\\Chrome\\Application\\chrome.exe"));
            v.push(owned("C:\\Program Files\\Chromium\\Application\\chrome.exe"));
            match local_app_data {
                Some(l) => {
                    let mut p = owned(l);
                    push_str(&mut p, "\\Google\\Chrome\\Application\\chrome.exe");
                    v.push(p);
                },
                None => {},
            }
        },
        HostOs::MacOs => {
            v.push(owned("/Applications/Google Chrome.app/Contents/MacOS/Google Chrome"));
            v.push(owned("/Applications/Chromium.app/Contents/MacOS/Chromium"));
        },
        HostOs::Linux => {
            v.push(owned("google-chrome"));
            v.push(owned("google-chrome-stable"));
            v.push(owned("chromium"));
            v.push(owned("chromium-browser"));
        },
        HostOs::Other => {},
    }
    assert(views(v@) =~= chrome_candidates_spec(os, match local_app_data {
        Some(l) => Some(l@),
        None => None,
    }));
    v
}

// ---------------------------------------------------------------------------
// Incoming messages
// ---------------------------------------------------------------------------

/// Where an incoming CDP message goes.
pub enum CdpRoute {
    /// The answer to the command with this id.
    Reply(u64),
    /// An event; `top_url` is the new address of the top-level frame when
    /// the event is its navigation.
    Event { method: String, top_url: Option<String> },
    /// Neither: dropped.
    Skip,
}

/// Routes an incoming message from its `id`, its `method`, and, for a frame
/// navigation, the URL of the navigated frame when it is the top-level one.
pub fn route_message(id: Option<u64>, method: Option<String>, top_frame_url: Option<String>) -> (r: CdpRoute)
    ensures
        id matches Some(n) ==> r == CdpRoute::Reply(n),
        id is None && method is None ==> r is Skip,
        id is None ==> (method matches Some(m) ==> (r matches CdpRoute::Event { method: rm, top_url }
            && rm@ == m@
            && top_url == if m@ == "Page.frameNavigated"@ { top_frame_url } else { None })),
{
    match id {
        Some(n) => CdpRoute::Reply(n),
        None => match method {
            None => CdpRoute::Skip,
            Some(m) => {
                let top_url = if str_eq(m.as_str(), "Page.frameNavigated") {
                    top_frame_url
                } else {
                    None
                };
                CdpRoute::Event { method: m, top_url }
            },
        },
    }
}

// ---------------------------------------------------------------------------
// Elements of embedded frames
// ---------------------------------------------------------------------------

/// The reference after the largest of `refs` (1 when there is none).
pub open spec fn next_ref_spec(refs: Seq<u32>) -> int
    decreases refs.len(),
{
    if refs.len() == 0 {
        1
    } else {
        let rest = next_ref_spec(refs.drop_last());
        if refs.last() + 1 > rest { refs.last() + 1 } else { rest }
    }
}

/// The first reference for the elements of embedded frames: one past the
/// largest reference of the page itself, so that none is taken twice.
pub fn first_free_ref(refs: &Vec<u32>) -> (r: u32)
    requires
        forall|i: int| 0 <= i < refs@.len() ==> refs@[i] < u32::MAX,
    ensures
        r == next_ref_spec(refs@),
        forall|i: int| 0 <= i < refs@.len() ==> refs@[i] < r,
{
    let mut next: u32 = 1;
    let mut i: usize = 0;
    while i < refs.len()
        invariant
            i <= refs.len(),
            forall|k: int| 0 <= k < refs@.len() ==> refs@[k] < u32::MAX,
            next == next_ref_spec(refs@.take(i as int)),
            forall|k: int| 0 <= k < i ==> refs@[k] < next,
            next >= 1,
        decreases refs.len() - i,
    {
        proof {
            assert(refs@.take(i as int + 1).drop_last() == refs@.take(i as int));
            assert(refs@.take(i as int + 1).last() == refs@[i as int]);
        }
        if refs[i] + 1 > next {
            next = refs[i] + 1;
        }
        i += 1;
    }
    assert(refs@.take(refs.len() as int) == refs@);
    next
}

/// A frame is snapshotted only with an id and a real address: not blank and
/// not an `about:` page.
pub open spec fn frame_wanted_spec(frame_id: Seq<char>, frame_url: Seq<char>) -> bool {
    !(frame_id.len() == 0 || frame_url.len() == 0 || frame_url == "about:blank"@
        || has_prefix(frame_url, "about:"@))
}

/// Whether a child frame is snapshotted.
pub fn frame_wanted(frame_id: &str, frame_url: &str) -> (b: bool)
    ensures
        b == frame_wanted_spec(frame_id@, frame_url@),
{
    !(frame_id.is_empty() || frame_url.is_empty() || str_eq(frame_url, "about:blank")
        || starts_with(frame_url, "about:"))
}

/// How a frame is named to the agent: its host, or its whole address when
/// that does not parse as a URL with a host.
pub open spec fn frame_label_spec(frame_url: Seq<char>) -> Seq<char> {
    match parsed_url_host(frame_url) {
        Some(h) => h,
        None => frame_url,
    }
}

/// The name of a frame for the agent.
pub fn frame_label(frame_url: &str) -> (r: String)
    ensures
        r@ == frame_label_spec(frame_url@),
{
    match url_host(frame_url) {
        Some(h) => h,
        None => owned(frame_url),
    }
}

/// The role of an element found in a frame: `[iframe: label] role`.
pub open spec fn frame_role(label: Seq<char>, role: Seq<char>) -> Seq<char> {
    "[iframe: "@ + label + "] "@ + role
}

/// The elements of one frame with fresh references from `next_ref` on, in
/// order, and roles marked with the frame's label; also the next free
/// reference.
pub fn number_frame_elements(label: &str, roles: &Vec<String>, next_ref: u32) -> (r: (Vec<(u32, String)>, u32))
    requires
        next_ref as int + roles@.len() <= u32::MAX,
    ensures
        r.0@.len() == roles@.len(),
        r.1 as int == next_ref as int + roles@.len(),
        forall|i: int| 0 <= i < roles@.len() ==> #[trigger] r.0@[i].0 as int == next_ref as int + i
            && r.0@[i].1@ == frame_role(label@, roles@[i]@),
{
    let mut out: Vec<(u32, String)> = Vec::new();
    let mut next = next_ref;
    let mut i: usize = 0;
    while i < roles.len()
        invariant
            i <= roles.len(),
            next_ref as int + roles@.len() <= u32::MAX,
            next as int == next_ref as int + i,
            out@.len() == i,
            forall|k: int| 0 <= k < i ==> #[trigger] out@[k].0 as int == next_ref as int + k
                && out@[k].1@ == frame_role(label@, roles@[k]@),
        decreases roles.len() - i,
    {
        let mut role = owned("[iframe: ");
        push_str(&mut role, label);
        push_str(&mut role, "] ");
        push_str(&mut role, roles[i].as_str());
        out.push((next, role));
        next = next + 1;
        i += 1;
    }
    (out, next)
}

/// References given to frame elements in order from the first free one
/// on never collide with those of the page, nor with each other.
pub proof fn lemma_frame_refs_fresh(refs: Seq<u32>, assigned: Seq<u32>, next_ref: int)
    requires
        forall|i: int| 0 <= i < refs.len() ==> refs[i] < next_ref,
        forall|k: int| 0 <= k < assigned.len() ==> assigned[k] == next_ref + k,
    ensures
        forall|i: int, k: int| #![trigger refs[i], assigned[k]]
            0 <= i < refs.len() && 0 <= k < assigned.len() ==> refs[i] != assigned[k],
        forall|k1: int, k2: int| #![trigger assigned[k1], assigned[k2]]
            0 <= k1 < k2 < assigned.len() ==> assigned[k1] != assigned[k2],
{
}

/// A role the agent can act on: link, button, text box or combo box.
pub open spec fn interactive_role(role: Seq<char>) -> bool {
    role == "link"@ || role == "button"@ || role == "textbox"@ || role == "combobox"@
}

/// How many of `roles` are interactive.
pub fn interactive_count(roles: &Vec<String>) -> (n: usize)
    ensures
        n == count_where(roles@.len() as int, |i: int| interactive_role(roles@[i]@)),
{
    let ghost p = |i: int| interactive_role(roles@[i]@);
    let mut n: usize = 0;
    let mut i: usize = 0;
    while i < roles.len()
        invariant
            i <= roles.len(),
            n <= i,
            n == count_where(i as int, p),
            p == (|i: int| interactive_role(roles@[i]@)),
        decreases roles.len() - i,
    {
        let r = roles[i].as_str();
        if str_eq(r, "link") || str_eq(r, "button") || str_eq(r, "textbox") || str_eq(r, "combobox") {
            n = n + 1;
        }
        assert(count_where(i as int + 1, p) == count_where(i as int, p) + if p(i as int) { 1nat } else { 0nat });
        i += 1;
    }
    n
}

} // verus!
