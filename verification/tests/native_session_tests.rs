use browser_core::actions::{ActionResult, BrowserAction};
use browser_core::html_snapshot::FormData;
use browser_core::native_session::{
    button_without_form, NativeRefusal, NativeSession, NativeStep, TrackedElement,
};

fn el(ref_id: u32, role: &str, href: Option<&str>) -> TrackedElement {
    TrackedElement { ref_id, role: role.to_string(), href: href.map(|h| h.to_string()), value: None }
}

fn loaded_session() -> NativeSession {
    let mut s = NativeSession::new();
    s.page_loaded(
        "https://site.test/start".to_string(),
        "<html><body><p>hello world</p></body></html>".to_string(),
        vec![
            el(1, "link", Some("/about")),
            el(2, "input[type=text]", None),
            el(3, "submit", None),
            el(4, "checkbox", None),
            el(5, "link", Some("javascript-free.html")),
        ],
    );
    s
}

fn report(step: NativeStep) -> ActionResult {
    match step {
        NativeStep::Report(r) => r,
        _ => panic!("expected a report"),
    }
}

fn message(r: &ActionResult) -> String {
    match r {
        ActionResult::Success { message } => message.clone(),
        ActionResult::Failed { error } => error.clone(),
        other => panic!("unexpected result {:?}", other),
    }
}

#[test]
fn navigate_remembers_the_current_page() {
    let mut s = loaded_session();
    match s.begin(&BrowserAction::Navigate { url: "https://site.test/next".to_string() }) {
        NativeStep::Fetch { url, back } => {
            assert_eq!(url, "https://site.test/next");
            assert!(!back);
        }
        _ => panic!("expected a fetch"),
    }
    assert_eq!(s.history, vec!["https://site.test/start".to_string()]);
}

#[test]
fn navigate_refuses_other_schemes() {
    let mut s = loaded_session();
    match s.begin(&BrowserAction::Navigate { url: "file:///etc/passwd".to_string() }) {
        NativeStep::Refuse(NativeRefusal::Navigation(e)) => {
            assert_eq!(e.url, "file:///etc/passwd");
            assert_eq!(e.reason, "Only http:// and https:// schemes are allowed");
        }
        _ => panic!("expected a refusal"),
    }
    assert!(s.history.is_empty());
}

#[test]
fn back_after_navigate_returns_to_the_page() {
    let mut s = loaded_session();
    let _ = s.begin(&BrowserAction::Navigate { url: "https://site.test/next".to_string() });
    s.page_loaded("https://site.test/next".to_string(), "<html></html>".to_string(), vec![]);
    match s.begin(&BrowserAction::GoBack) {
        NativeStep::Fetch { url, back } => {
            assert_eq!(url, "https://site.test/start");
            assert!(back);
        }
        _ => panic!("expected a fetch"),
    }
    assert!(s.history.is_empty());
    let r = report(s.begin(&BrowserAction::GoBack));
    assert_eq!(message(&r), "No history to go back to");
}

#[test]
fn click_follows_links_and_submits_buttons() {
    let mut s = loaded_session();
    match s.begin(&BrowserAction::Click { ref_id: 1, force: None }) {
        NativeStep::Fetch { url, back } => {
            assert_eq!(url, "https://site.test/about");
            assert!(!back);
        }
        _ => panic!("expected a fetch"),
    }
    let mut s = loaded_session();
    assert!(matches!(s.begin(&BrowserAction::Click { ref_id: 3, force: None }), NativeStep::SubmitForm { ref_id: 3 }));
    let r = report(s.begin(&BrowserAction::Click { ref_id: 4, force: None }));
    assert_eq!(message(&r), "Clicked @e4 (no navigation target)");
    match s.begin(&BrowserAction::Click { ref_id: 99, force: None }) {
        NativeStep::Refuse(NativeRefusal::ElementNotFound(sel)) => assert_eq!(sel, "@e99"),
        _ => panic!("expected a refusal"),
    }
    assert_eq!(message(&button_without_form(3)), "Clicked @e3 (button, no form found)");
}

#[test]
fn click_without_page_is_refused() {
    let mut s = NativeSession::new();
    assert!(matches!(
        s.begin(&BrowserAction::Click { ref_id: 1, force: None }),
        NativeStep::Refuse(NativeRefusal::NoPage)
    ));
    assert!(matches!(s.begin(&BrowserAction::ExtractContent), NativeStep::Refuse(NativeRefusal::NoPage)));
}

#[test]
fn fill_is_remembered_and_shown() {
    let mut s = loaded_session();
    let r = report(s.begin(&BrowserAction::Fill { ref_id: 2, text: "café".to_string(), force: None }));
    assert_eq!(message(&r), "Filled @e2 with 5 chars");
    assert_eq!(s.filled_value(2), Some("café".to_string()));
    let page = s.page.as_ref().unwrap();
    assert_eq!(page.elements[1].value.as_deref(), Some("café"));
    assert_eq!(page.elements[0].value, None);
    let r = report(s.begin(&BrowserAction::TypeText { ref_id: 2, text: "tea".to_string(), delay_ms: 0, force: None }));
    assert_eq!(message(&r), "Typed into @e2");
    assert_eq!(s.filled_value(2), Some("tea".to_string()));
    let r = report(s.begin(&BrowserAction::Select { ref_id: 7, value: "CA".to_string(), force: None }));
    assert_eq!(message(&r), "Selected 'CA' in @e7");
    assert_eq!(s.filled_value(7), Some("CA".to_string()));
    assert_eq!(s.filled_value(8), None);
}

#[test]
fn other_actions() {
    let mut s = loaded_session();
    match report(s.begin(&BrowserAction::ExtractContent)) {
        ActionResult::Content { markdown, word_count } => {
            assert!(markdown.starts_with("<html>"));
            assert_eq!(word_count, 2);
        }
        other => panic!("unexpected {:?}", other),
    }
    let r = report(s.begin(&BrowserAction::EvalJs { script: "1+1".to_string() }));
    assert_eq!(message(&r), "JavaScript execution not available in native mode. Use Chrome backend for JS-heavy pages.");
    let r = report(s.begin(&BrowserAction::Screenshot { full_page: false }));
    assert_eq!(message(&r), "Screenshots not available in native mode. Use Chrome backend for visual capture.");
    let r = report(s.begin(&BrowserAction::Reload));
    assert_eq!(message(&r), "Action acknowledged (no-op in native mode)");
}

#[test]
fn form_submission_pushes_history() {
    let mut s = loaded_session();
    s.form_submitted("https://site.test/thanks".to_string(), "<p>ok</p>".to_string(), vec![]);
    assert_eq!(s.current_url.as_deref(), Some("https://site.test/thanks"));
    assert_eq!(s.history, vec!["https://site.test/start".to_string()]);
}

#[test]
fn form_requests_follow_the_method() {
    let s = loaded_session();
    let get = FormData { action: "/search".to_string(), method: "get".to_string(), fields: vec![] };
    assert_eq!(s.form_request(&get), ("https://site.test/search".to_string(), true));
    let post = FormData { action: "".to_string(), method: "POST".to_string(), fields: vec![] };
    assert_eq!(s.form_request(&post), ("https://site.test/start".to_string(), false));
}
