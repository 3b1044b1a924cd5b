use browser_core::actions::{ActionResult, ScrollDirection};
use browser_core::cdp::{
    choose_tab, chrome_args, chrome_candidates, HostOs, devtools_target, first_free_ref, frame_label, frame_wanted,
    interactive_count, number_frame_elements, profile_dir_name, reconnect_target,
    route_message, CdpRoute, TargetInfo,
};
use browser_core::cdp_actions::{
    click_step, content_result, count_words, element_missing, file_input_step, fill_check_step,
    fill_fallback_step, fill_nudge_result, fill_prep_step, focus_step, forward_slashes,
    hover_result, key_pressed_result, native_select_result, navigation_refusal,
    navigation_wait_result, option_missing_result, screenshot_result, scroll_by_script,
    scroll_into_view_result, scroll_offsets, scrolled_result, select_commit_result, select_route,
    selector_polls, selector_wait_result, submit_result, typed_result, upload_file_name,
    uploaded_result, waited_result, ClickStep, FillCheck, FillPrep, FillStep, SelectCheck,
    SelectRoute,
};
use browser_core::js::{
    element_expression, escape_js, fill_setter_script, find_option_script, focus_script,
    point_script, selector_probe, tag_script,
};

fn success_text(r: &ActionResult) -> String {
    match r {
        ActionResult::Success { message } => message.clone(),
        other => panic!("expected success, got {:?}", other),
    }
}

fn failure_text(r: &ActionResult) -> String {
    match r {
        ActionResult::Failed { error } => error.clone(),
        other => panic!("expected failure, got {:?}", other),
    }
}

fn s(x: &str) -> Option<String> {
    Some(x.to_string())
}

fn target(kind: &str, url: &str, title: &str, ws: Option<&str>) -> TargetInfo {
    TargetInfo { kind: s(kind), url: s(url), title: s(title), ws_url: ws.map(|w| w.to_string()) }
}

#[test]
fn escape_quotes_backslashes_and_newlines() {
    assert_eq!(escape_js("it's a\\b\nc", true), "it\\'s a\\\\b\\nc");
    assert_eq!(escape_js("it's a\\b\nc", false), "it\\'s a\\\\b\nc");
    assert_eq!(escape_js("plain", true), "plain");
    assert_eq!(escape_js("", true), "");
}

#[test]
fn escaped_text_reads_back_unchanged() {
    // A literal built from the escaped text evaluates back to the text:
    // undo the escapes the way a JavaScript engine reads them.
    let original = "O'Brien \\ path\nnext";
    let escaped = escape_js(original, true);
    let mut back = String::new();
    let mut it = escaped.chars();
    while let Some(c) = it.next() {
        if c == '\\' {
            match it.next() {
                Some('n') => back.push('\n'),
                Some(d) => back.push(d),
                None => back.push('\\'),
            }
        } else {
            back.push(c);
        }
    }
    assert_eq!(back, original);
    assert!(!escaped.contains('\n'));
}

#[test]
fn element_scripts_name_the_reference() {
    let p = point_script(42);
    assert!(p.starts_with("(() => {"));
    assert!(p.contains("[data-wraith-ref=\"42\"]"));
    assert!(p.ends_with("})()"));
    assert!(tag_script(7).contains("return 'NOT_FOUND'"));
    let f = focus_script(3);
    assert!(f.contains("return 'Element @e3 not found'"));
    assert!(f.contains("el.focus()"));
    assert_eq!(element_expression(9), "document.querySelector('[data-wraith-ref=\"9\"]')");
}

#[test]
fn setter_script_embeds_escaped_text_twice() {
    let escaped = escape_js("a'b", true);
    let script = fill_setter_script(5, &escaped);
    assert_eq!(script.matches("a\\'b").count(), 2);
    assert!(script.contains("[data-wraith-ref=\"5\"]"));
}

#[test]
fn option_and_selector_probes() {
    let f = find_option_script("yes");
    assert!(f.starts_with("(() => {\n    const valueLower = 'yes'.toLowerCase();"));
    assert_eq!(selector_probe("#main"), "document.querySelector('#main') ? 'found' : 'not_found'");
}

#[test]
fn missing_element_failure() {
    assert_eq!(failure_text(&element_missing(5)), "Element @e5 not found");
}

#[test]
fn click_outcomes() {
    match click_step(4, false, "https://a.test/", None) {
        ClickStep::Report { result, moved_to } => {
            assert_eq!(failure_text(&result), "Element @e4 not found");
            assert!(moved_to.is_none());
        }
        ClickStep::Reconnect => panic!("expected a report"),
    }
    assert!(matches!(click_step(4, true, "https://a.test/", None), ClickStep::Reconnect));
    match click_step(4, true, "https://a.test/", Some("https://a.test/")) {
        ClickStep::Report { result, moved_to } => {
            assert_eq!(success_text(&result), "Clicked @e4");
            assert!(moved_to.is_none());
        }
        ClickStep::Reconnect => panic!("expected a report"),
    }
    match click_step(4, true, "https://a.test/", Some("https://a.test/#tab2")) {
        ClickStep::Report { result, moved_to } => {
            assert_eq!(success_text(&result), "Clicked @e4");
            assert_eq!(moved_to.as_deref(), Some("https://a.test/#tab2"));
        }
        ClickStep::Reconnect => panic!("expected a report"),
    }
}

#[test]
fn fill_preparation_refusals() {
    assert!(fill_prep_step(2, &FillPrep { ok: true, reason: None, tag: s("INPUT") }).is_none());
    let missing = fill_prep_step(2, &FillPrep { ok: false, reason: s("not_found"), tag: None }).unwrap();
    assert_eq!(failure_text(&missing), "Element @e2 not found");
    let div = fill_prep_step(2, &FillPrep { ok: false, reason: s("not_fillable"), tag: s("DIV") }).unwrap();
    assert_eq!(failure_text(&div), "Element @e2 is not fillable (not_fillable; tag=DIV)");
    let bare = fill_prep_step(2, &FillPrep { ok: false, reason: None, tag: None }).unwrap();
    assert_eq!(failure_text(&bare), "Element @e2 is not fillable (unknown; tag=?)");
}

#[test]
fn fill_fallback_missing() {
    assert_eq!(failure_text(&fill_fallback_step(8, "not_found").unwrap()), "Element @e8 not found");
    assert!(fill_fallback_step(8, "ok").is_none());
}

#[test]
fn fill_check_outcomes() {
    let plain = FillCheck { dom_value: "hello".into(), has_react: false, react_value: None };
    match fill_check_step(3, "hello", false, &plain) {
        FillStep::Done(r) => assert_eq!(success_text(&r), "Filled @e3 (5 chars)"),
        FillStep::Nudge => panic!("no nudge expected"),
    }
    match fill_check_step(3, "hello", true, &plain) {
        FillStep::Done(r) => assert_eq!(success_text(&r), "Filled @e3 (5 chars, via setter fallback)"),
        FillStep::Nudge => panic!("no nudge expected"),
    }
    // Byte length, as str::len counts it.
    let accented = FillCheck { dom_value: "café".into(), has_react: false, react_value: None };
    match fill_check_step(3, "café", false, &accented) {
        FillStep::Done(r) => assert_eq!(success_text(&r), "Filled @e3 (5 chars)"),
        FillStep::Nudge => panic!("no nudge expected"),
    }
    let lagging = FillCheck { dom_value: "hello".into(), has_react: true, react_value: s("") };
    assert!(matches!(fill_check_step(3, "hello", false, &lagging), FillStep::Nudge));
    match fill_check_step(3, "hello", true, &lagging) {
        FillStep::Done(r) => assert_eq!(
            failure_text(&r),
            "Fill @e3 failed: expected 5 chars, got 5 chars in DOM (reactState=\"\")"
        ),
        FillStep::Nudge => panic!("no nudge after the fallback"),
    }
    let empty = FillCheck { dom_value: "".into(), has_react: true, react_value: None };
    match fill_check_step(3, "hello", false, &empty) {
        FillStep::Done(r) => assert_eq!(
            failure_text(&r),
            "Fill @e3 failed: expected 5 chars, got 0 chars in DOM (reactState=null)"
        ),
        FillStep::Nudge => panic!("no nudge expected"),
    }
    let no_react = FillCheck { dom_value: "he".into(), has_react: false, react_value: None };
    match fill_check_step(3, "hello", false, &no_react) {
        FillStep::Done(r) => assert_eq!(
            failure_text(&r),
            "Fill @e3 failed: expected 5 chars, got 2 chars in DOM (reactState=no-react-fiber)"
        ),
        FillStep::Nudge => panic!("no nudge expected"),
    }
    let react_ok = FillCheck { dom_value: "hi".into(), has_react: true, react_value: s("hi") };
    match fill_check_step(3, "hi", false, &react_ok) {
        FillStep::Done(r) => assert_eq!(success_text(&r), "Filled @e3 (2 chars)"),
        FillStep::Nudge => panic!("no nudge expected"),
    }
}

#[test]
fn fill_after_nudge() {
    let ok = FillCheck { dom_value: "abc".into(), has_react: true, react_value: s("abc") };
    assert_eq!(success_text(&fill_nudge_result(6, "abc", &ok)), "Filled @e6 (3 chars, React state nudged via setter)");
    let stale = FillCheck { dom_value: "abc".into(), has_react: true, react_value: s("ab") };
    assert_eq!(
        failure_text(&fill_nudge_result(6, "abc", &stale)),
        "Filled @e6 DOM-side but React state did not update — controlled component may need per-char keystrokes (dom=\"abc\", reactMatch=false)"
    );
}

#[test]
fn select_routes() {
    match select_route(9, "NOT_FOUND") {
        SelectRoute::Missing(r) => assert_eq!(failure_text(&r), "Element @e9 not found"),
        _ => panic!("expected missing"),
    }
    assert!(matches!(select_route(9, "select"), SelectRoute::Native));
    assert!(matches!(select_route(9, "div"), SelectRoute::Custom));
    assert_eq!(success_text(&native_select_result(9, "Canada")), "SELECTED: Canada on @e9");
    assert_eq!(
        failure_text(&option_missing_result(9, "Yes")),
        "Could not find option 'Yes' in the dropdown opened from @e9 — menu may not have rendered or option label may not match"
    );
}

#[test]
fn select_commit_reports() {
    let shown = SelectCheck { ok: true, reason: None, display: s("United States"), trigger_text: None };
    assert_eq!(success_text(&select_commit_result(4, "us", "US", &shown)), "SELECTED: United States on @e4");
    let blank = SelectCheck { ok: true, reason: None, display: s(""), trigger_text: None };
    assert_eq!(success_text(&select_commit_result(4, "us", "US", &blank)), "SELECTED: US on @e4");
    assert_eq!(success_text(&select_commit_result(4, "us", "", &blank)), "SELECTED: us on @e4");
    let open = SelectCheck { ok: false, reason: s("menu_still_open"), display: None, trigger_text: s("Pick one") };
    assert_eq!(
        failure_text(&select_commit_result(4, "us", "US", &open)),
        "Clicked option 'US' for @e4 but no commit indicator appeared (menu_still_open). Trigger text after click: \"Pick one\""
    );
    let bare = SelectCheck { ok: false, reason: None, display: None, trigger_text: None };
    assert_eq!(
        failure_text(&select_commit_result(4, "us", "US", &bare)),
        "Clicked option 'US' for @e4 but no commit indicator appeared (unknown). Trigger text after click: \"\""
    );
}

#[test]
fn element_script_answers() {
    assert_eq!(failure_text(&focus_step("Element @e2 not found").unwrap()), "Element @e2 not found");
    assert!(focus_step("focused").is_none());
    assert_eq!(success_text(&typed_result(2)), "Typed text into @e2");
    assert_eq!(failure_text(&hover_result(2, "{\"error\":\"not found\"}")), "Element @e2 not found");
    assert_eq!(success_text(&hover_result(2, "{\"x\":1,\"y\":2}")), "Hovered @e2");
    assert_eq!(failure_text(&submit_result(2, "no submit mechanism found")), "no submit mechanism found");
    assert_eq!(failure_text(&submit_result(2, "Element @e2 not found")), "Element @e2 not found");
    assert_eq!(success_text(&submit_result(2, "submitted via button")), "Submitted form at @e2");
    assert_eq!(success_text(&scroll_into_view_result(2, "scrolled")), "Scrolled to @e2");
    assert_eq!(failure_text(&scroll_into_view_result(2, "Element @e2 not found")), "Element @e2 not found");
}

#[test]
fn keys_and_scrolling() {
    assert_eq!(success_text(&key_pressed_result("Enter")), "Pressed key: Enter");
    assert_eq!(scroll_offsets(ScrollDirection::Up, 300), (0, -300));
    assert_eq!(scroll_offsets(ScrollDirection::Down, 300), (0, 300));
    assert_eq!(scroll_offsets(ScrollDirection::Left, 50), (-50, 0));
    assert_eq!(scroll_offsets(ScrollDirection::Right, 50), (50, 0));
    assert_eq!(scroll_by_script(0, -300), "window.scrollBy(0, -300)");
    assert_eq!(success_text(&scrolled_result(ScrollDirection::Up, 300)), "Scrolled Up by 300px");
    assert_eq!(success_text(&scrolled_result(ScrollDirection::Left, -20)), "Scrolled Left by -20px");
}

#[test]
fn waiting_reports() {
    assert_eq!(success_text(&waited_result(1500)), "Waited 1500ms");
    assert_eq!(selector_polls(1050), 10);
    assert_eq!(selector_polls(50), 0);
    assert_eq!(success_text(&selector_wait_result("#go", true, 500)), "Selector '#go' found");
    assert_eq!(failure_text(&selector_wait_result("#go", false, 500)), "Selector '#go' not found after 500ms");
    assert_eq!(success_text(&navigation_wait_result(true, 300)), "Navigation completed");
    assert_eq!(failure_text(&navigation_wait_result(false, 300)), "Navigation did not complete within 300ms");
}

#[test]
fn words_are_counted_like_split_whitespace() {
    assert_eq!(count_words("  hello   world\tfoo\n"), 3);
    assert_eq!(count_words(""), 0);
    assert_eq!(count_words("   "), 0);
    assert_eq!(count_words("one"), 1);
    assert_eq!(count_words("a\u{3000}b"), 2);
    match content_result("two words".to_string()) {
        ActionResult::Content { markdown, word_count } => {
            assert_eq!(markdown, "two words");
            assert_eq!(word_count, 2);
        }
        other => panic!("expected content, got {:?}", other),
    }
}

#[test]
fn screenshots_and_uploads() {
    match screenshot_result("iVBOR".to_string()) {
        ActionResult::Screenshot { png_base64, width, height } => {
            assert_eq!(png_base64, "iVBOR");
            assert_eq!((width, height), (1280, 720));
        }
        other => panic!("expected screenshot, got {:?}", other),
    }
    assert_eq!(failure_text(&file_input_step(11, "-1").unwrap()), "File input @e11 not found");
    assert!(file_input_step(11, "11").is_none());
    assert_eq!(upload_file_name("cv.pdf"), "wraith-upload-cv.pdf");
    assert_eq!(forward_slashes("C:\\Temp\\wraith-upload-cv.pdf"), "C:/Temp/wraith-upload-cv.pdf");
    assert_eq!(success_text(&uploaded_result("cv.pdf", 11)), "Uploaded 'cv.pdf' to @e11");
}

#[test]
fn navigation_refusals() {
    assert_eq!(navigation_refusal(s("net::ERR_NAME_NOT_RESOLVED")), s("net::ERR_NAME_NOT_RESOLVED"));
    assert_eq!(navigation_refusal(s("")), None);
    assert_eq!(navigation_refusal(None), None);
}

#[test]
fn tab_choice() {
    let none: Vec<TargetInfo> = vec![target("service_worker", "https://a/", "sw", Some("ws://sw"))];
    assert_eq!(
        choose_tab(9222, &none, None),
        Err("Chrome on port 9222 has no page targets. Open at least one tab and retry.".to_string())
    );
    let tabs = vec![
        target("service_worker", "https://a/", "sw", Some("ws://sw")),
        target("page", "https://mail.example.com/inbox", "Inbox", Some("ws://1")),
        target("page", "https://jobs.example.com/apply", "Apply Now", Some("ws://2")),
    ];
    assert_eq!(choose_tab(9222, &tabs, None), Ok(1));
    assert_eq!(choose_tab(9222, &tabs, Some("APPLY")), Ok(2));
    assert_eq!(choose_tab(9222, &tabs, Some("inbox")), Ok(1));
    assert_eq!(
        choose_tab(9222, &tabs, Some("bank")),
        Err("No tab matched filter 'bank'. Available tabs:\n  [Inbox] https://mail.example.com/inbox\n  [Apply Now] https://jobs.example.com/apply".to_string())
    );
    let detached = vec![target("page", "https://x/", "X", None)];
    assert_eq!(choose_tab(9222, &detached, None), Err("Chosen tab has no webSocketDebuggerUrl".to_string()));
}

#[test]
fn startup_and_reconnect_targets() {
    let starting: Vec<TargetInfo> = vec![target("browser", "", "", Some("ws://b"))];
    assert_eq!(devtools_target(&starting), None);
    let ready = vec![target("browser", "", "", Some("ws://b")), target("page", "about:blank", "", Some("ws://p"))];
    assert_eq!(devtools_target(&ready), Some(Ok(1)));
    let bare = vec![target("page", "about:blank", "", None)];
    assert_eq!(devtools_target(&bare), Some(Err("Page target has no webSocketDebuggerUrl".to_string())));
    let after = vec![target("page", "a", "", None), target("page", "b", "", Some("ws://new"))];
    assert_eq!(reconnect_target(&after), Some(1));
    assert_eq!(reconnect_target(&bare), None);
}

#[test]
fn chrome_launch() {
    assert_eq!(profile_dir_name(4242, 9333), "wraith-cdp-4242-9333");
    let args = chrome_args(9333, "/tmp/wraith-cdp-4242-9333");
    assert_eq!(args.len(), 14);
    assert_eq!(args[0], "--headless=new");
    assert_eq!(args[1], "--remote-debugging-port=9333");
    assert_eq!(args[2], "--user-data-dir=/tmp/wraith-cdp-4242-9333");
    assert_eq!(args[13], "--window-size=1280,720");
}

#[test]
fn message_routing() {
    assert!(matches!(route_message(Some(7), s("Page.loadEventFired"), None), CdpRoute::Reply(7)));
    assert!(matches!(route_message(None, None, None), CdpRoute::Skip));
    match route_message(None, s("Page.frameNavigated"), s("https://new.test/")) {
        CdpRoute::Event { method, top_url } => {
            assert_eq!(method, "Page.frameNavigated");
            assert_eq!(top_url.as_deref(), Some("https://new.test/"));
        }
        _ => panic!("expected an event"),
    }
    match route_message(None, s("Page.loadEventFired"), s("https://ignored.test/")) {
        CdpRoute::Event { method, top_url } => {
            assert_eq!(method, "Page.loadEventFired");
            assert!(top_url.is_none());
        }
        _ => panic!("expected an event"),
    }
}

#[test]
fn frame_elements() {
    assert_eq!(first_free_ref(&vec![3, 9, 2]), 10);
    assert_eq!(first_free_ref(&vec![]), 1);
    assert!(frame_wanted("F1", "https://pay.example.com/checkout"));
    assert!(!frame_wanted("", "https://pay.example.com/"));
    assert!(!frame_wanted("F1", ""));
    assert!(!frame_wanted("F1", "about:blank"));
    assert!(!frame_wanted("F1", "about:srcdoc"));
    assert_eq!(frame_label("https://pay.example.com/checkout"), "pay.example.com");
    assert_eq!(frame_label("not a url"), "not a url");
    let (numbered, next) = number_frame_elements("pay.example.com", &vec!["button".to_string(), "textbox".to_string()], 10);
    assert_eq!(next, 12);
    assert_eq!(numbered[0], (10, "[iframe: pay.example.com] button".to_string()));
    assert_eq!(numbered[1], (11, "[iframe: pay.example.com] textbox".to_string()));
    let roles: Vec<String> = ["link", "heading", "button", "textbox", "combobox", "text"].iter().map(|r| r.to_string()).collect();
    assert_eq!(interactive_count(&roles), 4);
}

#[test]
fn chrome_search_paths() {
    let linux = chrome_candidates(HostOs::Linux, None);
    assert_eq!(linux, vec!["google-chrome", "google-chrome-stable", "chromium", "chromium-browser"]);
    let win = chrome_candidates(HostOs::Windows, Some("C:\\Users\\me\\AppData\\Local"));
    assert_eq!(win.len(), 4);
    assert_eq!(win[0], "C:\\Program Files\\Google\\Chrome\\Application\\chrome.exe");
    assert_eq!(win[3], "C:\\Users\\me\\AppData\\Local\\Google\\Chrome\\Application\\chrome.exe");
    assert_eq!(chrome_candidates(HostOs::Windows, None).len(), 3);
    assert_eq!(chrome_candidates(HostOs::MacOs, None)[1], "/Applications/Chromium.app/Contents/MacOS/Chromium");
    assert!(chrome_candidates(HostOs::Other, None).is_empty());
}
