use browser_core::selectors::{AdaptiveSelector, MatchCandidate, Resolution, SelectorStrategy};

fn make_candidate(ref_id: u32, tag: &str, role: &str, text: &str, attrs: Vec<(&str, &str)>) -> MatchCandidate {
    MatchCandidate {
        ref_id,
        tag: tag.to_string(),
        role: role.to_string(),
        text: text.to_string(),
        attributes: attrs.into_iter().map(|(k, v)| (k.to_string(), v.to_string())).collect(),
    }
}

/// The cascade when the text strategy found nothing (as it does without a
/// text hint); returns the resolved ref id, strategy and confidence.
fn resolve_without_text(sel: &AdaptiveSelector, cs: &[MatchCandidate]) -> Option<(u32, SelectorStrategy, u32)> {
    match sel.cascade(cs, false) {
        Resolution::Hit(h) => Some((h.ref_id, h.strategy, h.confidence_permille)),
        Resolution::Attributes(h) => Some((h.ref_id, SelectorStrategy::AttributeFuzzy, 0)),
        Resolution::Text => panic!("text strategy was not run"),
        Resolution::Unresolved => None,
    }
}

#[test]
fn css_id_match() {
    let sel = AdaptiveSelector::css("#login-btn");
    let candidates = vec![
        make_candidate(1, "button", "button", "Login", vec![("id", "login-btn")]),
        make_candidate(2, "button", "button", "Register", vec![("id", "register-btn")]),
    ];
    let m = resolve_without_text(&sel, &candidates).unwrap();
    assert_eq!(m.0, 1);
    assert_eq!(m.1, SelectorStrategy::CssExact);
    assert_eq!(m.2, 1000);
}

#[test]
fn css_class_match() {
    let sel = AdaptiveSelector::css(".submit-btn");
    let candidates = vec![
        make_candidate(1, "button", "button", "Cancel", vec![("class", "cancel-btn")]),
        make_candidate(2, "button", "button", "Submit", vec![("class", "submit-btn primary")]),
    ];
    let m = resolve_without_text(&sel, &candidates).unwrap();
    assert_eq!(m.0, 2);
}

#[test]
fn css_attribute_match() {
    let sel = AdaptiveSelector::css("input[type=password]");
    let candidates = vec![
        make_candidate(1, "input", "textbox", "", vec![("type", "text")]),
        make_candidate(2, "input", "textbox", "", vec![("type", "password")]),
    ];
    let m = resolve_without_text(&sel, &candidates).unwrap();
    assert_eq!(m.0, 2);
}

#[test]
fn role_fallback() {
    let sel = AdaptiveSelector::rich("#gone", None, Some("textbox"), None);
    let candidates = vec![
        make_candidate(1, "button", "button", "Click", vec![]),
        make_candidate(2, "input", "textbox", "", vec![]),
    ];
    let m = resolve_without_text(&sel, &candidates).unwrap();
    assert_eq!(m.0, 2);
    assert_eq!(m.1, SelectorStrategy::RoleName);
}

#[test]
fn attribute_fallback() {
    let sel = AdaptiveSelector::css("#missing").with_attribute("name", "email");
    let candidates = vec![
        make_candidate(1, "input", "textbox", "", vec![("name", "username")]),
        make_candidate(2, "input", "textbox", "", vec![("name", "email")]),
    ];
    // CSS fails, text fails, role fails (two textboxes), attribute matches
    let m = resolve_without_text(&sel, &candidates).unwrap();
    assert_eq!(m.0, 2);
    assert_eq!(m.1, SelectorStrategy::AttributeFuzzy);
}

#[test]
fn structural_fallback() {
    let sel = AdaptiveSelector {
        primary: "#missing".to_string(),
        text_hint: None,
        role_hint: None,
        tag_hint: Some("textarea".to_string()),
        attribute_hints: vec![],
    };
    let candidates = vec![
        make_candidate(1, "input", "textbox", "", vec![]),
        make_candidate(2, "textarea", "textbox", "", vec![]),
    ];
    let m = resolve_without_text(&sel, &candidates).unwrap();
    assert_eq!(m.0, 2);
    assert_eq!(m.1, SelectorStrategy::TagPosition);
}

#[test]
fn no_match_returns_none() {
    let sel = AdaptiveSelector::css("#totally-gone");
    let candidates = vec![make_candidate(1, "div", "generic", "Hello", vec![])];
    assert!(resolve_without_text(&sel, &candidates).is_none());
}

#[test]
fn cascade_order() {
    // CSS should win over text even if both could match
    let sel = AdaptiveSelector::rich("#btn", Some("Click Me"), None, None);
    let candidates = vec![make_candidate(1, "button", "button", "Click Me", vec![("id", "btn")])];
    match sel.cascade(&candidates, true) {
        Resolution::Hit(h) => assert_eq!(h.strategy, SelectorStrategy::CssExact),
        other => panic!("expected a CSS hit, got {:?}", other),
    }
}

#[test]
fn text_result_is_used_before_role() {
    let sel = AdaptiveSelector::rich("#gone", Some("Go"), Some("button"), None);
    let candidates = vec![make_candidate(1, "button", "button", "Go", vec![])];
    assert!(matches!(sel.cascade(&candidates, true), Resolution::Text));
    assert!(matches!(sel.cascade(&candidates, false), Resolution::Hit(_)));
}

#[test]
fn css_explanations_and_confidences() {
    let cs = vec![
        make_candidate(1, "INPUT", "textbox", "", vec![("type", "password"), ("class", "a  b\tc")]),
        make_candidate(2, "a", "link", "", vec![]),
    ];
    let h = AdaptiveSelector::css("input[type='password']").match_css(&cs).unwrap();
    assert_eq!((h.ref_id, h.confidence_permille), (1, 900));
    assert_eq!(h.explanation, "Matched input[type=password]");
    let h = AdaptiveSelector::css(".c:hover").match_css(&cs).unwrap();
    assert_eq!((h.ref_id, h.confidence_permille), (1, 950));
    assert_eq!(h.explanation, "Matched .c");
    let h = AdaptiveSelector::css("a").match_css(&cs).unwrap();
    assert_eq!((h.ref_id, h.confidence_permille), (2, 700));
    assert_eq!(h.explanation, "Matched single <a>");
    let h = AdaptiveSelector::css("input[type]").match_css(&cs).unwrap();
    assert_eq!(h.explanation, "Matched input[type=]");
}

#[test]
fn role_narrowed_by_text() {
    let sel = AdaptiveSelector::rich("#x", Some("SAVE"), Some("Button"), None);
    let cs = vec![
        make_candidate(1, "button", "button", "Cancel", vec![]),
        make_candidate(2, "button", "button", "Save changes", vec![]),
    ];
    let h = sel.match_role(&cs).unwrap();
    assert_eq!((h.ref_id, h.confidence_permille), (2, 850));
    assert_eq!(h.explanation, "Role 'Button' with text 'SAVE'");
}

#[test]
fn attributes_pick_the_best_scoring_element() {
    let sel = AdaptiveSelector::css("#m")
        .with_attribute("name", "mail")
        .with_attribute("type", "email");
    let cs = vec![
        make_candidate(1, "input", "textbox", "", vec![("name", "email")]),
        make_candidate(2, "input", "textbox", "", vec![("type", "email"), ("name", "user_mail")]),
        make_candidate(3, "input", "textbox", "", vec![("type", "email"), ("name", "mailbox")]),
    ];
    let h = sel.match_attributes(&cs).unwrap();
    assert_eq!((h.ref_id, h.matched), (2, 2));
    assert_eq!(h.explanation, "Matched attributes: name, type");
}

#[test]
fn structural_first_when_position_requested() {
    let sel = AdaptiveSelector::rich("li:first-child", None, None, Some("LI"));
    let cs = vec![
        make_candidate(4, "li", "listitem", "", vec![]),
        make_candidate(5, "li", "listitem", "", vec![]),
    ];
    let h = sel.match_structural(&cs).unwrap();
    assert_eq!((h.ref_id, h.confidence_permille), (4, 400));
    assert_eq!(h.explanation, "First <LI> on page");
}
