use browser_core::actions::BrowserAction;
use browser_core::actions::ActionResult;
use browser_core::sevro_actions::{
    answered_result, ats_route, basic_click_result, basic_fill_result, basic_type_result,
    board_job_url, board_probe_url, select_failed_result, serialized_result, sevro_click_script,
    sevro_fill_script, sevro_role, sevro_select_script, sevro_serialize_script, sevro_type_script,
    sevro_dispatch, sevro_upload_script, submit_step, submitted_result, upload_result, AtsRoute, FormSummary, SevroDispatch,
    SubmitStep,
};
use browser_core::tab_actions::{
    choose_script, clear_script, click_point_script, lookup_result, missing_selector, point_lookup,
    navigation_pause_ms, png_dimensions, tab_clicked_result, tab_filled_result, tab_focus_script,
    tab_hovered_result, tab_selected_result, tab_selector_result, tab_typed_result, wait_for_script,
};

fn text(r: &ActionResult) -> String {
    match r {
        ActionResult::Success { message } => format!("ok:{}", message),
        ActionResult::Failed { error } => format!("err:{}", error),
        other => panic!("unexpected {:?}", other),
    }
}

#[test]
fn tab_scripts_pick_the_visible_element() {
    let s = click_point_script(3);
    assert!(s.contains("const el = visible[3 - 1];"));
    assert!(s.contains("Element @e3 not found"));
    assert!(clear_script(4).contains("el.value = '';"));
    assert!(tab_focus_script(4).contains("return \"NOT_FOUND\";"));
    let c = choose_script(2, "Canada \"East\"");
    assert!(c.contains("el.value = \"Canada \\\"East\\\"\";"));
    let w = wait_for_script("#main", 1500);
    assert!(w.contains("document.querySelector(\"#main\")"));
    assert!(w.contains("start > 1500)"));
    assert!(choose_script(1, "a\nb").contains("el.value = \"a\\nb\";"));
}

#[test]
fn tab_answers_and_reports() {
    assert_eq!(lookup_result(5, "NOT_FOUND"), Err("@e5".to_string()));
    assert_eq!(lookup_result(5, "OK"), Ok(()));
    assert_eq!(missing_selector(12), "@e12");
    assert_eq!(text(&tab_filled_result(2, "héllo")), "ok:Filled @e2 with text (6 chars)");
    assert_eq!(text(&tab_selected_result(2, "Yes")), "ok:Selected 'Yes' on @e2");
    assert_eq!(text(&tab_typed_result(2, "abc", 40)), "ok:Typed 3 chars into @e2 with 40ms delay");
    assert_eq!(text(&tab_clicked_result(9)), "ok:Clicked @e9");
    assert_eq!(text(&tab_hovered_result(9)), "ok:Hovered @e9");
    match tab_selector_result("#go", "timeout", 700) {
        Err(t) => {
            assert_eq!(t.action, "wait_for(#go)");
            assert_eq!(t.ms, 700);
        }
        Ok(_) => panic!("expected a timeout"),
    }
    match tab_selector_result("#go", "found", 700) {
        Ok(r) => assert_eq!(text(&r), "ok:Selector '#go' found"),
        Err(_) => panic!("expected success"),
    }
    assert_eq!(navigation_pause_ms(1200), 1200);
    assert_eq!(navigation_pause_ms(60000), 5000);
}

#[test]
fn png_header_dimensions() {
    let mut png = vec![0u8; 16];
    png.extend_from_slice(&[0, 0, 5, 0, 0, 0, 2, 208]);
    assert_eq!(png_dimensions(&png), (1280, 720));
    assert_eq!(png_dimensions(&[1, 2, 3]), (0, 0));
}

#[test]
fn sevro_scripts_use_the_reference_index() {
    let c = sevro_click_script(7);
    assert!(c.contains("__wraith_get_by_ref(7);"));
    assert!(c.contains("'NOT_FOUND: @e7 not in ref_index ('"));
    assert!(c.contains("CLICKED_LINK: "));
    let f = sevro_fill_script(7, "it\\'s");
    assert_eq!(f.matches("it\\'s").count(), 2);
    assert!(f.contains("__wraith_react_set_value(el, 'it\\'s')"));
    assert!(sevro_type_script(7, "hi").contains("var text = 'hi';"));
    assert!(sevro_type_script(7, "hi").contains("return 'NOT_FOUND: @e7';"));
    assert!(sevro_select_script(7, "CA").contains("el.value = 'CA';"));
    let u = sevro_upload_script(4, "QUJD", "cv.pdf", "application/pdf");
    assert!(u.contains("var b64 = 'QUJD';"));
    assert!(u.contains("new File([bytes], 'cv.pdf', { type: 'application/pdf' })"));
    assert!(u.contains("(ref @e4, searched"));
    let z = sevro_serialize_script(4);
    assert!(z.contains("JSON.stringify({ error: 'NOT_FOUND: @e4' })"));
}

#[test]
fn sevro_reports() {
    assert_eq!(text(&answered_result(3, "CLICKED: Apply")), "ok:@e3: CLICKED: Apply");
    assert_eq!(text(&basic_click_result(3)), "ok:Clicked @e3 (basic)");
    assert_eq!(text(&basic_fill_result(3, "no js")), "ok:Filled @e3 (basic): no js");
    assert_eq!(text(&basic_type_result(3, "no js")), "ok:Typed @e3 (basic): no js");
    assert_eq!(text(&select_failed_result(3, "boom")), "err:Select @e3 failed: boom");
    assert_eq!(text(&upload_result("OK: uploaded cv.pdf (3 bytes)")), "ok:OK: uploaded cv.pdf (3 bytes)");
    assert_eq!(text(&upload_result("NOT_FOUND: no file input")), "err:NOT_FOUND: no file input");
    assert_eq!(
        text(&submitted_result("https://api.test/apply", 4, "201")),
        "ok:SUBMITTED: POST https://api.test/apply (4 fields) → 201"
    );
    let long = "x".repeat(600);
    let r = serialized_result(2, "https://api.test/apply", "refused", &long);
    let t = text(&r);
    assert!(t.starts_with("ok:FORM_SERIALIZED: 2 fields collected, POST to https://api.test/apply failed: refused. Fields: "));
    assert!(t.ends_with(&"x".repeat(500)));
    assert_eq!(t.len(), "ok:FORM_SERIALIZED: 2 fields collected, POST to https://api.test/apply failed: refused. Fields: ".len() + 500);
}

#[test]
fn sevro_form_submission_steps() {
    let err = FormSummary { error: Some("NOT_FOUND: @e4".into()), field_count: 0, action: String::new(), form_found: false };
    match submit_step("https://x.test/", &err) {
        SubmitStep::Report(r) => assert_eq!(text(&r), "err:NOT_FOUND: @e4"),
        _ => panic!("expected a report"),
    }
    let empty = FormSummary { error: None, field_count: 0, action: String::new(), form_found: true };
    match submit_step("https://x.test/", &empty) {
        SubmitStep::Report(r) => assert_eq!(
            text(&r),
            "err:No field values found to submit (form_found=true). Fields may not have name attributes."
        ),
        _ => panic!("expected a report"),
    }
    let full = FormSummary { error: None, field_count: 3, action: String::new(), form_found: true };
    match submit_step("https://jobs.lever.co/acme/123", &full) {
        SubmitStep::Post { url, content_type } => {
            assert_eq!(url, "https://jobs.lever.co/acme/123/apply");
            assert_eq!(content_type, "application/x-www-form-urlencoded");
        }
        _ => panic!("expected a post"),
    }
}

#[test]
fn ats_routes() {
    match ats_route("https://jobs.lever.co/acme/123/") {
        AtsRoute::Direct(u) => assert_eq!(u, "https://jobs.lever.co/acme/123/apply"),
        _ => panic!("expected direct"),
    }
    match ats_route("https://jobs.lever.co/acme/123/apply") {
        AtsRoute::Direct(u) => assert_eq!(u, "https://jobs.lever.co/acme/123/apply"),
        _ => panic!("expected direct"),
    }
    match ats_route("https://careers.datadoghq.com/detail/?gh_jid=4567") {
        AtsRoute::Probe { slugs, job_id } => {
            assert_eq!(slugs, vec!["datadog".to_string(), "datadoghq".to_string()]);
            assert_eq!(job_id, "4567");
        }
        _ => panic!("expected a probe"),
    }
    match ats_route("https://careers.example.com/?gh_jid=abc") {
        AtsRoute::Direct(u) => assert_eq!(u, "https://careers.example.com/?gh_jid=abc"),
        _ => panic!("expected direct"),
    }
    match ats_route("https://stripe.com/jobs/listing?src=x&gh_jid=77&gh_jid=88") {
        AtsRoute::Probe { slugs, job_id } => {
            assert_eq!(slugs, vec!["stripe".to_string()]);
            assert_eq!(job_id, "77");
        }
        _ => panic!("expected a probe"),
    }
    assert_eq!(board_probe_url("datadog", "4567"), "https://boards-api.greenhouse.io/v1/boards/datadog/jobs/4567");
    assert_eq!(board_job_url("datadog", "4567"), "https://job-boards.greenhouse.io/datadog/jobs/4567");
}

#[test]
fn sevro_node_roles() {
    assert_eq!(sevro_role("a", None), "link");
    assert_eq!(sevro_role("button", None), "button");
    assert_eq!(sevro_role("input", Some("email")), "email");
    assert_eq!(sevro_role("input", None), "textbox");
    assert_eq!(sevro_role("select", None), "combobox");
    assert_eq!(sevro_role("textarea", None), "textbox");
    assert_eq!(sevro_role("h1", None), "h1");
}

#[test]
fn tab_point_lookup_refuses_missing_elements() {
    assert_eq!(point_lookup(7, true), Err("@e7".to_string()));
    assert_eq!(point_lookup(7, false), Ok(()));
}

#[test]
fn sevro_dispatch_runs_refuses_or_acknowledges() {
    assert!(matches!(sevro_dispatch(&BrowserAction::Click { ref_id: 1, force: None }), SevroDispatch::Run));
    assert!(matches!(sevro_dispatch(&BrowserAction::EvalJs { script: "1".into() }), SevroDispatch::Run));
    match sevro_dispatch(&BrowserAction::Screenshot { full_page: true }) {
        SevroDispatch::NoScreenshot(m) => assert_eq!(m, "Not available in Sevro (Phase 3)"),
        _ => panic!("expected a refusal"),
    }
    match sevro_dispatch(&BrowserAction::GoBack) {
        SevroDispatch::Acknowledge(r) => assert_eq!(text(&r), "ok:Action acknowledged (Sevro stub)"),
        _ => panic!("expected an acknowledgement"),
    }
}

#[test]
fn select_values_are_json_quoted() {
    assert!(choose_script(1, "a\u{1}b\u{1f}").contains("el.value = \"a\\u0001b\\u001f\";"));
    assert!(choose_script(1, "t\tq\\/\u{8}\u{c}\r").contains("el.value = \"t\\tq\\\\/\\b\\f\\r\";"));
    assert!(choose_script(1, "é\u{7f}").contains("el.value = \"é\u{7f}\";"));
    assert_eq!(serde_json::to_string("a\u{1}b\u{1f}").unwrap(), "\"a\\u0001b\\u001f\"");
}

#[test]
fn select_quoting_agrees_with_serde_json() {
    let mut samples: Vec<String> = vec!["".into(), "plain".into(), "ünï\u{2028}😀".into()];
    for c in 0u32..0x80 {
        samples.push(format!("x{}y", char::from_u32(c).unwrap()));
    }
    for s in samples {
        let expected = format!("el.value = {};", serde_json::to_string(&s).unwrap());
        assert!(choose_script(3, &s).contains(&expected), "{:?}", s);
    }
}
