use browser_core::ats::{detect_ats_submit_endpoint, greenhouse_slug_candidates};
use browser_core::cdp::key_to_cdp_key;
use browser_core::config::BrowserConfig;
use browser_core::dom::{agent_text, ElementLine, PageMeta};
use browser_core::engine::{engine_for_name, EngineKind};
use browser_core::fingerprint::{hardware_from_draws, random_hardware, screen_layout};
use browser_core::native::{
    build_selector, detect_page_type, needs_javascript, resolve_url, truncate, validate_url_scheme,
};
use browser_core::stealth_http::has_stealth_tls;
use browser_core::swarm::{join_error_result, timed_out_result, SwarmConfig, SwarmOrchestrator};
use browser_core::vision::{MockVisionBackend, MoondreamBackend, OmniParserBackend};

#[test]
fn stealth_tls_availability() {
    let available = has_stealth_tls();
    println!("Stealth TLS available: {}", available);
    assert!(!available);
}

#[test]
fn mock_backend_available() {
    let backend = MockVisionBackend;
    assert!(backend.is_available());
    assert_eq!(backend.name(), "MockVision");
}

#[test]
fn greenhouse_slugs_from_domains() {
    assert_eq!(greenhouse_slug_candidates("careers.datadoghq.com"), vec!["datadog", "datadoghq"]);
    assert_eq!(greenhouse_slug_candidates("stripe.com"), vec!["stripe"]);
    assert_eq!(greenhouse_slug_candidates("www.samsara.com"), vec!["samsara"]);
    assert_eq!(
        greenhouse_slug_candidates("jobs.example-corp.io"),
        vec!["example-corp", "examplecorp"]
    );
    assert_eq!(greenhouse_slug_candidates("WWW.COM"), vec!["www"]);
    assert!(greenhouse_slug_candidates("com").is_empty());
}

#[test]
fn ats_endpoints() {
    assert_eq!(
        detect_ats_submit_endpoint(
            "https://job-boards.greenhouse.io/acme/jobs/123",
            ""
        ),
        (
            "https://boards-api.greenhouse.io/v1/boards/acme/jobs/123/applications".to_string(),
            "multipart/form-data".to_string()
        )
    );
    assert_eq!(
        detect_ats_submit_endpoint("https://job-boards.eu.greenhouse.io/acme/jobs/9/", "#").0,
        "https://boards-api.eu.greenhouse.io/v1/boards/acme/jobs/9/applications"
    );
    assert_eq!(
        detect_ats_submit_endpoint("https://jobs.lever.co/acme/abc/", ""),
        (
            "https://jobs.lever.co/acme/abc/apply".to_string(),
            "application/x-www-form-urlencoded".to_string()
        )
    );
    assert_eq!(
        detect_ats_submit_endpoint("https://jobs.ashbyhq.com/acme/42/", "").0,
        "https://jobs.ashbyhq.com/acme/42/application/submit"
    );
    assert_eq!(
        detect_ats_submit_endpoint("https://example.com/apply", "/submit").0,
        "https://example.com/submit"
    );
    assert_eq!(
        detect_ats_submit_endpoint("https://example.com/apply", "https://x.test/post"),
        ("https://x.test/post".to_string(), "application/json".to_string())
    );
    assert_eq!(
        detect_ats_submit_endpoint("https://example.com/apply", ""),
        ("https://example.com/apply".to_string(), "application/json".to_string())
    );
}

#[test]
fn cdp_key_mapping() {
    assert_eq!(key_to_cdp_key("Enter"), ("Enter", "Enter", 13));
    assert_eq!(key_to_cdp_key("ESC"), ("Escape", "Escape", 27));
    assert_eq!(key_to_cdp_key(" "), (" ", "Space", 32));
    assert_eq!(key_to_cdp_key("PageDown"), ("PageDown", "PageDown", 34));
    assert_eq!(key_to_cdp_key("F5"), ("F5", "F5", 0));
}

#[test]
fn native_helpers() {
    assert_eq!(truncate("hello", 10), "hello");
    assert_eq!(truncate("hello world", 5), "hello...");
    assert_eq!(truncate("héllo", 3), "hé...");
    assert_eq!(resolve_url("/path", "https://example.com/a/b"), "https://example.com/path");
    assert_eq!(resolve_url("//cdn.x.com/a.js", "https://example.com"), "https://cdn.x.com/a.js");
    assert_eq!(resolve_url("http://abs.com/", "https://example.com"), "http://abs.com/");
    assert_eq!(resolve_url("rel", "not a url"), "rel");
    assert!(validate_url_scheme("  HTTPS://example.com").is_ok());
    let err = validate_url_scheme("file:///etc/passwd").unwrap_err();
    assert_eq!(err.url, "file:///etc/passwd");
    assert_eq!(err.reason, "Only http:// and https:// schemes are allowed");
    assert_eq!(build_selector("button", Some("go"), Some("n")), "#go");
    assert_eq!(build_selector("input", None, Some("email")), "input[name=\"email\"]");
    assert_eq!(build_selector("div", None, None), "div");
}

#[test]
fn page_types() {
    let roles = |n: usize, r: &str| vec![r.to_string(); n];
    assert_eq!(detect_page_type("<html>", &None, true, true, &[]), "captcha");
    assert_eq!(detect_page_type("<html>", &None, true, false, &[]), "login_form");
    assert_eq!(detect_page_type("<div class=\"Result\">", &None, false, false, &[]), "search_results");
    assert_eq!(detect_page_type("<ARTICLE>", &None, false, false, &[]), "article");
    assert_eq!(detect_page_type("<p>", &None, false, false, &roles(6, "input_text")), "form");
    assert_eq!(detect_page_type("<p>", &None, false, false, &roles(31, "link")), "listing");
    assert_eq!(detect_page_type("<p>", &None, false, false, &roles(30, "link")), "generic");
}

#[test]
fn spa_detection() {
    assert!(needs_javascript("<html></html>", 0, false));
    assert!(!needs_javascript("<html></html>", 1, false));
    assert!(needs_javascript("<script>window.__NUXT__=1</script>", 10, true));
    let big = format!("<div id=\"root\"></div>{}", "x".repeat(5000));
    assert!(needs_javascript(&big, 2, true));
    assert!(!needs_javascript(&big, 3, true));
}

#[test]
fn config_defaults() {
    let c = BrowserConfig::default();
    assert!(c.headless);
    assert_eq!((c.viewport_width, c.viewport_height), (1920, 1080));
    assert_eq!(c.extra_args.len(), 5);
    assert_eq!(c.blocked_url_patterns[1], "*doubleclick.net*");
    assert_eq!(c.max_tabs, 10);
    let m = PageMeta::default();
    assert_eq!(m.form_count, 0);
    assert!(m.page_type.is_none());
}

#[test]
fn swarm_records() {
    let cfg = SwarmConfig::default();
    assert_eq!((cfg.max_workers, cfg.worker_timeout_secs), (6, 300));
    let tasks = SwarmOrchestrator::url_tasks(
        vec!["https://a.com".to_string(), "https://b.com".to_string()],
        "visit",
    );
    assert_eq!(tasks.len(), 2);
    assert_eq!(tasks[1].id, "url-task-1");
    assert_eq!(tasks[1].start_url.as_deref(), Some("https://b.com"));
    let r = SwarmOrchestrator::visit_result(tasks[0].clone(), 7);
    assert_eq!((r.task_id.as_str(), r.success, r.result.as_str(), r.pages_visited), ("url-task-0", true, "https://a.com", 1));
    let t = timed_out_result("t".into(), 300);
    assert_eq!((t.success, t.duration_ms, t.result.as_str()), (false, 300_000, "task timed out"));
    let j = join_error_result("boom");
    assert_eq!((j.task_id.as_str(), j.result.as_str()), ("unknown", "join error: boom"));
}

#[test]
fn fingerprint_pieces() {
    let l = screen_layout(1920, 1080);
    assert_eq!((l.inner_height, l.avail_height, l.outer_height), (995, 1040, 1080));
    let l = screen_layout(1366, 768);
    assert_eq!(l.inner_height, 693);
    for _ in 0..20 {
        let h = random_hardware();
        assert!([4, 8, 12, 16].contains(&h.cores));
        assert!([4, 8, 16, 32].contains(&h.memory_gb));
        assert!(h.canvas_seed >= 1 && h.canvas_seed < u32::MAX);
        assert!([300, 360, 420, 480, 0, 60].contains(&h.timezone_offset));
        assert!(h.webgl_renderer.starts_with("ANGLE ("));
    }
}

#[test]
fn agent_text_layout() {
    let lines = vec![
        ElementLine { ref_id: 1, role: "link".into(), text: Some("Code".into()), placeholder: None },
        ElementLine { ref_id: 6, role: "input".into(), text: None, placeholder: Some("Go to file".into()) },
    ];
    let t = agent_text("GitHub", "https://github.com", &lines, &Some("Intro".into()));
    assert_eq!(
        t,
        "Page: \"GitHub\" (https://github.com)\n\n\
         @e1    [link]       \"Code\"\n\
         @e6    [input]      \"\" placeholder=\"Go to file\"\n\
         \n--- Main Content Preview ---\nIntro\n"
    );
    let long = vec![ElementLine { ref_id: 1234567, role: "navigation-item".into(), text: None, placeholder: None }];
    assert_eq!(agent_text("", "", &long, &None), "Page: \"\" ()\n\n@e1234567 [navigation-item] \"\"\n");
}

#[test]
fn engine_names() {
    assert_eq!(engine_for_name("native"), Ok(EngineKind::Native));
    assert_eq!(engine_for_name("auto"), Ok(EngineKind::Native));
    assert_eq!(
        engine_for_name("sevro"),
        Err("Sevro engine not yet implemented".to_string())
    );
    assert_eq!(
        engine_for_name("gecko"),
        Err("Unknown engine: 'gecko'. Options: native, chrome, sevro, auto".to_string())
    );
    assert!(engine_for_name("chrome").unwrap_err().starts_with("Chrome engine not available"));
}

#[test]
fn placeholder_backends_not_available() {
    let omni = OmniParserBackend::new("/tmp/models");
    assert!(!omni.is_available());
    assert_eq!(omni.name(), "OmniParser");
    assert_eq!(omni.model_dir, "/tmp/models");

    let moon = MoondreamBackend::new("/tmp/models");
    assert!(!moon.is_available());
    assert_eq!(moon.name(), "Moondream");
}

#[test]
fn hardware_follows_the_draws() {
    let h = hardware_from_draws(3, 4, 2, 77, 5);
    assert_eq!(h.cores, 12);
    assert_eq!(h.memory_gb, 32);
    assert_eq!(h.webgl_vendor, "Google Inc. (Intel)");
    assert_eq!(h.canvas_seed, 77);
    assert_eq!(h.timezone_offset, 60);
}
