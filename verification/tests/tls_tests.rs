use browser_core::tls::{
    all_profiles, apply_profile_headers, chrome_131_profile, firefox_132_profile, profile_by_name,
    random_profile, safari_18_profile,
};


#[test]
fn test_all_profiles_returns_at_least_four() {
    let profiles = all_profiles();
    assert!(
        profiles.len() >= 4,
        "expected at least 4 profiles, got {}",
        profiles.len()
    );
}

#[test]
fn test_chrome_131_profile_has_valid_fields() {
    let p = chrome_131_profile();
    assert_eq!(p.name, "Chrome 131 Windows");
    assert!(!p.user_agent.is_empty());
    assert!(!p.ja3_hash.is_empty());
    assert!(p.ja4_hash.is_some());
    assert!(p.sec_ch_ua.is_some());
    assert!(p.sec_ch_ua_platform.is_some());
    assert!(!p.header_order.is_empty());
    assert!(!p.accept_header.is_empty());
    assert!(!p.accept_language.is_empty());
    assert!(!p.accept_encoding.is_empty());
    assert_eq!(p.http2_settings.header_table_size, 65536);
    assert!(!p.http2_settings.enable_push);
}

#[test]
fn test_profile_by_name_case_insensitive() {
    let p = profile_by_name("chrome 131 windows");
    assert!(p.is_some());
    assert_eq!(p.unwrap().name, "Chrome 131 Windows");

    let p2 = profile_by_name("CHROME 131 WINDOWS");
    assert!(p2.is_some());

    let p3 = profile_by_name("Chrome 131 Windows");
    assert!(p3.is_some());

    let none = profile_by_name("nonexistent browser");
    assert!(none.is_none());
}

#[test]
fn test_random_profile_returns_valid() {
    let p = random_profile();
    assert!(!p.name.is_empty());
    assert!(!p.user_agent.is_empty());
    assert!(!p.ja3_hash.is_empty());
    assert!(!p.header_order.is_empty());
}

#[test]
fn test_apply_profile_headers_correct_order() {
    let p = chrome_131_profile();
    let headers = apply_profile_headers(&p);

    // Should contain User-Agent, Accept, Accept-Language, Accept-Encoding,
    // sec-ch-ua, sec-ch-ua-platform at minimum.
    assert!(!headers.is_empty());

    // Find positions of known headers to verify ordering.
    let names: Vec<&str> = headers.iter().map(|(k, _)| k.as_str()).collect();

    let ua_pos = names.iter().position(|&n| n == "User-Agent");
    let accept_pos = names.iter().position(|&n| n == "Accept");
    assert!(ua_pos.is_some(), "User-Agent header missing");
    assert!(accept_pos.is_some(), "Accept header missing");

    // In Chrome, User-Agent comes before Accept.
    assert!(
        ua_pos.unwrap() < accept_pos.unwrap(),
        "User-Agent should precede Accept in Chrome header order"
    );

    // Verify values are populated.
    for (_, val) in &headers {
        assert!(!val.is_empty(), "header value should not be empty");
    }
}

#[test]
fn test_each_profile_has_nonempty_ja3_hash() {
    for p in all_profiles() {
        assert!(
            !p.ja3_hash.is_empty(),
            "profile '{}' has empty ja3_hash",
            p.name
        );
    }
}

#[test]
fn profile_headers_follow_header_order() {
    for p in all_profiles() {
        let headers = apply_profile_headers(&p);
        let names: Vec<&str> = headers.iter().map(|(k, _)| k.as_str()).collect();
        let mut last = 0usize;
        for n in &names {
            let pos = p.header_order.iter().position(|h| h == n).expect("header from order");
            assert!(pos >= last);
            last = pos;
        }
    }
}

#[test]
fn firefox_profile_has_no_client_hints() {
    let p = firefox_132_profile();
    assert!(p.sec_ch_ua.is_none());
    let headers = apply_profile_headers(&p);
    assert!(headers.iter().all(|(k, _)| k != "sec-ch-ua"));
    assert_eq!(profile_by_name("SAFARI 18").map(|q| q.name), Some(safari_18_profile().name));
}
