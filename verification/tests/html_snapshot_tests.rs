use browser_core::dom::{agent_text, ElementLine};
use browser_core::html_snapshot::{
    extract_form_for_submit, extract_form_with_fills, parse_html_to_snapshot, NativeElement,
    NativeSnapshot,
};
use browser_core::native::{needs_javascript, resolve_url};

fn parse(html: &str, url: &str) -> NativeSnapshot {
    parse_html_to_snapshot(html, url).expect("page parses")
}

fn lines(elements: &[NativeElement]) -> Vec<ElementLine> {
    elements
        .iter()
        .map(|e| ElementLine {
            ref_id: e.ref_id,
            role: e.role.clone(),
            text: e.text.clone(),
            placeholder: e.placeholder.clone(),
        })
        .collect()
}

#[test]
fn test_parse_simple_page() {
    let html = r#"
        <html>
        <head><title>Test Page</title></head>
        <body>
            <a href="/about">About Us</a>
            <form action="/login" method="POST">
                <input type="email" name="email" placeholder="Email">
                <input type="password" name="password" placeholder="Password">
                <button type="submit">Sign In</button>
            </form>
            <p>Welcome to our site.</p>
        </body>
        </html>"#;

    let snapshot = parse(html, "https://example.com");

    assert_eq!(snapshot.title, "Test Page");
    assert!(!snapshot.elements.is_empty());

    let link_count = snapshot.elements.iter().filter(|e| e.role == "link").count();
    let input_count = snapshot.elements.iter().filter(|e| e.role.starts_with("input")).count();
    let button_count = snapshot.elements.iter().filter(|e| e.role == "submit").count();

    assert_eq!(link_count, 1);
    assert_eq!(input_count, 2);
    assert_eq!(button_count, 1);

    let link = snapshot.elements.iter().find(|e| e.role == "link").unwrap();
    assert_eq!(link.href.as_deref(), Some("https://example.com/about"));

    assert_eq!(snapshot.meta.page_type.as_deref(), Some("login_form"));
    assert!(snapshot.meta.has_login_form);
}

#[test]
fn test_parse_article_page() {
    let html = r#"
        <html>
        <head>
            <title>Blog Post - My Site</title>
            <meta name="description" content="A great article">
        </head>
        <body>
            <article>
                <h1>My Blog Post</h1>
                <p>This is a long paragraph with plenty of content to read and understand.</p>
                <p>Second paragraph with more interesting details about the topic at hand.</p>
                <a href="/next-post">Next Post</a>
            </article>
        </body>
        </html>"#;

    let snapshot = parse(html, "https://blog.example.com/post");

    assert_eq!(snapshot.title, "Blog Post - My Site");
    assert_eq!(snapshot.meta.page_type.as_deref(), Some("article"));
    assert_eq!(snapshot.meta.description.as_deref(), Some("A great article"));
    assert!(snapshot.meta.main_content_preview.is_some());
}

#[test]
fn test_resolve_url() {
    assert_eq!(resolve_url("/about", "https://example.com/page"), "https://example.com/about");
    assert_eq!(resolve_url("https://other.com", "https://example.com"), "https://other.com");
    assert_eq!(resolve_url("sub/page", "https://example.com/dir/"), "https://example.com/dir/sub/page");
}

#[test]
fn test_needs_javascript_detection() {
    let html = format!(
        "<html><body><h1>Welcome</h1><p>{}</p><a href='/about'>About</a></body></html>",
        "This is a real page with actual content. ".repeat(20)
    );
    let snapshot = parse(&html, "https://example.com");
    assert!(!needs_javascript(&html, snapshot.elements.len(), snapshot.meta.main_content_preview.is_some()));

    let shell = r#"<html><body><div id="root"></div><script src="/bundle.js"></script></body></html>"#;
    let snapshot = parse(shell, "https://spa.example.com");
    assert!(needs_javascript(shell, snapshot.elements.len(), snapshot.meta.main_content_preview.is_some()));
}

#[test]
fn test_agent_text_output() {
    let html = r#"
        <html><head><title>Test</title></head>
        <body>
            <a href="/link1">First Link</a>
            <input type="text" placeholder="Search...">
            <button>Go</button>
        </body></html>"#;

    let snapshot = parse(html, "https://example.com");
    let text = agent_text(&snapshot.title, &snapshot.url, &lines(&snapshot.elements), &snapshot.meta.main_content_preview);

    assert!(text.contains("@e1"));
    assert!(text.contains("[link]"));
    assert!(text.contains("First Link"));
    assert!(text.contains("Search..."));
}

#[test]
fn test_form_extraction() {
    let html = r#"
        <html><body>
            <form action="/login" method="POST">
                <input type="email" name="email" value="user@test.com">
                <input type="password" name="password" value="secret">
                <input type="hidden" name="csrf" value="token123">
                <button type="submit">Login</button>
            </form>
        </body></html>"#;

    let form = extract_form_for_submit(html, 0).unwrap();
    assert_eq!(form.action, "/login");
    assert_eq!(form.method, "POST");
    assert_eq!(form.fields.len(), 3);
    assert!(form.fields.iter().any(|(k, v)| k == "csrf" && v == "token123"));
}

#[test]
fn elements_are_numbered_by_kind() {
    let html = r##"
        <html><body>
            <a href="#top">Top</a>
            <a href="javascript:void(0)">Run</a>
            <a href="/x" aria-label="Icon link"></a>
            <a href="/y"></a>
            <input type="hidden" name="t" value="1">
            <input type="CHECKBOX" name="agree" disabled>
            <input name="q" title="Query">
            <button aria-label="Close"></button>
            <select name="country"><option>Canada</option><option> </option><option>Mexico</option></select>
            <textarea id="bio" placeholder="About you">  Hello there  </textarea>
        </body></html>"##;
    let snap = parse(html, "https://site.test/");
    let summary: Vec<(u32, &str)> = snap.elements.iter().map(|e| (e.ref_id, e.role.as_str())).collect();
    assert_eq!(
        summary,
        vec![(1, "link"), (2, "checkbox"), (3, "input[type=text]"), (4, "button"), (5, "select"), (6, "textarea")]
    );
    assert_eq!(snap.elements[0].text.as_deref(), Some("Icon link"));
    assert_eq!(snap.elements[0].href.as_deref(), Some("https://site.test/x"));
    assert!(!snap.elements[1].enabled);
    assert_eq!(snap.elements[1].selector, "input[name=\"agree\"]");
    assert_eq!(snap.elements[2].text.as_deref(), Some("Query"));
    assert_eq!(snap.elements[3].text.as_deref(), Some("Close"));
    assert_eq!(snap.elements[4].text.as_deref(), Some("country [Canada, Mexico]"));
    assert_eq!(snap.elements[4].aria_label.as_deref(), Some("country"));
    assert_eq!(snap.elements[5].text.as_deref(), Some("Hello there"));
    assert_eq!(snap.elements[5].value.as_deref(), Some("Hello there"));
    assert_eq!(snap.elements[5].selector, "#bio");
    assert_eq!(snap.meta.interactive_element_count, 6);
    assert_eq!(snap.meta.form_count, 0);
}

#[test]
fn long_texts_are_truncated() {
    let long = "word ".repeat(30);
    let html = format!("<html><body><button>{}</button></body></html>", long);
    let snap = parse(&html, "https://site.test/");
    let text = snap.elements[0].text.clone().unwrap();
    assert_eq!(text.len(), 83);
    assert!(text.ends_with("..."));
}

#[test]
fn cutting_inside_a_character_is_refused() {
    // 79 ASCII bytes then a two-byte character: byte 80 falls inside it.
    let text = format!("{}é and more", "a".repeat(79));
    let html = format!("<html><body><button>{}</button></body></html>", text);
    assert!(parse_html_to_snapshot(&html, "https://site.test/").is_none());
}

#[test]
fn filled_values_replace_page_values() {
    let html = r#"
        <html><body>
            <a href="/home">Home</a>
            <form action="/apply" method="get">
                <input type="text" name="first" value="old">
                <input type="hidden" name="token" value="abc">
                <input type="checkbox" name="news">
                <input type="checkbox" name="terms" checked value="yes">
                <textarea name="note"></textarea>
            </form>
        </body></html>"#;
    // Link is @e1; the numbered fields are first=@e2, news=@e3, terms=@e4, note=@e5.
    let filled = vec![(2, "Ada".to_string()), (5, "Hi".to_string()), (2, "Grace".to_string())];
    let form = extract_form_with_fills(html, 0, &filled).unwrap();
    assert_eq!(form.action, "/apply");
    assert_eq!(form.method, "get");
    assert_eq!(
        form.fields,
        vec![
            ("first".to_string(), "Grace".to_string()),
            ("token".to_string(), "abc".to_string()),
            ("terms".to_string(), "yes".to_string()),
            ("note".to_string(), "Hi".to_string()),
        ]
    );
    assert!(extract_form_with_fills("<p>no form</p>", 0, &filled).is_none());
    assert!(extract_form_for_submit("<p>no form</p>", 0).is_none());
}
