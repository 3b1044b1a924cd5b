use browser_core::json_schema::{infer_json_schema, schema_json, JsonShape, Schema};
use browser_core::network::{
    detect_auth_type, infer_url_template, summary_text, ApiRequest, AuthType, EndpointSummary, NetworkCapture,
};

/// Build a minimal request for testing.
fn make_request(
    url: &str,
    method: &str,
    is_api: bool,
    headers: Vec<(&str, &str)>,
    request_body: Option<&str>,
    response_body: Option<&str>,
) -> ApiRequest {
    ApiRequest {
        url: url.to_string(),
        method: method.to_string(),
        request_headers: headers
            .into_iter()
            .map(|(k, v)| (k.to_string(), v.to_string()))
            .collect(),
        request_body: request_body.map(|s| s.to_string()),
        response_status: 200,
        response_headers: vec![],
        response_body: response_body.map(|s| s.to_string()),
        content_type: Some("application/json".to_string()),
        timestamp: 0,
        is_api,
        is_graphql: url.contains("/graphql"),
    }
}

// -- infer_url_template ------------------------------------------------

#[test]
fn test_template_numeric_id() {
    assert_eq!(
        infer_url_template("https://api.example.com/users/42"),
        "/users/{id}"
    );
}

#[test]
fn test_template_uuid() {
    assert_eq!(
        infer_url_template("https://api.example.com/items/550e8400-e29b-41d4-a716-446655440000"),
        "/items/{uuid}"
    );
}

#[test]
fn test_template_hex_hash() {
    let hash = "a".repeat(64);
    let url = format!("https://cdn.example.com/assets/{}", hash);
    assert_eq!(infer_url_template(&url), "/assets/{hash}");
}

#[test]
fn test_template_preserves_literal_segments() {
    assert_eq!(
        infer_url_template("https://api.example.com/v2/users/search"),
        "/v2/users/search"
    );
}

#[test]
fn test_template_mixed() {
    assert_eq!(
        infer_url_template("https://api.example.com/orgs/123/repos/456/commits"),
        "/orgs/{id}/repos/{id}/commits"
    );
}

#[test]
fn test_template_strips_query_string() {
    assert_eq!(
        infer_url_template("https://api.example.com/users/99?fields=name"),
        "/users/{id}"
    );
}

#[test]
fn template_of_path_only_input() {
    // Not a URL: the text before `?` is the path.
    assert_eq!(infer_url_template("/api/orders/7?x=1"), "/api/orders/{id}");
    // A number too large for u64 is kept.
    assert_eq!(
        infer_url_template("/n/99999999999999999999"),
        "/n/99999999999999999999"
    );
    assert_eq!(infer_url_template("/n/+5"), "/n/{id}");
}

// -- detect_auth_type --------------------------------------------------

#[test]
fn test_auth_bearer() {
    let headers = vec![("Authorization".into(), "Bearer tok_abc".into())];
    assert_eq!(detect_auth_type(&headers), AuthType::Bearer);
}

#[test]
fn test_auth_basic() {
    let headers = vec![("Authorization".into(), "Basic dXNlcjpwYXNz".into())];
    assert_eq!(detect_auth_type(&headers), AuthType::Basic);
}

#[test]
fn test_auth_api_key() {
    let headers = vec![("x-api-key".into(), "sk-12345".into())];
    assert_eq!(detect_auth_type(&headers), AuthType::ApiKey);
}

#[test]
fn test_auth_api_key_alternate_header() {
    let headers = vec![("Api-Key".into(), "sk-12345".into())];
    assert_eq!(detect_auth_type(&headers), AuthType::ApiKey);
}

#[test]
fn test_auth_cookie() {
    let headers = vec![("Cookie".into(), "session=abc123".into())];
    assert_eq!(detect_auth_type(&headers), AuthType::Cookie);
}

#[test]
fn test_auth_none() {
    let headers: Vec<(String, String)> = vec![];
    assert_eq!(detect_auth_type(&headers), AuthType::NoAuth);
}

#[test]
fn test_auth_bearer_takes_priority_over_cookie() {
    let headers = vec![
        ("Authorization".into(), "Bearer tok".into()),
        ("Cookie".into(), "sess=1".into()),
    ];
    assert_eq!(detect_auth_type(&headers), AuthType::Bearer);
}

#[test]
fn auth_priority_ignores_header_order() {
    let headers = vec![
        ("Cookie".into(), "sess=1".into()),
        ("x-api-key".into(), "k".into()),
        ("Authorization".into(), "Bearer tok".into()),
    ];
    assert_eq!(detect_auth_type(&headers), AuthType::Bearer);
    let key_then_bearer = vec![
        ("x-api-key".to_string(), "k1".to_string()),
        ("Authorization".to_string(), "Bearer tok".to_string()),
    ];
    assert_eq!(detect_auth_type(&key_then_bearer), AuthType::Bearer);
    let key_then_basic = vec![
        ("api-key".to_string(), "k1".to_string()),
        ("authorization".to_string(), "Basic dXNlcg==".to_string()),
    ];
    assert_eq!(detect_auth_type(&key_then_basic), AuthType::Basic);
    let cookie_then_key = vec![("Cookie".to_string(), "s=1".to_string()), ("X-Api-Key".to_string(), "k".to_string())];
    assert_eq!(detect_auth_type(&cookie_then_key), AuthType::ApiKey);
    let only_other = vec![("Authorization".to_string(), "Digest abc".to_string())];
    assert_eq!(detect_auth_type(&only_other), AuthType::NoAuth);
}

// -- capture -----------------------------------------------------------

#[test]
fn test_detect_graphql() {
    let mut capture = NetworkCapture::new();
    capture.record(make_request(
        "https://api.example.com/graphql",
        "POST",
        true,
        vec![],
        Some(r#"{"query":"{ users { id } }"}"#),
        Some(r#"{"data":{"users":[]}}"#),
    ));
    capture.record(make_request(
        "https://api.example.com/rest/users",
        "GET",
        true,
        vec![],
        None,
        Some(r#"[]"#),
    ));

    let gql = capture.detect_graphql();
    assert_eq!(gql.len(), 1);
    assert!(gql[0].url.contains("/graphql"));
}

#[test]
fn test_api_requests_filter() {
    let mut capture = NetworkCapture::new();
    capture.record(make_request(
        "https://api.example.com/data",
        "GET",
        true,
        vec![],
        None,
        None,
    ));
    capture.record(make_request(
        "https://cdn.example.com/img.png",
        "GET",
        false,
        vec![],
        None,
        None,
    ));

    assert_eq!(capture.api_requests().len(), 1);
}

#[test]
fn test_discover_groups_by_template() {
    let mut capture = NetworkCapture::new();

    // Two requests to the same logical endpoint with different IDs
    capture.record(make_request(
        "https://api.example.com/users/1",
        "GET",
        true,
        vec![("Authorization", "Bearer tok")],
        None,
        Some(r#"{"id":1,"name":"Alice"}"#),
    ));
    capture.record(make_request(
        "https://api.example.com/users/2",
        "GET",
        true,
        vec![("Authorization", "Bearer tok")],
        None,
        Some(r#"{"id":2,"name":"Bob"}"#),
    ));

    // One request to a different endpoint
    capture.record(make_request(
        "https://api.example.com/posts",
        "POST",
        true,
        vec![("x-api-key", "key123")],
        Some(r#"{"title":"Hello"}"#),
        Some(r#"{"id":10,"title":"Hello"}"#),
    ));

    // One non-API request (should be excluded)
    capture.record(make_request(
        "https://cdn.example.com/style.css",
        "GET",
        false,
        vec![],
        None,
        None,
    ));

    let endpoints = capture.discover_endpoints();
    assert_eq!(endpoints.len(), 2, "should discover 2 endpoint groups");

    // The /users/{id} group should have seen_count == 2
    let users_ep = endpoints
        .iter()
        .find(|e| e.url_template == "/users/{id}")
        .expect("should find /users/{id}");
    assert_eq!(users_ep.seen_count, 2);
    assert_eq!(users_ep.method, "GET");
    assert_eq!(users_ep.auth_type, AuthType::Bearer);
    assert!(users_ep.response_schema.is_some());

    // The /posts group
    let posts_ep = endpoints
        .iter()
        .find(|e| e.url_template == "/posts")
        .expect("should find /posts");
    assert_eq!(posts_ep.seen_count, 1);
    assert_eq!(posts_ep.method, "POST");
    assert_eq!(posts_ep.auth_type, AuthType::ApiKey);
    assert!(posts_ep.request_schema.is_some());
}

#[test]
fn discovered_schemas_come_from_the_first_parsing_body() {
    let mut capture = NetworkCapture::new();
    capture.record(make_request("https://a.com/items/1", "GET", true, vec![], None, Some("not json")));
    capture.record(make_request("https://a.com/items/2", "GET", true, vec![], None, Some(r#"{"id":2,"tags":["x"]}"#)));
    capture.record(make_request("https://a.com/items/3", "GET", true, vec![], None, Some(r#"{"other":true}"#)));
    let eps = capture.discover_endpoints();
    assert_eq!(eps.len(), 1);
    assert!(eps[0].request_schema.is_none());
    let schema = eps[0].response_schema.as_ref().expect("a schema");
    assert_eq!(name(member(schema, "id")), "number");
    assert_eq!(name(member(member(schema, "tags"), "items")), "string");
    assert_eq!(eps[0].example_url, "https://a.com/items/1");
}

#[test]
fn endpoints_most_requested_first_then_first_seen() {
    let mut capture = NetworkCapture::new();
    capture.record(make_request("https://a.com/x/1", "GET", true, vec![], None, None));
    capture.record(make_request("https://a.com/y", "GET", true, vec![], None, None));
    capture.record(make_request("https://a.com/z", "GET", true, vec![], None, None));
    capture.record(make_request("https://a.com/y", "GET", true, vec![("Cookie", "s=1")], None, None));
    capture.record(make_request("https://a.com/y", "POST", true, vec![], None, None));
    let eps = capture.endpoint_groups();
    let names: Vec<(String, String, usize)> = eps
        .iter()
        .map(|e| (e.method.clone(), e.url_template.clone(), e.members.len()))
        .collect();
    assert_eq!(
        names,
        vec![
            ("GET".to_string(), "/y".to_string(), 2),
            ("GET".to_string(), "/x/{id}".to_string(), 1),
            ("GET".to_string(), "/z".to_string(), 1),
            ("POST".to_string(), "/y".to_string(), 1),
        ]
    );
    assert_eq!(eps[0].members, vec![1, 3]);
    assert_eq!(eps[0].auth_type, AuthType::Cookie);
    assert_eq!(eps[0].example_url, "https://a.com/y");
}

// -- infer_json_schema -------------------------------------------------

fn object(members: Vec<(&str, JsonShape)>) -> JsonShape {
    JsonShape::Object(members.into_iter().map(|(k, v)| (k.to_string(), v)).collect())
}

fn member<'a>(schema: &'a Schema, key: &str) -> &'a Schema {
    match schema {
        Schema::Object(members) => &members.iter().find(|(k, _)| k == key).expect("member present").1,
        Schema::Name(n) => panic!("expected an object schema, got {}", n),
    }
}

fn name(schema: &Schema) -> &str {
    match schema {
        Schema::Name(n) => n.as_str(),
        Schema::Object(_) => panic!("expected a type name"),
    }
}

#[test]
fn test_schema_flat_object() {
    let val = object(vec![("name", JsonShape::Str), ("age", JsonShape::Number), ("active", JsonShape::Bool)]);
    let schema = infer_json_schema(&val);
    assert_eq!(name(member(&schema, "name")), "string");
    assert_eq!(name(member(&schema, "age")), "number");
    assert_eq!(name(member(&schema, "active")), "boolean");
}

#[test]
fn test_schema_nested_object() {
    let val = object(vec![("user", object(vec![("id", JsonShape::Number), ("email", JsonShape::Str)]))]);
    let schema = infer_json_schema(&val);
    assert_eq!(name(member(member(&schema, "user"), "id")), "number");
    assert_eq!(name(member(member(&schema, "user"), "email")), "string");
}

#[test]
fn test_schema_array_top_level() {
    let val = JsonShape::Array(vec![object(vec![("id", JsonShape::Number)]), object(vec![("id", JsonShape::Number)])]);
    let schema = infer_json_schema(&val);
    assert_eq!(name(member(&schema, "type")), "array");
    assert_eq!(name(member(member(&schema, "items"), "id")), "number");
}

#[test]
fn test_schema_null_field() {
    let val = object(vec![("deleted_at", JsonShape::Null)]);
    let schema = infer_json_schema(&val);
    assert_eq!(name(member(&schema, "deleted_at")), "null");
}

#[test]
fn test_schema_array_field() {
    let val = object(vec![("tags", JsonShape::Array(vec![JsonShape::Str, JsonShape::Str]))]);
    let schema = infer_json_schema(&val);
    assert_eq!(name(member(member(&schema, "tags"), "type")), "array");
    assert_eq!(name(member(member(&schema, "tags"), "items")), "string");
}

#[test]
fn schema_depth_rules() {
    // Nested objects inside members are named, not expanded; empty arrays
    // have no items; a bare scalar is its type name.
    let val = object(vec![
        ("outer", object(vec![("inner", object(vec![("x", JsonShape::Number)]))])),
        ("list", JsonShape::Array(vec![])),
    ]);
    let schema = infer_json_schema(&val);
    assert_eq!(name(member(member(&schema, "outer"), "inner")), "object");
    match member(&schema, "list") {
        Schema::Object(m) => assert_eq!(m.len(), 1),
        _ => panic!("expected an array schema"),
    }
    assert_eq!(name(&infer_json_schema(&JsonShape::Number)), "number");
    let nested = JsonShape::Array(vec![JsonShape::Array(vec![JsonShape::Bool])]);
    let s = infer_json_schema(&nested);
    assert_eq!(name(member(member(&s, "items"), "items")), "boolean");
}

// -- summary -----------------------------------------------------------

#[test]
fn test_summary_not_empty() {
    let mut capture = NetworkCapture::new();
    capture.record(make_request("https://api.example.com/users/1", "GET", true, vec![], None, Some(r#"{"id":1}"#)));
    let s = capture.summary();
    assert!(s.contains("Network Intelligence Summary"));
    assert!(s.contains("/users/{id}"));
}

#[test]
fn test_empty_capture_summary() {
    let capture = NetworkCapture::new();
    let s = capture.summary();
    assert!(s.contains("Total requests: 0"));
    assert!(s.contains("Discovered 0 endpoint(s)"));
}

#[test]
fn summary_layout() {
    let eps = vec![EndpointSummary {
        method: "GET".to_string(),
        url_template: "/users/{id}".to_string(),
        seen_count: 2,
        auth_type: AuthType::NoAuth,
        request_schema: None,
        response_schema: Some("{\"id\":\"number\"}".to_string()),
        example_url: "https://api.example.com/users/1".to_string(),
    }];
    assert_eq!(
        summary_text(3, 2, 0, &eps),
        "=== Network Intelligence Summary ===\nTotal requests: 3 | API calls: 2 | GraphQL: 0\nDiscovered 1 endpoint(s):\n\n  GET /users/{id} (seen 2x, auth: None)\n    response schema: {\"id\":\"number\"}\n    example: https://api.example.com/users/1"
    );
}

#[test]
fn templates_are_their_own_templates() {
    for raw in [
        "https://api.example.com/users/42/posts/550e8400-e29b-41d4-a716-446655440000?x=1",
        "http://a.com/files/d41d8cd98f00b204e9800998ecf8427e/raw",
        "/api/v2/items/7",
        "/plain/path/",
    ] {
        let t = infer_url_template(raw);
        assert_eq!(infer_url_template(&t), t, "{}", raw);
    }
}

#[test]
fn summary_shows_schemas_as_json_text() {
    let mut capture = NetworkCapture::new();
    capture.record(make_request(
        "https://api.example.com/users/1",
        "POST",
        true,
        vec![("Authorization", "Bearer t")],
        Some(r#"{"name":"a","tags":["x"]}"#),
        Some(r#"{"id":1}"#),
    ));
    assert_eq!(
        capture.summary(),
        "=== Network Intelligence Summary ===\nTotal requests: 1 | API calls: 1 | GraphQL: 0\nDiscovered 1 endpoint(s):\n\n  POST /users/{id} (seen 1x, auth: Bearer)\n    request schema:  {\"name\":\"string\",\"tags\":{\"items\":\"string\",\"type\":\"array\"}}\n    response schema: {\"id\":\"number\"}\n    example: https://api.example.com/users/1"
    );
}

#[test]
fn schema_text_sorts_keys_and_keeps_the_last_duplicate() {
    let s = Schema::Object(vec![
        ("zeta".to_string(), Schema::Name("a".to_string())),
        ("\u{e9}t\u{e9}".to_string(), Schema::Name("b".to_string())),
        ("Zed".to_string(), Schema::Object(vec![("y".to_string(), Schema::Name("n".to_string())), ("b".to_string(), Schema::Name("m\"q".to_string()))])),
        ("zeta".to_string(), Schema::Name("c".to_string())),
        ("ze".to_string(), Schema::Object(vec![])),
    ]);
    assert_eq!(schema_json(&s), "{\"Zed\":{\"b\":\"m\\\"q\",\"y\":\"n\"},\"ze\":{},\"zeta\":\"c\",\"\u{e9}t\u{e9}\":\"b\"}");
    assert_eq!(schema_json(&Schema::Name("x\ny".to_string())), "\"x\\ny\"");
}

fn schema_as_value(s: &Schema) -> serde_json::Value {
    match s {
        Schema::Name(n) => serde_json::Value::String(n.clone()),
        Schema::Object(ms) => {
            let mut map = serde_json::Map::new();
            for (k, v) in ms {
                map.insert(k.clone(), schema_as_value(v));
            }
            serde_json::Value::Object(map)
        }
    }
}

#[test]
fn schema_text_agrees_with_serde_json() {
    let s = Schema::Object(vec![
        ("b".to_string(), Schema::Name("x\u{1}".to_string())),
        ("a\u{7f}".to_string(), Schema::Object(vec![("k".to_string(), Schema::Name("v".to_string()))])),
        ("\u{1F600}".to_string(), Schema::Name("e".to_string())),
        ("a".to_string(), Schema::Name("first".to_string())),
        ("b".to_string(), Schema::Name("last".to_string())),
        ("".to_string(), Schema::Object(vec![])),
    ]);
    assert_eq!(schema_json(&s), schema_as_value(&s).to_string());
}

#[test]
fn uuid_and_hex_segments_follow_their_shapes() {
    assert_eq!(infer_url_template("/a/550E8400-e29b-41d4-a716-446655440000"), "/a/{uuid}");
    assert_eq!(infer_url_template("/a/550e8400e29b41d4a716446655440000"), "/a/{hash}");
    assert_eq!(infer_url_template("/a/550e8400-e29b-41d4-a716-44665544000"), "/a/550e8400-e29b-41d4-a716-44665544000");
    assert_eq!(infer_url_template("/a/550e8400e29b41d4a71644665544000"), "/a/550e8400e29b41d4a71644665544000");
    assert_eq!(infer_url_template("/a/g50e8400e29b41d4a716446655440000"), "/a/g50e8400e29b41d4a716446655440000");
}
