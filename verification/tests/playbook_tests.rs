use browser_core::playbook::{Playbook, PlaybookRunner, PlaybookStep, StepResult, VarType, VariableDef};

fn var(required: bool, var_type: VarType) -> VariableDef {
    VariableDef { required, var_type, default: None, description: None }
}

fn fill(selector: &str, value: &str) -> PlaybookStep {
    PlaybookStep::Fill {
        selector: selector.into(),
        value: value.into(),
        clear_first: None,
        type_delay: None,
    }
}

/// The sample Greenhouse playbook, written out as values.
fn sample_playbook() -> Playbook {
    Playbook {
        name: "greenhouse-apply".into(),
        description: "Apply to a Greenhouse job posting".into(),
        platform: "greenhouse".into(),
        engine: "cdp".into(),
        version: 1,
        on_error: None,
        variables: vec![
            ("job_url".into(), var(true, VarType::String)),
            ("first_name".into(), var(true, VarType::String)),
            ("last_name".into(), var(true, VarType::String)),
            ("email".into(), var(true, VarType::String)),
            ("phone".into(), var(true, VarType::String)),
            ("resume_path".into(), var(true, VarType::File)),
            ("cover_letter".into(), var(false, VarType::Text)),
            ("linkedin_url".into(), var(false, VarType::String)),
        ],
        steps: vec![
            PlaybookStep::Navigate {
                url: "{{job_url}}".into(),
                wait_for: Some("input[name='first_name']".into()),
                timeout: Some(10000),
            },
            fill("input[name='first_name']", "{{first_name}}"),
            fill("input[name='last_name']", "{{last_name}}"),
            fill("input[name='email']", "{{email}}"),
            fill("input[name='phone']", "{{phone}}"),
            PlaybookStep::UploadFile { selector: "input[type='file']".into(), path: "{{resume_path}}".into() },
            PlaybookStep::Conditional {
                if_exists: Some("input[name='cover_letter']".into()),
                if_visible: None,
                if_url_contains: None,
                if_variable: None,
                then_steps: vec![fill("input[name='cover_letter']", "{{cover_letter}}")],
                else_steps: vec![],
            },
            PlaybookStep::CustomDropdown {
                selector: "[data-field='location']".into(),
                value: "United States".into(),
                optional: Some(true),
                option_selector: None,
                search_input: None,
            },
            PlaybookStep::Submit {
                selector: "button[type='submit']".into(),
                wait_for: None,
                wait_for_navigation: None,
                timeout: None,
            },
            PlaybookStep::Verify {
                check: "url_contains(\"/thank\")".into(),
                or_check: None,
                retry_on_fail: true,
                retry_count: None,
                retry_delay: None,
            },
        ],
    }
}

fn pairs(v: &[(&str, &str)]) -> Vec<(String, String)> {
    v.iter().map(|(k, x)| (k.to_string(), x.to_string())).collect()
}

#[test]
fn validate_missing_variables() {
    let pb = sample_playbook();
    let supplied: Vec<(String, String)> = Vec::new();
    let missing = pb.validate_variables(&supplied);
    // All 6 required vars should be missing
    assert_eq!(missing.len(), 6);
    assert!(missing.contains(&"job_url".to_string()));
    assert!(missing.contains(&"email".to_string()));
}

#[test]
fn validate_all_supplied() {
    let pb = sample_playbook();
    let supplied = pairs(&[
        ("job_url", "https://example.com/jobs/1"),
        ("first_name", "Jane"),
        ("last_name", "Doe"),
        ("email", "jane@example.com"),
        ("phone", "555-0100"),
        ("resume_path", "/tmp/resume.pdf"),
    ]);
    let missing = pb.validate_variables(&supplied);
    assert!(missing.is_empty());
}

#[test]
fn resolve_variables() {
    let pb = sample_playbook();
    let vars = pairs(&[
        ("job_url", "https://boards.greenhouse.io/test/123"),
        ("first_name", "Jane"),
    ]);
    let runner = PlaybookRunner::new(pb, vars);
    assert_eq!(
        runner.resolve_variable("{{job_url}}"),
        "https://boards.greenhouse.io/test/123"
    );
    assert_eq!(runner.resolve_variable("Hello, {{first_name}}!"), "Hello, Jane!");
    // Unknown variables are left as-is
    assert_eq!(runner.resolve_variable("{{unknown_var}}"), "{{unknown_var}}");
}

#[test]
fn runner_iterates_steps() {
    let pb = sample_playbook();
    let total = pb.steps.len();
    let mut runner = PlaybookRunner::new(pb, Vec::new());

    assert!(!runner.is_complete());
    assert_eq!(runner.progress(), (0, total));

    // Advance through all steps
    for i in 0..total {
        assert!(runner.next_step().is_some());
        runner.mark_complete(i, StepResult::Done, None);
    }

    assert!(runner.is_complete());
    assert!(runner.next_step().is_none());
    assert_eq!(runner.progress(), (total, total));
}

#[test]
fn runner_runtime_vars() {
    let pb = sample_playbook();
    let mut runner = PlaybookRunner::new(pb, Vec::new());

    runner.set_runtime_var("extracted_id".into(), "ABC-123".into());
    assert_eq!(
        runner.resolve_variable("Confirmation: {{extracted_id}}"),
        "Confirmation: ABC-123"
    );
}

#[test]
fn runtime_vars_shadow_static() {
    let pb = sample_playbook();
    let vars = pairs(&[("first_name", "Jane")]);

    let mut runner = PlaybookRunner::new(pb, vars);
    assert_eq!(runner.resolve_variable("{{first_name}}"), "Jane");

    // Runtime override
    runner.set_runtime_var("first_name".into(), "Override".into());
    assert_eq!(runner.resolve_variable("{{first_name}}"), "Override");
}

#[test]
fn mark_complete_with_value() {
    let pb = sample_playbook();
    let mut runner = PlaybookRunner::new(pb, Vec::new());

    runner.mark_complete(0, StepResult::Value("hello".into()), Some("result_key"));
    assert_eq!(runner.resolve_variable("{{result_key}}"), "hello");
}

#[test]
fn variable_default_is_used_when_not_supplied() {
    let mut pb = sample_playbook();
    pb.variables.push((
        "location".into(),
        VariableDef {
            required: false,
            var_type: VarType::String,
            default: Some("United States".into()),
            description: None,
        },
    ));
    let runner = PlaybookRunner::new(pb, Vec::new());
    assert_eq!(runner.resolve_variable("{{location}}"), "United States");
}

#[test]
fn timestamp_placeholder_resolves_to_given_time() {
    let runner = PlaybookRunner::new(sample_playbook(), Vec::new());
    assert_eq!(
        runner.resolve_variable_at("shot-{{timestamp}}.png", "20240102_030405"),
        "shot-20240102_030405.png"
    );
}

#[test]
fn runner_accessors_report_inputs() {
    let vars = pairs(&[("email", "a@b.c")]);
    let mut runner = PlaybookRunner::new(sample_playbook(), vars.clone());
    runner.set_runtime_var("k".into(), "v".into());
    assert_eq!(runner.playbook().name, "greenhouse-apply");
    assert_eq!(runner.variables(), &vars);
    assert_eq!(runner.runtime_vars(), &pairs(&[("k", "v")]));
}

#[test]
fn timestamp_placeholder_takes_compact_utc_time() {
    let runner = PlaybookRunner::new(sample_playbook(), Vec::new());
    let r = runner.resolve_variable("shot-{{timestamp}}.png");
    assert!(r.starts_with("shot-") && r.ends_with(".png"));
    let ts: Vec<char> = r["shot-".len()..r.len() - ".png".len()].chars().collect();
    assert_eq!(ts.len(), 16);
    assert_eq!(ts[8], 'T');
    assert_eq!(ts[15], 'Z');
    assert!(ts.iter().enumerate().all(|(i, c)| i == 8 || i == 15 || c.is_ascii_digit()));
}
