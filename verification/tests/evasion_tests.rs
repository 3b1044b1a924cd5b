use browser_core::evasions::{Evasion, ScriptSettings, StealthEvasions};

fn settings() -> ScriptSettings {
    ScriptSettings {
        user_agent: None,
        webgl_vendor: None,
        webgl_renderer: None,
        languages: None,
        screen_width: None,
        screen_height: None,
        color_depth: None,
        canvas_snippet: "// [OpenClaw Stealth: canvas_noise]".to_string(),
        audio_snippet: "// [OpenClaw Stealth: audio_noise]".to_string(),
        hardware_snippet: "// [OpenClaw Stealth: hardware_props]".to_string(),
    }
}

/// The settings that the default stealth configuration yields: no overrides,
/// canvas noise 0.01, audio noise 0.0001, and the given hardware values.
fn config_settings(concurrency: u32, memory: f64) -> ScriptSettings {
    let canvas_strength: f64 = 0.01;
    let audio_strength: f64 = 0.0001;
    ScriptSettings {
        canvas_snippet: format!(
            "// [OpenClaw Stealth: canvas_noise]\n(function() {{\n    const NOISE_STRENGTH = {};\n}})();",
            canvas_strength
        ),
        audio_snippet: format!(
            "// [OpenClaw Stealth: audio_noise]\n(function() {{\n    const NOISE = {};\n}})();",
            audio_strength
        ),
        hardware_snippet: format!(
            "// [OpenClaw Stealth: hardware_props]\n(function() {{\n    get: () => {},\n    get: () => {},\n}})();",
            concurrency, memory
        ),
        ..settings()
    }
}

#[test]
fn all_enables_all_evasions() {
    let stealth = StealthEvasions::all();
    let all_variants = Evasion::all_variants();
    assert_eq!(
        stealth.enabled_evasions.len(),
        all_variants.len(),
        "all() should enable every evasion variant"
    );
    for variant in all_variants {
        assert!(
            stealth.enabled_evasions.contains(&variant),
            "missing evasion: {:?}",
            variant
        );
    }
}

#[test]
fn minimal_enables_only_four() {
    let stealth = StealthEvasions::minimal();
    assert_eq!(stealth.evasion_count(), 4, "minimal() should enable 4 evasions");
    assert!(stealth.enabled_evasions.contains(&Evasion::WebdriverHide));
    assert!(stealth.enabled_evasions.contains(&Evasion::ChromeRuntime));
    assert!(stealth.enabled_evasions.contains(&Evasion::CdcVariables));
    assert!(stealth.enabled_evasions.contains(&Evasion::PluginArray));
}

#[test]
fn evasion_count_matches_vec_len() {
    let stealth = StealthEvasions::all();
    assert_eq!(stealth.evasion_count(), stealth.enabled_evasions.len());
}

#[test]
fn script_is_a_strict_iife() {
    let script = StealthEvasions::minimal().generate_script(&settings());
    assert!(script.starts_with("// OpenClaw Stealth Evasions \u{2014} generated script\n(function() {\n'use strict';\n\n"));
    assert!(script.ends_with("\n\n})();"));
    assert!(script.contains("[OpenClaw Stealth: webdriver_hide]"));
    assert!(script.contains("[OpenClaw Stealth: cdc_cleanup]"));
}

#[test]
fn generate_script_produces_nonempty_iife() {
    let stealth = StealthEvasions::minimal();
    let script = stealth.generate_script(&config_settings(4, 8.0));
    assert!(!script.is_empty(), "script should not be empty");
    assert!(script.contains("(function()"), "script should contain IIFE");
    assert!(script.contains("'use strict'"), "script should use strict mode");
}

#[test]
fn generate_script_all_includes_canvas_webgl_audio() {
    let stealth = StealthEvasions::all();
    let script = stealth.generate_script(&config_settings(4, 8.0));
    assert!(script.contains("[OpenClaw Stealth: canvas_noise]"), "all-evasions script should include canvas_noise");
    assert!(script.contains("[OpenClaw Stealth: webgl_noise]"), "all-evasions script should include webgl_noise");
    assert!(script.contains("[OpenClaw Stealth: audio_noise]"), "all-evasions script should include audio_noise");
}

#[test]
fn each_evasion_appears_in_output_when_enabled() {
    let tag_map: Vec<(Evasion, &str)> = vec![
        (Evasion::WebdriverHide, "webdriver_hide"),
        (Evasion::ChromeRuntime, "chrome_runtime"),
        (Evasion::PluginArray, "plugin_array"),
        (Evasion::MimeTypeArray, "mime_type_array"),
        (Evasion::LanguageConsistency, "language_consistency"),
        (Evasion::PermissionsQuery, "permissions_query"),
        (Evasion::WebglVendor, "webgl_noise"),
        (Evasion::WebglNoise, "webgl_noise"),
        (Evasion::CanvasNoise, "canvas_noise"),
        (Evasion::AudioContextNoise, "audio_noise"),
        (Evasion::MediaDevices, "media_devices"),
        (Evasion::HardwareConcurrency, "hardware_props"),
        (Evasion::DeviceMemory, "hardware_props"),
        (Evasion::ScreenResolution, "screen_props"),
        (Evasion::IframeContentWindow, "iframe_fix"),
        (Evasion::UserAgentOverride, "ua_override"),
        (Evasion::FontFingerprint, "font_normalize"),
        (Evasion::CdcVariables, "cdc_cleanup"),
        (Evasion::ShadowDomLeaks, "shadow_dom_fix"),
    ];
    for (evasion, tag) in tag_map {
        let stealth = StealthEvasions { enabled_evasions: vec![evasion] };
        let script = stealth.generate_script(&config_settings(4, 8.0));
        let marker = format!("[OpenClaw Stealth: {}]", tag);
        assert!(script.contains(&marker), "{:?} should produce {}", evasion, marker);
    }
}

#[test]
fn custom_config_values_appear_in_script() {
    let mut s = config_settings(16, 32.0);
    s.user_agent = Some("TestAgent/1.0".into());
    s.screen_width = Some(2560);
    s.screen_height = Some(1440);
    s.color_depth = Some(30);
    s.webgl_vendor = Some("NVIDIA".into());
    s.webgl_renderer = Some("GeForce RTX 4090".into());
    s.languages = Some(vec!["fr-FR".into(), "fr".into()]);
    let script = StealthEvasions::all().generate_script(&s);
    assert!(script.contains("TestAgent/1.0"));
    assert!(script.contains("16"));
    assert!(script.contains("32"));
    assert!(script.contains("2560"));
    assert!(script.contains("1440"));
    assert!(script.contains("NVIDIA"));
    assert!(script.contains("GeForce RTX 4090"));
    assert!(script.contains("\"fr-FR\", \"fr\""));
}

#[test]
fn defaults_fill_missing_settings() {
    let script = StealthEvasions::all().generate_script(&settings());
    assert!(script.contains("1920"));
    assert!(script.contains("1080"));
    assert!(script.contains("Intel Iris OpenGL Engine"));
    assert!(script.contains("\"en-US\", \"en\""));
    assert!(script.contains("Chrome/120.0.0.0"));
}

#[test]
fn snippets_are_separated_by_blank_lines() {
    let stealth = StealthEvasions { enabled_evasions: vec![Evasion::CanvasNoise, Evasion::AudioContextNoise] };
    let script = stealth.generate_script(&settings());
    assert!(script.contains("// [OpenClaw Stealth: canvas_noise]\n\n// [OpenClaw Stealth: audio_noise]"));
}
