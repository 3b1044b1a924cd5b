use std::collections::HashMap;

use browser_core::plugins::{
    execute_plugin, PluginCapability, PluginInput, PluginManifest, PluginRegistry, RegisteredPlugin,
};


fn sample_manifest(name: &str, domains: Vec<&str>, caps: Vec<PluginCapability>) -> PluginManifest {
    PluginManifest {
        name: name.into(),
        version: "0.1.0".into(),
        description: format!("Test plugin {}", name),
        author: Some("test".into()),
        domains: domains.into_iter().map(String::from).collect(),
        capabilities: caps,
        entry_point: "run".into(),
    }
}

#[test]
fn test_register_adds_plugin() {
    let mut reg = PluginRegistry::new();
    let m = sample_manifest("test-a", vec!["example.com"], vec![PluginCapability::Extract]);
    assert!(reg.register(m).is_ok());
    assert_eq!(reg.plugin_count(), 1);
}

#[test]
fn test_register_rejects_duplicate_names() {
    let mut reg = PluginRegistry::new();
    let m1 = sample_manifest("dup", vec!["a.com"], vec![PluginCapability::Extract]);
    let m2 = sample_manifest("dup", vec!["b.com"], vec![PluginCapability::Transform]);
    assert!(reg.register(m1).is_ok());
    assert!(reg.register(m2).is_err());
    assert_eq!(reg.plugin_count(), 1);
}

#[test]
fn test_find_for_domain_returns_matching() {
    let mut reg = PluginRegistry::new();
    reg.register(sample_manifest("p1", vec!["example.com"], vec![PluginCapability::Extract]))
        .unwrap();
    reg.register(sample_manifest("p2", vec!["other.com"], vec![PluginCapability::Transform]))
        .unwrap();
    reg.register(sample_manifest("p3", vec!["example.com", "test.com"], vec![PluginCapability::Navigate]))
        .unwrap();

    let matches = reg.find_for_domain("example.com");
    assert_eq!(matches.len(), 2);

    let names: Vec<&str> = matches.iter().map(|p| p.manifest.name.as_str()).collect();
    assert!(names.contains(&"p1"));
    assert!(names.contains(&"p3"));
}

#[test]
fn test_find_by_capability_filters_correctly() {
    let mut reg = PluginRegistry::new();
    reg.register(sample_manifest(
        "ext1",
        vec!["a.com"],
        vec![PluginCapability::Extract, PluginCapability::Transform],
    ))
    .unwrap();
    reg.register(sample_manifest(
        "nav1",
        vec!["b.com"],
        vec![PluginCapability::Navigate],
    ))
    .unwrap();
    reg.register(sample_manifest(
        "ext2",
        vec!["c.com"],
        vec![PluginCapability::Extract],
    ))
    .unwrap();

    let extractors = reg.find_by_capability(PluginCapability::Extract);
    assert_eq!(extractors.len(), 2);

    let navigators = reg.find_by_capability(PluginCapability::Navigate);
    assert_eq!(navigators.len(), 1);

    let searchers = reg.find_by_capability(PluginCapability::Search);
    assert_eq!(searchers.len(), 0);
}

#[test]
fn test_list_returns_all_manifests() {
    let mut reg = PluginRegistry::new();
    reg.register(sample_manifest("a", vec!["a.com"], vec![PluginCapability::Extract]))
        .unwrap();
    reg.register(sample_manifest("b", vec!["b.com"], vec![PluginCapability::Auth]))
        .unwrap();

    let manifests = reg.list();
    assert_eq!(manifests.len(), 2);
}

#[test]
fn test_remove_removes_plugin() {
    let mut reg = PluginRegistry::new();
    reg.register(sample_manifest("removable", vec!["x.com"], vec![PluginCapability::Search]))
        .unwrap();
    assert_eq!(reg.plugin_count(), 1);

    assert!(reg.remove("removable"));
    assert_eq!(reg.plugin_count(), 0);

    // Removing again returns false.
    assert!(!reg.remove("removable"));
}

#[test]
fn test_plugin_count() {
    let mut reg = PluginRegistry::new();
    assert_eq!(reg.plugin_count(), 0);

    reg.register(sample_manifest("c1", vec!["c.com"], vec![PluginCapability::Extract]))
        .unwrap();
    assert_eq!(reg.plugin_count(), 1);

    reg.register(sample_manifest("c2", vec!["d.com"], vec![PluginCapability::Transform]))
        .unwrap();
    assert_eq!(reg.plugin_count(), 2);
}

#[test]
fn test_execute_plugin_returns_not_available() {
    let plugin = RegisteredPlugin {
        manifest: sample_manifest("stub", vec!["stub.com"], vec![PluginCapability::Extract]),
        wasm_bytes: None,
        loaded: false,
    };
    let input = PluginInput {
        url: "https://stub.com".into(),
        html: "<html></html>".into(),
        dom_snapshot: None,
        custom_data: HashMap::new(),
    };

    let result = execute_plugin(&plugin, input);
    assert!(result.is_err());
    let err = result.unwrap_err();
    assert!(
        err.contains("WASM runtime not available"),
        "expected 'WASM runtime not available', got: {}",
        err
    );
}

#[test]
fn remove_then_register_same_name_succeeds() {
    let mut reg = PluginRegistry::new();
    reg.register(sample_manifest("again", vec!["a.com"], vec![PluginCapability::Extract]))
        .unwrap();
    assert!(reg.remove("again"));
    assert!(reg
        .register(sample_manifest("again", vec!["b.com"], vec![PluginCapability::Auth]))
        .is_ok());
    assert_eq!(reg.plugin_count(), 1);
    assert_eq!(reg.list()[0].domains, vec!["b.com".to_string()]);
}

#[test]
fn duplicate_registration_error_names_the_plugin() {
    let mut reg = PluginRegistry::new();
    reg.register(sample_manifest("dup2", vec!["a.com"], vec![PluginCapability::Extract]))
        .unwrap();
    let err = reg
        .register(sample_manifest("dup2", vec!["a.com"], vec![PluginCapability::Extract]))
        .unwrap_err();
    assert!(err.contains("dup2"));
}

#[test]
fn loaded_plugins_skip_taken_names() {
    let mut reg = PluginRegistry::new();
    assert!(reg.register_loaded(sample_manifest("disk", vec!["a.com"], vec![]), Some(vec![0, 97, 115, 109])));
    assert!(!reg.register_loaded(sample_manifest("disk", vec!["b.com"], vec![]), None));
    assert!(reg.register_loaded(sample_manifest("bare", vec!["c.com"], vec![]), None));
    assert_eq!(reg.plugin_count(), 2);
    let listed = reg.find_for_domain("a.com");
    assert_eq!(listed.len(), 1);
    assert!(listed[0].loaded);
    assert_eq!(listed[0].wasm_bytes.as_deref(), Some(&[0u8, 97, 115, 109][..]));
    let bare = reg.find_for_domain("c.com");
    assert!(!bare[0].loaded);
}

#[test]
fn remove_takes_away_one_plugin_or_none() {
    let mut reg = PluginRegistry::new();
    reg.register(sample_manifest("a", vec!["a.com"], vec![PluginCapability::Search])).unwrap();
    reg.register(sample_manifest("b", vec!["b.com"], vec![PluginCapability::Auth])).unwrap();
    reg.register(sample_manifest("c", vec!["c.com"], vec![PluginCapability::Extract])).unwrap();
    assert!(reg.remove("b"));
    assert_eq!(reg.plugin_count(), 2);
    assert!(!reg.remove("zzz"));
    assert_eq!(reg.plugin_count(), 2);
}
