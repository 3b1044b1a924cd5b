use browser_core::tor::{DnsOverHttps, TorConfig, TorProxy};


#[test]
fn proxy_url_format() {
    let config = TorConfig {
        socks_port: 9150,
        ..TorConfig::default()
    };
    let proxy = TorProxy::new(config);
    assert_eq!(proxy.proxy_url(), "socks5://127.0.0.1:9150");
}

#[test]
fn default_proxy_url() {
    let proxy = TorProxy::new(TorConfig::default());
    assert_eq!(proxy.proxy_url(), "socks5://127.0.0.1:9050");
}

#[test]
fn is_enabled_reflects_config() {
    let mut config = TorConfig::default();
    config.enabled = true;
    let proxy = TorProxy::new(config);
    assert!(proxy.is_enabled());

    let proxy_disabled = TorProxy::new(TorConfig::default());
    assert!(!proxy_disabled.is_enabled());
}

#[test]
fn chrome_args_contains_proxy_server() {
    let config = TorConfig::default();
    let proxy = TorProxy::new(config);
    let args = proxy.chrome_args();
    assert!(args.iter().any(|a| a.contains("--proxy-server=socks5://")));
    assert!(args.iter().any(|a| a.contains("--host-resolver-rules")));
}

#[test]
fn new_circuit_creates_valid_circuit() {
    let mut proxy = TorProxy::new(TorConfig::default());
    let circuit = proxy.new_circuit();

    assert!(!circuit.id.is_empty());
    assert!(!circuit.entry_node.is_empty());
    assert!(!circuit.middle_node.is_empty());
    assert!(!circuit.exit_node.is_empty());
    assert!(circuit.is_active);
    assert_eq!(proxy.circuits.len(), 1);
    assert!(proxy.active_circuit().is_some());
}

#[test]
fn new_circuit_deactivates_previous() {
    let mut proxy = TorProxy::new(TorConfig::default());
    let first = proxy.new_circuit();
    let first_id = first.id.clone();

    let second = proxy.new_circuit();
    assert_ne!(first_id, second.id);
    assert_eq!(proxy.circuits.len(), 2);

    // First circuit should be deactivated
    let first_circuit = proxy.circuits.iter().find(|c| c.id == first_id).unwrap();
    assert!(!first_circuit.is_active);

    // Second should be active
    let active = proxy.active_circuit().unwrap();
    assert_eq!(active.id, second.id);
}

#[test]
fn exit_country_from_config() {
    let config = TorConfig {
        exit_nodes: Some(vec!["DE".to_string(), "NL".to_string()]),
        ..TorConfig::default()
    };
    let mut proxy = TorProxy::new(config);
    let circuit = proxy.new_circuit();
    assert_eq!(circuit.exit_country, Some("DE".to_string()));
}

#[test]
fn reqwest_proxy_succeeds() {
    let proxy = TorProxy::new(TorConfig::default());
    let result = proxy.reqwest_proxy();
    assert!(result.is_ok());
}

#[test]
fn doh_resolver_creation() {
    let doh = DnsOverHttps::new("https://dns.google/dns-query");
    assert_eq!(doh.resolver_url, "https://dns.google/dns-query");
}

#[test]
fn default_config_values() {
    let config = TorConfig::default();
    assert!(!config.enabled);
    assert_eq!(config.socks_port, 9050);
    assert_eq!(config.control_port, 9051);
    assert!(!config.bridge_mode);
    assert!(config.bridges.is_empty());
    assert!(config.exit_nodes.is_none());
    assert!(config.dns_over_https);
    assert_eq!(config.doh_resolver, "https://cloudflare-dns.com/dns-query");
}

#[test]
fn new_circuit_keeps_exactly_one_active() {
    let mut proxy = TorProxy::new(TorConfig::default());
    for _ in 0..4 {
        proxy.new_circuit();
    }
    assert_eq!(proxy.circuits.iter().filter(|c| c.is_active).count(), 1);
    assert_eq!(proxy.active_circuit().unwrap().id, proxy.circuits[3].id);
    assert_eq!(proxy.active_circuit.as_deref(), Some(proxy.circuits[3].id.as_str()));
}

#[test]
fn circuit_ids_are_uuid_shaped() {
    let mut proxy = TorProxy::new(TorConfig::default());
    let c = proxy.new_circuit();
    assert_eq!(c.id.len(), 36);
}

#[test]
fn doh_query_and_answers() {
    assert_eq!(
        DnsOverHttps::query_url("example.com", "https://dns.test/dns-query"),
        "https://dns.test/dns-query?name=example.com&type=A"
    );
    let answers = vec![
        (Some(5), Some("alias.example.com.".to_string())),
        (Some(1), Some("93.184.216.34".to_string())),
        (None, Some("1.1.1.1".to_string())),
        (Some(1), None),
        (Some(1), Some("93.184.216.35".to_string())),
    ];
    assert_eq!(DnsOverHttps::a_records(&answers), vec!["93.184.216.34".to_string(), "93.184.216.35".to_string()]);
    assert!(DnsOverHttps::a_records(&vec![]).is_empty());
}
