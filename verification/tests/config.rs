use greentic_operator::config::{
    binary_override, default_nats_url, default_receive_nats_url, is_comment_only, DemoConfig,
    DemoSubscriptionsMode, DomainEnabledMode, OperatorConfig,
};
use greentic_operator::string_map::StringMap;

#[test]
fn binary_override_resolves_relative_and_absolute_paths() {
    let mut config = OperatorConfig::default();
    config.binaries.insert("gateway".to_string(), "bin/gateway".to_string());
    config.binaries.insert("nats".to_string(), "/usr/bin/nats-server".to_string());

    assert_eq!(
        binary_override(Some(&config), "gateway", "/tmp/demo"),
        Some("/tmp/demo/bin/gateway".to_string())
    );
    assert_eq!(
        binary_override(Some(&config), "nats", "/tmp/demo"),
        Some("/usr/bin/nats-server".to_string())
    );
    assert_eq!(binary_override(Some(&config), "missing", "/tmp/demo"), None);
    assert_eq!(binary_override(None, "gateway", "/tmp/demo"), None);
}

#[test]
fn domain_enabled_mode_respects_auto_and_explicit_values() {
    assert!(DomainEnabledMode::Auto.is_enabled(true));
    assert!(!DomainEnabledMode::Auto.is_enabled(false));
    assert!(DomainEnabledMode::True.is_enabled(false));
    assert!(!DomainEnabledMode::False.is_enabled(true));
}

#[test]
fn load_operator_config_returns_none_for_missing_or_comment_only_file() {
    assert!(is_comment_only("# comment only\n   \n# still comment\n"));
    assert!(is_comment_only(""));
    assert!(!is_comment_only("binaries:\n  gateway: bin/gateway\n"));
    assert!(!is_comment_only("# header\nservices: {}\n"));
    assert!(is_comment_only("\r\n  # indented comment\r\n\t\n"));
}

#[test]
fn demo_config_defaults_match_documented_values() {
    let config = DemoConfig::default();
    assert_eq!(config.tenant, "demo");
    assert_eq!(config.team, "default");
    assert!(config.services.nats.enabled);
    assert_eq!(config.services.nats.url, default_nats_url());
    assert!(config.services.nats.spawn.enabled);
    assert_eq!(config.services.nats.spawn.binary, "nats-server");
    assert_eq!(config.services.nats.spawn.args, vec!["-p".to_string(), "4222".to_string(), "-js".to_string()]);
    assert_eq!(config.services.gateway.binary, "gateway");
    assert_eq!(config.services.gateway.listen_addr, "127.0.0.1");
    assert_eq!(config.services.gateway.port, 8080);
    assert_eq!(config.services.egress.binary, "egress");
    assert!(matches!(config.services.subscriptions.mode, DemoSubscriptionsMode::LegacyGsm));
    assert_eq!(config.services.subscriptions.universal.renew_interval_seconds, 60);
    assert_eq!(config.services.subscriptions.universal.renew_skew_minutes, 10);
    assert!(config.services.subscriptions.msgraph.enabled);
    assert_eq!(config.services.subscriptions.msgraph.binary, "subscriptions-msgraph");
    assert_eq!(config.services.subscriptions.msgraph.mode, "poll");
    assert_eq!(config.services.events.components.len(), 0);
    assert!(config.providers.is_none());
    assert_eq!(default_receive_nats_url(), "nats://127.0.0.1:4347");
}

#[test]
fn string_map_insert_replaces_and_keeps_others() {
    let mut m: StringMap<u32> = StringMap::new();
    assert!(m.is_empty());
    m.insert("a".to_string(), 1);
    m.insert("b".to_string(), 2);
    m.insert("a".to_string(), 3);
    assert_eq!(m.len(), 2);
    assert_eq!(m.get("a"), Some(&3));
    assert_eq!(m.get("b"), Some(&2));
    assert_eq!(m.get("c"), None);
    assert!(m.contains_key("b"));
    assert!(!m.contains_key("c"));
}
