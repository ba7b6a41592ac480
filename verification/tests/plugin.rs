use base64::Engine;
use ed25519_dalek::{Signer, SigningKey};
use owo_agent_core::mcp::McpServerConfig;
use owo_agent_core::plugin::install::{
    plugin_digest, plugin_mcp_config, verify_plugin_signature, verify_signature_bytes, MarketPluginEntry,
    MarketUpdateManifest, PluginInstallState, PluginManager, UpdateEnd,
};
use owo_agent_core::plugin::{
    discover_enabled_plugins, discover_plugins, extract_urls, scan_plugin_for_risks, url_domain, PluginManifest,
    PluginSignature, PluginStateStore, VersionsJson,
};
use owo_agent_core::table::Table;
use owo_agent_core::version::{version_cmp, version_gte, version_higher};

fn manifest(id: &str, name: &str, version: &str) -> PluginManifest {
    PluginManifest {
        id: id.to_string(),
        name: name.to_string(),
        version: version.to_string(),
        description: String::new(),
        permissions: Vec::new(),
        mcp: None,
        min_app_version: None,
        entry: None,
        network_allowlist: Vec::new(),
        signature: None,
    }
}

#[test]
fn loads_and_validates_manifest() {
    let mut demo = manifest("owo.plugin.demo", "Demo", "1.0.0");
    demo.mcp = Some(McpServerConfig::stdio("demo".to_string(), "demo-server".to_string(), Vec::new()));
    let loaded = PluginManifest::load(Ok(demo)).unwrap_or_else(|e| panic!("{}", e));
    assert_eq!(loaded.id, "owo.plugin.demo");
    assert!(loaded.mcp.is_some());
    assert!(PluginManifest::load(Ok(manifest("", "", "1"))).is_err());
    assert!(PluginManifest::load(Err("gone".to_string())).is_err());
}

#[test]
fn discovers_plugins_with_workspace_precedence() {
    let found = || {
        vec![
            ("w/a".to_string(), manifest("a", "A", "1.0.0")),
            ("d/a".to_string(), manifest("a", "A-global", "1.0.0")),
            ("d/b".to_string(), manifest("b", "B", "2.0.0")),
        ]
    };
    let plugins = discover_plugins(found());
    assert_eq!(plugins.len(), 2);
    let a = plugins.iter().find(|(_, m)| m.id == "a").unwrap();
    assert_eq!(a.1.name, "A");
    let mut state = PluginStateStore::new(&Vec::new());
    state.set_enabled("a", false);
    assert!(!state.is_enabled("a"));
    assert_eq!(discover_enabled_plugins(found(), &state).len(), 1);
    assert_eq!(state.disabled_ids(), vec!["a"]);
    state.reset();
    assert!(state.is_enabled("a"));
}

#[test]
fn plugin_mcp_config_resolves_relative_command() {
    let mut m = manifest("owo.demo", "Demo", "1.0.0");
    m.mcp = Some(McpServerConfig {
        name: "ignored".to_string(),
        transport: "stdio".to_string(),
        command: "server.py".to_string(),
        args: vec!["worker.py".to_string(), "--stdio".to_string()],
        url: None,
        timeout_ms: None,
    });
    let mut resolved: Table<String> = Table::new();
    resolved.insert("server.py".to_string(), "/p/server.py".to_string());
    resolved.insert("worker.py".to_string(), "/p/worker.py".to_string());
    let config = plugin_mcp_config(&m, &resolved).expect("应产出 MCP 配置");
    assert_eq!(config.name, "owo.demo");
    assert_eq!(config.command, "/p/server.py");
    assert_eq!(config.args[0], "/p/worker.py");
    assert_eq!(config.args[1], "--stdio");
    assert!(plugin_mcp_config(&manifest("owo.view", "View", "1.0.0"), &resolved).is_none());
}

#[test]
fn versions_are_ordered_by_their_numbers() {
    assert_eq!(version_cmp("1.10.0", "1.9.9"), std::cmp::Ordering::Greater);
    assert_eq!(version_cmp("1.0", "1.0.0"), std::cmp::Ordering::Equal);
    assert_eq!(version_cmp("0.9", "1"), std::cmp::Ordering::Less);
    assert!(version_gte("0.4.1", "0.4.0"));
    assert!(!version_higher("0.4.0", "0.4.0"));
}

#[test]
fn highest_version_that_runs_is_chosen() {
    let mut compatibility: Table<String> = Table::new();
    compatibility.insert_sorted("1.0.0".to_string(), "0.3.0".to_string());
    compatibility.insert_sorted("1.10.0".to_string(), "0.4.0".to_string());
    compatibility.insert_sorted("2.0.0".to_string(), "9.0.0".to_string());
    let versions = VersionsJson { compatibility };
    assert_eq!(versions.resolve_compatible("0.4.1").as_deref(), Some("1.10.0"));
    assert_eq!(versions.resolve_compatible("0.1").as_deref(), None);
}

#[test]
fn addresses_are_found_and_their_hosts_read() {
    let urls = extract_urls("fetch('https://evil.example/x') and http://a.b:80/y");
    assert_eq!(urls.len(), 2);
    assert_eq!(url_domain("https://evil.example/x").as_deref(), Some("evil.example"));
    assert_eq!(url_domain("http://a.b:80/y").as_deref(), Some("a.b"));
}

#[test]
fn risky_plugin_is_found_out() {
    assert!(scan_plugin_for_risks("{}", None, &Vec::new()).is_empty());
    let entry = "fetch('https://evil.example/x')";
    assert!(!scan_plugin_for_risks("{}", Some(entry), &Vec::new()).is_empty());
}

#[test]
fn digest_goes_by_manifest_and_entry_but_not_by_signature() {
    let m = manifest("a", "A", "1.0.0");
    let mut signed = manifest("a", "A", "1.0.0");
    signed.signature = Some(PluginSignature {
        algorithm: "ed25519".to_string(),
        public_key_b64: "AAAA".to_string(),
        signature_b64: "AAAA".to_string(),
    });
    assert_eq!(plugin_digest(&m, Some("x")), plugin_digest(&signed, Some("x")));
    assert_ne!(plugin_digest(&m, Some("x")), plugin_digest(&m, Some("y")));
    assert_ne!(plugin_digest(&m, None), plugin_digest(&manifest("b", "A", "1.0.0"), None));
}

#[test]
fn signature_is_checked() {
    let key = SigningKey::from_bytes(&[7u8; 32]);
    let mut m = manifest("a", "A", "1.0.0");
    assert!(verify_plugin_signature(&m, None).is_err());
    let digest = plugin_digest(&m, None);
    let signature = key.sign(&digest).to_bytes().to_vec();
    let public = key.verifying_key().to_bytes().to_vec();
    assert!(verify_signature_bytes("a", &public, &digest, &signature).is_ok());
    assert!(verify_signature_bytes("a", &public, &[0u8; 32], &signature).is_err());
    assert!(verify_signature_bytes("a", &vec![1, 2, 3], &digest, &signature).is_err());
    let engine = base64::engine::general_purpose::STANDARD;
    m.signature = Some(PluginSignature {
        algorithm: "ed25519".to_string(),
        public_key_b64: engine.encode(&public),
        signature_b64: engine.encode(&signature),
    });
    assert!(verify_plugin_signature(&m, None).is_ok());
    assert!(verify_plugin_signature(&m, Some("changed")).is_err());
    m.version = "1.0.1".to_string();
    assert!(verify_plugin_signature(&m, None).is_err());
}

#[test]
fn plugin_is_installed_updated_and_removed() {
    let mut manager = PluginManager::new("0.4.1".to_string());
    manager.set_require_signature(false);
    let m = manifest("a", "A", "1.0.0");
    let report = manager.verify_plugin_dir(&m, "{}", None).unwrap_or_else(|e| panic!("{}", e));
    assert!(manager.may_install(&report, false).is_ok());
    assert!(manager.may_install(&report, true).is_err());
    let installed = manager.install(report, "/plugins/a", Ok(())).unwrap_or_else(|e| panic!("{}", e));
    assert!(matches!(installed.state, PluginInstallState::Activated));
    let next = manager.verify_plugin_dir(&m, "{}", None).unwrap_or_else(|e| panic!("{}", e));
    assert!(manager.update_backup_name(&next, false).is_err());
    let backup = manager.update_backup_name(&next, true).unwrap();
    let next = manager.update_backed_up(next, &backup, Ok(())).unwrap_or_else(|e| panic!("{}", e));
    assert!(matches!(manager.update(next, Ok(())), UpdateEnd::Activated(_)));
    let failed = manager.verify_plugin_dir(&m, "{}", None).unwrap_or_else(|e| panic!("{}", e));
    assert!(matches!(manager.update(failed, Err("disk".to_string())), UpdateEnd::RollBack(_)));
    assert!(manager.uninstall("a", None).is_err());
    assert!(manager.uninstall("a", Some(Ok(()))).is_ok());
}

#[test]
fn unsigned_plugin_is_refused_where_a_signature_is_asked_for() {
    let mut manager = PluginManager::new("0.4.1".to_string());
    manager.set_require_signature(true);
    assert!(manager.verify_plugin_dir(&manifest("a", "A", "1.0.0"), "{}", None).is_err());
    manager.set_require_signature(false);
    let mut too_new = manifest("a", "A", "1.0.0");
    too_new.min_app_version = Some("9.0.0".to_string());
    assert!(manager.verify_plugin_dir(&too_new, "{}", None).is_err());
}

#[test]
fn market_offers_only_higher_versions_that_run() {
    let market = MarketUpdateManifest {
        plugins: vec![MarketPluginEntry {
            id: "a".to_string(),
            latest_version: "1.2.0".to_string(),
            min_app_version: Some("0.4.0".to_string()),
            signature: None,
        }],
    };
    assert!(market.has_update("a", "1.1.0", "0.4.1"));
    assert!(!market.has_update("a", "1.2.0", "0.4.1"));
    assert!(!market.has_update("a", "1.1.0", "0.3.0"));
    assert!(!market.has_update("b", "1.1.0", "0.4.1"));
}
