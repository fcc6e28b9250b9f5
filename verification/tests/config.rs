use kiro_gateway::model::config::default_count_tokens_auth_type;
use kiro_gateway::model::config::default_heartbeat_interval;
use kiro_gateway::model::config::default_host;
use kiro_gateway::model::config::default_kiro_version;
use kiro_gateway::model::config::default_load_balancing_mode;
use kiro_gateway::model::config::default_node_version;
use kiro_gateway::model::config::default_port;
use kiro_gateway::model::config::default_region;
use kiro_gateway::model::config::default_sync_config;
use kiro_gateway::model::config::default_sync_enabled;
use kiro_gateway::model::config::default_sync_interval;
use kiro_gateway::model::config::default_system_version;
use kiro_gateway::model::config::default_tls_backend;
use kiro_gateway::model::config::system_version_at;
use kiro_gateway::model::config::AccountType;
use kiro_gateway::model::config::Config;
use kiro_gateway::model::config::DeviceType;
use kiro_gateway::model::config::TlsBackend;

#[test]
fn defaults_have_their_values() {
    assert!(default_sync_enabled());
    assert_eq!(default_sync_interval(), 300);
    assert_eq!(default_heartbeat_interval(), 15);
    assert_eq!(default_host(), "0.0.0.0");
    assert_eq!(default_port(), 8080);
    assert_eq!(default_region(), "us-east-1");
    assert_eq!(default_kiro_version(), "0.9.2");
    assert_eq!(default_node_version(), "22.21.1");
    assert_eq!(default_count_tokens_auth_type(), "x-api-key");
    assert_eq!(default_tls_backend(), TlsBackend::Rustls);
    assert_eq!(default_load_balancing_mode(), "priority");
    assert_eq!(TlsBackend::default(), TlsBackend::Rustls);
    assert_eq!(AccountType::default(), AccountType::Consumer);
    assert_eq!(DeviceType::default(), DeviceType::Desktop);
    assert_eq!(Config::default_config_path(), "config.json");
}

#[test]
fn the_default_system_version_is_one_of_two() {
    assert_eq!(system_version_at(0), "darwin#24.6.0");
    assert_eq!(system_version_at(1), "win32#10.0.22631");
    let mut seen_darwin = false;
    let mut seen_win = false;
    for _ in 0..200 {
        let v = default_system_version();
        match v.as_str() {
            "darwin#24.6.0" => seen_darwin = true,
            "win32#10.0.22631" => seen_win = true,
            other => panic!("unexpected system version {}", other),
        }
    }
    assert!(seen_darwin && seen_win);
}

#[test]
fn the_default_sync_config_points_at_the_local_server() {
    let sync = default_sync_config().unwrap();
    assert_eq!(sync.server_url, "http://127.0.0.1:3002");
    assert!(sync.email.is_none());
    assert!(sync.password.is_none());
    assert!(sync.auth_token.is_none());
    assert!(sync.enabled);
    assert_eq!(sync.sync_interval, 300);
    assert_eq!(sync.heartbeat_interval, 15);
    assert_eq!(sync.account_type, AccountType::Consumer);
    assert_eq!(sync.device_type, DeviceType::Desktop);
}

#[test]
fn the_default_config_has_the_defaults() {
    let config = Config::default();
    assert_eq!(config.host, "0.0.0.0");
    assert_eq!(config.port, 8080);
    assert_eq!(config.region, "us-east-1");
    assert!(config.auth_region.is_none());
    assert!(config.api_region.is_none());
    assert_eq!(config.kiro_version, "0.9.2");
    assert!(config.machine_id.is_none());
    assert!(config.api_key.is_none());
    assert!(config.system_version == "darwin#24.6.0" || config.system_version == "win32#10.0.22631");
    assert_eq!(config.node_version, "22.21.1");
    assert_eq!(config.tls_backend, TlsBackend::Rustls);
    assert!(config.count_tokens_api_url.is_none());
    assert!(config.count_tokens_api_key.is_none());
    assert_eq!(config.count_tokens_auth_type, "x-api-key");
    assert!(config.proxy_url.is_none());
    assert!(config.proxy_username.is_none());
    assert!(config.proxy_password.is_none());
    assert!(config.admin_api_key.is_none());
    assert_eq!(config.load_balancing_mode, "priority");
    assert_eq!(config.sync_config.as_ref().unwrap().server_url, "http://127.0.0.1:3002");
    assert!(config.config_path().is_none());
    let fixed = Config::default_with("win32#10.0.22631".to_string());
    assert_eq!(fixed.system_version, "win32#10.0.22631");
}

#[test]
fn effective_regions_fall_back_to_the_region() {
    let mut config = Config::default_with("x".to_string());
    assert_eq!(config.effective_auth_region(), "us-east-1");
    assert_eq!(config.effective_api_region(), "us-east-1");
    config.auth_region = Some("eu-west-1".to_string());
    assert_eq!(config.effective_auth_region(), "eu-west-1");
    assert_eq!(config.effective_api_region(), "us-east-1");
    config.api_region = Some("ap-south-1".to_string());
    assert_eq!(config.effective_api_region(), "ap-south-1");
    config.set_config_path("/etc/kiro/config.json".to_string());
    assert_eq!(config.config_path(), Some("/etc/kiro/config.json"));
    assert_eq!(config.host, "0.0.0.0");
}

#[test]
fn account_and_device_types_have_wire_names() {
    assert_eq!(AccountType::Supplier.as_str(), "supplier");
    assert_eq!(AccountType::Consumer.as_str(), "consumer");
    assert_eq!(DeviceType::Desktop.as_str(), "desktop");
    assert_eq!(DeviceType::Mobile.as_str(), "mobile");
    assert_eq!(DeviceType::Server.as_str(), "server");
}
