use kiro_gateway::http_client::ProxyConfig;
use kiro_gateway::http_client::SharedProxy;

#[test]
fn test_proxy_config_new() {
    let config = ProxyConfig::new("http://127.0.0.1:7890");
    assert_eq!(config.url, "http://127.0.0.1:7890");
    assert!(config.username.is_none());
    assert!(config.password.is_none());
}

#[test]
fn test_proxy_config_with_auth() {
    let config = ProxyConfig::new("socks5://127.0.0.1:1080").with_auth("user", "pass");
    assert_eq!(config.url, "socks5://127.0.0.1:1080");
    assert_eq!(config.username, Some("user".to_string()));
    assert_eq!(config.password, Some("pass".to_string()));
}

#[test]
fn shared_proxy_counts_replacements() {
    let mut cell = SharedProxy::new(None);
    assert_eq!(cell.version(), 0);
    assert!(cell.get().is_none());
    cell.set(Some(ProxyConfig::new("http://proxy:1")));
    assert_eq!(cell.version(), 1);
    assert_eq!(cell.get().unwrap().url, "http://proxy:1");
    assert!(cell.changed_since(0));
    assert!(!cell.changed_since(1));
    cell.set(None);
    assert_eq!(cell.version(), 2);
    assert!(cell.get().is_none());
}
