use kiro_gateway::kiro::model::credentials::KiroCredentials;
use kiro_gateway::model::config::AccountType;
use kiro_gateway::model::config::Config;
use kiro_gateway::model::config::DeviceType;
use kiro_gateway::model::config::TlsBackend;
use kiro_gateway::sync::auth::AuthClient;
use kiro_gateway::sync::auth::AuthStep;
use kiro_gateway::sync::client::bearer;
use kiro_gateway::sync::client::doubled;
use kiro_gateway::sync::client::retry_decision;
use kiro_gateway::sync::client::Failure;
use kiro_gateway::sync::client::RetryConfig;
use kiro_gateway::sync::client::RetryDecision;
use kiro_gateway::sync::client::SyncClient;
use kiro_gateway::sync::manager::alphabet_char;
use kiro_gateway::sync::manager::connection_state_name;
use kiro_gateway::sync::manager::convert_to_token_sync;
use kiro_gateway::sync::manager::device_credential_url;
use kiro_gateway::sync::manager::device_credentials_url;
use kiro_gateway::sync::manager::device_id;
use kiro_gateway::sync::manager::devices_url;
use kiro_gateway::sync::manager::generate_password;
use kiro_gateway::sync::manager::generated_email;
use kiro_gateway::sync::manager::is_device_online;
use kiro_gateway::sync::manager::SyncManager;
use kiro_gateway::sync::socketio_client::DeviceInfo;
use kiro_gateway::sync::types::OnlineDeviceInfo;
use kiro_gateway::sync::types::PushChangesResponse;
use kiro_gateway::sync::websocket::ConnectionState;

fn credential(id: Option<u64>, email: &str) -> KiroCredentials {
    KiroCredentials {
        id,
        access_token: Some(format!("at-{}", email)),
        refresh_token: Some(format!("rt-{}", email)),
        profile_arn: None,
        expires_at: Some("2026-02-15T11:40:31Z".to_string()),
        auth_method: Some("social".to_string()),
        client_id: None,
        client_secret: None,
        priority: 0,
        region: Some("us-east-1".to_string()),
        auth_region: None,
        api_region: None,
        machine_id: None,
        email: Some(email.to_string()),
        proxy_url: None,
        proxy_username: None,
        proxy_password: None,
        disabled: false,
    }
}

fn device() -> DeviceInfo {
    DeviceInfo {
        token: "tok".to_string(),
        device_id: "host-1".to_string(),
        device_name: "My Host".to_string(),
        device_type: "desktop".to_string(),
        account_type: Some("consumer".to_string()),
    }
}

#[test]
fn retries_wait_longer_each_time() {
    let config = RetryConfig::default();
    assert_eq!((config.max_retries, config.initial_delay_ms, config.exponential_backoff), (3, 1000, true));
    assert_eq!(retry_decision(&config, 0, Failure::Transport), RetryDecision::RetryAfter(1000));
    assert_eq!(retry_decision(&config, 1, Failure::Transport), RetryDecision::RetryAfter(2000));
    assert_eq!(retry_decision(&config, 2, Failure::Status(503)), RetryDecision::RetryAfter(4000));
    assert_eq!(retry_decision(&config, 3, Failure::Transport), RetryDecision::GiveUp);
    assert_eq!(retry_decision(&config, 4, Failure::Transport), RetryDecision::GiveUp);
}

#[test]
fn client_errors_are_not_retried() {
    let config = RetryConfig::default();
    assert_eq!(retry_decision(&config, 0, Failure::Status(500)), RetryDecision::RetryAfter(1000));
    assert_eq!(retry_decision(&config, 0, Failure::Status(599)), RetryDecision::RetryAfter(1000));
    assert_eq!(retry_decision(&config, 0, Failure::Status(499)), RetryDecision::GiveUp);
    assert_eq!(retry_decision(&config, 0, Failure::Status(404)), RetryDecision::GiveUp);
    assert_eq!(retry_decision(&config, 0, Failure::Status(401)), RetryDecision::GiveUp);
    assert_eq!(retry_decision(&config, 0, Failure::Status(0)), RetryDecision::GiveUp);
}

#[test]
fn retries_without_backoff_wait_the_same() {
    let config = RetryConfig { max_retries: 2, initial_delay_ms: 250, exponential_backoff: false };
    assert_eq!(retry_decision(&config, 0, Failure::Transport), RetryDecision::RetryAfter(250));
    assert_eq!(retry_decision(&config, 1, Failure::Transport), RetryDecision::RetryAfter(250));
    assert_eq!(retry_decision(&config, 2, Failure::Transport), RetryDecision::GiveUp);
    let never = RetryConfig { max_retries: 0, initial_delay_ms: 250, exponential_backoff: true };
    assert_eq!(retry_decision(&never, 0, Failure::Transport), RetryDecision::GiveUp);
}

#[test]
fn waits_stop_at_the_largest_number() {
    assert_eq!(doubled(3, 0), 3);
    assert_eq!(doubled(3, 4), 48);
    assert_eq!(doubled(0, 200), 0);
    assert_eq!(doubled(1, 63), 1 << 63);
    assert_eq!(doubled(1, 64), u64::MAX);
    assert_eq!(doubled(u64::MAX, 1), u64::MAX);
    let config = RetryConfig { max_retries: 100, initial_delay_ms: 1000, exponential_backoff: true };
    assert_eq!(retry_decision(&config, 70, Failure::Transport), RetryDecision::RetryAfter(u64::MAX));
}

#[test]
fn the_sync_client_knows_its_addresses() {
    let mut client = SyncClient::new("http://s:3000".to_string(), Some("tok".to_string()));
    assert_eq!(client.changes_url(), "http://s:3000/api/sync/changes");
    assert_eq!(client.version_url(), "http://s:3000/api/sync/version");
    assert_eq!(client.push_url(), "http://s:3000/api/sync/push");
    assert_eq!(client.token_url(17), "http://s:3000/api/sync/tokens/17");
    assert_eq!(client.bonus_url(0), "http://s:3000/api/sync/bonuses/0");
    assert_eq!(client.authorization().as_deref(), Some("Bearer tok"));
    assert_eq!(client.retry_rules().max_retries, 3);
    client.set_auth_token(None);
    assert!(client.authorization().is_none());
    client.set_auth_token(Some("new".to_string()));
    assert_eq!(client.authorization().as_deref(), Some("Bearer new"));
    assert_eq!(bearer(""), "Bearer ");
    let custom = SyncClient::new_with_retry(
        "http://s".to_string(),
        None,
        RetryConfig { max_retries: 7, initial_delay_ms: 1, exponential_backoff: false },
    );
    assert_eq!(custom.retry_rules().max_retries, 7);
    assert!(custom.authorization().is_none());
}

#[test]
fn authentication_tries_login_then_registration() {
    let client = AuthClient::new("http://s:3000".to_string());
    assert_eq!(client.register_url(), "http://s:3000/api/auth/register");
    assert_eq!(client.login_url(), "http://s:3000/api/auth/login");
    assert_eq!(AuthClient::next_step(None), AuthStep::Login);
    assert_eq!(AuthClient::next_step(Some((AuthStep::Login, true))), AuthStep::Finish);
    assert_eq!(AuthClient::next_step(Some((AuthStep::Login, false))), AuthStep::Register);
    assert_eq!(AuthClient::next_step(Some((AuthStep::Register, true))), AuthStep::Finish);
    assert_eq!(AuthClient::next_step(Some((AuthStep::Register, false))), AuthStep::Finish);
}

#[test]
fn the_manager_starts_from_the_configuration() {
    let mut config = Config::default_with("x".to_string());
    config.proxy_url = Some("http://p:1".to_string());
    config.proxy_username = Some("u".to_string());
    config.tls_backend = TlsBackend::NativeTls;
    config.set_config_path("cfg.json".to_string());
    let manager = SyncManager::new(&config);
    assert!(manager.is_enabled());
    assert_eq!(manager.get_sync_version(), 0);
    assert!(manager.get_device_info().is_none());
    assert_eq!(manager.config_path().as_deref(), Some("cfg.json"));
    assert_eq!(manager.tls_backend(), TlsBackend::NativeTls);
    let proxy = manager.proxy_config().unwrap();
    assert_eq!(proxy.url, "http://p:1");
    assert!(proxy.username.is_none() && proxy.password.is_none());
    config.proxy_password = Some("pw".to_string());
    let proxy = SyncManager::new(&config).proxy_config().unwrap();
    assert_eq!((proxy.username.as_deref(), proxy.password.as_deref()), (Some("u"), Some("pw")));
    config.sync_config = None;
    config.proxy_url = None;
    let manager = SyncManager::new(&config);
    assert!(!manager.is_enabled());
    assert!(manager.proxy_config().is_none());
    assert!(manager.existing_token().is_none());
}

#[test]
fn the_manager_can_be_switched_off() {
    let config = Config::default_with("x".to_string());
    let mut manager = SyncManager::new(&config);
    let mut sync = manager.config().unwrap();
    sync.enabled = false;
    sync.server_url = "http://other".to_string();
    manager.update_config(sync);
    assert!(!manager.is_enabled());
    assert_eq!(manager.config().unwrap().server_url, "http://other");
}

#[test]
fn an_account_is_made_up_where_none_is_configured() {
    let config = Config::default_with("x".to_string());
    let mut manager = SyncManager::new(&config);
    let (server, email, password) =
        manager.ensure_account_with("0123abcd-ef01-4234-8567-89abcdef0123", "Passw0rdPassw0rd".to_string()).unwrap();
    assert_eq!(server, "http://127.0.0.1:3002");
    assert_eq!(email, "kiro-0123abcd@auto.local");
    assert_eq!(password, "Passw0rdPassw0rd");
    let sync = manager.config().unwrap();
    assert_eq!(sync.email.as_deref(), Some("kiro-0123abcd@auto.local"));
    assert_eq!(sync.password.as_deref(), Some("Passw0rdPassw0rd"));
    // What is configured is kept.
    let (_, email, password) =
        manager.ensure_account_with("ffffffff-ffff-4fff-8fff-ffffffffffff", "other".to_string()).unwrap();
    assert_eq!(email, "kiro-0123abcd@auto.local");
    assert_eq!(password, "Passw0rdPassw0rd");
}

#[test]
fn an_empty_account_counts_as_none() {
    let mut config = Config::default_with("x".to_string());
    config.sync_config.as_mut().unwrap().email = Some(String::new());
    config.sync_config.as_mut().unwrap().password = Some("kept".to_string());
    let mut manager = SyncManager::new(&config);
    let (_, email, password) = manager.ensure_account().unwrap();
    assert_eq!(email.len(), "kiro-".len() + 8 + "@auto.local".len());
    assert!(email.starts_with("kiro-") && email.ends_with("@auto.local"));
    assert!(email[5..13].chars().all(|c| c.is_ascii_hexdigit()));
    assert_eq!(password, "kept");
    config.sync_config = None;
    let mut manager = SyncManager::new(&config);
    assert!(manager.ensure_account().is_none());
    assert!(manager.store_token("t".to_string()).is_none());
}

#[test]
fn generated_accounts_have_their_shape() {
    assert_eq!(generated_email("abcdefgh-rest"), "kiro-abcdefgh@auto.local");
    assert_eq!(generated_email("12345678"), "kiro-12345678@auto.local");
    let a = generate_password();
    let b = generate_password();
    assert_eq!(a.chars().count(), 16);
    assert!(a.chars().all(|c| c.is_ascii_alphanumeric()));
    assert!(b.chars().all(|c| c.is_ascii_alphanumeric()));
    assert_ne!(a, b);
    assert_eq!(alphabet_char(0), 'a');
    assert_eq!(alphabet_char(25), 'z');
    assert_eq!(alphabet_char(26), 'A');
    assert_eq!(alphabet_char(51), 'Z');
    assert_eq!(alphabet_char(52), '0');
    assert_eq!(alphabet_char(61), '9');
}

#[test]
fn a_token_is_kept_and_found_again() {
    let config = Config::default_with("x".to_string());
    let mut manager = SyncManager::new(&config);
    assert!(manager.existing_token().is_none());
    let saved = manager.store_token("jwt".to_string()).unwrap();
    assert_eq!(saved.auth_token.as_deref(), Some("jwt"));
    assert_eq!(saved.server_url, "http://127.0.0.1:3002");
    assert_eq!(manager.existing_token().as_deref(), Some("jwt"));
    manager.store_token(String::new()).unwrap();
    assert!(manager.existing_token().is_none());
}

#[test]
fn the_device_names_itself_after_host_and_time() {
    assert_eq!(device_id(Some("build-7"), 1_771_152_031), "build-7-1771152031");
    assert_eq!(device_id(None, 0), "unknown-0");
    assert_eq!(device_id(Some(""), -5), "--5");
    let mut config = Config::default_with("x".to_string());
    config.sync_config.as_mut().unwrap().device_type = DeviceType::Server;
    config.sync_config.as_mut().unwrap().account_type = AccountType::Supplier;
    let mut manager = SyncManager::new(&config);
    let info = manager
        .register_device("tok".to_string(), "My Host".to_string(), Some("build-7"), 42)
        .unwrap();
    assert_eq!(info.token, "tok");
    assert_eq!(info.device_id, "build-7-42");
    assert_eq!(info.device_name, "My Host");
    assert_eq!(info.device_type, "server");
    assert_eq!(info.account_type.as_deref(), Some("supplier"));
    assert_eq!(manager.get_device_info().unwrap().device_id, "build-7-42");
    config.sync_config = None;
    let mut manager = SyncManager::new(&config);
    assert!(manager.register_device("t".to_string(), "n".to_string(), None, 1).is_none());
    assert!(manager.get_device_info().is_none());
}

#[test]
fn credentials_are_reported_as_token_records() {
    let t = convert_to_token_sync(&credential(Some(7), "a@x"), &device(), "2026-02-15T10:40:31+00:00", 12).unwrap();
    assert_eq!(t.id, 7);
    assert_eq!(t.nickname.as_deref(), Some("a@x"));
    assert_eq!(t.access_token.as_deref(), Some("at-a@x"));
    assert_eq!(t.refresh_token.as_deref(), Some("rt-a@x"));
    assert_eq!(t.status.as_deref(), Some("active"));
    assert_eq!(t.device_id.as_deref(), Some("host-1"));
    assert_eq!(t.device_name.as_deref(), Some("My Host"));
    assert_eq!(t.device_type.as_deref(), Some("desktop"));
    assert_eq!(t.account_type.as_deref(), Some("consumer"));
    assert_eq!(t.last_sync_at.as_deref(), Some("2026-02-15T10:40:31+00:00"));
    assert!(t.client_id.is_none() && t.client_secret.is_none());
    assert_eq!(t.region.as_deref(), Some("us-east-1"));
    assert_eq!(t.auth_method.as_deref(), Some("social"));
    assert_eq!(t.expires_at.as_deref(), Some("2026-02-15T11:40:31Z"));
    assert_eq!(t.sync_version, 12);
    assert!(convert_to_token_sync(&credential(None, "a@x"), &device(), "now", 0).is_none());
}

#[test]
fn a_push_reports_the_credentials_that_have_an_id() {
    let config = Config::default_with("x".to_string());
    let mut manager = SyncManager::new(&config);
    manager.update_credentials(vec![credential(Some(2), "b"), credential(None, "n"), credential(Some(1), "a")]);
    // Without a registered device there is nothing to say.
    assert!(manager.push_request("now").is_none());
    manager.register_device("tok".to_string(), "name".to_string(), Some("h"), 1).unwrap();
    manager.note_version(33);
    let request = manager.push_request("now").unwrap();
    let tokens = request.tokens.unwrap();
    assert_eq!(tokens.iter().map(|t| t.id).collect::<Vec<u64>>(), vec![2, 1]);
    assert!(tokens.iter().all(|t| t.sync_version == 33 && t.device_id.as_deref() == Some("h-1")));
    assert!(request.token_usage.is_none());
    assert!(request.token_subscriptions.is_none());
    assert!(request.token_bonuses.is_none());
    assert_eq!(manager.token_snapshot("now").len(), 2);
}

#[test]
fn a_push_of_nothing_leaves_the_version_as_it_is() {
    let config = Config::default_with("x".to_string());
    let mut manager = SyncManager::new(&config);
    manager.register_device("tok".to_string(), "name".to_string(), Some("h"), 1).unwrap();
    manager.note_version(41);
    assert!(manager.push_request("now").is_none());
    manager.update_credentials(vec![credential(None, "no id")]);
    assert!(manager.push_request("now").is_none());
    assert_eq!(manager.get_sync_version(), 41);
}

#[test]
fn the_manager_remembers_versions() {
    let config = Config::default_with("x".to_string());
    let mut manager = SyncManager::new(&config);
    manager.note_version(5);
    assert_eq!(manager.get_sync_version(), 5);
    assert!(!manager.note_pushed(&PushChangesResponse { conflicts: vec![], current_version: 9 }));
    assert_eq!(manager.get_sync_version(), 9);
    assert!(manager.note_pushed(&PushChangesResponse { conflicts: vec![3], current_version: 8 }));
    assert_eq!(manager.get_sync_version(), 8);
}

#[test]
fn connection_states_have_names() {
    assert_eq!(connection_state_name(&ConnectionState::Disconnected), "disconnected");
    assert_eq!(connection_state_name(&ConnectionState::Connecting), "connecting");
    assert_eq!(connection_state_name(&ConnectionState::Connected), "connected");
    assert_eq!(connection_state_name(&ConnectionState::Registered), "registered");
    assert_eq!(connection_state_name(&ConnectionState::Error("boom".to_string())), "error: boom");
    assert_eq!(SyncManager::get_connection_state(None), None);
    assert_eq!(
        SyncManager::get_connection_state(Some(&ConnectionState::Registered)),
        Some("registered".to_string())
    );
}

#[test]
fn devices_are_looked_up_by_id() {
    let online = |id: &str| OnlineDeviceInfo {
        device_id: id.to_string(),
        device_name: String::new(),
        device_type: String::new(),
        account_type: String::new(),
        user_id: 1,
        user_email: String::new(),
        connected_at: 0,
        last_heartbeat: 0,
    };
    let devices = vec![online("a"), online("b")];
    assert!(is_device_online(&devices, "a"));
    assert!(is_device_online(&devices, "b"));
    assert!(!is_device_online(&devices, "c"));
    assert!(!is_device_online(&devices, ""));
    assert!(!is_device_online(&vec![], "a"));
    assert_eq!(devices_url("http://s"), "http://s/api/devices");
    assert_eq!(device_credentials_url("http://s", "dev-1"), "http://s/api/devices/dev-1/credentials");
    assert_eq!(device_credential_url("http://s", "dev-1", 12), "http://s/api/devices/dev-1/credentials/12");
}
