use kiro_gateway::admin::handlers::api_key_from;
use kiro_gateway::admin::handlers::apply_proxy_update;
use kiro_gateway::admin::handlers::apply_sync_settings;
use kiro_gateway::admin::handlers::connectivity_report;
use kiro_gateway::admin::handlers::create_key;
use kiro_gateway::admin::handlers::credential_deleted_message;
use kiro_gateway::admin::handlers::devices_query;
use kiro_gateway::admin::handlers::disabled_message;
use kiro_gateway::admin::handlers::force_requested;
use kiro_gateway::admin::handlers::generate_api_key;
use kiro_gateway::admin::handlers::granularity_param;
use kiro_gateway::admin::handlers::key_created_message;
use kiro_gateway::admin::handlers::key_deleted_message;
use kiro_gateway::admin::handlers::key_updated_message;
use kiro_gateway::admin::handlers::ledger_input_tokens;
use kiro_gateway::admin::handlers::openai_report;
use kiro_gateway::admin::handlers::primary_message;
use kiro_gateway::admin::handlers::priority_message;
use kiro_gateway::admin::handlers::proxy_from_request;
use kiro_gateway::admin::handlers::proxy_response;
use kiro_gateway::admin::handlers::reset_message;
use kiro_gateway::admin::handlers::sync_config_view;
use kiro_gateway::admin::handlers::sync_settings;
use kiro_gateway::admin::handlers::test_mode;
use kiro_gateway::admin::handlers::test_model;
use kiro_gateway::admin::handlers::TestMode;
use kiro_gateway::admin::handlers::TestOutcome;
use kiro_gateway::admin::middleware::admin_key_accepted;
use kiro_gateway::admin::types::default_auth_method;
use kiro_gateway::admin::types::AdminErrorResponse;
use kiro_gateway::admin::types::SuccessResponse;
use kiro_gateway::admin::types::UpdateProxyConfigRequest;
use kiro_gateway::http_client::ProxyConfig;
use kiro_gateway::model::config::AccountType;
use kiro_gateway::model::config::Config;
use kiro_gateway::model::config::DeviceType;
use kiro_gateway::token_usage::TimeGranularity;

fn proxy_request(
    enabled: bool,
    url: Option<&str>,
    username: Option<&str>,
    password: Option<&str>,
) -> UpdateProxyConfigRequest {
    UpdateProxyConfigRequest {
        enabled,
        url: url.map(|s| s.to_string()),
        username: username.map(|s| s.to_string()),
        password: password.map(|s| s.to_string()),
    }
}

#[test]
fn responses_carry_their_messages() {
    let ok = SuccessResponse::new("done");
    assert!(ok.success);
    assert_eq!(ok.message, "done");
    let e = AdminErrorResponse::new("teapot", "short and stout");
    assert_eq!((e.error.error_type.as_str(), e.error.message.as_str()), ("teapot", "short and stout"));
    assert_eq!(AdminErrorResponse::invalid_request("m").error.error_type, "invalid_request");
    assert_eq!(AdminErrorResponse::invalid_request("m").error.message, "m");
    let auth = AdminErrorResponse::authentication_error();
    assert_eq!(auth.error.error_type, "authentication_error");
    assert_eq!(auth.error.message, "Invalid or missing admin API key");
    assert_eq!(AdminErrorResponse::not_found("n").error.error_type, "not_found");
    assert_eq!(AdminErrorResponse::api_error("a").error.error_type, "api_error");
    assert_eq!(AdminErrorResponse::internal_error("i").error.error_type, "internal_error");
    assert_eq!(AdminErrorResponse::internal_error("i").error.message, "i");
    assert_eq!(default_auth_method(), "social");
}

#[test]
fn the_admin_key_must_match_in_full() {
    assert!(admin_key_accepted(Some("admin-secret"), "admin-secret"));
    assert!(!admin_key_accepted(Some("admin-secre"), "admin-secret"));
    assert!(!admin_key_accepted(Some("admin-secret!"), "admin-secret"));
    assert!(!admin_key_accepted(Some(""), "admin-secret"));
    assert!(!admin_key_accepted(None, "admin-secret"));
    assert!(!admin_key_accepted(None, ""));
    assert!(admin_key_accepted(Some(""), ""));
}

#[test]
fn api_keys_are_written_in_hex() {
    assert_eq!(api_key_from(&vec![]), "sk-");
    assert_eq!(api_key_from(&vec![0x00, 0x0f, 0x10, 0xab, 0xff]), "sk-000f10abff");
    let bytes: Vec<u8> = (0..=255u8).collect();
    assert_eq!(api_key_from(&bytes), format!("sk-{}", hex::encode(&bytes)));
}

#[test]
fn generated_api_keys_have_their_shape() {
    let a = generate_api_key();
    let b = generate_api_key();
    for key in [&a, &b] {
        assert_eq!(key.len(), 3 + 48);
        assert!(key.starts_with("sk-"));
        assert!(key[3..].chars().all(|c| c.is_ascii_digit() || ('a'..='f').contains(&c)));
    }
    assert_ne!(a, b);
}

#[test]
fn a_new_key_is_the_one_asked_for_unless_blank() {
    assert_eq!(create_key(Some("my-key".to_string())), "my-key");
    assert_eq!(create_key(Some(" padded ".to_string())), " padded ");
    for requested in [None, Some(String::new()), Some("  \t".to_string())] {
        let key = create_key(requested);
        assert!(key.starts_with("sk-"));
        assert_eq!(key.len(), 51);
    }
}

#[test]
fn a_proxy_request_must_name_the_proxy() {
    let wanted = proxy_from_request(&proxy_request(true, Some("http://p:1"), None, None)).unwrap().unwrap();
    assert_eq!(wanted.url, "http://p:1");
    assert!(wanted.username.is_none() && wanted.password.is_none());
    let wanted =
        proxy_from_request(&proxy_request(true, Some("socks5://p:2"), Some("u"), Some("pw"))).unwrap().unwrap();
    assert_eq!(wanted.username.as_deref(), Some("u"));
    assert_eq!(wanted.password.as_deref(), Some("pw"));
    let wanted = proxy_from_request(&proxy_request(true, Some("http://p:1"), Some("u"), None)).unwrap().unwrap();
    assert!(wanted.username.is_none() && wanted.password.is_none());
    assert!(proxy_from_request(&proxy_request(false, Some("http://p:1"), Some("u"), Some("pw"))).unwrap().is_none());
    assert!(proxy_from_request(&proxy_request(false, None, None, None)).unwrap().is_none());
    assert_eq!(
        proxy_from_request(&proxy_request(true, None, None, None)).unwrap_err(),
        "启用代理时必须提供代理地址"
    );
    assert_eq!(
        proxy_from_request(&proxy_request(true, Some(""), Some("u"), Some("p"))).unwrap_err(),
        "启用代理时必须提供代理地址"
    );
}

#[test]
fn a_proxy_request_is_written_into_the_configuration() {
    let mut config = Config::default_with("x".to_string());
    apply_proxy_update(&mut config, &proxy_request(true, Some("http://p:1"), Some("u"), None));
    assert_eq!(config.proxy_url.as_deref(), Some("http://p:1"));
    assert_eq!(config.proxy_username.as_deref(), Some("u"));
    assert!(config.proxy_password.is_none());
    assert_eq!(config.port, 8080);
    apply_proxy_update(&mut config, &proxy_request(false, Some("http://p:1"), Some("u"), Some("p")));
    assert!(config.proxy_url.is_none());
    assert!(config.proxy_username.is_none());
    assert!(config.proxy_password.is_none());
}

#[test]
fn the_proxy_is_shown_without_its_password() {
    let shown = proxy_response(Some(ProxyConfig::new("http://p:1").with_auth("u", "secret")));
    assert!(shown.enabled);
    assert_eq!(shown.url.as_deref(), Some("http://p:1"));
    assert_eq!(shown.username.as_deref(), Some("u"));
    assert!(shown.has_password);
    let shown = proxy_response(Some(ProxyConfig::new("http://p:1")));
    assert!(shown.enabled && !shown.has_password && shown.username.is_none());
    let shown = proxy_response(None);
    assert!(!shown.enabled && shown.url.is_none() && shown.username.is_none() && !shown.has_password);
}

#[test]
fn sync_settings_have_defaults() {
    let s = sync_settings(None, None, None, None, None);
    assert_eq!(s.server_url, "");
    assert!(s.auth_token.is_none());
    assert!(!s.enabled);
    assert_eq!((s.sync_interval, s.heartbeat_interval), (300, 15));
    let s = sync_settings(Some("http://s".to_string()), Some("tok".to_string()), Some(true), Some(60), Some(5));
    assert_eq!(s.server_url, "http://s");
    assert_eq!(s.auth_token.as_deref(), Some("tok"));
    assert!(s.enabled);
    assert_eq!((s.sync_interval, s.heartbeat_interval), (60, 5));
}

#[test]
fn sync_settings_keep_the_account_of_existing_settings() {
    let mut config = Config::default_with("x".to_string());
    {
        let sync = config.sync_config.as_mut().unwrap();
        sync.email = Some("me@example.org".to_string());
        sync.password = Some("pw".to_string());
        sync.account_type = AccountType::Supplier;
        sync.device_type = DeviceType::Server;
    }
    apply_sync_settings(
        &mut config,
        sync_settings(Some("http://s".to_string()), Some("tok".to_string()), Some(false), Some(60), Some(5)),
    );
    let sync = config.sync_config.as_ref().unwrap();
    assert_eq!(sync.server_url, "http://s");
    assert_eq!(sync.auth_token.as_deref(), Some("tok"));
    assert!(!sync.enabled);
    assert_eq!((sync.sync_interval, sync.heartbeat_interval), (60, 5));
    assert_eq!(sync.email.as_deref(), Some("me@example.org"));
    assert_eq!(sync.password.as_deref(), Some("pw"));
    assert_eq!(sync.account_type, AccountType::Supplier);
    assert_eq!(sync.device_type, DeviceType::Server);

    config.sync_config = None;
    apply_sync_settings(&mut config, sync_settings(Some("http://t".to_string()), None, Some(true), None, None));
    let sync = config.sync_config.as_ref().unwrap();
    assert_eq!(sync.server_url, "http://t");
    assert!(sync.email.is_none() && sync.password.is_none() && sync.auth_token.is_none());
    assert!(sync.enabled);
    assert_eq!((sync.sync_interval, sync.heartbeat_interval), (300, 15));
    assert_eq!(sync.account_type, AccountType::Consumer);
    assert_eq!(sync.device_type, DeviceType::Desktop);
}

#[test]
fn the_sync_settings_are_shown() {
    let mut config = Config::default_with("x".to_string());
    let shown = sync_config_view(&config, false);
    assert_eq!(shown.server_url, "http://127.0.0.1:3002");
    assert_eq!(shown.auth_token, "");
    assert!(!shown.enabled);
    assert_eq!((shown.sync_interval, shown.heartbeat_interval), (300, 15));
    config.sync_config.as_mut().unwrap().auth_token = Some("tok".to_string());
    assert_eq!(sync_config_view(&config, true).auth_token, "tok");
    assert!(sync_config_view(&config, true).enabled);
    config.sync_config = None;
    let shown = sync_config_view(&config, true);
    assert_eq!((shown.server_url.as_str(), shown.auth_token.as_str()), ("", ""));
    assert_eq!((shown.sync_interval, shown.heartbeat_interval), (300, 15));
}

#[test]
fn devices_are_asked_for_only_with_a_server_and_a_token() {
    let mut config = Config::default_with("x".to_string());
    assert!(devices_query(&config).is_none());
    config.sync_config.as_mut().unwrap().auth_token = Some("tok".to_string());
    assert_eq!(
        devices_query(&config),
        Some(("http://127.0.0.1:3002/api/devices".to_string(), "Bearer tok".to_string()))
    );
    config.sync_config.as_mut().unwrap().enabled = false;
    assert!(devices_query(&config).is_none());
    config.sync_config.as_mut().unwrap().enabled = true;
    config.sync_config.as_mut().unwrap().server_url = String::new();
    assert!(devices_query(&config).is_none());
    config.sync_config = None;
    assert!(devices_query(&config).is_none());
}

#[test]
fn parameters_are_read() {
    assert_eq!(granularity_param(None), Some(TimeGranularity::Day));
    assert_eq!(granularity_param(Some("hour")), Some(TimeGranularity::Hour));
    assert_eq!(granularity_param(Some("week")), Some(TimeGranularity::Week));
    assert_eq!(granularity_param(Some("year")), None);
    assert!(force_requested(Some("true")));
    assert!(!force_requested(Some("True")));
    assert!(!force_requested(Some("1")));
    assert!(!force_requested(Some("")));
    assert!(!force_requested(None));
    assert_eq!(test_mode("anthropic"), TestMode::Anthropic);
    assert_eq!(test_mode("openai"), TestMode::OpenAi);
    assert_eq!(test_mode("Anthropic"), TestMode::Unknown);
    assert_eq!(test_mode(""), TestMode::Unknown);
    assert_eq!(test_model(Some("opus"), "sonnet"), "opus");
    assert_eq!(test_model(None, "sonnet"), "sonnet");
    assert_eq!(ledger_input_tokens(Some(12)), 12);
    assert_eq!(ledger_input_tokens(None), 0);
}

#[test]
fn a_connectivity_test_that_is_answered_is_reported() {
    let r = connectivity_report(
        "sonnet",
        120,
        3,
        TestOutcome::Answered { text: "Hello!".to_string(), input_tokens: Some(40), output_tokens: 4 },
    );
    assert!(r.success);
    assert_eq!(r.mode, "anthropic");
    assert_eq!(r.latency_ms, 120);
    assert_eq!(r.credential_id, Some(3));
    assert_eq!(r.model.as_deref(), Some("sonnet"));
    assert_eq!(r.reply.as_deref(), Some("Hello!"));
    assert_eq!(r.input_tokens, Some(40));
    assert_eq!(r.output_tokens, Some(4));
    assert!(r.error.is_none());
    let silent = connectivity_report(
        "sonnet",
        5,
        3,
        TestOutcome::Answered { text: String::new(), input_tokens: None, output_tokens: 9 },
    );
    assert!(silent.success);
    assert!(silent.reply.is_none());
    assert_eq!(silent.input_tokens, None);
    assert_eq!(silent.output_tokens, Some(0));
}

#[test]
fn a_connectivity_test_that_fails_is_reported() {
    let r = connectivity_report("sonnet", 9, 3, TestOutcome::NoProvider);
    assert!(!r.success);
    assert_eq!(r.latency_ms, 0);
    assert!(r.credential_id.is_none() && r.model.is_none() && r.reply.is_none());
    assert!(r.input_tokens.is_none() && r.output_tokens.is_none());
    assert_eq!(r.error.as_deref(), Some("KiroProvider 未配置"));
    let r = connectivity_report("sonnet", 9, 3, TestOutcome::ConversionFailed("bad block".to_string()));
    assert_eq!(r.latency_ms, 0);
    assert!(r.credential_id.is_none());
    assert_eq!(r.model.as_deref(), Some("sonnet"));
    assert_eq!(r.error.as_deref(), Some("请求转换失败: bad block"));
    let r = connectivity_report("sonnet", 9, 3, TestOutcome::SerializationFailed("x".to_string()));
    assert_eq!(r.error.as_deref(), Some("序列化失败: x"));
    let r = connectivity_report("sonnet", 9, 3, TestOutcome::CallFailed("refused".to_string()));
    assert_eq!(r.latency_ms, 9);
    assert_eq!(r.credential_id, Some(3));
    assert_eq!(r.error.as_deref(), Some("API 调用失败: refused"));
    let r = connectivity_report("sonnet", 30000, 3, TestOutcome::TimedOut);
    assert_eq!(r.error.as_deref(), Some("连接超时（30 秒）"));
    let r = connectivity_report("sonnet", 9, 3, TestOutcome::Status(429, "slow down".to_string()));
    assert_eq!(r.error.as_deref(), Some("HTTP 429: slow down"));
    let r = connectivity_report("sonnet", 9, 3, TestOutcome::ReadFailed("eof".to_string()));
    assert_eq!(r.error.as_deref(), Some("读取响应失败: eof"));
    assert!(!r.success && r.reply.is_none() && r.output_tokens.is_none());
    let r = openai_report();
    assert!(!r.success);
    assert_eq!(r.mode, "openai");
    assert_eq!(r.error.as_deref(), Some("OpenAI 兼容端点暂未实现"));
}

#[test]
fn messages_name_the_thing_they_speak_of() {
    assert_eq!(disabled_message(3, true), "凭据 #3 已禁用");
    assert_eq!(disabled_message(3, false), "凭据 #3 已启用");
    assert_eq!(priority_message(12, 0), "凭据 #12 优先级已设置为 0");
    assert_eq!(priority_message(12, 4_000_000_000), "凭据 #12 优先级已设置为 4000000000");
    assert_eq!(primary_message(5), "凭据 #5 已设为首选");
    assert_eq!(reset_message(5), "凭据 #5 失败计数已重置并重新启用");
    assert_eq!(credential_deleted_message(5), "凭据 #5 已删除");
    assert_eq!(key_created_message(1), "API Key #1 已创建");
    assert_eq!(key_updated_message(u64::MAX), "API Key #18446744073709551615 已更新");
    assert_eq!(key_deleted_message(0), "API Key #0 已删除");
}
