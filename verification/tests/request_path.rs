use kiro_gateway::admin::service::credential_from_request;
use kiro_gateway::admin::service::credentials_status;
use kiro_gateway::admin::service::load_balancing_mode_response;
use kiro_gateway::admin::service::requested_mode;
use kiro_gateway::admin::service::status_item;
use kiro_gateway::admin::types::AddCredentialRequest;
use kiro_gateway::api_key_store::ApiKeyInfo;
use kiro_gateway::http_client::same_proxy;
use kiro_gateway::http_client::ProxyConfig;
use kiro_gateway::http_client::SharedProxy;
use kiro_gateway::kiro::model::credentials::KiroCredentials;
use kiro_gateway::kiro::pool::CredentialPool;
use kiro_gateway::kiro::token_manager::CallOutcome;
use kiro_gateway::kiro::token_manager::CallState;
use kiro_gateway::kiro::token_manager::LoadBalancingMode;
use kiro_gateway::kiro::token_manager::MultiTokenManager;
use kiro_gateway::kiro::token_manager::NextStep;
use kiro_gateway::kiro::token_manager::Signal;
use kiro_gateway::sync::types::TokenSync;

fn credential(id: u64, priority: u32) -> KiroCredentials {
    KiroCredentials {
        id: Some(id),
        access_token: None,
        refresh_token: Some(format!("rt-{}", id)),
        profile_arn: None,
        expires_at: None,
        auth_method: Some("social".to_string()),
        client_id: None,
        client_secret: None,
        priority,
        region: None,
        auth_region: None,
        api_region: None,
        machine_id: None,
        email: None,
        proxy_url: None,
        proxy_username: None,
        proxy_password: None,
        disabled: false,
    }
}

fn manager_of(items: &[(u64, u32)]) -> MultiTokenManager {
    let mut pool = CredentialPool::new();
    for (id, priority) in items {
        pool.add(credential(*id, *priority)).unwrap();
    }
    MultiTokenManager::new(pool, LoadBalancingMode::Priority)
}

fn token(id: u64) -> TokenSync {
    TokenSync {
        id,
        nickname: None,
        access_token: None,
        refresh_token: None,
        status: None,
        device_id: None,
        device_name: None,
        device_type: None,
        account_type: None,
        last_sync_at: None,
        client_id: None,
        client_secret: None,
        region: None,
        auth_method: None,
        expires_at: None,
        sync_version: 0,
    }
}

#[test]
fn a_request_is_served_by_the_preferred_credential() {
    let mut manager = manager_of(&[(2, 1), (1, 0)]);
    let state = manager.begin_call().unwrap();
    assert_eq!(state, CallState { credential: 1, refreshed: false, alternatives_tried: 0 });
    assert_eq!(manager.current_credential_id(), Some(1));
    let (state, next) = manager.after_call(state, CallOutcome::Success, "now".to_string());
    assert_eq!(next, NextStep::Done);
    assert_eq!(state.credential, 1);
    let e = manager.pool().get(1).unwrap();
    assert_eq!((e.success_count, e.failure_count), (1, 0));
    assert_eq!(e.last_used_at.as_deref(), Some("now"));
    assert_eq!(manager.pool().get(2).unwrap().success_count, 0);
    let mut empty = MultiTokenManager::new(CredentialPool::new(), LoadBalancingMode::Priority);
    assert_eq!(empty.begin_call(), None);
}

#[test]
fn a_refused_token_is_refreshed_once_and_then_the_request_moves_on() {
    let mut manager = manager_of(&[(1, 0), (2, 1)]);
    let state = manager.begin_call().unwrap();
    // The first refusal asks for a refresh and counts nothing.
    let (state, next) = manager.after_call(state, CallOutcome::AuthExpired, "t1".to_string());
    assert_eq!(next, NextStep::RefreshAndRetry(1));
    assert_eq!(state, CallState { credential: 1, refreshed: true, alternatives_tried: 0 });
    assert_eq!(manager.pool().get(1).unwrap().failure_count, 0);
    // The second one counts against the credential, and the request moves on.
    let (state, next) = manager.after_call(state, CallOutcome::AuthExpired, "t2".to_string());
    assert_eq!(next, NextStep::RetryOn(2));
    assert_eq!(state, CallState { credential: 2, refreshed: false, alternatives_tried: 1 });
    assert!(manager.pool().get(1).unwrap().failure_count >= 1);
    assert_eq!(manager.pool().get(1).unwrap().total_failure_count, 1);
    assert_eq!(manager.current_credential_id(), Some(2));
    let (_, next) = manager.after_call(state, CallOutcome::Success, "t3".to_string());
    assert_eq!(next, NextStep::Done);
    assert_eq!(manager.pool().get(2).unwrap().success_count, 1);
}

#[test]
fn a_request_is_tried_on_at_most_three_other_credentials() {
    let mut manager = manager_of(&[(1, 0), (2, 1), (3, 2), (4, 3), (5, 4), (6, 5)]);
    let mut state = manager.begin_call().unwrap();
    let mut served = vec![state.credential];
    loop {
        let (after, next) = manager.after_call(state, CallOutcome::ServerError, "t".to_string());
        state = after;
        match next {
            NextStep::RetryOn(id) => served.push(id),
            NextStep::GiveUp => break,
            other => panic!("unexpected step {:?}", other),
        }
    }
    // The selection rule leaves out the credential that failed last only.
    assert_eq!(served, vec![1, 2, 1, 2]);
    assert_eq!(state.alternatives_tried, 3);
    assert_eq!(manager.pool().get(1).unwrap().failure_count, 2);
    assert_eq!(manager.pool().get(2).unwrap().failure_count, 2);
    assert_eq!(manager.pool().get(3).unwrap().failure_count, 0);
}

#[test]
fn a_request_gives_up_when_no_other_credential_is_left() {
    let mut manager = manager_of(&[(1, 0)]);
    let state = manager.begin_call().unwrap();
    let (state, next) = manager.after_call(state, CallOutcome::RateLimited, "t".to_string());
    assert_eq!(next, NextStep::GiveUp);
    assert_eq!(state.alternatives_tried, 0);
    assert_eq!(manager.pool().get(1).unwrap().failure_count, 1);
    // A credential that has left the pool counts nothing.
    let gone = CallState { credential: 9, refreshed: true, alternatives_tried: 0 };
    let (state, next) = manager.after_call(gone, CallOutcome::NetworkError, "t".to_string());
    assert_eq!(next, NextStep::RetryOn(1));
    assert_eq!(state.credential, 1);
    assert_eq!(manager.report_failure(9).ok(), None::<Signal>);
    for _ in 0..3 {
        assert_eq!(manager.report_failure(1), Ok(Signal::Failed));
    }
    assert_eq!(manager.report_failure(1), Ok(Signal::Rotate));
    assert!(manager.pool().get(1).unwrap().credential.disabled);
}

#[test]
fn changes_of_the_control_plane_are_applied() {
    let mut manager = manager_of(&[(1, 0), (2, 1), (3, 1)]);
    manager.select();
    manager.apply_refresh(2, "old-at".to_string(), None, None, 1000, 3600).unwrap();
    let mut changed = token(2);
    changed.access_token = Some("new-at".to_string());
    changed.nickname = Some("two@example.org".to_string());
    let mut fresh = token(7);
    fresh.refresh_token = Some("rt-7".to_string());
    fresh.auth_method = Some("social".to_string());
    let refused = token(8);
    manager.apply_changes(&vec![changed, fresh, refused], &vec![1, 42]);
    let ids: Vec<u64> = manager.pool().get_all().iter().map(|e| e.credential.id.unwrap()).collect();
    assert_eq!(ids, vec![7, 2, 3]);
    let two = manager.pool().get(2).unwrap();
    assert_eq!(two.credential.access_token.as_deref(), Some("new-at"));
    assert_eq!(two.credential.refresh_token.as_deref(), Some("rt-2"));
    assert_eq!(two.credential.email.as_deref(), Some("two@example.org"));
    assert_eq!(two.credential.priority, 1);
    assert_eq!(two.access_expires, None);
    let seven = manager.pool().get(7).unwrap();
    assert_eq!(seven.credential.refresh_token.as_deref(), Some("rt-7"));
    assert_eq!(seven.credential.priority, 0);
    assert!(manager.pool().get(8).is_none());
    assert_eq!(manager.current_credential_id(), None);
    manager.apply_changes(&vec![], &vec![]);
    assert_eq!(manager.pool().len(), 3);
    manager.apply_token(&token(3));
    assert_eq!(manager.pool().get(3).unwrap().credential.refresh_token.as_deref(), Some("rt-3"));
}

#[test]
fn keys_may_be_restricted() {
    let mut info = ApiKeyInfo {
        id: 1,
        label: String::new(),
        read_only: false,
        allowed_models: None,
        bound_credential_ids: None,
    };
    assert!(info.allows_model("opus"));
    assert!(info.allows_credential(3));
    assert!(info.allows_requests());
    info.allowed_models = Some(vec!["sonnet".to_string(), "haiku".to_string()]);
    info.bound_credential_ids = Some(vec![2, 3]);
    info.read_only = true;
    assert!(info.allows_model("sonnet"));
    assert!(info.allows_model("haiku"));
    assert!(!info.allows_model("opus"));
    assert!(!info.allows_model("Sonnet"));
    assert!(info.allows_credential(3));
    assert!(!info.allows_credential(4));
    assert!(!info.allows_requests());
    info.allowed_models = Some(vec![]);
    info.bound_credential_ids = Some(vec![]);
    assert!(!info.allows_model("sonnet"));
    assert!(!info.allows_credential(2));
}

#[test]
fn a_client_is_used_again_while_nothing_changed() {
    let own = Some(ProxyConfig::new("http://own:1").with_auth("u", "p"));
    let mut shared = SharedProxy::new(None);
    assert!(shared.client_is_current(0, &None, &None));
    assert!(shared.client_is_current(0, &own, &own.clone()));
    assert!(!shared.client_is_current(0, &None, &own));
    assert!(!shared.client_is_current(0, &own, &None));
    shared.set(Some(ProxyConfig::new("http://shared:1")));
    assert!(!shared.client_is_current(0, &None, &None));
    assert!(shared.client_is_current(1, &None, &None));
    assert!(same_proxy(&None, &None));
    assert!(same_proxy(&own, &own.clone()));
    assert!(!same_proxy(&own, &Some(ProxyConfig::new("http://own:1"))));
    assert!(!same_proxy(&own, &Some(ProxyConfig::new("http://own:1").with_auth("u", "q"))));
    assert!(!same_proxy(&own, &Some(ProxyConfig::new("http://own:2").with_auth("u", "p"))));
}

#[test]
fn the_pool_is_shown_to_the_operator() {
    let mut manager = manager_of(&[(3, 1), (1, 0), (2, 0)]);
    manager.set_disabled(2, true).unwrap();
    let shown = credentials_status(&manager);
    assert_eq!((shown.total, shown.available, shown.current_id), (3, 2, 0));
    manager.select();
    manager.report(1, CallOutcome::ServerError, "t".to_string()).unwrap();
    let shown = credentials_status(&manager);
    assert_eq!((shown.total, shown.available, shown.current_id), (3, 2, 1));
    let ids: Vec<(u64, u32, bool, bool)> =
        shown.credentials.iter().map(|c| (c.id, c.priority, c.disabled, c.is_current)).collect();
    assert_eq!(ids, vec![(1, 0, false, true), (2, 0, true, false), (3, 1, false, false)]);
    assert_eq!(shown.credentials[0].failure_count, 1);
    assert_eq!(shown.credentials[0].total_failure_count, 1);
    assert_eq!(shown.credentials[0].auth_method.as_deref(), Some("social"));
    assert!(!shown.credentials[0].has_profile_arn);
    assert!(!shown.credentials[0].has_proxy);
    assert!(shown.credentials[0].refresh_token_hash.is_none());
    let mut entry = manager.pool().get(3).unwrap();
    entry.credential.profile_arn = Some("arn".to_string());
    entry.credential.proxy_url = Some("direct".to_string());
    let item = status_item(&entry, Some(3), Some("digest".to_string()));
    assert!(item.is_current && item.has_profile_arn && item.has_proxy);
    assert_eq!(item.proxy_url.as_deref(), Some("direct"));
    assert_eq!(item.refresh_token_hash.as_deref(), Some("digest"));
}

#[test]
fn a_request_to_add_a_credential_is_read() {
    let request = AddCredentialRequest {
        refresh_token: "rt".to_string(),
        auth_method: "idc".to_string(),
        client_id: Some("cid".to_string()),
        client_secret: Some("sec".to_string()),
        priority: 4,
        region: Some("r".to_string()),
        auth_region: Some("a".to_string()),
        api_region: None,
        machine_id: Some("m".to_string()),
        email: Some("e@x".to_string()),
        proxy_url: Some("direct".to_string()),
        proxy_username: None,
        proxy_password: None,
    };
    let c = credential_from_request(&request);
    assert!(c.id.is_none() && c.access_token.is_none() && c.expires_at.is_none() && c.profile_arn.is_none());
    assert_eq!(c.refresh_token.as_deref(), Some("rt"));
    assert_eq!(c.auth_method.as_deref(), Some("idc"));
    assert_eq!((c.client_id.as_deref(), c.client_secret.as_deref()), (Some("cid"), Some("sec")));
    assert_eq!(c.priority, 4);
    assert_eq!((c.region.as_deref(), c.auth_region.as_deref(), c.api_region.as_deref()), (Some("r"), Some("a"), None));
    assert_eq!(c.machine_id.as_deref(), Some("m"));
    assert_eq!(c.email.as_deref(), Some("e@x"));
    assert_eq!(c.proxy_url.as_deref(), Some("direct"));
    assert!(!c.disabled);
    assert_eq!(load_balancing_mode_response(LoadBalancingMode::Balanced).mode, "balanced");
    assert_eq!(requested_mode("priority"), Some(LoadBalancingMode::Priority));
    assert_eq!(requested_mode("balanced"), Some(LoadBalancingMode::Balanced));
    assert_eq!(requested_mode("random"), None);
    assert_eq!(requested_mode(""), None);
}
