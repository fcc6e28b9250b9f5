use kiro_gateway::http_client::ProxyConfig;
use kiro_gateway::kiro::model::credentials::KiroCredentials;
use kiro_gateway::kiro::pool::CredentialPool;
use kiro_gateway::kiro::pool::PoolEntry;
use kiro_gateway::kiro::pool::PoolError;
use kiro_gateway::kiro::token_manager::effective_api_region;
use kiro_gateway::kiro::token_manager::effective_auth_region;
use kiro_gateway::kiro::token_manager::effective_proxy;
use kiro_gateway::kiro::token_manager::may_try_alternative;
use kiro_gateway::kiro::token_manager::refresh_request;
use kiro_gateway::kiro::token_manager::CallOutcome;
use kiro_gateway::kiro::token_manager::LoadBalancingMode;
use kiro_gateway::kiro::token_manager::MultiTokenManager;
use kiro_gateway::kiro::token_manager::RefreshRequest;
use kiro_gateway::kiro::token_manager::Signal;

fn credential(id: Option<u64>, priority: u32) -> KiroCredentials {
    KiroCredentials {
        id,
        access_token: None,
        refresh_token: Some("rt".to_string()),
        profile_arn: None,
        expires_at: None,
        auth_method: Some("social".to_string()),
        client_id: None,
        client_secret: None,
        priority,
        region: None,
        auth_region: None,
        api_region: None,
        machine_id: None,
        email: None,
        proxy_url: None,
        proxy_username: None,
        proxy_password: None,
        disabled: false,
    }
}

fn pool_of(items: &[(u64, u32)]) -> CredentialPool {
    let mut pool = CredentialPool::new();
    for (id, priority) in items {
        pool.add(credential(Some(*id), *priority)).unwrap();
    }
    pool
}

fn order(pool: &CredentialPool) -> Vec<(u32, u64)> {
    pool.get_all().iter().map(|e| (e.credential.priority, e.credential.id.unwrap())).collect()
}

fn is_sorted(pool: &CredentialPool) -> bool {
    let o = order(pool);
    o.windows(2).all(|w| w[0] < w[1])
}

fn id_of(e: &PoolEntry) -> u64 {
    e.credential.id.unwrap()
}

#[test]
fn the_pool_is_sorted_by_priority_then_id() {
    let pool = pool_of(&[(5, 1), (2, 1), (9, 0), (1, 2), (3, 0)]);
    assert_eq!(order(&pool), vec![(0, 3), (0, 9), (1, 2), (1, 5), (2, 1)]);
    assert_eq!(pool.len(), 5);
}

#[test]
fn the_pool_stays_sorted_after_every_change() {
    let mut pool = pool_of(&[(5, 1), (2, 1), (9, 0), (1, 2), (3, 0)]);
    pool.set_priority(1, 0).unwrap();
    assert_eq!(order(&pool), vec![(0, 1), (0, 3), (0, 9), (1, 2), (1, 5)]);
    pool.set_priority(3, 7).unwrap();
    assert_eq!(order(&pool), vec![(0, 1), (0, 9), (1, 2), (1, 5), (7, 3)]);
    pool.set_priority(3, 7).unwrap();
    assert!(is_sorted(&pool));
    pool.set_disabled(9, true).unwrap();
    assert!(is_sorted(&pool));
    assert!(pool.get(9).unwrap().credential.disabled);
    pool.delete(2).unwrap();
    assert_eq!(order(&pool), vec![(0, 1), (0, 9), (1, 5), (7, 3)]);
    pool.set_primary(5).unwrap();
    assert_eq!(order(&pool), vec![(0, 5), (1, 1), (1, 9), (7, 3)]);
    pool.reset(9).unwrap();
    assert!(!pool.get(9).unwrap().credential.disabled);
    let id = pool.add(credential(None, 1)).unwrap();
    assert_eq!(id, 10);
    assert_eq!(order(&pool), vec![(0, 5), (1, 1), (1, 9), (1, 10), (7, 3)]);
    assert!(is_sorted(&pool));
}

#[test]
fn set_primary_demotes_the_others_at_priority_zero() {
    let mut pool = pool_of(&[(1, 0), (3, 0), (5, 0), (7, 1), (8, 4)]);
    pool.set_primary(3).unwrap();
    assert_eq!(pool.get(3).unwrap().credential.priority, 0);
    assert_eq!(pool.get(1).unwrap().credential.priority, 1);
    assert_eq!(pool.get(5).unwrap().credential.priority, 1);
    assert_eq!(pool.get(7).unwrap().credential.priority, 1);
    assert_eq!(pool.get(8).unwrap().credential.priority, 4);
    assert_eq!(order(&pool), vec![(0, 3), (1, 1), (1, 5), (1, 7), (4, 8)]);
    // Making a lesser credential the preferred one.
    pool.set_primary(8).unwrap();
    assert_eq!(order(&pool), vec![(0, 8), (1, 1), (1, 3), (1, 5), (1, 7)]);
    // Doing it again changes nothing.
    pool.set_primary(8).unwrap();
    assert_eq!(order(&pool), vec![(0, 8), (1, 1), (1, 3), (1, 5), (1, 7)]);
    assert_eq!(pool.set_primary(99), Err(PoolError::NotFound));
}

#[test]
fn missing_credentials_are_reported() {
    let mut pool = pool_of(&[(1, 0)]);
    assert_eq!(pool.set_disabled(2, true), Err(PoolError::NotFound));
    assert_eq!(pool.set_priority(2, 1), Err(PoolError::NotFound));
    assert_eq!(pool.reset(2), Err(PoolError::NotFound));
    assert_eq!(pool.delete(2), Err(PoolError::NotFound));
    assert!(pool.get(2).is_none());
    assert_eq!(pool.locate(1), Some(0));
    assert_eq!(pool.locate(2), None);
    assert_eq!(order(&pool), vec![(0, 1)]);
}

#[test]
fn credentials_are_checked_when_they_join() {
    let mut pool = CredentialPool::new();
    assert_eq!(pool.largest_id(), 0);
    assert_eq!(pool.add(credential(None, 3)), Ok(1));
    assert_eq!(pool.add(credential(Some(1), 0)), Err(PoolError::DuplicateId));
    assert_eq!(pool.add(credential(Some(40), 0)), Ok(40));
    assert_eq!(pool.add(credential(None, 0)), Ok(41));
    assert_eq!(pool.largest_id(), 41);
    let mut c = credential(None, 0);
    c.refresh_token = None;
    assert_eq!(pool.add(c), Err(PoolError::MissingRefreshToken));
    let mut c = credential(None, 0);
    c.refresh_token = Some(String::new());
    assert_eq!(pool.add(c), Err(PoolError::MissingRefreshToken));
    let mut c = credential(None, 0);
    c.auth_method = Some("idc".to_string());
    assert_eq!(pool.add(c), Err(PoolError::MissingClientCredentials));
    let mut c = credential(None, 0);
    c.auth_method = Some("idc".to_string());
    c.client_id = Some("cid".to_string());
    c.client_secret = Some(String::new());
    assert_eq!(pool.add(c), Err(PoolError::MissingClientCredentials));
    let mut c = credential(None, 0);
    c.auth_method = Some("idc".to_string());
    c.client_id = Some("cid".to_string());
    c.client_secret = Some("sec".to_string());
    assert_eq!(pool.add(c), Ok(42));
    assert_eq!(pool.add(credential(Some(u64::MAX), 0)), Ok(u64::MAX));
    assert_eq!(pool.add(credential(None, 0)), Err(PoolError::OutOfIds));
    assert_eq!(pool.len(), 5);
    let fresh = pool.get(42).unwrap();
    assert_eq!((fresh.failure_count, fresh.total_failure_count, fresh.success_count), (0, 0, 0));
    assert!(fresh.last_used_at.is_none() && fresh.access_expires.is_none());
    assert_eq!(PoolError::NotFound.message(), "credential not found");
    assert_eq!(PoolError::OutOfIds.message(), "no credential id left");
}

#[test]
fn the_priority_mode_picks_the_first_enabled_credential() {
    let mut manager = MultiTokenManager::new(pool_of(&[(2, 1), (1, 0)]), LoadBalancingMode::Priority);
    assert_eq!(manager.current_credential_id(), None);
    assert_eq!(manager.select(), Some(1));
    assert_eq!(manager.current_credential_id(), Some(1));
    assert_eq!(manager.select(), Some(1));
    manager.set_disabled(1, true).unwrap();
    assert_eq!(manager.select(), Some(2));
    assert_eq!(manager.current_credential_id(), Some(2));
    manager.set_disabled(2, true).unwrap();
    assert_eq!(manager.select(), None);
    assert_eq!(manager.current_credential_id(), Some(2));
    let mut empty = MultiTokenManager::new(CredentialPool::new(), LoadBalancingMode::Balanced);
    assert_eq!(empty.select(), None);
}

#[test]
fn the_balanced_mode_takes_turns_in_the_best_tier() {
    let mut manager =
        MultiTokenManager::new(pool_of(&[(4, 0), (2, 0), (9, 0), (1, 1), (3, 1)]), LoadBalancingMode::Balanced);
    let picks: Vec<Option<u64>> = (0..7).map(|_| manager.select()).collect();
    assert_eq!(picks, vec![Some(2), Some(4), Some(9), Some(2), Some(4), Some(9), Some(2)]);
    manager.set_disabled(4, true).unwrap();
    let picks: Vec<Option<u64>> = (0..4).map(|_| manager.select()).collect();
    assert!(picks.iter().all(|p| *p == Some(2) || *p == Some(9)));
    assert_ne!(picks[0], picks[1]);
    // When the best tier is used up the next one serves.
    manager.set_disabled(2, true).unwrap();
    manager.set_disabled(9, true).unwrap();
    let picks: Vec<Option<u64>> = (0..4).map(|_| manager.select()).collect();
    assert!(picks.iter().all(|p| *p == Some(1) || *p == Some(3)));
    assert_ne!(picks[0], picks[1]);
    manager.set_mode(LoadBalancingMode::Priority);
    assert_eq!(manager.mode(), LoadBalancingMode::Priority);
    assert_eq!(manager.select(), Some(1));
    assert_eq!(manager.select(), Some(1));
}

#[test]
fn modes_have_names() {
    assert_eq!(LoadBalancingMode::from_str("priority"), LoadBalancingMode::Priority);
    assert_eq!(LoadBalancingMode::from_str("balanced"), LoadBalancingMode::Balanced);
    assert_eq!(LoadBalancingMode::from_str("anything"), LoadBalancingMode::Priority);
    assert_eq!(LoadBalancingMode::Priority.as_str(), "priority");
    assert_eq!(LoadBalancingMode::Balanced.as_str(), "balanced");
}

#[test]
fn a_success_clears_the_failures() {
    let mut manager = MultiTokenManager::new(pool_of(&[(1, 0)]), LoadBalancingMode::Priority);
    assert_eq!(manager.report(1, CallOutcome::ServerError, "t1".to_string()), Ok(Signal::Failed));
    assert_eq!(manager.report(1, CallOutcome::RateLimited, "t2".to_string()), Ok(Signal::Failed));
    let e = manager.pool().get(1).unwrap();
    assert_eq!((e.failure_count, e.total_failure_count, e.success_count), (2, 2, 0));
    assert!(e.last_used_at.is_none());
    assert_eq!(manager.report(1, CallOutcome::Success, "t3".to_string()), Ok(Signal::Proceed));
    let e = manager.pool().get(1).unwrap();
    assert_eq!((e.failure_count, e.total_failure_count, e.success_count), (0, 2, 1));
    assert_eq!(e.last_used_at.as_deref(), Some("t3"));
    assert_eq!(manager.report(1, CallOutcome::AuthExpired, "t4".to_string()), Ok(Signal::Refresh));
    let e = manager.pool().get(1).unwrap();
    assert_eq!((e.failure_count, e.total_failure_count, e.success_count), (0, 2, 1));
    assert_eq!(manager.report(7, CallOutcome::Success, "t".to_string()), Err(PoolError::NotFound));
}

#[test]
fn five_failures_in_a_row_disable_a_credential() {
    let mut manager = MultiTokenManager::new(pool_of(&[(1, 0), (2, 1)]), LoadBalancingMode::Priority);
    assert_eq!(manager.select(), Some(1));
    for _ in 0..4 {
        assert_eq!(manager.report(1, CallOutcome::NetworkError, "t".to_string()), Ok(Signal::Failed));
        assert!(!manager.pool().get(1).unwrap().credential.disabled);
        assert_eq!(manager.pool().get(1).unwrap().disabled_reason, None);
    }
    assert_eq!(manager.report(1, CallOutcome::NetworkError, "t".to_string()), Ok(Signal::Rotate));
    let e = manager.pool().get(1).unwrap();
    assert!(e.credential.disabled);
    assert_eq!(e.disabled_reason.as_deref(), Some("too many failures in a row"));
    assert_eq!((e.failure_count, e.total_failure_count), (5, 5));
    assert_eq!(manager.rotate(1), Some(2));
    assert_eq!(manager.current_credential_id(), Some(2));
    assert_eq!(manager.select(), Some(2));
    manager.reset_and_enable(1).unwrap();
    let e = manager.pool().get(1).unwrap();
    assert!(!e.credential.disabled);
    assert_eq!(e.disabled_reason, None);
    assert_eq!((e.failure_count, e.total_failure_count), (0, 5));
    assert_eq!(manager.select(), Some(1));
}

#[test]
fn rotation_leaves_the_failed_credential_out() {
    let mut manager = MultiTokenManager::new(pool_of(&[(1, 0), (2, 1), (3, 1)]), LoadBalancingMode::Priority);
    assert_eq!(manager.select(), Some(1));
    assert_eq!(manager.rotate(1), Some(2));
    assert_eq!(manager.rotate(2), Some(1));
    let mut single = MultiTokenManager::new(pool_of(&[(1, 0)]), LoadBalancingMode::Priority);
    assert_eq!(single.select(), Some(1));
    assert_eq!(single.rotate(1), None);
    assert_eq!(single.current_credential_id(), Some(1));
    assert!(may_try_alternative(0));
    assert!(may_try_alternative(2));
    assert!(!may_try_alternative(3));
    assert!(!may_try_alternative(4));
}

#[test]
fn a_deleted_credential_is_not_in_use() {
    let mut manager = MultiTokenManager::new(pool_of(&[(1, 0), (2, 1)]), LoadBalancingMode::Priority);
    assert_eq!(manager.select(), Some(1));
    manager.delete_credential(2).unwrap();
    assert_eq!(manager.current_credential_id(), Some(1));
    manager.delete_credential(1).unwrap();
    assert_eq!(manager.current_credential_id(), None);
    assert_eq!(manager.delete_credential(1), Err(PoolError::NotFound));
    assert_eq!(manager.add_credential(credential(None, 0)), Ok(1));
    manager.set_priority(1, 9).unwrap();
    manager.set_primary(1).unwrap();
    assert_eq!(id_of(&manager.pool().get_all()[0]), 1);
}

#[test]
fn a_token_is_refreshed_once_while_it_lasts() {
    let mut manager = MultiTokenManager::new(pool_of(&[(1, 0)]), LoadBalancingMode::Priority);
    let now = 1_771_152_031i64;
    assert_eq!(manager.ensure_fresh_access_token(1, now), Ok(None));
    manager
        .apply_refresh(1, "at-1".to_string(), Some("rt-2".to_string()), Some("later".to_string()), now, 3600)
        .unwrap();
    // Whoever asks now is handed the token.
    for _ in 0..5 {
        assert_eq!(manager.ensure_fresh_access_token(1, now), Ok(Some("at-1".to_string())));
    }
    let e = manager.pool().get(1).unwrap();
    assert_eq!(e.credential.refresh_token.as_deref(), Some("rt-2"));
    assert_eq!(e.credential.expires_at.as_deref(), Some("later"));
    assert_eq!(e.access_expires, Some(now + 3600));
    assert_eq!(manager.ensure_fresh_access_token(1, now + 3600 - 121), Ok(Some("at-1".to_string())));
    assert_eq!(manager.ensure_fresh_access_token(1, now + 3600 - 120), Ok(None));
    assert_eq!(manager.ensure_fresh_access_token(1, now + 3600), Ok(None));
    assert_eq!(manager.ensure_fresh_access_token(1, i64::MIN), Ok(Some("at-1".to_string())));
    manager.apply_refresh(1, "at-2".to_string(), None, None, now + 3600, 100).unwrap();
    let e = manager.pool().get(1).unwrap();
    assert_eq!(e.credential.refresh_token.as_deref(), Some("rt-2"));
    assert!(e.credential.expires_at.is_none());
    assert_eq!(manager.ensure_fresh_access_token(1, now + 3600), Ok(None));
    manager.apply_refresh(1, "at-3".to_string(), None, None, i64::MAX - 5, u64::MAX).unwrap();
    assert_eq!(manager.pool().get(1).unwrap().access_expires, Some(i64::MAX));
    assert_eq!(manager.ensure_fresh_access_token(9, now), Err(PoolError::NotFound));
    assert_eq!(manager.apply_refresh(9, "a".to_string(), None, None, now, 1), Err(PoolError::NotFound));
}

#[test]
fn a_refresh_sends_what_the_method_needs() {
    let mut c = credential(Some(1), 0);
    match refresh_request(&c).unwrap() {
        RefreshRequest::Social { refresh_token } => assert_eq!(refresh_token, "rt"),
        other => panic!("unexpected request {:?}", other),
    }
    c.auth_method = None;
    assert!(matches!(refresh_request(&c), Some(RefreshRequest::Social { .. })));
    c.auth_method = Some("idc".to_string());
    assert!(refresh_request(&c).is_none());
    c.client_id = Some("cid".to_string());
    c.client_secret = Some("sec".to_string());
    match refresh_request(&c).unwrap() {
        RefreshRequest::Idc { client_id, client_secret, refresh_token } => {
            assert_eq!((client_id.as_str(), client_secret.as_str(), refresh_token.as_str()), ("cid", "sec", "rt"));
        }
        other => panic!("unexpected request {:?}", other),
    }
    c.refresh_token = None;
    assert!(refresh_request(&c).is_none());
}

#[test]
fn a_credential_may_have_regions_and_a_proxy_of_its_own() {
    let mut c = credential(Some(1), 0);
    assert_eq!(effective_auth_region(&c, "global"), "global");
    assert_eq!(effective_api_region(&c, "global"), "global");
    c.region = Some("r".to_string());
    assert_eq!(effective_auth_region(&c, "global"), "r");
    assert_eq!(effective_api_region(&c, "global"), "r");
    c.auth_region = Some("a".to_string());
    c.api_region = Some("b".to_string());
    assert_eq!(effective_auth_region(&c, "global"), "a");
    assert_eq!(effective_api_region(&c, "global"), "b");

    let shared = || Some(ProxyConfig::new("http://shared:1"));
    assert_eq!(effective_proxy(&c, shared()).unwrap().url, "http://shared:1");
    assert!(effective_proxy(&c, None).is_none());
    c.proxy_url = Some("direct".to_string());
    assert!(effective_proxy(&c, shared()).is_none());
    c.proxy_url = Some("http://own:2".to_string());
    c.proxy_username = Some("u".to_string());
    let own = effective_proxy(&c, shared()).unwrap();
    assert_eq!(own.url, "http://own:2");
    assert!(own.username.is_none());
    c.proxy_password = Some("p".to_string());
    let own = effective_proxy(&c, None).unwrap();
    assert_eq!((own.username.as_deref(), own.password.as_deref()), (Some("u"), Some("p")));
}
