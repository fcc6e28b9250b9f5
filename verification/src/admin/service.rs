//! What the admin surface shows of the credential pool and how it reads a
//! request to add a credential.

use vstd::prelude::*;
use crate::admin::types::AddCredentialRequest;
use crate::admin::types::CredentialStatusItem;
use crate::admin::types::CredentialsStatusResponse;
use crate::admin::types::LoadBalancingModeResponse;
use crate::kiro::model::credentials::CredentialModel;
use crate::kiro::model::credentials::KiroCredentials;
use crate::kiro::pool::entry_models;
use crate::kiro::pool::EntryModel;
use crate::kiro::pool::PoolEntry;
use crate::kiro::token_manager::mode_name;
use crate::kiro::token_manager::LoadBalancingMode;
use crate::kiro::token_manager::MultiTokenManager;
use crate::text::copy_text;
use crate::text::owned;
use crate::text::str_eq;
use crate::text::text_of;

verus! {

/// The credential that a request asks to add. It has no id and no access
/// token yet, and is enabled.
pub open spec fn requested_credential(
    refresh_token: Seq<char>,
    auth_method: Seq<char>,
    client_id: Option<Seq<char>>,
    client_secret: Option<Seq<char>>,
    priority: u32,
    region: Option<Seq<char>>,
    auth_region: Option<Seq<char>>,
    api_region: Option<Seq<char>>,
    machine_id: Option<Seq<char>>,
    email: Option<Seq<char>>,
    proxy_url: Option<Seq<char>>,
    proxy_username: Option<Seq<char>>,
    proxy_password: Option<Seq<char>>,
) -> CredentialModel {
    CredentialModel {
        id: None,
        access_token: None,
        refresh_token: Some(refresh_token),
        profile_arn: None,
        expires_at: None,
        auth_method: Some(auth_method),
        client_id,
        client_secret,
        priority,
        region,
        auth_region,
        api_region,
        machine_id,
        email,
        proxy_url,
        proxy_username,
        proxy_password,
        disabled: false,
    }
}

/// The credential that a request asks to add.
pub fn credential_from_request(request: &AddCredentialRequest) -> (credential: KiroCredentials)
    ensures
        credential@ == requested_credential(
            request.refresh_token@,
            request.auth_method@,
            text_of(request.client_id),
            text_of(request.client_secret),
            request.priority,
            text_of(request.region),
            text_of(request.auth_region),
            text_of(request.api_region),
            text_of(request.machine_id),
            text_of(request.email),
            text_of(request.proxy_url),
            text_of(request.proxy_username),
            text_of(request.proxy_password),
        ),
{
    KiroCredentials {
        id: None,
        access_token: None,
        refresh_token: Some(request.refresh_token.clone()),
        profile_arn: None,
        expires_at: None,
        auth_method: Some(request.auth_method.clone()),
        client_id: copy_text(&request.client_id),
        client_secret: copy_text(&request.client_secret),
        priority: request.priority,
        region: copy_text(&request.region),
        auth_region: copy_text(&request.auth_region),
        api_region: copy_text(&request.api_region),
        machine_id: copy_text(&request.machine_id),
        email: copy_text(&request.email),
        proxy_url: copy_text(&request.proxy_url),
        proxy_username: copy_text(&request.proxy_username),
        proxy_password: copy_text(&request.proxy_password),
        disabled: false,
    }
}

/// The state of a credential, as contracts see it.
pub struct StatusModel {
    pub id: u64,
    pub priority: u32,
    pub disabled: bool,
    pub failure_count: u32,
    pub total_failure_count: u64,
    pub is_current: bool,
    pub expires_at: Option<Seq<char>>,
    pub auth_method: Option<Seq<char>>,
    pub has_profile_arn: bool,
    pub refresh_token_hash: Option<Seq<char>>,
    pub email: Option<Seq<char>>,
    pub success_count: u64,
    pub last_used_at: Option<Seq<char>>,
    pub has_proxy: bool,
    pub proxy_url: Option<Seq<char>>,
}

impl View for CredentialStatusItem {
    type V = StatusModel;

    open spec fn view(&self) -> StatusModel {
        StatusModel {
            id: self.id,
            priority: self.priority,
            disabled: self.disabled,
            failure_count: self.failure_count,
            total_failure_count: self.total_failure_count,
            is_current: self.is_current,
            expires_at: text_of(self.expires_at),
            auth_method: text_of(self.auth_method),
            has_profile_arn: self.has_profile_arn,
            refresh_token_hash: text_of(self.refresh_token_hash),
            email: text_of(self.email),
            success_count: self.success_count,
            last_used_at: text_of(self.last_used_at),
            has_proxy: self.has_proxy,
            proxy_url: text_of(self.proxy_url),
        }
    }
}

pub open spec fn status_models(v: Seq<CredentialStatusItem>) -> Seq<StatusModel> {
    v.map_values(|s: CredentialStatusItem| s@)
}

/// What is shown of a pool entry. Tokens and secrets are not; the digest of
/// the refresh token is the one given.
pub open spec fn status_of(e: EntryModel, current: Option<u64>, digest: Option<Seq<char>>) -> StatusModel {
    StatusModel {
        id: e.id(),
        priority: e.priority(),
        disabled: e.disabled(),
        failure_count: e.failure_count,
        total_failure_count: e.total_failure_count,
        is_current: current == Some(e.id()),
        expires_at: e.credential.expires_at,
        auth_method: e.credential.auth_method,
        has_profile_arn: e.credential.profile_arn is Some,
        refresh_token_hash: digest,
        email: e.credential.email,
        success_count: e.success_count,
        last_used_at: e.last_used_at,
        has_proxy: e.credential.proxy_url is Some,
        proxy_url: e.credential.proxy_url,
    }
}

/// What is shown of a pool entry.
pub fn status_item(entry: &PoolEntry, current: Option<u64>, digest: Option<String>) -> (item:
    CredentialStatusItem)
    ensures
        item@ == status_of(entry@, current, text_of(digest)),
{
    let id = match entry.credential.id {
        Some(id) => id,
        None => 0,
    };
    let is_current = match current {
        Some(c) => c == id,
        None => false,
    };
    CredentialStatusItem {
        id,
        priority: entry.credential.priority,
        disabled: entry.credential.disabled,
        failure_count: entry.failure_count,
        total_failure_count: entry.total_failure_count,
        is_current,
        expires_at: copy_text(&entry.credential.expires_at),
        auth_method: copy_text(&entry.credential.auth_method),
        has_profile_arn: entry.credential.profile_arn.is_some(),
        refresh_token_hash: digest,
        email: copy_text(&entry.credential.email),
        success_count: entry.success_count,
        last_used_at: copy_text(&entry.last_used_at),
        has_proxy: entry.credential.proxy_url.is_some(),
        proxy_url: copy_text(&entry.credential.proxy_url),
    }
}

/// How many of the entries are enabled.
pub open spec fn enabled_count(s: Seq<EntryModel>) -> nat
    decreases s.len(),
{
    if s.len() == 0 {
        0
    } else {
        enabled_count(s.drop_last()) + if s.last().disabled() {
            0nat
        } else {
            1
        }
    }
}

pub proof fn lemma_enabled_count_bound(s: Seq<EntryModel>)
    ensures
        enabled_count(s) <= s.len(),
    decreases s.len(),
{
    if s.len() > 0 {
        lemma_enabled_count_bound(s.drop_last());
    }
}

/// The state of every credential of the pool, in the pool's order, without
/// digests of the refresh tokens. Where no credential is in use the current
/// id is 0.
pub fn credentials_status(manager: &MultiTokenManager) -> (shown: CredentialsStatusResponse)
    ensures
        shown.total == manager@.pool.len(),
        shown.available == enabled_count(manager@.pool),
        shown.current_id == match manager@.current {
            Some(id) => id,
            None => 0,
        },
        status_models(shown.credentials@) == manager@.pool.map_values(
            |e: EntryModel| status_of(e, manager@.current, None),
        ),
{
    let all = manager.pool().get_all();
    let current = manager.current_credential_id();
    let ghost s = manager@.pool;
    let mut items: Vec<CredentialStatusItem> = Vec::new();
    let mut available: usize = 0;
    let mut i: usize = 0;
    proof {
        assert(s.take(0) =~= Seq::<EntryModel>::empty());
    }
    while i < all.len()
        invariant
            i <= all.len(),
            entry_models(all@) == s,
            items@.len() == i,
            available == enabled_count(s.take(i as int)),
            forall|j: int| 0 <= j < i ==> items@[j]@ == status_of(s[j], current, None),
        decreases all.len() - i,
    {
        proof {
            assert(s[i as int] == all@[i as int]@);
            assert(s.take(i + 1).drop_last() =~= s.take(i as int));
            assert(s.take(i + 1).last() == s[i as int]);
            lemma_enabled_count_bound(s.take(i as int));
        }
        if !all[i].credential.disabled {
            available = available + 1;
        }
        items.push(status_item(&all[i], current, None));
        i = i + 1;
    }
    proof {
        assert(s.take(s.len() as int) =~= s);
        assert(status_models(items@) =~= s.map_values(
            |e: EntryModel| status_of(e, current, None),
        ));
    }
    CredentialsStatusResponse {
        total: all.len(),
        available,
        current_id: match current {
            Some(id) => id,
            None => 0,
        },
        credentials: items,
    }
}

/// What is shown of the load-balancing mode.
pub fn load_balancing_mode_response(mode: LoadBalancingMode) -> (shown: LoadBalancingModeResponse)
    ensures
        shown.mode@ == mode_name(mode),
{
    LoadBalancingModeResponse { mode: owned(mode.as_str()) }
}

/// The mode that a request names; nothing where it names neither `priority`
/// nor `balanced`.
pub fn requested_mode(mode: &str) -> (wanted: Option<LoadBalancingMode>)
    ensures
        wanted == if mode@ == "priority"@ {
            Some(LoadBalancingMode::Priority)
        } else if mode@ == "balanced"@ {
            Some(LoadBalancingMode::Balanced)
        } else {
            None
        },
{
    if str_eq(mode, "priority") {
        Some(LoadBalancingMode::Priority)
    } else if str_eq(mode, "balanced") {
        Some(LoadBalancingMode::Balanced)
    } else {
        None
    }
}

} // verus!
