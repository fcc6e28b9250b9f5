//! The decisions of the outbound side: which credential serves the next call,
//! what the outcome of a call does to the credential, when to move on to
//! another credential, and when an access token needs a refresh.

use vstd::prelude::*;
use crate::http_client::proxy_of;
use crate::http_client::ProxyConfig;
use crate::http_client::ProxyModel;
use crate::kiro::model::credentials::CredentialModel;
use crate::kiro::model::credentials::KiroCredentials;
use crate::kiro::pool::entry_models;
use crate::kiro::pool::lookup;
use crate::kiro::pool::position;
use crate::kiro::pool::well_formed;
use crate::kiro::pool::CredentialPool;
use crate::kiro::pool::EntryModel;
use crate::kiro::pool::PoolEntry;
use crate::kiro::pool::PoolError;
use crate::sync::manager::token_models;
use crate::sync::manager::TokenModel;
use crate::sync::types::TokenSync;
use crate::text::copy_text;
use crate::text::str_eq;
use crate::text::text_of;

verus! {

/// After how many failures in a row a credential is disabled.
pub const MAX_FAILURES: u32 = 5;

/// On how many other credentials a failing request may be tried again.
pub const MAX_ALTERNATIVES: u32 = 3;

/// How many seconds before its expiry an access token counts as stale.
pub const REFRESH_MARGIN_SECS: i64 = 120;

/// How the next credential is chosen.
#[derive(Clone, Copy, Debug, PartialEq, Eq, Structural)]
pub enum LoadBalancingMode {
    /// Always the most preferred credential that is enabled.
    Priority,
    /// The enabled credentials of the best priority, in turn.
    Balanced,
}

/// How a call to the upstream ended.
#[derive(Clone, Copy, Debug, PartialEq, Eq, Structural)]
pub enum CallOutcome {
    Success,
    /// The upstream did not accept the access token.
    AuthExpired,
    RateLimited,
    ServerError,
    NetworkError,
}

/// What to do after a call.
#[derive(Clone, Copy, Debug, PartialEq, Eq, Structural)]
pub enum Signal {
    /// Nothing: the call succeeded.
    Proceed,
    /// Refresh the access token and try again.
    Refresh,
    /// The call failed; the credential stays in use.
    Failed,
    /// The credential was disabled; move on to another one.
    Rotate,
}

// ----------------------------------------------------------- specification

/// The mode with the given name; `priority` where the name is unknown.
pub open spec fn mode_named(name: Seq<char>) -> LoadBalancingMode {
    if name == "balanced"@ {
        LoadBalancingMode::Balanced
    } else {
        LoadBalancingMode::Priority
    }
}

/// The name of a mode.
pub open spec fn mode_name(mode: LoadBalancingMode) -> Seq<char> {
    match mode {
        LoadBalancingMode::Priority => "priority"@,
        LoadBalancingMode::Balanced => "balanced"@,
    }
}

/// Whether an entry may serve a call: it is enabled and not the one left out.
pub open spec fn eligible(e: EntryModel, excluded: Option<u64>) -> bool {
    !e.disabled() && Some(e.id()) != excluded
}

/// The index of the first of the first `n` entries that may serve a call.
pub open spec fn first_eligible(s: Seq<EntryModel>, excluded: Option<u64>, n: int) -> Option<int>
    decreases n,
{
    if n <= 0 {
        None
    } else {
        match first_eligible(s, excluded, n - 1) {
            Some(i) => Some(i),
            None => if eligible(s[n - 1], excluded) {
                Some(n - 1)
            } else {
                None
            },
        }
    }
}

pub proof fn lemma_first_eligible(s: Seq<EntryModel>, excluded: Option<u64>, n: int)
    requires
        0 <= n <= s.len(),
    ensures
        match first_eligible(s, excluded, n) {
            Some(i) => 0 <= i < n && eligible(s[i], excluded) && forall|j: int|
                0 <= j < i ==> !eligible(s[j], excluded),
            None => forall|j: int| 0 <= j < n ==> !eligible(s[j], excluded),
        },
    decreases n,
{
    if n > 0 {
        lemma_first_eligible(s, excluded, n - 1);
    }
}

/// The ids of the entries that may serve a call and have the given priority,
/// in the pool's order.
pub open spec fn tier(s: Seq<EntryModel>, excluded: Option<u64>, priority: u32) -> Seq<u64>
    decreases s.len(),
{
    if s.len() == 0 {
        Seq::empty()
    } else if eligible(s.last(), excluded) && s.last().priority() == priority {
        tier(s.drop_last(), excluded, priority).push(s.last().id())
    } else {
        tier(s.drop_last(), excluded, priority)
    }
}

/// The credential that serves the next call. In the mode `priority` it is
/// the first one in the pool's order that may serve; in the mode `balanced`
/// the ones that may serve and share the best priority among those take
/// turns, `cursor` counting the turns.
pub open spec fn choice(
    s: Seq<EntryModel>,
    mode: LoadBalancingMode,
    cursor: u64,
    excluded: Option<u64>,
) -> Option<u64> {
    match first_eligible(s, excluded, s.len() as int) {
        Some(i) => match mode {
            LoadBalancingMode::Priority => Some(s[i].id()),
            LoadBalancingMode::Balanced => {
                let t = tier(s, excluded, s[i].priority());
                if t.len() > 0 {
                    Some(t[cursor as int % t.len() as int])
                } else {
                    Some(s[i].id())
                }
            },
        },
        None => None,
    }
}

/// A counter one up, if it is not at its largest value already.
pub open spec fn up32(n: u32) -> u32 {
    if n == u32::MAX {
        n
    } else {
        (n + 1) as u32
    }
}

/// A counter one up, if it is not at its largest value already.
pub open spec fn up64(n: u64) -> u64 {
    if n == u64::MAX {
        n
    } else {
        (n + 1) as u64
    }
}

/// Why failures disable a credential.
pub open spec fn failure_reason() -> Seq<char> {
    "too many failures in a row"@
}

/// An entry after one more failure: both failure counts go up, and with
/// `MAX_FAILURES` failures in a row the credential is disabled, with the
/// reason.
pub open spec fn failed(e: EntryModel) -> EntryModel {
    let counted = EntryModel {
        failure_count: up32(e.failure_count),
        total_failure_count: up64(e.total_failure_count),
        ..e
    };
    if counted.failure_count >= MAX_FAILURES {
        EntryModel {
            credential: CredentialModel { disabled: true, ..counted.credential },
            disabled_reason: Some(failure_reason()),
            ..counted
        }
    } else {
        counted
    }
}

/// An entry after a call that ended as `outcome` at the time `now`.
pub open spec fn accounted(e: EntryModel, outcome: CallOutcome, now: Seq<char>) -> EntryModel {
    match outcome {
        CallOutcome::Success => EntryModel {
            failure_count: 0,
            success_count: up64(e.success_count),
            last_used_at: Some(now),
            ..e
        },
        CallOutcome::AuthExpired => e,
        _ => failed(e),
    }
}

/// What to do after a call that ended as `outcome` and left the entry as `e`.
pub open spec fn signal_for(outcome: CallOutcome, after: EntryModel) -> Signal {
    match outcome {
        CallOutcome::Success => Signal::Proceed,
        CallOutcome::AuthExpired => Signal::Refresh,
        _ => if after.failure_count >= MAX_FAILURES {
            Signal::Rotate
        } else {
            Signal::Failed
        },
    }
}

/// Whether an access token needs a refresh at the time `now`: there is none,
/// its expiry is unknown, or it expires within `REFRESH_MARGIN_SECS`.
pub open spec fn stale(e: EntryModel, now: i64) -> bool {
    match e.access_expires {
        Some(t) => e.credential.access_token is None || t - now <= REFRESH_MARGIN_SECS,
        None => true,
    }
}

/// A credential with what a refresh gave: the access token and its expiry
/// are replaced, and the refresh token too where a new one came.
pub open spec fn credential_with_refresh(
    c: CredentialModel,
    access_token: Seq<char>,
    refresh_token: Option<Seq<char>>,
    expires_at: Option<Seq<char>>,
) -> CredentialModel {
    CredentialModel {
        access_token: Some(access_token),
        refresh_token: match refresh_token {
            Some(t) => Some(t),
            None => c.refresh_token,
        },
        expires_at,
        ..c
    }
}

/// An entry after a refresh at the time `now` gave an access token that lasts
/// `expires_in` seconds, and perhaps a new refresh token.
pub open spec fn refreshed(
    e: EntryModel,
    access_token: Seq<char>,
    refresh_token: Option<Seq<char>>,
    expires_at: Option<Seq<char>>,
    now: i64,
    expires_in: u64,
) -> EntryModel {
    EntryModel {
        credential: credential_with_refresh(e.credential, access_token, refresh_token, expires_at),
        access_expires: Some(
            if now + expires_in > i64::MAX {
                i64::MAX
            } else {
                (now + expires_in) as i64
            },
        ),
        ..e
    }
}

/// Where the handling of one client request stands.
#[derive(Clone, Copy, Debug, PartialEq, Eq, Structural)]
pub struct CallState {
    /// The credential that serves the request.
    pub credential: u64,
    /// Whether the access token of that credential was refreshed for this
    /// request.
    pub refreshed: bool,
    /// On how many other credentials the request was tried already.
    pub alternatives_tried: u32,
}

/// What to do next about a client request.
#[derive(Clone, Copy, Debug, PartialEq, Eq, Structural)]
pub enum NextStep {
    /// The call succeeded.
    Done,
    /// Refresh the access token of the credential and call again.
    RefreshAndRetry(u64),
    /// Call again with this other credential.
    RetryOn(u64),
    /// Report the failure to the client.
    GiveUp,
}

/// Whether the outcome of a call counts against the credential: every
/// failure does, and so does a token that the upstream does not accept
/// although it was refreshed for this request.
pub open spec fn counts_against(outcome: CallOutcome, refreshed: bool) -> bool {
    match outcome {
        CallOutcome::Success => false,
        CallOutcome::AuthExpired => refreshed,
        _ => true,
    }
}

/// The pool after the entry with the given id, if there is one, was changed
/// by `change`.
pub open spec fn with_entry(
    pool: Seq<EntryModel>,
    id: u64,
    change: spec_fn(EntryModel) -> EntryModel,
) -> Seq<EntryModel> {
    match position(pool, id) {
        Some(i) => pool.update(i, change(pool[i])),
        None => pool,
    }
}

/// The manager, as contracts see it.
pub struct ManagerModel {
    pub pool: Seq<EntryModel>,
    pub mode: LoadBalancingMode,
    /// The credential in use.
    pub current: Option<u64>,
    /// How many turns the mode `balanced` has given out.
    pub cursor: u64,
}

impl ManagerModel {
    /// The manager after a credential was chosen for the next call: the
    /// chosen one is in use, and in the mode `balanced` the turn has passed
    /// on. Where no credential may serve, nothing changes.
    pub open spec fn after_select(self) -> ManagerModel {
        match choice(self.pool, self.mode, self.cursor, None) {
            Some(id) => ManagerModel {
                current: Some(id),
                cursor: if self.mode == LoadBalancingMode::Balanced {
                    if self.cursor == u64::MAX {
                        0
                    } else {
                        (self.cursor + 1) as u64
                    }
                } else {
                    self.cursor
                },
                ..self
            },
            None => self,
        }
    }

    /// The manager after token records of the control plane were applied.
    pub open spec fn with_tokens(self, ts: Seq<TokenModel>) -> ManagerModel {
        ManagerModel { pool: applied_all(self.pool, ts), ..self }
    }

    /// The manager after the credential with the given id left the pool, if
    /// the pool held it. If it was the credential in use, none is in use
    /// afterwards.
    pub open spec fn without_credential(self, id: u64) -> ManagerModel {
        match position(self.pool, id) {
            Some(i) => ManagerModel {
                pool: self.pool.remove(i),
                current: if self.current == Some(id) {
                    None
                } else {
                    self.current
                },
                ..self
            },
            None => self,
        }
    }

    /// The manager after the credentials with the given ids left the pool.
    pub open spec fn without_credentials(self, ids: Seq<u64>) -> ManagerModel
        decreases ids.len(),
    {
        if ids.len() == 0 {
            self
        } else {
            self.without_credentials(ids.drop_last()).without_credential(ids.last())
        }
    }

    /// What a call that ended as `outcome` at the time `now` leads to: the
    /// manager and the state of the request afterwards, and the next step. A
    /// success is noted and ends the request. A token that is not accepted is
    /// refreshed once. Anything else counts against the credential, and the
    /// request moves on to the credential that the selection rule gives
    /// without the failed one, as long as it has not been tried on
    /// `MAX_ALTERNATIVES` other credentials and there is another one.
    pub open spec fn after_call(self, state: CallState, outcome: CallOutcome, now: Seq<char>) -> (
        ManagerModel,
        CallState,
        NextStep,
    ) {
        if outcome == CallOutcome::Success {
            (
                ManagerModel {
                    pool: with_entry(
                        self.pool,
                        state.credential,
                        |e: EntryModel| accounted(e, CallOutcome::Success, now),
                    ),
                    ..self
                },
                state,
                NextStep::Done,
            )
        } else if !counts_against(outcome, state.refreshed) {
            (self, CallState { refreshed: true, ..state }, NextStep::RefreshAndRetry(state.credential))
        } else {
            let counted = ManagerModel {
                pool: with_entry(self.pool, state.credential, |e: EntryModel| failed(e)),
                ..self
            };
            if state.alternatives_tried < MAX_ALTERNATIVES {
                match choice(counted.pool, counted.mode, counted.cursor, Some(state.credential)) {
                    Some(next) => (
                        ManagerModel { current: Some(next), ..counted },
                        CallState {
                            credential: next,
                            refreshed: false,
                            alternatives_tried: (state.alternatives_tried + 1) as u32,
                        },
                        NextStep::RetryOn(next),
                    ),
                    None => (counted, state, NextStep::GiveUp),
                }
            } else {
                (counted, state, NextStep::GiveUp)
            }
        }
    }
}

/// The credential that a token record of the control plane describes.
pub open spec fn credential_of_token(t: TokenModel) -> CredentialModel {
    CredentialModel {
        id: Some(t.id),
        access_token: t.access_token,
        refresh_token: t.refresh_token,
        profile_arn: None,
        expires_at: t.expires_at,
        auth_method: t.auth_method,
        client_id: t.client_id,
        client_secret: t.client_secret,
        priority: 0,
        region: t.region,
        auth_region: None,
        api_region: None,
        machine_id: None,
        email: t.nickname,
        proxy_url: None,
        proxy_username: None,
        proxy_password: None,
        disabled: false,
    }
}

/// One field after a token record was laid over it: what the record says,
/// and what was there where the record says nothing.
pub open spec fn laid_over(old: Option<Seq<char>>, new: Option<Seq<char>>) -> Option<Seq<char>> {
    match new {
        Some(v) => Some(v),
        None => old,
    }
}

/// An entry after a token record of the control plane was laid over it. The
/// record wins where it says something; the id, the priority, the disabled
/// state and the running counts stay. A new access token counts as not
/// refreshed yet.
pub open spec fn overlaid(e: EntryModel, t: TokenModel) -> EntryModel {
    EntryModel {
        credential: CredentialModel {
            access_token: laid_over(e.credential.access_token, t.access_token),
            refresh_token: laid_over(e.credential.refresh_token, t.refresh_token),
            expires_at: laid_over(e.credential.expires_at, t.expires_at),
            auth_method: laid_over(e.credential.auth_method, t.auth_method),
            client_id: laid_over(e.credential.client_id, t.client_id),
            client_secret: laid_over(e.credential.client_secret, t.client_secret),
            region: laid_over(e.credential.region, t.region),
            email: laid_over(e.credential.email, t.nickname),
            ..e.credential
        },
        access_expires: if t.access_token is Some {
            None
        } else {
            e.access_expires
        },
        ..e
    }
}

/// The pool after one token record of the control plane was applied: a
/// credential that the pool holds is overlaid, another one joins the pool if
/// the pool takes it.
pub open spec fn applied(pool: Seq<EntryModel>, t: TokenModel) -> Seq<EntryModel> {
    match position(pool, t.id) {
        Some(i) => pool.update(i, overlaid(pool[i], t)),
        None => match crate::kiro::pool::added(pool, credential_of_token(t)) {
            Ok((id, grown)) => grown,
            Err(_) => pool,
        },
    }
}

/// The pool after token records were applied, in order.
pub open spec fn applied_all(pool: Seq<EntryModel>, ts: Seq<TokenModel>) -> Seq<EntryModel>
    decreases ts.len(),
{
    if ts.len() == 0 {
        pool
    } else {
        applied(applied_all(pool, ts.drop_last()), ts.last())
    }
}

// ----------------------------------------------------------------- manager

/// The token manager: the pool, the credential in use and the way the next
/// one is chosen.
pub struct MultiTokenManager {
    pool: CredentialPool,
    mode: LoadBalancingMode,
    current: Option<u64>,
    cursor: u64,
}

impl View for MultiTokenManager {
    type V = ManagerModel;

    closed spec fn view(&self) -> ManagerModel {
        ManagerModel {
            pool: self.pool@,
            mode: self.mode,
            current: self.current,
            cursor: self.cursor,
        }
    }
}

impl LoadBalancingMode {
    /// The mode with the given name; `priority` where the name is unknown.
    pub fn from_str(name: &str) -> (mode: Self)
        ensures
            mode == mode_named(name@),
    {
        if str_eq(name, "balanced") {
            LoadBalancingMode::Balanced
        } else {
            LoadBalancingMode::Priority
        }
    }

    /// The name of the mode.
    pub fn as_str(&self) -> (name: &'static str)
        ensures
            name@ == mode_name(*self),
    {
        match self {
            LoadBalancingMode::Priority => "priority",
            LoadBalancingMode::Balanced => "balanced",
        }
    }
}

/// Whether a failing request may be tried on one more credential after it
/// was tried on `tried` other ones.
pub fn may_try_alternative(tried: u32) -> (yes: bool)
    ensures
        yes == (tried < MAX_ALTERNATIVES),
{
    tried < MAX_ALTERNATIVES
}

/// An entry after a call that ended as `outcome` at the time `now`.
pub fn account(entry: PoolEntry, outcome: CallOutcome, now: String) -> (after: PoolEntry)
    ensures
        after@ == accounted(entry@, outcome, now@),
{
    let mut e = entry;
    match outcome {
        CallOutcome::Success => {
            e.failure_count = 0;
            if e.success_count < u64::MAX {
                e.success_count = e.success_count + 1;
            }
            e.last_used_at = Some(now);
        },
        CallOutcome::AuthExpired => {},
        _ => {
            if e.failure_count < u32::MAX {
                e.failure_count = e.failure_count + 1;
            }
            if e.total_failure_count < u64::MAX {
                e.total_failure_count = e.total_failure_count + 1;
            }
            if e.failure_count >= MAX_FAILURES {
                e.credential.disabled = true;
                e.disabled_reason = Some(crate::text::owned("too many failures in a row"));
            }
        },
    }
    e
}

/// Whether the access token of an entry needs a refresh at the time `now`.
pub fn is_stale(entry: &PoolEntry, now: i64) -> (yes: bool)
    ensures
        yes == stale(entry@, now),
{
    match entry.access_expires {
        Some(t) => {
            if entry.credential.access_token.is_none() {
                return true;
            }
            let left: i128 = t as i128 - now as i128;
            left <= REFRESH_MARGIN_SECS as i128
        },
        None => true,
    }
}

/// What a refresh sends.
#[derive(Clone, Debug)]
pub enum RefreshRequest {
    /// To the social endpoint: the refresh token.
    Social { refresh_token: String },
    /// To the OIDC endpoint: the client's id and secret and the refresh
    /// token, with the grant type `refresh_token`.
    Idc { client_id: String, client_secret: String, refresh_token: String },
}

pub enum RefreshRequestModel {
    Social { refresh_token: Seq<char> },
    Idc { client_id: Seq<char>, client_secret: Seq<char>, refresh_token: Seq<char> },
}

impl View for RefreshRequest {
    type V = RefreshRequestModel;

    open spec fn view(&self) -> RefreshRequestModel {
        match self {
            RefreshRequest::Social { refresh_token } => RefreshRequestModel::Social {
                refresh_token: refresh_token@,
            },
            RefreshRequest::Idc { client_id, client_secret, refresh_token } => {
                RefreshRequestModel::Idc {
                    client_id: client_id@,
                    client_secret: client_secret@,
                    refresh_token: refresh_token@,
                }
            },
        }
    }
}

/// What a refresh of credential `c` sends; nothing for a credential that
/// lacks what its method needs.
pub open spec fn refresh_request_of(c: CredentialModel) -> Option<RefreshRequestModel> {
    match c.refresh_token {
        Some(token) => if c.auth_method == Some("idc"@) {
            match (c.client_id, c.client_secret) {
                (Some(id), Some(secret)) => Some(
                    RefreshRequestModel::Idc {
                        client_id: id,
                        client_secret: secret,
                        refresh_token: token,
                    },
                ),
                _ => None,
            }
        } else {
            Some(RefreshRequestModel::Social { refresh_token: token })
        },
        None => None,
    }
}

/// A credential with what a refresh gave. The refresh token is replaced only
/// where the refresh gave a new one; everything else stays.
pub fn with_refresh(
    credential: KiroCredentials,
    access_token: String,
    refresh_token: Option<String>,
    expires_at: String,
) -> (out: KiroCredentials)
    ensures
        out@ == (CredentialModel {
            access_token: Some(access_token@),
            refresh_token: match refresh_token {
                Some(t) => Some(t@),
                None => credential@.refresh_token,
            },
            expires_at: Some(expires_at@),
            ..credential@
        }),
        out@ == credential_with_refresh(
            credential@,
            access_token@,
            text_of(refresh_token),
            Some(expires_at@),
        ),
{
    let mut out = credential;
    out.access_token = Some(access_token);
    match refresh_token {
        Some(t) => {
            out.refresh_token = Some(t);
        },
        None => {},
    }
    out.expires_at = Some(expires_at);
    out
}

/// What a refresh of a credential sends.
pub fn refresh_request(c: &KiroCredentials) -> (request: Option<RefreshRequest>)
    ensures
        match request {
            Some(r) => refresh_request_of(c@) == Some(r@),
            None => refresh_request_of(c@) is None,
        },
{
    match &c.refresh_token {
        Some(token) => {
            let idc = match &c.auth_method {
                Some(m) => str_eq(m.as_str(), "idc"),
                None => false,
            };
            if idc {
                match &c.client_id {
                    Some(id) => match &c.client_secret {
                        Some(secret) => Some(
                            RefreshRequest::Idc {
                                client_id: id.clone(),
                                client_secret: secret.clone(),
                                refresh_token: token.clone(),
                            },
                        ),
                        None => None,
                    },
                    None => None,
                }
            } else {
                Some(RefreshRequest::Social { refresh_token: token.clone() })
            }
        },
        None => None,
    }
}

/// The region that a credential's tokens are refreshed in: its own auth
/// region, else its own region, else the one given.
pub fn effective_auth_region<'a>(c: &'a KiroCredentials, fallback: &'a str) -> (region: &'a str)
    ensures
        region@ == match c@.auth_region {
            Some(r) => r,
            None => match c@.region {
                Some(r) => r,
                None => fallback@,
            },
        },
{
    match &c.auth_region {
        Some(r) => r.as_str(),
        None => match &c.region {
            Some(r) => r.as_str(),
            None => fallback,
        },
    }
}

/// The region that a credential's calls go to: its own API region, else its
/// own region, else the one given.
pub fn effective_api_region<'a>(c: &'a KiroCredentials, fallback: &'a str) -> (region: &'a str)
    ensures
        region@ == match c@.api_region {
            Some(r) => r,
            None => match c@.region {
                Some(r) => r,
                None => fallback@,
            },
        },
{
    match &c.api_region {
        Some(r) => r.as_str(),
        None => match &c.region {
            Some(r) => r.as_str(),
            None => fallback,
        },
    }
}

/// The proxy for a credential's connections: none if the credential says
/// `direct`; its own if it names one, with credentials if it has both parts;
/// else the shared one.
pub open spec fn proxy_for(c: CredentialModel, shared: Option<ProxyModel>) -> Option<ProxyModel> {
    match c.proxy_url {
        Some(url) => if url == "direct"@ {
            None
        } else if c.proxy_username is Some && c.proxy_password is Some {
            Some(ProxyModel { url, username: c.proxy_username, password: c.proxy_password })
        } else {
            Some(ProxyModel { url, username: None, password: None })
        },
        None => shared,
    }
}

/// The proxy for a credential's connections.
pub fn effective_proxy(c: &KiroCredentials, shared: Option<ProxyConfig>) -> (proxy: Option<
    ProxyConfig,
>)
    ensures
        proxy_of(proxy) == proxy_for(c@, proxy_of(shared)),
{
    match &c.proxy_url {
        Some(url) => {
            if str_eq(url.as_str(), "direct") {
                None
            } else {
                let proxy = ProxyConfig::new(url.as_str());
                match &c.proxy_username {
                    Some(u) => match &c.proxy_password {
                        Some(p) => Some(proxy.with_auth(u.as_str(), p.as_str())),
                        None => Some(proxy),
                    },
                    None => Some(proxy),
                }
            }
        },
        None => shared,
    }
}

impl MultiTokenManager {
    /// A manager over the given pool with no credential in use yet.
    pub fn new(pool: CredentialPool, mode: LoadBalancingMode) -> (manager: Self)
        ensures
            manager@ == (ManagerModel { pool: pool@, mode, current: None, cursor: 0 }),
    {
        MultiTokenManager { pool, mode, current: None, cursor: 0 }
    }

    /// The pool.
    pub fn pool(&self) -> (pool: &CredentialPool)
        ensures
            pool@ == self@.pool,
    {
        &self.pool
    }

    /// The mode.
    pub fn mode(&self) -> (mode: LoadBalancingMode)
        ensures
            mode == self@.mode,
    {
        self.mode
    }

    /// Changes the mode.
    pub fn set_mode(&mut self, mode: LoadBalancingMode)
        ensures
            final(self)@ == (ManagerModel { mode, ..old(self)@ }),
    {
        self.mode = mode;
    }

    /// The id of the credential in use, if one was chosen.
    pub fn current_credential_id(&self) -> (id: Option<u64>)
        ensures
            id == self@.current,
    {
        self.current
    }

    /// Adds a credential to the pool and returns its id.
    pub fn add_credential(&mut self, credential: KiroCredentials) -> (done: Result<u64, PoolError>)
        requires
            well_formed(old(self)@.pool),
        ensures
            well_formed(final(self)@.pool),
            match done {
                Ok(id) => crate::kiro::pool::added(old(self)@.pool, credential@) == Ok::<
                    (u64, Seq<EntryModel>),
                    PoolError,
                >((id, final(self)@.pool)) && final(self)@ == (ManagerModel {
                    pool: final(self)@.pool,
                    ..old(self)@
                }) && final(self)@.pool.len() == old(self)@.pool.len() + 1,
                Err(e) => crate::kiro::pool::added(old(self)@.pool, credential@) == Err::<
                    (u64, Seq<EntryModel>),
                    PoolError,
                >(e) && final(self)@ == old(self)@,
            },
    {
        self.pool.add(credential)
    }

    /// Takes a credential out of the pool. If it was the one in use, none is
    /// in use afterwards.
    pub fn delete_credential(&mut self, id: u64) -> (done: Result<(), PoolError>)
        requires
            well_formed(old(self)@.pool),
        ensures
            well_formed(final(self)@.pool),
            match done {
                Ok(_) => {
                    let at = position(old(self)@.pool, id);
                    at is Some && final(self)@ == (ManagerModel {
                        pool: old(self)@.pool.remove(at->0),
                        current: if old(self)@.current == Some(id) {
                            None
                        } else {
                            old(self)@.current
                        },
                        ..old(self)@
                    })
                },
                Err(e) => e == PoolError::NotFound && position(old(self)@.pool, id) is None
                    && final(self)@ == old(self)@,
            },
    {
        match self.pool.delete(id) {
            Ok(_) => {
                let was_current = match self.current {
                    Some(c) => c == id,
                    None => false,
                };
                if was_current {
                    self.current = None;
                }
                Ok(())
            },
            Err(e) => Err(e),
        }
    }

    /// Disables or enables a credential of the pool.
    pub fn set_disabled(&mut self, id: u64, disabled: bool) -> (done: Result<(), PoolError>)
        requires
            well_formed(old(self)@.pool),
        ensures
            well_formed(final(self)@.pool),
            match done {
                Ok(_) => {
                    let at = position(old(self)@.pool, id);
                    at is Some && final(self)@ == (ManagerModel {
                        pool: old(self)@.pool.update(
                            at->0,
                            old(self)@.pool[at->0].with_disabled(disabled),
                        ),
                        ..old(self)@
                    })
                },
                Err(e) => e == PoolError::NotFound && position(old(self)@.pool, id) is None
                    && final(self)@ == old(self)@,
            },
    {
        self.pool.set_disabled(id, disabled)
    }

    /// Gives a credential of the pool another priority.
    pub fn set_priority(&mut self, id: u64, priority: u32) -> (done: Result<(), PoolError>)
        requires
            well_formed(old(self)@.pool),
        ensures
            well_formed(final(self)@.pool),
            match done {
                Ok(_) => {
                    let at = position(old(self)@.pool, id);
                    at is Some && final(self)@ == (ManagerModel {
                        pool: crate::kiro::pool::placed(
                            old(self)@.pool.remove(at->0),
                            old(self)@.pool[at->0].with_priority(priority),
                        ),
                        ..old(self)@
                    })
                },
                Err(e) => e == PoolError::NotFound && position(old(self)@.pool, id) is None
                    && final(self)@ == old(self)@,
            },
    {
        self.pool.set_priority(id, priority)
    }

    /// Makes a credential of the pool the preferred one.
    pub fn set_primary(&mut self, id: u64) -> (done: Result<(), PoolError>)
        requires
            well_formed(old(self)@.pool),
        ensures
            well_formed(final(self)@.pool),
            match done {
                Ok(_) => position(old(self)@.pool, id) is Some && final(self)@ == (ManagerModel {
                    pool: crate::kiro::pool::arranged(
                        crate::kiro::pool::promoted_all(old(self)@.pool, id),
                    ),
                    ..old(self)@
                }),
                Err(e) => e == PoolError::NotFound && position(old(self)@.pool, id) is None
                    && final(self)@ == old(self)@,
            },
    {
        self.pool.set_primary(id)
    }

    /// Forgets the failures of a credential of the pool and enables it.
    pub fn reset_and_enable(&mut self, id: u64) -> (done: Result<(), PoolError>)
        requires
            well_formed(old(self)@.pool),
        ensures
            well_formed(final(self)@.pool),
            match done {
                Ok(_) => {
                    let at = position(old(self)@.pool, id);
                    at is Some && final(self)@ == (ManagerModel {
                        pool: old(self)@.pool.update(
                            at->0,
                            (EntryModel { failure_count: 0, ..old(self)@.pool[at->0] }).with_disabled(
                                false,
                            ),
                        ),
                        ..old(self)@
                    })
                },
                Err(e) => e == PoolError::NotFound && position(old(self)@.pool, id) is None
                    && final(self)@ == old(self)@,
            },
    {
        self.pool.reset(id)
    }

    /// The credential that would serve the next call, leaving out `excluded`.
    pub fn pick(&self, excluded: Option<u64>) -> (id: Option<u64>)
        ensures
            id == choice(self@.pool, self@.mode, self@.cursor, excluded),
    {
        let all = self.pool.get_all();
        let ghost s = self@.pool;
        let mut first: Option<usize> = None;
        let mut i: usize = 0;
        while i < all.len()
            invariant
                i <= all.len(),
                entry_models(all@) == s,
                match first {
                    Some(f) => first_eligible(s, excluded, i as int) == Some(f as int) && f < i,
                    None => first_eligible(s, excluded, i as int) is None,
                },
            decreases all.len() - i,
        {
            proof {
                assert(s[i as int] == all@[i as int]@);
            }
            if first.is_none() && entry_eligible(&all[i], excluded) {
                first = Some(i);
            }
            i = i + 1;
        }
        match first {
            Some(f) => {
                proof {
                    assert(s[f as int] == all@[f as int]@);
                }
                let here = entry_id(&all[f]);
                match self.mode {
                    LoadBalancingMode::Priority => Some(here),
                    LoadBalancingMode::Balanced => {
                        let priority = all[f].credential.priority;
                        let mut ids: Vec<u64> = Vec::new();
                        let mut k: usize = 0;
                        proof {
                            assert(s.take(0) =~= Seq::<EntryModel>::empty());
                        }
                        while k < all.len()
                            invariant
                                k <= all.len(),
                                entry_models(all@) == s,
                                ids@ == tier(s.take(k as int), excluded, priority),
                            decreases all.len() - k,
                        {
                            proof {
                                assert(s[k as int] == all@[k as int]@);
                                assert(s.take(k + 1).drop_last() =~= s.take(k as int));
                                assert(s.take(k + 1).last() == s[k as int]);
                            }
                            if entry_eligible(&all[k], excluded) && all[k].credential.priority
                                == priority {
                                ids.push(entry_id(&all[k]));
                            }
                            k = k + 1;
                        }
                        proof {
                            assert(s.take(s.len() as int) =~= s);
                        }
                        if ids.len() > 0 {
                            let turn: usize = (self.cursor % (ids.len() as u64)) as usize;
                            Some(ids[turn])
                        } else {
                            Some(here)
                        }
                    },
                }
            },
            None => None,
        }
    }

    /// Chooses the credential for the next call and makes it the one in use.
    /// In the mode `balanced` the turn passes on.
    pub fn select(&mut self) -> (id: Option<u64>)
        ensures
            id == choice(old(self)@.pool, old(self)@.mode, old(self)@.cursor, None),
            final(self)@ == old(self)@.after_select(),
    {
        let id = self.pick(None);
        match id {
            Some(i) => {
                self.current = Some(i);
                match self.mode {
                    LoadBalancingMode::Balanced => {
                        self.cursor = if self.cursor == u64::MAX {
                            0
                        } else {
                            self.cursor + 1
                        };
                    },
                    LoadBalancingMode::Priority => {},
                }
            },
            None => {},
        }
        id
    }

    /// Moves on from the credential `failed`: the selection rule is applied
    /// without it, and what it gives becomes the credential in use.
    pub fn rotate(&mut self, failed: u64) -> (id: Option<u64>)
        ensures
            id == choice(old(self)@.pool, old(self)@.mode, old(self)@.cursor, Some(failed)),
            id != Some(failed),
            final(self)@ == (ManagerModel {
                current: match id {
                    Some(i) => Some(i),
                    None => old(self)@.current,
                },
                ..old(self)@
            }),
    {
        let id = self.pick(Some(failed));
        proof {
            lemma_choice_eligible(self@.pool, self@.mode, self@.cursor, Some(failed));
        }
        match id {
            Some(i) => {
                self.current = Some(i);
            },
            None => {},
        }
        id
    }

    /// Notes how a call with the credential `id` ended at the time `now`, and
    /// says what to do next.
    pub fn report(&mut self, id: u64, outcome: CallOutcome, now: String) -> (next: Result<
        Signal,
        PoolError,
    >)
        requires
            well_formed(old(self)@.pool),
        ensures
            well_formed(final(self)@.pool),
            match next {
                Ok(signal) => {
                    let at = position(old(self)@.pool, id);
                    &&& at is Some
                    &&& final(self)@ == (ManagerModel {
                        pool: old(self)@.pool.update(
                            at->0,
                            accounted(old(self)@.pool[at->0], outcome, now@),
                        ),
                        ..old(self)@
                    })
                    &&& signal == signal_for(
                        outcome,
                        accounted(old(self)@.pool[at->0], outcome, now@),
                    )
                },
                Err(e) => e == PoolError::NotFound && position(old(self)@.pool, id) is None
                    && final(self)@ == old(self)@,
            },
    {
        match self.pool.locate(id) {
            Some(at) => {
                let entry = match self.pool.get(id) {
                    Some(e) => e,
                    None => {
                        return Err(PoolError::NotFound);
                    },
                };
                let after = account(entry, outcome, now);
                let signal = match outcome {
                    CallOutcome::Success => Signal::Proceed,
                    CallOutcome::AuthExpired => Signal::Refresh,
                    _ => {
                        if after.failure_count >= MAX_FAILURES {
                            Signal::Rotate
                        } else {
                            Signal::Failed
                        }
                    },
                };
                self.pool.update_in_place(at, after);
                Ok(signal)
            },
            None => Err(PoolError::NotFound),
        }
    }

    /// Applies a token record of the control plane to the pool.
    pub fn apply_token(&mut self, token: &TokenSync)
        requires
            well_formed(old(self)@.pool),
        ensures
            well_formed(final(self)@.pool),
            final(self)@ == (ManagerModel { pool: applied(old(self)@.pool, token@), ..old(self)@ }),
    {
        match self.pool.locate(token.id) {
            Some(at) => {
                let mut e = match self.pool.get(token.id) {
                    Some(e) => e,
                    None => {
                        return ;
                    },
                };
                match &token.access_token {
                    Some(v) => {
                        e.credential.access_token = Some(v.clone());
                        e.access_expires = None;
                    },
                    None => {},
                }
                match &token.refresh_token {
                    Some(v) => {
                        e.credential.refresh_token = Some(v.clone());
                    },
                    None => {},
                }
                match &token.expires_at {
                    Some(v) => {
                        e.credential.expires_at = Some(v.clone());
                    },
                    None => {},
                }
                match &token.auth_method {
                    Some(v) => {
                        e.credential.auth_method = Some(v.clone());
                    },
                    None => {},
                }
                match &token.client_id {
                    Some(v) => {
                        e.credential.client_id = Some(v.clone());
                    },
                    None => {},
                }
                match &token.client_secret {
                    Some(v) => {
                        e.credential.client_secret = Some(v.clone());
                    },
                    None => {},
                }
                match &token.region {
                    Some(v) => {
                        e.credential.region = Some(v.clone());
                    },
                    None => {},
                }
                match &token.nickname {
                    Some(v) => {
                        e.credential.email = Some(v.clone());
                    },
                    None => {},
                }
                self.pool.update_in_place(at, e);
            },
            None => {
                let credential = KiroCredentials {
                    id: Some(token.id),
                    access_token: copy_text(&token.access_token),
                    refresh_token: copy_text(&token.refresh_token),
                    profile_arn: None,
                    expires_at: copy_text(&token.expires_at),
                    auth_method: copy_text(&token.auth_method),
                    client_id: copy_text(&token.client_id),
                    client_secret: copy_text(&token.client_secret),
                    priority: 0,
                    region: copy_text(&token.region),
                    auth_region: None,
                    api_region: None,
                    machine_id: None,
                    email: copy_text(&token.nickname),
                    proxy_url: None,
                    proxy_username: None,
                    proxy_password: None,
                    disabled: false,
                };
                let _ = self.pool.add(credential);
            },
        }
    }

    /// Applies what the control plane reports: the new and changed token
    /// records are applied in order, then the credentials that it reports as
    /// deleted leave the pool.
    pub fn apply_changes(&mut self, updated: &Vec<TokenSync>, deleted: &Vec<u64>)
        requires
            well_formed(old(self)@.pool),
        ensures
            well_formed(final(self)@.pool),
            final(self)@ == old(self)@.with_tokens(token_models(updated@)).without_credentials(
                deleted@,
            ),
    {
        let ghost ts = token_models(updated@);
        let ghost start = self@;
        let mut i: usize = 0;
        proof {
            assert(ts.take(0) =~= Seq::<TokenModel>::empty());
        }
        while i < updated.len()
            invariant
                i <= updated.len(),
                ts == token_models(updated@),
                well_formed(self@.pool),
                self@ == start.with_tokens(ts.take(i as int)),
            decreases updated.len() - i,
        {
            proof {
                assert(ts[i as int] == updated@[i as int]@);
                assert(ts.take(i + 1).drop_last() =~= ts.take(i as int));
                assert(ts.take(i + 1).last() == ts[i as int]);
            }
            self.apply_token(&updated[i]);
            i = i + 1;
        }
        proof {
            assert(ts.take(ts.len() as int) =~= ts);
        }
        let ghost mid = self@;
        let mut k: usize = 0;
        proof {
            assert(deleted@.take(0) =~= Seq::<u64>::empty());
        }
        while k < deleted.len()
            invariant
                k <= deleted.len(),
                well_formed(self@.pool),
                self@ == mid.without_credentials(deleted@.take(k as int)),
            decreases deleted.len() - k,
        {
            proof {
                assert(deleted@.take(k + 1).drop_last() =~= deleted@.take(k as int));
                assert(deleted@.take(k + 1).last() == deleted@[k as int]);
            }
            let _ = self.delete_credential(deleted[k]);
            k = k + 1;
        }
        proof {
            assert(deleted@.take(deleted@.len() as int) =~= deleted@);
        }
    }

    /// Counts a failure against the credential `id`: a call failed, or a
    /// refresh of its access token did.
    pub fn report_failure(&mut self, id: u64) -> (next: Result<Signal, PoolError>)
        requires
            well_formed(old(self)@.pool),
        ensures
            well_formed(final(self)@.pool),
            final(self)@ == (ManagerModel {
                pool: with_entry(old(self)@.pool, id, |e: EntryModel| failed(e)),
                ..old(self)@
            }),
            match next {
                Ok(signal) => {
                    let at = position(old(self)@.pool, id);
                    at is Some && signal == signal_for(
                        CallOutcome::NetworkError,
                        failed(old(self)@.pool[at->0]),
                    )
                },
                Err(e) => e == PoolError::NotFound && position(old(self)@.pool, id) is None,
            },
    {
        let done = self.report(id, CallOutcome::NetworkError, String::new());
        done
    }

    /// Starts the handling of a client request: chooses the credential that
    /// serves it.
    pub fn begin_call(&mut self) -> (state: Option<CallState>)
        ensures
            final(self)@ == old(self)@.after_select(),
            state == match choice(old(self)@.pool, old(self)@.mode, old(self)@.cursor, None) {
                Some(id) => Some(
                    CallState { credential: id, refreshed: false, alternatives_tried: 0 },
                ),
                None => None,
            },
    {
        match self.select() {
            Some(id) => Some(CallState { credential: id, refreshed: false, alternatives_tried: 0 }),
            None => None,
        }
    }

    /// Notes how a call for a client request ended at the time `now`, and
    /// says what to do next about the request.
    pub fn after_call(&mut self, state: CallState, outcome: CallOutcome, now: String) -> (next: (
        CallState,
        NextStep,
    ))
        requires
            well_formed(old(self)@.pool),
        ensures
            well_formed(final(self)@.pool),
            (final(self)@, next.0, next.1) == old(self)@.after_call(state, outcome, now@),
    {
        match outcome {
            CallOutcome::Success => {
                let _ = self.report(state.credential, CallOutcome::Success, now);
                (state, NextStep::Done)
            },
            _ => {
                let first_refusal = match outcome {
                    CallOutcome::AuthExpired => !state.refreshed,
                    _ => false,
                };
                if first_refusal {
                    (
                        CallState { refreshed: true, ..state },
                        NextStep::RefreshAndRetry(state.credential),
                    )
                } else {
                    let _ = self.report_failure(state.credential);
                    if state.alternatives_tried < MAX_ALTERNATIVES {
                        match self.rotate(state.credential) {
                            Some(next) => (
                                CallState {
                                    credential: next,
                                    refreshed: false,
                                    alternatives_tried: state.alternatives_tried + 1,
                                },
                                NextStep::RetryOn(next),
                            ),
                            None => (state, NextStep::GiveUp),
                        }
                    } else {
                        (state, NextStep::GiveUp)
                    }
                }
            },
        }
    }

    /// What to do to have a fresh access token of the credential `id` at the
    /// time `now`: use the one at hand, or refresh first.
    pub fn ensure_fresh_access_token(&self, id: u64, now: i64) -> (token: Result<
        Option<String>,
        PoolError,
    >)
        ensures
            match token {
                Ok(Some(t)) => {
                    let e = lookup(self@.pool, id);
                    e is Some && !stale(e->0, now) && e->0.credential.access_token == Some(t@)
                },
                Ok(None) => {
                    let e = lookup(self@.pool, id);
                    e is Some && stale(e->0, now)
                },
                Err(e) => e == PoolError::NotFound && lookup(self@.pool, id) is None,
            },
    {
        match self.pool.get(id) {
            Some(e) => {
                if is_stale(&e, now) {
                    Ok(None)
                } else {
                    Ok(copy_text(&e.credential.access_token))
                }
            },
            None => Err(PoolError::NotFound),
        }
    }

    /// Keeps what a refresh of the credential `id` at the time `now` gave.
    pub fn apply_refresh(
        &mut self,
        id: u64,
        access_token: String,
        refresh_token: Option<String>,
        expires_at: Option<String>,
        now: i64,
        expires_in: u64,
    ) -> (done: Result<(), PoolError>)
        requires
            well_formed(old(self)@.pool),
        ensures
            well_formed(final(self)@.pool),
            match done {
                Ok(_) => {
                    let at = position(old(self)@.pool, id);
                    &&& at is Some
                    &&& final(self)@ == (ManagerModel {
                        pool: old(self)@.pool.update(
                            at->0,
                            refreshed(
                                old(self)@.pool[at->0],
                                access_token@,
                                text_of(refresh_token),
                                text_of(expires_at),
                                now,
                                expires_in,
                            ),
                        ),
                        ..old(self)@
                    })
                    &&& lookup(final(self)@.pool, id) == Some(
                        refreshed(
                            old(self)@.pool[at->0],
                            access_token@,
                            text_of(refresh_token),
                            text_of(expires_at),
                            now,
                            expires_in,
                        ),
                    )
                },
                Err(e) => e == PoolError::NotFound && position(old(self)@.pool, id) is None
                    && final(self)@ == old(self)@,
            },
    {
        match self.pool.locate(id) {
            Some(at) => {
                let mut e = match self.pool.get(id) {
                    Some(e) => e,
                    None => {
                        return Err(PoolError::NotFound);
                    },
                };
                e.credential.access_token = Some(access_token);
                match refresh_token {
                    Some(t) => {
                        e.credential.refresh_token = Some(t);
                    },
                    None => {},
                }
                e.credential.expires_at = expires_at;
                proof {
                    crate::kiro::pool::lemma_index_of(self@.pool, id, self@.pool.len() as int);
                }
                let until: i128 = now as i128 + expires_in as i128;
                e.access_expires = Some(
                    if until > i64::MAX as i128 {
                        i64::MAX
                    } else {
                        until as i64
                    },
                );
                self.pool.update_in_place(at, e);
                Ok(())
            },
            None => Err(PoolError::NotFound),
        }
    }
}

/// The id of an entry.
pub fn entry_id(e: &PoolEntry) -> (id: u64)
    ensures
        id == e@.id(),
{
    match e.credential.id {
        Some(id) => id,
        None => 0,
    }
}

/// Whether an entry may serve a call.
pub fn entry_eligible(e: &PoolEntry, excluded: Option<u64>) -> (yes: bool)
    ensures
        yes == eligible(e@, excluded),
{
    let left_out = match excluded {
        Some(x) => x == entry_id(e),
        None => false,
    };
    !e.credential.disabled && !left_out
}

/// Every id of a tier belongs to an entry that may serve a call.
pub proof fn lemma_tier_eligible(s: Seq<EntryModel>, excluded: Option<u64>, priority: u32, k: int)
    requires
        0 <= k < tier(s, excluded, priority).len(),
    ensures
        exists|i: int|
            0 <= i < s.len() && eligible(s[i], excluded) && s[i].id() == tier(
                s,
                excluded,
                priority,
            )[k],
    decreases s.len(),
{
    if s.len() > 0 {
        let front = s.drop_last();
        if k < tier(front, excluded, priority).len() {
            lemma_tier_eligible(front, excluded, priority, k);
            let i = choose|i: int|
                0 <= i < front.len() && eligible(front[i], excluded) && front[i].id() == tier(
                    front,
                    excluded,
                    priority,
                )[k];
            assert(s[i] == front[i]);
        } else {
            assert(s[s.len() - 1].id() == tier(s, excluded, priority)[k]);
        }
    }
}

/// The credential chosen is never the one left out, and is one of the pool
/// that is enabled.
pub proof fn lemma_choice_eligible(
    s: Seq<EntryModel>,
    mode: LoadBalancingMode,
    cursor: u64,
    excluded: Option<u64>,
)
    ensures
        match choice(s, mode, cursor, excluded) {
            Some(id) => Some(id) != excluded && exists|i: int|
                0 <= i < s.len() && s[i].id() == id && !s[i].disabled(),
            None => forall|i: int| 0 <= i < s.len() ==> !eligible(s[i], excluded),
        },
{
    lemma_first_eligible(s, excluded, s.len() as int);
    match first_eligible(s, excluded, s.len() as int) {
        Some(i) => {
            let t = tier(s, excluded, s[i].priority());
            if mode == LoadBalancingMode::Balanced && t.len() > 0 {
                let k = cursor as int % t.len() as int;
                lemma_tier_eligible(s, excluded, s[i].priority(), k);
            }
        },
        None => {},
    }
}

/// One refresh is enough: once a refresh gave a token that lasts longer than
/// the margin, the token is not stale at the time of the refresh, so whoever
/// asks next at that time is handed the token and refreshes nothing.
pub proof fn lemma_refresh_makes_fresh(
    e: EntryModel,
    access_token: Seq<char>,
    refresh_token: Option<Seq<char>>,
    expires_at: Option<Seq<char>>,
    now: i64,
    expires_in: u64,
)
    requires
        expires_in > REFRESH_MARGIN_SECS,
        now + expires_in <= i64::MAX,
    ensures
        !stale(refreshed(e, access_token, refresh_token, expires_at, now, expires_in), now),
{
}

} // verus!
