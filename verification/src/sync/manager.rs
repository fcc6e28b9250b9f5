//! What the sync manager knows and decides: whether syncing is on, which
//! account to log in with, how the device names itself, what a cycle pushes
//! and what it remembers. The requests themselves are made by whoever drives
//! the manager.

use vstd::prelude::*;
use crate::http_client::proxy_of;
use crate::http_client::ProxyConfig;
use crate::http_client::ProxyModel;
use crate::kiro::model::credentials::credential_models;
use crate::kiro::model::credentials::CredentialModel;
use crate::kiro::model::credentials::KiroCredentials;
use crate::model::config::sync_of;
use crate::model::config::Config;
use crate::model::config::random_below;
use crate::model::config::SyncConfig;
use crate::model::config::SyncModel;
use crate::model::config::TlsBackend;
use crate::sync::socketio_client::device_of;
use crate::sync::socketio_client::DeviceInfo;
use crate::sync::socketio_client::DeviceModel;
use crate::sync::types::OnlineDeviceInfo;
use crate::sync::types::PushChangesRequest;
use crate::sync::types::PushChangesResponse;
use crate::sync::types::TokenSync;
use crate::sync::websocket::ConnectionState;
use crate::sync::websocket::StateModel;
use crate::text::copy_text;
use crate::text::decimal;
use crate::text::decimal_string;
use crate::text::owned;
use crate::text::push_char;
use crate::text::signed_decimal;
use crate::text::signed_decimal_string;
use crate::text::slice_text_of;
use crate::text::str_eq;
use crate::text::text_of;

verus! {

// --------------------------------------------------------------- randomness

/// A fresh random identifier in the hyphenated form of a UUID. Trusted: calls
/// `uuid::Uuid::new_v4` and writes the result with its `Display`, which gives
/// 36 characters; nothing else is claimed of a random value.
#[verifier::external_body]
pub(crate) fn random_uuid() -> (id: String)
    ensures
        id@.len() == 36,
{
    uuid::Uuid::new_v4().to_string()
}

/// The characters that generated passwords are made of.
pub open spec fn password_alphabet() -> Seq<char> {
    "abcdefghijklmnopqrstuvwxyzABCDEFGHIJKLMNOPQRSTUVWXYZ0123456789"@
}

/// How long a generated password is.
pub const PASSWORD_LENGTH: usize = 16;

/// The character of the password alphabet with the given number.
pub fn alphabet_char(i: usize) -> (c: char)
    requires
        i < 62,
    ensures
        c == password_alphabet()[i as int],
{
    proof {
        reveal_strlit("abcdefghijklmnopqrstuvwxyzABCDEFGHIJKLMNOPQRSTUVWXYZ0123456789");
    }
    "abcdefghijklmnopqrstuvwxyzABCDEFGHIJKLMNOPQRSTUVWXYZ0123456789".get_char(i)
}

/// Whether `p` could be a generated password: `PASSWORD_LENGTH` characters of
/// the password alphabet.
pub open spec fn is_generated_password(p: Seq<char>) -> bool {
    &&& p.len() == PASSWORD_LENGTH
    &&& forall|i: int| 0 <= i < p.len() ==> password_alphabet().contains(#[trigger] p[i])
}

/// A random password.
pub fn generate_password() -> (password: String)
    ensures
        is_generated_password(password@),
{
    proof {
        reveal_strlit("abcdefghijklmnopqrstuvwxyzABCDEFGHIJKLMNOPQRSTUVWXYZ0123456789");
    }
    let mut password = String::new();
    let mut k: usize = 0;
    while k < PASSWORD_LENGTH
        invariant
            k <= PASSWORD_LENGTH,
            password@.len() == k,
            password_alphabet().len() == 62,
            forall|i: int| 0 <= i < k ==> password_alphabet().contains(#[trigger] password@[i]),
        decreases PASSWORD_LENGTH - k,
    {
        let i = random_below(62);
        let c = alphabet_char(i);
        push_char(&mut password, c);
        k = k + 1;
    }
    password
}

/// The e-mail address of an account made up from a random identifier: `kiro-`,
/// the first eight characters of the identifier, and `@auto.local`.
pub open spec fn generated_email_text(random_id: Seq<char>) -> Seq<char> {
    "kiro-"@ + random_id.take(8) + "@auto.local"@
}

/// The e-mail address of an account made up from a random identifier.
pub fn generated_email(random_id: &str) -> (email: String)
    requires
        random_id@.len() >= 8,
    ensures
        email@ == generated_email_text(random_id@),
{
    let mut email = owned("kiro-");
    let head = random_id.substring_char(0, 8);
    proof {
        assert(random_id@.subrange(0, 8) == random_id@.take(8));
    }
    email.append(head);
    email.append("@auto.local");
    email
}

// ----------------------------------------------------------- specification

/// A token record, as contracts see it.
pub struct TokenModel {
    pub id: u64,
    pub nickname: Option<Seq<char>>,
    pub access_token: Option<Seq<char>>,
    pub refresh_token: Option<Seq<char>>,
    pub status: Option<Seq<char>>,
    pub device_id: Option<Seq<char>>,
    pub device_name: Option<Seq<char>>,
    pub device_type: Option<Seq<char>>,
    pub account_type: Option<Seq<char>>,
    pub last_sync_at: Option<Seq<char>>,
    pub client_id: Option<Seq<char>>,
    pub client_secret: Option<Seq<char>>,
    pub region: Option<Seq<char>>,
    pub auth_method: Option<Seq<char>>,
    pub expires_at: Option<Seq<char>>,
    pub sync_version: u64,
}

impl View for TokenSync {
    type V = TokenModel;

    open spec fn view(&self) -> TokenModel {
        TokenModel {
            id: self.id,
            nickname: text_of(self.nickname),
            access_token: text_of(self.access_token),
            refresh_token: text_of(self.refresh_token),
            status: text_of(self.status),
            device_id: text_of(self.device_id),
            device_name: text_of(self.device_name),
            device_type: text_of(self.device_type),
            account_type: text_of(self.account_type),
            last_sync_at: text_of(self.last_sync_at),
            client_id: text_of(self.client_id),
            client_secret: text_of(self.client_secret),
            region: text_of(self.region),
            auth_method: text_of(self.auth_method),
            expires_at: text_of(self.expires_at),
            sync_version: self.sync_version,
        }
    }
}

pub open spec fn token_models(v: Seq<TokenSync>) -> Seq<TokenModel> {
    v.map_values(|t: TokenSync| t@)
}

/// The token record that reports credential `c` of device `d` at the time
/// `now`; none for a credential without an id.
pub open spec fn token_of(c: CredentialModel, d: DeviceModel, now: Seq<char>, version: u64) -> Option<
    TokenModel,
> {
    match c.id {
        Some(id) => Some(
            TokenModel {
                id,
                nickname: c.email,
                access_token: c.access_token,
                refresh_token: c.refresh_token,
                status: Some("active"@),
                device_id: Some(d.device_id),
                device_name: Some(d.device_name),
                device_type: Some(d.device_type),
                account_type: d.account_type,
                last_sync_at: Some(now),
                client_id: c.client_id,
                client_secret: c.client_secret,
                region: c.region,
                auth_method: c.auth_method,
                expires_at: c.expires_at,
                sync_version: version,
            },
        ),
        None => None,
    }
}

/// The token records that report the credentials `cs`, in order.
pub open spec fn tokens_of(cs: Seq<CredentialModel>, d: DeviceModel, now: Seq<char>, version: u64) -> Seq<
    TokenModel,
>
    decreases cs.len(),
{
    if cs.len() == 0 {
        Seq::empty()
    } else {
        match token_of(cs.last(), d, now, version) {
            Some(t) => tokens_of(cs.drop_last(), d, now, version).push(t),
            None => tokens_of(cs.drop_last(), d, now, version),
        }
    }
}

/// The name a device gives itself: its host name, `unknown` where it has
/// none, and the time in seconds since the Unix epoch.
pub open spec fn device_id_text(hostname: Option<Seq<char>>, now: i64) -> Seq<char> {
    (match hostname {
        Some(h) => h,
        None => "unknown"@,
    }) + "-"@ + signed_decimal(now as int)
}

/// The proxy that a configuration names.
pub open spec fn configured_proxy(
    url: Option<Seq<char>>,
    username: Option<Seq<char>>,
    password: Option<Seq<char>>,
) -> Option<ProxyModel> {
    match url {
        Some(u) => Some(
            if username is Some && password is Some {
                ProxyModel { url: u, username, password }
            } else {
                ProxyModel { url: u, username: None, password: None }
            },
        ),
        None => None,
    }
}

/// The manager, as contracts see it.
pub struct ManagerModel {
    pub config: Option<SyncModel>,
    pub last_sync_version: u64,
    pub device_info: Option<DeviceModel>,
    pub config_path: Option<Seq<char>>,
    pub credentials: Seq<CredentialModel>,
    pub proxy_config: Option<ProxyModel>,
    pub tls_backend: TlsBackend,
}

impl ManagerModel {
    /// Whether syncing is switched on.
    pub open spec fn enabled(self) -> bool {
        match self.config {
            Some(c) => c.enabled,
            None => false,
        }
    }

    /// The token to use, if there is one and it is not empty.
    pub open spec fn token(self) -> Option<Seq<char>> {
        match self.config {
            Some(c) => match c.auth_token {
                Some(t) => if t.len() > 0 {
                    Some(t)
                } else {
                    None
                },
                None => None,
            },
            None => None,
        }
    }

    /// The settings after an account was made sure of: an e-mail address or a
    /// password that is missing or empty is made up.
    pub open spec fn with_account(self, random_id: Seq<char>, password: Seq<char>) -> Option<
        SyncModel,
    > {
        match self.config {
            Some(c) => Some(
                SyncModel {
                    email: Some(
                        match c.email {
                            Some(e) => if e.len() > 0 {
                                e
                            } else {
                                generated_email_text(random_id)
                            },
                            None => generated_email_text(random_id),
                        },
                    ),
                    password: Some(
                        match c.password {
                            Some(p) => if p.len() > 0 {
                                p
                            } else {
                                password
                            },
                            None => password,
                        },
                    ),
                    ..c
                },
            ),
            None => None,
        }
    }

    /// The token records that a push reports.
    pub open spec fn snapshot(self, now: Seq<char>) -> Seq<TokenModel> {
        match self.device_info {
            Some(d) => tokens_of(self.credentials, d, now, self.last_sync_version),
            None => Seq::empty(),
        }
    }
}

/// What the state of the device channel is called.
pub open spec fn state_name(state: StateModel) -> Seq<char> {
    match state {
        StateModel::Disconnected => "disconnected"@,
        StateModel::Connecting => "connecting"@,
        StateModel::Connected => "connected"@,
        StateModel::Registered => "registered"@,
        StateModel::Error(m) => "error: "@ + m,
    }
}

// ----------------------------------------------------------------- manager

/// The sync manager's memory.
pub struct SyncManager {
    config: Option<SyncConfig>,
    last_sync_version: u64,
    device_info: Option<DeviceInfo>,
    config_path: Option<String>,
    credentials: Vec<KiroCredentials>,
    proxy_config: Option<ProxyConfig>,
    tls_backend: TlsBackend,
}

impl View for SyncManager {
    type V = ManagerModel;

    closed spec fn view(&self) -> ManagerModel {
        ManagerModel {
            config: sync_of(self.config),
            last_sync_version: self.last_sync_version,
            device_info: device_of(self.device_info),
            config_path: text_of(self.config_path),
            credentials: credential_models(self.credentials@),
            proxy_config: proxy_of(self.proxy_config),
            tls_backend: self.tls_backend,
        }
    }
}

/// The token record that reports a credential.
pub fn convert_to_token_sync(
    cred: &KiroCredentials,
    device_info: &DeviceInfo,
    now: &str,
    sync_version: u64,
) -> (token: Option<TokenSync>)
    ensures
        match token {
            Some(t) => token_of(cred@, device_info@, now@, sync_version) == Some(t@),
            None => token_of(cred@, device_info@, now@, sync_version) is None,
        },
{
    match cred.id {
        Some(id) => Some(
            TokenSync {
                id,
                nickname: copy_text(&cred.email),
                access_token: copy_text(&cred.access_token),
                refresh_token: copy_text(&cred.refresh_token),
                status: Some(owned("active")),
                device_id: Some(device_info.device_id.clone()),
                device_name: Some(device_info.device_name.clone()),
                device_type: Some(device_info.device_type.clone()),
                account_type: copy_text(&device_info.account_type),
                last_sync_at: Some(owned(now)),
                client_id: copy_text(&cred.client_id),
                client_secret: copy_text(&cred.client_secret),
                region: copy_text(&cred.region),
                auth_method: copy_text(&cred.auth_method),
                expires_at: copy_text(&cred.expires_at),
                sync_version,
            },
        ),
        None => None,
    }
}

/// The name a device gives itself.
pub fn device_id(hostname: Option<&str>, now: i64) -> (id: String)
    ensures
        id@ == device_id_text(slice_text_of(hostname), now),
{
    let mut id = match hostname {
        Some(h) => owned(h),
        None => owned("unknown"),
    };
    id.append("-");
    id.append(signed_decimal_string(now).as_str());
    id
}

/// What the state of the device channel is called.
pub fn connection_state_name(state: &ConnectionState) -> (name: String)
    ensures
        name@ == state_name(state@),
{
    match state {
        ConnectionState::Disconnected => owned("disconnected"),
        ConnectionState::Connecting => owned("connecting"),
        ConnectionState::Connected => owned("connected"),
        ConnectionState::Registered => owned("registered"),
        ConnectionState::Error(m) => {
            let mut name = owned("error: ");
            name.append(m.as_str());
            name
        },
    }
}

/// Whether a device with the given id is among the devices.
pub fn is_device_online(devices: &Vec<OnlineDeviceInfo>, device_id: &str) -> (online: bool)
    ensures
        online == exists|i: int| 0 <= i < devices@.len() && devices@[i].device_id@ == device_id@,
{
    let mut i: usize = 0;
    while i < devices.len()
        invariant
            i <= devices.len(),
            forall|j: int| 0 <= j < i ==> devices@[j].device_id@ != device_id@,
        decreases devices.len() - i,
    {
        if str_eq(devices[i].device_id.as_str(), device_id) {
            return true;
        }
        i = i + 1;
    }
    false
}

/// Where the devices that are online are asked for.
pub fn devices_url(server_url: &str) -> (url: String)
    ensures
        url@ == server_url@ + "/api/devices"@,
{
    let mut url = owned(server_url);
    url.append("/api/devices");
    url
}

/// Where a credential is pushed to a device.
pub fn device_credentials_url(server_url: &str, device_id: &str) -> (url: String)
    ensures
        url@ == server_url@ + "/api/devices/"@ + device_id@ + "/credentials"@,
{
    let mut url = owned(server_url);
    url.append("/api/devices/");
    url.append(device_id);
    url.append("/credentials");
    url
}

/// Where a credential of a device is deleted.
pub fn device_credential_url(server_url: &str, device_id: &str, credential_id: u64) -> (url: String)
    ensures
        url@ == server_url@ + "/api/devices/"@ + device_id@ + "/credentials/"@ + decimal(
            credential_id as nat,
        ),
{
    let mut url = owned(server_url);
    url.append("/api/devices/");
    url.append(device_id);
    url.append("/credentials/");
    url.append(decimal_string(credential_id).as_str());
    url
}

/// The proxy that a configuration names: none without an address, and with
/// credentials only where it names both a user and a password.
pub fn proxy_from_config(config: &Config) -> (proxy: Option<ProxyConfig>)
    ensures
        proxy_of(proxy) == configured_proxy(
            config@.proxy_url,
            config@.proxy_username,
            config@.proxy_password,
        ),
{
    match &config.proxy_url {
        Some(url) => {
            let proxy = ProxyConfig::new(url.as_str());
            match &config.proxy_username {
                Some(u) => match &config.proxy_password {
                    Some(p) => Some(proxy.with_auth(u.as_str(), p.as_str())),
                    None => Some(proxy),
                },
                None => Some(proxy),
            }
        },
        None => None,
    }
}

impl SyncManager {
    /// A manager for the given configuration, with nothing synced yet.
    pub fn new(config: &Config) -> (manager: Self)
        ensures
            manager@ == (ManagerModel {
                config: config@.sync_config,
                last_sync_version: 0,
                device_info: None,
                config_path: config@.config_path,
                credentials: Seq::empty(),
                proxy_config: configured_proxy(
                    config@.proxy_url,
                    config@.proxy_username,
                    config@.proxy_password,
                ),
                tls_backend: config@.tls_backend,
            }),
    {
        let proxy_config = proxy_from_config(config);
        let sync_config = match &config.sync_config {
            Some(c) => Some(c.duplicate()),
            None => None,
        };
        let config_path = match config.config_path() {
            Some(p) => Some(owned(p)),
            None => None,
        };
        let manager = SyncManager {
            config: sync_config,
            last_sync_version: 0,
            device_info: None,
            config_path,
            credentials: Vec::new(),
            proxy_config,
            tls_backend: config.tls_backend,
        };
        proof {
            assert(credential_models(manager.credentials@) =~= Seq::<CredentialModel>::empty());
        }
        manager
    }

    /// Replaces the sync settings.
    pub fn update_config(&mut self, config: SyncConfig)
        ensures
            final(self)@ == (ManagerModel { config: Some(config@), ..old(self)@ }),
    {
        self.config = Some(config);
    }

    /// Whether syncing is switched on.
    pub fn is_enabled(&self) -> (enabled: bool)
        ensures
            enabled == self@.enabled(),
    {
        match &self.config {
            Some(c) => c.enabled,
            None => false,
        }
    }

    /// The sync settings.
    pub fn config(&self) -> (config: Option<SyncConfig>)
        ensures
            sync_of(config) == self@.config,
    {
        match &self.config {
            Some(c) => Some(c.duplicate()),
            None => None,
        }
    }

    /// The proxy for requests to the control plane.
    pub fn proxy_config(&self) -> (proxy: Option<ProxyConfig>)
        ensures
            proxy_of(proxy) == self@.proxy_config,
    {
        match &self.proxy_config {
            Some(p) => Some(p.duplicate()),
            None => None,
        }
    }

    /// The TLS backend for requests to the control plane.
    pub fn tls_backend(&self) -> (backend: TlsBackend)
        ensures
            backend == self@.tls_backend,
    {
        self.tls_backend
    }

    /// Where the configuration is saved.
    pub fn config_path(&self) -> (path: Option<String>)
        ensures
            text_of(path) == self@.config_path,
    {
        copy_text(&self.config_path)
    }

    /// The token to use, if the settings hold one that is not empty.
    pub fn existing_token(&self) -> (token: Option<String>)
        ensures
            text_of(token) == self@.token(),
    {
        match &self.config {
            Some(c) => match &c.auth_token {
                Some(t) => {
                    if t.as_str().unicode_len() > 0 {
                        Some(t.clone())
                    } else {
                        None
                    }
                },
                None => None,
            },
            None => None,
        }
    }

    /// Makes sure that the settings name an account, with the given random
    /// identifier and password to fall back on, and returns the server, the
    /// e-mail address and the password to log in with; nothing without
    /// settings.
    pub fn ensure_account_with(&mut self, random_id: &str, password: String) -> (account: Option<
        (String, String, String),
    >)
        requires
            random_id@.len() >= 8,
        ensures
            final(self)@ == (ManagerModel {
                config: old(self)@.with_account(random_id@, password@),
                ..old(self)@
            }),
            match account {
                Some((server, email, pass)) => {
                    let c = old(self)@.with_account(random_id@, password@);
                    &&& c is Some
                    &&& server@ == c->0.server_url
                    &&& Some(email@) == c->0.email
                    &&& Some(pass@) == c->0.password
                },
                None => old(self)@.config is None,
            },
    {
        let mut taken: Option<SyncConfig> = None;
        std::mem::swap(&mut self.config, &mut taken);
        match taken {
            Some(c) => {
                let mut c = c;
                let email = match &c.email {
                    Some(e) => {
                        if e.as_str().unicode_len() > 0 {
                            e.clone()
                        } else {
                            generated_email(random_id)
                        }
                    },
                    None => generated_email(random_id),
                };
                let pass = match &c.password {
                    Some(p) => {
                        if p.as_str().unicode_len() > 0 {
                            p.clone()
                        } else {
                            password
                        }
                    },
                    None => password,
                };
                c.email = Some(email.clone());
                c.password = Some(pass.clone());
                let server = c.server_url.clone();
                self.config = Some(c);
                Some((server, email, pass))
            },
            None => None,
        }
    }

    /// Makes sure that the settings name an account, making up what is
    /// missing at random.
    pub fn ensure_account(&mut self) -> (account: Option<(String, String, String)>)
        ensures
            exists|random_id: Seq<char>, password: Seq<char>|
                {
                    &&& random_id.len() == 36
                    &&& is_generated_password(password)
                    &&& final(self)@ == (ManagerModel {
                        config: old(self)@.with_account(random_id, password),
                        ..old(self)@
                    })
                    &&& match account {
                        Some((server, email, pass)) => {
                            let c = old(self)@.with_account(random_id, password);
                            &&& c is Some
                            &&& server@ == c->0.server_url
                            &&& Some(email@) == c->0.email
                            &&& Some(pass@) == c->0.password
                        },
                        None => old(self)@.config is None,
                    }
                },
    {
        let random_id = random_uuid();
        let password = generate_password();
        let ghost id_text = random_id@;
        let ghost pass_text = password@;
        let ghost before = self@;
        let account = self.ensure_account_with(random_id.as_str(), password);
        proof {
            assert(self@ == (ManagerModel {
                config: before.with_account(id_text, pass_text),
                ..before
            }));
        }
        account
    }

    /// Keeps a token obtained by login or registration, and returns the
    /// settings to save; nothing without settings.
    pub fn store_token(&mut self, token: String) -> (to_save: Option<SyncConfig>)
        ensures
            final(self)@ == (ManagerModel {
                config: match old(self)@.config {
                    Some(c) => Some(SyncModel { auth_token: Some(token@), ..c }),
                    None => None,
                },
                ..old(self)@
            }),
            sync_of(to_save) == final(self)@.config,
    {
        let mut taken: Option<SyncConfig> = None;
        std::mem::swap(&mut self.config, &mut taken);
        match taken {
            Some(c) => {
                let mut c = c;
                c.auth_token = Some(token);
                let copy = c.duplicate();
                self.config = Some(c);
                Some(copy)
            },
            None => None,
        }
    }

    /// Works out how the device registers, and keeps it; nothing without
    /// settings.
    pub fn register_device(
        &mut self,
        token: String,
        device_name: String,
        hostname: Option<&str>,
        now: i64,
    ) -> (info: Option<DeviceInfo>)
        ensures
            match old(self)@.config {
                Some(c) => {
                    let d = DeviceModel {
                        token: token@,
                        device_id: device_id_text(slice_text_of(hostname), now),
                        device_name: device_name@,
                        device_type: crate::model::config::device_type_name(c.device_type),
                        account_type: Some(
                            crate::model::config::account_type_name(c.account_type),
                        ),
                    };
                    &&& device_of(info) == Some(d)
                    &&& final(self)@ == (ManagerModel { device_info: Some(d), ..old(self)@ })
                },
                None => info is None && final(self)@ == old(self)@,
            },
    {
        match &self.config {
            Some(c) => {
                let info = DeviceInfo {
                    token,
                    device_id: device_id(hostname, now),
                    device_name,
                    device_type: owned(c.device_type.as_str()),
                    account_type: Some(owned(c.account_type.as_str())),
                };
                let copy = info.duplicate();
                self.device_info = Some(info);
                Some(copy)
            },
            None => None,
        }
    }

    /// Replaces the credentials to report.
    pub fn update_credentials(&mut self, credentials: Vec<KiroCredentials>)
        ensures
            final(self)@ == (ManagerModel {
                credentials: credential_models(credentials@),
                ..old(self)@
            }),
    {
        self.credentials = credentials;
    }

    /// The version of the last sync.
    pub fn get_sync_version(&self) -> (version: u64)
        ensures
            version == self@.last_sync_version,
    {
        self.last_sync_version
    }

    /// How the device registers, once that is known.
    pub fn get_device_info(&self) -> (info: Option<DeviceInfo>)
        ensures
            device_of(info) == self@.device_info,
    {
        match &self.device_info {
            Some(i) => Some(i.duplicate()),
            None => None,
        }
    }

    /// Remembers the version that the control plane reported.
    pub fn note_version(&mut self, current_version: u64)
        ensures
            final(self)@ == (ManagerModel { last_sync_version: current_version, ..old(self)@ }),
    {
        self.last_sync_version = current_version;
    }

    /// The token records that report the credentials at the time `now`.
    pub fn token_snapshot(&self, now: &str) -> (tokens: Vec<TokenSync>)
        ensures
            token_models(tokens@) == self@.snapshot(now@),
    {
        let mut tokens: Vec<TokenSync> = Vec::new();
        let ghost cs = credential_models(self.credentials@);
        match &self.device_info {
            Some(d) => {
                let mut i: usize = 0;
                proof {
                    assert(cs.take(0) =~= Seq::<CredentialModel>::empty());
                    assert(token_models(tokens@) =~= Seq::<TokenModel>::empty());
                }
                while i < self.credentials.len()
                    invariant
                        i <= self.credentials.len(),
                        cs == credential_models(self.credentials@),
                        token_models(tokens@) == tokens_of(
                            cs.take(i as int),
                            d@,
                            now@,
                            self.last_sync_version,
                        ),
                    decreases self.credentials.len() - i,
                {
                    let ghost before = token_models(tokens@);
                    proof {
                        assert(cs[i as int] == self.credentials@[i as int]@);
                        assert(cs.take(i + 1).drop_last() =~= cs.take(i as int));
                        assert(cs.take(i + 1).last() == cs[i as int]);
                    }
                    match convert_to_token_sync(&self.credentials[i], d, now, self.last_sync_version) {
                        Some(t) => {
                            let ghost shown = t@;
                            tokens.push(t);
                            proof {
                                assert(token_models(tokens@) =~= before.push(shown));
                            }
                        },
                        None => {},
                    }
                    i = i + 1;
                }
                proof {
                    assert(cs.take(cs.len() as int) =~= cs);
                }
            },
            None => {
                proof {
                    assert(token_models(tokens@) =~= Seq::<TokenModel>::empty());
                }
            },
        }
        tokens
    }

    /// What a push sends at the time `now`: the token records of the
    /// credentials, and nothing at all where there is none to report.
    pub fn push_request(&self, now: &str) -> (request: Option<PushChangesRequest>)
        ensures
            match request {
                Some(r) => {
                    &&& self@.snapshot(now@).len() > 0
                    &&& r.tokens is Some
                    &&& token_models(r.tokens->0@) == self@.snapshot(now@)
                    &&& r.token_usage is None
                    &&& r.token_subscriptions is None
                    &&& r.token_bonuses is None
                },
                None => self@.snapshot(now@).len() == 0,
            },
    {
        let tokens = self.token_snapshot(now);
        if tokens.len() == 0 {
            None
        } else {
            Some(
                PushChangesRequest {
                    tokens: Some(tokens),
                    token_usage: None,
                    token_subscriptions: None,
                    token_bonuses: None,
                },
            )
        }
    }

    /// Remembers the version that a push gave, and says whether the control
    /// plane reported conflicts.
    pub fn note_pushed(&mut self, response: &PushChangesResponse) -> (conflicts: bool)
        ensures
            conflicts == (response.conflicts@.len() > 0),
            final(self)@ == (ManagerModel {
                last_sync_version: response.current_version,
                ..old(self)@
            }),
    {
        self.last_sync_version = response.current_version;
        response.conflicts.len() > 0
    }

    /// What the state of the device channel is called; nothing without a
    /// channel.
    pub fn get_connection_state(state: Option<&ConnectionState>) -> (name: Option<String>)
        ensures
            match state {
                Some(s) => text_of(name) == Some(state_name(s@)),
                None => name is None,
            },
    {
        match state {
            Some(s) => Some(connection_state_name(s)),
            None => None,
        }
    }
}

/// Without credentials there is nothing to push.
pub proof fn lemma_nothing_to_push(m: ManagerModel, now: Seq<char>)
    requires
        m.credentials.len() == 0,
    ensures
        m.snapshot(now).len() == 0,
{
}

} // verus!
