//! The application's configuration and its defaults.

use vstd::prelude::*;
use crate::text::owned;
use crate::text::text_of;

verus! {

/// The TLS implementation outbound clients are built on.
#[derive(Clone, Copy, Debug, PartialEq, Eq, Structural)]
pub enum TlsBackend {
    Rustls,
    NativeTls,
}

impl Default for TlsBackend {
    fn default() -> (backend: Self)
        ensures
            backend == TlsBackend::Rustls,
    {
        TlsBackend::Rustls
    }
}

/// Whether a device provides accounts or uses them up.
#[derive(Clone, Copy, Debug, PartialEq, Eq, Structural)]
pub enum AccountType {
    /// A device that provides accounts.
    Supplier,
    /// A device that uses accounts.
    Consumer,
}

impl Default for AccountType {
    fn default() -> (kind: Self)
        ensures
            kind == AccountType::Consumer,
    {
        AccountType::Consumer
    }
}

/// The name of an account type on the wire.
pub open spec fn account_type_name(kind: AccountType) -> Seq<char> {
    match kind {
        AccountType::Supplier => "supplier"@,
        AccountType::Consumer => "consumer"@,
    }
}

/// The name of a device type on the wire.
pub open spec fn device_type_name(kind: DeviceType) -> Seq<char> {
    match kind {
        DeviceType::Desktop => "desktop"@,
        DeviceType::Mobile => "mobile"@,
        DeviceType::Server => "server"@,
    }
}

impl AccountType {
    /// The name of the account type on the wire.
    pub fn as_str(&self) -> (name: &'static str)
        ensures
            name@ == account_type_name(*self),
    {
        match self {
            AccountType::Supplier => "supplier",
            AccountType::Consumer => "consumer",
        }
    }
}

/// The kind of device.
#[derive(Clone, Copy, Debug, PartialEq, Eq, Structural)]
pub enum DeviceType {
    Desktop,
    Mobile,
    Server,
}

impl Default for DeviceType {
    fn default() -> (kind: Self)
        ensures
            kind == DeviceType::Desktop,
    {
        DeviceType::Desktop
    }
}

impl DeviceType {
    /// The name of the device type on the wire.
    pub fn as_str(&self) -> (name: &'static str)
        ensures
            name@ == device_type_name(*self),
    {
        match self {
            DeviceType::Desktop => "desktop",
            DeviceType::Mobile => "mobile",
            DeviceType::Server => "server",
        }
    }
}

/// How to reach the control plane.
#[derive(Clone, Debug)]
pub struct SyncConfig {
    /// Address of the control plane, such as `http://localhost:3000`.
    pub server_url: String,
    /// Account e-mail for login or registration.
    pub email: Option<String>,
    /// Account password for login or registration.
    pub password: Option<String>,
    /// The bearer token obtained by login or registration.
    pub auth_token: Option<String>,
    /// Whether syncing is switched on.
    pub enabled: bool,
    /// Seconds between two sync cycles.
    pub sync_interval: u64,
    /// Seconds between two heartbeats on the device channel.
    pub heartbeat_interval: u64,
    pub account_type: AccountType,
    pub device_type: DeviceType,
}

/// The sync settings, as contracts see them.
pub struct SyncModel {
    pub server_url: Seq<char>,
    pub email: Option<Seq<char>>,
    pub password: Option<Seq<char>>,
    pub auth_token: Option<Seq<char>>,
    pub enabled: bool,
    pub sync_interval: u64,
    pub heartbeat_interval: u64,
    pub account_type: AccountType,
    pub device_type: DeviceType,
}

impl View for SyncConfig {
    type V = SyncModel;

    open spec fn view(&self) -> SyncModel {
        SyncModel {
            server_url: self.server_url@,
            email: text_of(self.email),
            password: text_of(self.password),
            auth_token: text_of(self.auth_token),
            enabled: self.enabled,
            sync_interval: self.sync_interval,
            heartbeat_interval: self.heartbeat_interval,
            account_type: self.account_type,
            device_type: self.device_type,
        }
    }
}

/// The model of optional sync settings.
pub open spec fn sync_of(config: Option<SyncConfig>) -> Option<SyncModel> {
    match config {
        Some(c) => Some(c@),
        None => None,
    }
}

impl SyncConfig {
    /// A copy of the settings.
    pub fn duplicate(&self) -> (copy: Self)
        ensures
            copy@ == self@,
    {
        SyncConfig {
            server_url: self.server_url.clone(),
            email: crate::text::copy_text(&self.email),
            password: crate::text::copy_text(&self.password),
            auth_token: crate::text::copy_text(&self.auth_token),
            enabled: self.enabled,
            sync_interval: self.sync_interval,
            heartbeat_interval: self.heartbeat_interval,
            account_type: self.account_type,
            device_type: self.device_type,
        }
    }
}

/// The application's configuration.
#[derive(Clone, Debug)]
pub struct Config {
    pub host: String,
    pub port: u16,
    pub region: String,
    /// Region for token refresh; the plain region where absent.
    pub auth_region: Option<String>,
    /// Region for API requests; the plain region where absent.
    pub api_region: Option<String>,
    pub kiro_version: String,
    pub machine_id: Option<String>,
    pub api_key: Option<String>,
    pub system_version: String,
    pub node_version: String,
    pub tls_backend: TlsBackend,
    /// Address of an outside token counter, if one is used.
    pub count_tokens_api_url: Option<String>,
    pub count_tokens_api_key: Option<String>,
    /// `x-api-key` or `bearer`.
    pub count_tokens_auth_type: String,
    pub proxy_url: Option<String>,
    pub proxy_username: Option<String>,
    pub proxy_password: Option<String>,
    /// The key that opens the admin surface, if it is switched on.
    pub admin_api_key: Option<String>,
    /// `priority` or `balanced`.
    pub load_balancing_mode: String,
    pub sync_config: Option<SyncConfig>,
    /// Where the configuration was read from; not part of the saved form.
    pub config_path: Option<String>,
}

/// The configuration, as contracts see it.
pub struct ConfigModel {
    pub host: Seq<char>,
    pub port: u16,
    pub region: Seq<char>,
    pub auth_region: Option<Seq<char>>,
    pub api_region: Option<Seq<char>>,
    pub kiro_version: Seq<char>,
    pub machine_id: Option<Seq<char>>,
    pub api_key: Option<Seq<char>>,
    pub system_version: Seq<char>,
    pub node_version: Seq<char>,
    pub tls_backend: TlsBackend,
    pub count_tokens_api_url: Option<Seq<char>>,
    pub count_tokens_api_key: Option<Seq<char>>,
    pub count_tokens_auth_type: Seq<char>,
    pub proxy_url: Option<Seq<char>>,
    pub proxy_username: Option<Seq<char>>,
    pub proxy_password: Option<Seq<char>>,
    pub admin_api_key: Option<Seq<char>>,
    pub load_balancing_mode: Seq<char>,
    pub sync_config: Option<SyncModel>,
    pub config_path: Option<Seq<char>>,
}

impl View for Config {
    type V = ConfigModel;

    open spec fn view(&self) -> ConfigModel {
        ConfigModel {
            host: self.host@,
            port: self.port,
            region: self.region@,
            auth_region: text_of(self.auth_region),
            api_region: text_of(self.api_region),
            kiro_version: self.kiro_version@,
            machine_id: text_of(self.machine_id),
            api_key: text_of(self.api_key),
            system_version: self.system_version@,
            node_version: self.node_version@,
            tls_backend: self.tls_backend,
            count_tokens_api_url: text_of(self.count_tokens_api_url),
            count_tokens_api_key: text_of(self.count_tokens_api_key),
            count_tokens_auth_type: self.count_tokens_auth_type@,
            proxy_url: text_of(self.proxy_url),
            proxy_username: text_of(self.proxy_username),
            proxy_password: text_of(self.proxy_password),
            admin_api_key: text_of(self.admin_api_key),
            load_balancing_mode: self.load_balancing_mode@,
            sync_config: sync_of(self.sync_config),
            config_path: text_of(self.config_path),
        }
    }
}

/// The sync settings a configuration starts with.
pub open spec fn default_sync_model() -> SyncModel {
    SyncModel {
        server_url: "http://127.0.0.1:3002"@,
        email: None,
        password: None,
        auth_token: None,
        enabled: true,
        sync_interval: 300,
        heartbeat_interval: 15,
        account_type: AccountType::Consumer,
        device_type: DeviceType::Desktop,
    }
}

/// The system versions a configuration may claim when none is set.
pub open spec fn system_version_choice(i: int) -> Seq<char> {
    if i == 0 {
        "darwin#24.6.0"@
    } else {
        "win32#10.0.22631"@
    }
}

/// The configuration used when no file exists, with the given system version.
pub open spec fn default_model(system_version: Seq<char>) -> ConfigModel {
    ConfigModel {
        host: "0.0.0.0"@,
        port: 8080,
        region: "us-east-1"@,
        auth_region: None,
        api_region: None,
        kiro_version: "0.9.2"@,
        machine_id: None,
        api_key: None,
        system_version,
        node_version: "22.21.1"@,
        tls_backend: TlsBackend::Rustls,
        count_tokens_api_url: None,
        count_tokens_api_key: None,
        count_tokens_auth_type: "x-api-key"@,
        proxy_url: None,
        proxy_username: None,
        proxy_password: None,
        admin_api_key: None,
        load_balancing_mode: "priority"@,
        sync_config: Some(default_sync_model()),
        config_path: None,
    }
}

/// A number below `n`, drawn at random. Trusted: calls `fastrand::usize` with
/// the range `..n`, which the crate documents to return a value of the range
/// and to panic on an empty one.
#[verifier::external_body]
pub(crate) fn random_below(n: usize) -> (i: usize)
    requires
        n > 0,
    ensures
        i < n,
{
    fastrand::usize(..n)
}

pub fn default_sync_enabled() -> (enabled: bool)
    ensures
        enabled,
{
    true
}

pub fn default_sync_interval() -> (seconds: u64)
    ensures
        seconds == 300,
{
    300
}

pub fn default_heartbeat_interval() -> (seconds: u64)
    ensures
        seconds == 15,
{
    15
}

pub fn default_host() -> (host: String)
    ensures
        host@ == "0.0.0.0"@,
{
    owned("0.0.0.0")
}

pub fn default_port() -> (port: u16)
    ensures
        port == 8080,
{
    8080
}

pub fn default_region() -> (region: String)
    ensures
        region@ == "us-east-1"@,
{
    owned("us-east-1")
}

pub fn default_kiro_version() -> (version: String)
    ensures
        version@ == "0.9.2"@,
{
    owned("0.9.2")
}

/// The system version with the given number.
pub fn system_version_at(choice: usize) -> (version: String)
    ensures
        version@ == system_version_choice(choice as int),
{
    if choice == 0 {
        owned("darwin#24.6.0")
    } else {
        owned("win32#10.0.22631")
    }
}

/// One of the known system versions, picked at random.
pub fn default_system_version() -> (version: String)
    ensures
        version@ == system_version_choice(0) || version@ == system_version_choice(1),
{
    let choice = random_below(2);
    system_version_at(choice)
}

pub fn default_node_version() -> (version: String)
    ensures
        version@ == "22.21.1"@,
{
    owned("22.21.1")
}

pub fn default_count_tokens_auth_type() -> (kind: String)
    ensures
        kind@ == "x-api-key"@,
{
    owned("x-api-key")
}

pub fn default_tls_backend() -> (backend: TlsBackend)
    ensures
        backend == TlsBackend::Rustls,
{
    TlsBackend::Rustls
}

pub fn default_load_balancing_mode() -> (mode: String)
    ensures
        mode@ == "priority"@,
{
    owned("priority")
}

pub fn default_sync_config() -> (config: Option<SyncConfig>)
    ensures
        sync_of(config) == Some(default_sync_model()),
{
    Some(
        SyncConfig {
            server_url: owned("http://127.0.0.1:3002"),
            email: None,
            password: None,
            auth_token: None,
            enabled: true,
            sync_interval: default_sync_interval(),
            heartbeat_interval: default_heartbeat_interval(),
            account_type: AccountType::default(),
            device_type: DeviceType::default(),
        },
    )
}

impl Config {
    /// The configuration used when no file exists, with the given system
    /// version.
    pub fn default_with(system_version: String) -> (config: Self)
        ensures
            config@ == default_model(system_version@),
    {
        Config {
            host: default_host(),
            port: default_port(),
            region: default_region(),
            auth_region: None,
            api_region: None,
            kiro_version: default_kiro_version(),
            machine_id: None,
            api_key: None,
            system_version,
            node_version: default_node_version(),
            tls_backend: default_tls_backend(),
            count_tokens_api_url: None,
            count_tokens_api_key: None,
            count_tokens_auth_type: default_count_tokens_auth_type(),
            proxy_url: None,
            proxy_username: None,
            proxy_password: None,
            admin_api_key: None,
            load_balancing_mode: default_load_balancing_mode(),
            sync_config: default_sync_config(),
            config_path: None,
        }
    }

    /// The name of the configuration file when none is given.
    pub fn default_config_path() -> (path: &'static str)
        ensures
            path@ == "config.json"@,
    {
        "config.json"
    }

    /// The region for token refresh.
    pub fn effective_auth_region(&self) -> (region: &str)
        ensures
            region@ == match self@.auth_region {
                Some(r) => r,
                None => self@.region,
            },
    {
        match &self.auth_region {
            Some(r) => r.as_str(),
            None => self.region.as_str(),
        }
    }

    /// The region for API requests.
    pub fn effective_api_region(&self) -> (region: &str)
        ensures
            region@ == match self@.api_region {
                Some(r) => r,
                None => self@.region,
            },
    {
        match &self.api_region {
            Some(r) => r.as_str(),
            None => self.region.as_str(),
        }
    }

    /// Where the configuration was read from, if known.
    pub fn config_path(&self) -> (path: Option<&str>)
        ensures
            crate::text::slice_text_of(path) == self@.config_path,
    {
        match &self.config_path {
            Some(p) => Some(p.as_str()),
            None => None,
        }
    }

    /// Notes where the configuration was read from.
    pub fn set_config_path(&mut self, path: String)
        ensures
            final(self)@ == (ConfigModel { config_path: Some(path@), ..old(self)@ }),
    {
        self.config_path = Some(path);
    }
}

impl Default for Config {
    fn default() -> (config: Self)
        ensures
            config@ == default_model(system_version_choice(0)) || config@ == default_model(
                system_version_choice(1),
            ),
    {
        Config::default_with(default_system_version())
    }
}

} // verus!
