//! What the admin surface decides between reading a request and writing the
//! answer: which key a new API key gets, which proxy or sync settings a
//! request asks for, what a connectivity test reports, and the messages of
//! the answers.

use vstd::prelude::*;
use crate::admin::types::ConnectivityTestResponse;
use crate::admin::types::ProxyConfigResponse;
use crate::admin::types::UpdateProxyConfigRequest;
use crate::http_client::proxy_of;
use crate::kiro::model::events::event_models;
use crate::kiro::model::events::Event;
use crate::kiro::model::events::EventModel;
use crate::kiro::translate::collected;
use crate::kiro::translate::no_answer;
use crate::kiro::translate::text_of_events;
use crate::kiro::translate::ResponseCollector;
use crate::kiro::translate::Content;
use crate::kiro::translate::ContentModel;
use crate::kiro::translate::Message;
use crate::kiro::translate::MessageModel;
use crate::kiro::translate::MessagesRequest;
use crate::kiro::translate::message_models;
use crate::http_client::ProxyConfig;
use crate::http_client::ProxyModel;
use crate::model::config::AccountType;
use crate::model::config::Config;
use crate::model::config::ConfigModel;
use crate::model::config::DeviceType;
use crate::model::config::SyncConfig;
use crate::model::config::SyncModel;
use crate::sync::client::bearer;
use crate::sync::client::bearer_text;
use crate::text::blank;
use crate::text::copy_text;
use crate::text::decimal;
use crate::text::decimal_string;
use crate::text::digit_of;
use crate::text::is_blank;
use crate::text::owned;
use crate::text::push_char;
use crate::text::str_eq;
use crate::text::text_of;
use crate::token_usage::granularity_named;
use crate::token_usage::TimeGranularity;

verus! {

// ---------------------------------------------------------------- API keys

/// The character of a hexadecimal digit, in lower case.
pub open spec fn hex_digit(n: int) -> char
    recommends
        0 <= n < 16,
{
    if n < 10 {
        crate::text::digit_char(n)
    } else if n == 10 {
        'a'
    } else if n == 11 {
        'b'
    } else if n == 12 {
        'c'
    } else if n == 13 {
        'd'
    } else if n == 14 {
        'e'
    } else {
        'f'
    }
}

/// Bytes written in hexadecimal: two lower-case digits for each byte, the
/// high one first.
pub open spec fn hex_of(bytes: Seq<u8>) -> Seq<char>
    decreases bytes.len(),
{
    if bytes.len() == 0 {
        Seq::empty()
    } else {
        hex_of(bytes.drop_last()).push(hex_digit(bytes.last() as int / 16)).push(
            hex_digit(bytes.last() as int % 16),
        )
    }
}

/// The character of a hexadecimal digit, in lower case.
pub fn hex_char(n: u8) -> (c: char)
    requires
        n < 16,
    ensures
        c == hex_digit(n as int),
{
    if n < 10 {
        digit_of(n)
    } else if n == 10 {
        'a'
    } else if n == 11 {
        'b'
    } else if n == 12 {
        'c'
    } else if n == 13 {
        'd'
    } else if n == 14 {
        'e'
    } else {
        'f'
    }
}

/// Writes bytes in hexadecimal.
pub fn hex_text(bytes: &Vec<u8>) -> (text: String)
    ensures
        text@ == hex_of(bytes@),
{
    let mut text = String::new();
    let mut i: usize = 0;
    proof {
        assert(bytes@.take(0) =~= Seq::<u8>::empty());
    }
    while i < bytes.len()
        invariant
            i <= bytes.len(),
            text@ == hex_of(bytes@.take(i as int)),
        decreases bytes.len() - i,
    {
        let b: u8 = bytes[i];
        proof {
            assert(bytes@.take(i + 1).drop_last() =~= bytes@.take(i as int));
            assert(bytes@.take(i + 1).last() == b);
        }
        push_char(&mut text, hex_char(b / 16));
        push_char(&mut text, hex_char(b % 16));
        i = i + 1;
    }
    proof {
        assert(bytes@.take(bytes.len() as int) =~= bytes@);
    }
    text
}

/// A random byte. Trusted: calls `fastrand::u8` with the full range; nothing
/// is claimed of a random value.
#[verifier::external_body]
pub(crate) fn random_byte() -> (b: u8) {
    fastrand::u8(..)
}

/// How many random bytes a generated API key is made of.
pub const API_KEY_BYTES: usize = 24;

/// The API key made of the given bytes: `sk-` and the bytes in hexadecimal.
pub open spec fn api_key_text(bytes: Seq<u8>) -> Seq<char> {
    "sk-"@ + hex_of(bytes)
}

/// The API key made of the given bytes.
pub fn api_key_from(bytes: &Vec<u8>) -> (key: String)
    ensures
        key@ == api_key_text(bytes@),
{
    let mut key = owned("sk-");
    key.append(hex_text(bytes).as_str());
    key
}

/// A new API key, made of random bytes.
pub fn generate_api_key() -> (key: String)
    ensures
        exists|bytes: Seq<u8>| bytes.len() == API_KEY_BYTES && key@ == api_key_text(bytes),
{
    let mut bytes: Vec<u8> = Vec::new();
    let mut i: usize = 0;
    while i < API_KEY_BYTES
        invariant
            i <= API_KEY_BYTES,
            bytes@.len() == i,
        decreases API_KEY_BYTES - i,
    {
        bytes.push(random_byte());
        i = i + 1;
    }
    let key = api_key_from(&bytes);
    proof {
        assert(bytes@.len() == API_KEY_BYTES && key@ == api_key_text(bytes@));
    }
    key
}

/// The key that a new API key gets: the one asked for, unless none is asked
/// for or it is blank; then a generated one.
pub fn create_key(requested: Option<String>) -> (key: String)
    ensures
        match requested {
            Some(k) => if is_blank(k@) {
                exists|bytes: Seq<u8>| bytes.len() == API_KEY_BYTES && key@ == api_key_text(bytes)
            } else {
                key@ == k@
            },
            None => exists|bytes: Seq<u8>|
                bytes.len() == API_KEY_BYTES && key@ == api_key_text(bytes),
        },
{
    match requested {
        Some(k) => {
            if blank(k.as_str()) {
                generate_api_key()
            } else {
                k
            }
        },
        None => generate_api_key(),
    }
}

// ------------------------------------------------------------------- proxy

/// What a request to change the proxy asks for.
pub enum ProxyWish {
    /// Use this proxy.
    Use(ProxyModel),
    /// Use no proxy.
    Off,
    /// The request asks for a proxy and names none.
    Invalid,
}

/// What a request to change the proxy asks for. A proxy gets credentials only
/// if the request holds both a user name and a password.
pub open spec fn proxy_wish(
    enabled: bool,
    url: Option<Seq<char>>,
    username: Option<Seq<char>>,
    password: Option<Seq<char>>,
) -> ProxyWish {
    if !enabled {
        ProxyWish::Off
    } else {
        match url {
            Some(u) => if u.len() == 0 {
                ProxyWish::Invalid
            } else if username is Some && password is Some {
                ProxyWish::Use(ProxyModel { url: u, username, password })
            } else {
                ProxyWish::Use(ProxyModel { url: u, username: None, password: None })
            },
            None => ProxyWish::Invalid,
        }
    }
}

/// The message for a request that asks for a proxy and names none.
pub open spec fn missing_proxy_text() -> Seq<char> {
    "启用代理时必须提供代理地址"@
}

/// The proxy that a request asks for, or the message that refuses the
/// request.
pub fn proxy_from_request(request: &UpdateProxyConfigRequest) -> (wanted: Result<
    Option<ProxyConfig>,
    String,
>)
    ensures
        match wanted {
            Ok(proxy) => match proxy_of(proxy) {
                Some(p) => proxy_wish(
                    request.enabled,
                    text_of(request.url),
                    text_of(request.username),
                    text_of(request.password),
                ) == ProxyWish::Use(p),
                None => proxy_wish(
                    request.enabled,
                    text_of(request.url),
                    text_of(request.username),
                    text_of(request.password),
                ) == ProxyWish::Off,
            },
            Err(msg) => msg@ == missing_proxy_text() && proxy_wish(
                request.enabled,
                text_of(request.url),
                text_of(request.username),
                text_of(request.password),
            ) == ProxyWish::Invalid,
        },
{
    if !request.enabled {
        return Ok(None);
    }
    match &request.url {
        Some(u) => {
            if u.as_str().unicode_len() == 0 {
                return Err(owned("启用代理时必须提供代理地址"));
            }
            let proxy = ProxyConfig::new(u.as_str());
            match &request.username {
                Some(name) => match &request.password {
                    Some(pass) => Ok(Some(proxy.with_auth(name.as_str(), pass.as_str()))),
                    None => Ok(Some(proxy)),
                },
                None => Ok(Some(proxy)),
            }
        },
        None => Err(owned("启用代理时必须提供代理地址")),
    }
}

/// Writes the proxy that a request asks for into a configuration: the
/// request's address and credentials where it switches the proxy on, none
/// where it switches it off.
pub fn apply_proxy_update(config: &mut Config, request: &UpdateProxyConfigRequest)
    ensures
        final(config)@ == (ConfigModel {
            proxy_url: if request.enabled {
                text_of(request.url)
            } else {
                None
            },
            proxy_username: if request.enabled {
                text_of(request.username)
            } else {
                None
            },
            proxy_password: if request.enabled {
                text_of(request.password)
            } else {
                None
            },
            ..old(config)@
        }),
{
    if request.enabled {
        config.proxy_url = copy_text(&request.url);
        config.proxy_username = copy_text(&request.username);
        config.proxy_password = copy_text(&request.password);
    } else {
        config.proxy_url = None;
        config.proxy_username = None;
        config.proxy_password = None;
    }
}

/// What is shown of a proxy setting. The password is not.
pub fn proxy_response(config: Option<ProxyConfig>) -> (shown: ProxyConfigResponse)
    ensures
        match proxy_of(config) {
            Some(p) => {
                &&& shown.enabled
                &&& text_of(shown.url) == Some(p.url)
                &&& text_of(shown.username) == p.username
                &&& shown.has_password == (p.password is Some)
            },
            None => {
                &&& !shown.enabled
                &&& shown.url is None
                &&& shown.username is None
                &&& !shown.has_password
            },
        },
{
    match config {
        Some(c) => {
            let has_password = c.password.is_some();
            ProxyConfigResponse {
                enabled: true,
                url: Some(c.url),
                username: c.username,
                has_password,
            }
        },
        None => ProxyConfigResponse {
            enabled: false,
            url: None,
            username: None,
            has_password: false,
        },
    }
}

// -------------------------------------------------------------------- sync

/// The sync settings that the admin surface can change.
#[derive(Clone, Debug)]
pub struct SyncSettings {
    pub server_url: String,
    pub auth_token: Option<String>,
    pub enabled: bool,
    pub sync_interval: u64,
    pub heartbeat_interval: u64,
}

/// The settings that a request names; what it leaves out is an empty server,
/// no token, sync switched off, 300 seconds between syncs and 15 between
/// heartbeats.
pub fn sync_settings(
    server_url: Option<String>,
    auth_token: Option<String>,
    enabled: Option<bool>,
    sync_interval: Option<u64>,
    heartbeat_interval: Option<u64>,
) -> (settings: SyncSettings)
    ensures
        settings.server_url@ == match server_url {
            Some(u) => u@,
            None => Seq::empty(),
        },
        text_of(settings.auth_token) == text_of(auth_token),
        settings.enabled == match enabled {
            Some(e) => e,
            None => false,
        },
        settings.sync_interval == match sync_interval {
            Some(s) => s,
            None => 300,
        },
        settings.heartbeat_interval == match heartbeat_interval {
            Some(s) => s,
            None => 15,
        },
{
    SyncSettings {
        server_url: match server_url {
            Some(u) => u,
            None => String::new(),
        },
        auth_token,
        enabled: match enabled {
            Some(e) => e,
            None => false,
        },
        sync_interval: match sync_interval {
            Some(s) => s,
            None => 300,
        },
        heartbeat_interval: match heartbeat_interval {
            Some(s) => s,
            None => 15,
        },
    }
}

/// The sync settings of a configuration after the admin surface changed
/// them: the account and the types of existing settings stay; new settings
/// have no account and stand for a desktop that uses accounts.
pub open spec fn with_sync_settings(
    before: Option<SyncModel>,
    server_url: Seq<char>,
    auth_token: Option<Seq<char>>,
    enabled: bool,
    sync_interval: u64,
    heartbeat_interval: u64,
) -> SyncModel {
    match before {
        Some(c) => SyncModel {
            server_url,
            auth_token,
            enabled,
            sync_interval,
            heartbeat_interval,
            ..c
        },
        None => SyncModel {
            server_url,
            email: None,
            password: None,
            auth_token,
            enabled,
            sync_interval,
            heartbeat_interval,
            account_type: AccountType::Consumer,
            device_type: DeviceType::Desktop,
        },
    }
}

/// Writes sync settings into a configuration.
pub fn apply_sync_settings(config: &mut Config, settings: SyncSettings)
    ensures
        final(config)@ == (ConfigModel {
            sync_config: Some(
                with_sync_settings(
                    old(config)@.sync_config,
                    settings.server_url@,
                    text_of(settings.auth_token),
                    settings.enabled,
                    settings.sync_interval,
                    settings.heartbeat_interval,
                ),
            ),
            ..old(config)@
        }),
{
    let mut taken: Option<SyncConfig> = None;
    std::mem::swap(&mut config.sync_config, &mut taken);
    let updated = match taken {
        Some(c) => {
            let mut c = c;
            c.server_url = settings.server_url;
            c.auth_token = settings.auth_token;
            c.enabled = settings.enabled;
            c.sync_interval = settings.sync_interval;
            c.heartbeat_interval = settings.heartbeat_interval;
            c
        },
        None => SyncConfig {
            server_url: settings.server_url,
            email: None,
            password: None,
            auth_token: settings.auth_token,
            enabled: settings.enabled,
            sync_interval: settings.sync_interval,
            heartbeat_interval: settings.heartbeat_interval,
            account_type: AccountType::Consumer,
            device_type: DeviceType::Desktop,
        },
    };
    config.sync_config = Some(updated);
}

/// What is shown of the sync settings.
#[derive(Clone, Debug)]
pub struct SyncConfigView {
    pub server_url: String,
    pub auth_token: String,
    pub enabled: bool,
    pub sync_interval: u64,
    pub heartbeat_interval: u64,
}

/// What is shown of the sync settings of a configuration; `enabled` is what
/// the sync manager says. Without settings the server and the token are
/// empty and the intervals are the standard ones.
pub fn sync_config_view(config: &Config, enabled: bool) -> (shown: SyncConfigView)
    ensures
        shown.enabled == enabled,
        match config@.sync_config {
            Some(c) => {
                &&& shown.server_url@ == c.server_url
                &&& shown.auth_token@ == match c.auth_token {
                    Some(t) => t,
                    None => Seq::empty(),
                }
                &&& shown.sync_interval == c.sync_interval
                &&& shown.heartbeat_interval == c.heartbeat_interval
            },
            None => {
                &&& shown.server_url@ == Seq::<char>::empty()
                &&& shown.auth_token@ == Seq::<char>::empty()
                &&& shown.sync_interval == 300
                &&& shown.heartbeat_interval == 15
            },
        },
{
    match &config.sync_config {
        Some(c) => SyncConfigView {
            server_url: c.server_url.clone(),
            auth_token: match &c.auth_token {
                Some(t) => t.clone(),
                None => String::new(),
            },
            enabled,
            sync_interval: c.sync_interval,
            heartbeat_interval: c.heartbeat_interval,
        },
        None => SyncConfigView {
            server_url: String::new(),
            auth_token: String::new(),
            enabled,
            sync_interval: 300,
            heartbeat_interval: 15,
        },
    }
}

/// Where and with which authorization the devices that are online are asked
/// for, as far as the settings allow to ask.
pub open spec fn devices_query_text(sync: Option<SyncModel>) -> Option<(Seq<char>, Seq<char>)> {
    match sync {
        Some(c) => if c.enabled && c.server_url.len() > 0 && c.auth_token is Some {
            Some((c.server_url + "/api/devices"@, bearer_text(c.auth_token->0)))
        } else {
            None
        },
        None => None,
    }
}

/// Where and with which authorization to ask for the devices that are
/// online; nothing where syncing is off, or no server or no token is known.
pub fn devices_query(config: &Config) -> (query: Option<(String, String)>)
    ensures
        match query {
            Some((url, auth)) => devices_query_text(config@.sync_config) == Some((url@, auth@)),
            None => devices_query_text(config@.sync_config) is None,
        },
{
    match &config.sync_config {
        Some(c) => {
            if !c.enabled || c.server_url.as_str().unicode_len() == 0 {
                return None;
            }
            match &c.auth_token {
                Some(t) => Some(
                    (crate::sync::manager::devices_url(c.server_url.as_str()), bearer(t.as_str())),
                ),
                None => None,
            }
        },
        None => None,
    }
}

// -------------------------------------------------------------- parameters

/// The granularity that a request for a time series names: `day` where it
/// names none; nothing where it names an unknown one.
pub fn granularity_param(param: Option<&str>) -> (g: Option<TimeGranularity>)
    ensures
        g == match param {
            Some(p) => granularity_named(p@),
            None => granularity_named("day"@),
        },
{
    match param {
        Some(p) => TimeGranularity::from_str(p),
        None => TimeGranularity::from_str("day"),
    }
}

/// Whether a request for a balance asks to pass the cache by: only if its
/// parameter `force` is `true`.
pub fn force_requested(param: Option<&str>) -> (force: bool)
    ensures
        force == match param {
            Some(p) => p@ == "true"@,
            None => false,
        },
{
    match param {
        Some(p) => str_eq(p, "true"),
        None => false,
    }
}

// ------------------------------------------------------------ connectivity

/// The kinds of connectivity test.
#[derive(Clone, Copy, Debug, PartialEq, Eq, Structural)]
pub enum TestMode {
    Anthropic,
    OpenAi,
    Unknown,
}

/// The kind of test with the given name.
pub open spec fn mode_named(mode: Seq<char>) -> TestMode {
    if mode == "anthropic"@ {
        TestMode::Anthropic
    } else if mode == "openai"@ {
        TestMode::OpenAi
    } else {
        TestMode::Unknown
    }
}

/// The kind of test that a request names.
pub fn test_mode(mode: &str) -> (kind: TestMode)
    ensures
        kind == mode_named(mode@),
{
    if str_eq(mode, "anthropic") {
        TestMode::Anthropic
    } else if str_eq(mode, "openai") {
        TestMode::OpenAi
    } else {
        TestMode::Unknown
    }
}

/// The model that a test tries: the one that the request names, else the
/// given one.
pub fn test_model<'a>(requested: Option<&'a str>, fallback: &'a str) -> (model: &'a str)
    ensures
        model@ == match requested {
            Some(m) => m@,
            None => fallback@,
        },
{
    match requested {
        Some(m) => m,
        None => fallback,
    }
}

/// What a connectivity test asks the assistant.
pub open spec fn test_prompt() -> Seq<char> {
    "Say hello in one short sentence."@
}

/// The request that a connectivity test sends: one short question of the
/// user to the given model, answered in one piece with at most 32 tokens.
pub fn test_request(model: &str) -> (request: MessagesRequest)
    ensures
        request.model@ == model@,
        request.max_tokens == 32,
        message_models(request.messages@) == seq![
            MessageModel { role: "user"@, content: ContentModel::Plain(test_prompt()) },
        ],
        request.system is None,
        request.tools is None,
        !request.stream,
{
    let mut messages: Vec<Message> = Vec::new();
    messages.push(
        Message {
            role: owned("user"),
            content: Content::Plain(owned("Say hello in one short sentence.")),
        },
    );
    proof {
        assert(message_models(messages@) =~= seq![
            MessageModel { role: "user"@, content: ContentModel::Plain(test_prompt()) },
        ]);
    }
    MessagesRequest {
        model: owned(model),
        max_tokens: 32,
        messages,
        system: None,
        tools: None,
        stream: false,
    }
}

/// The input tokens that the events tell: those of the last event that tells
/// the share of the context in use, none where no event does.
pub open spec fn told_input_tokens(events: Seq<EventModel>) -> Option<i32>
    decreases events.len(),
{
    if events.len() == 0 {
        None
    } else {
        match events.last() {
            EventModel::ContextUsage { input_tokens } => Some(input_tokens),
            _ => told_input_tokens(events.drop_last()),
        }
    }
}

/// What the events of an answer say: the assistant's text, and the input
/// tokens where an event told them.
pub fn read_answer(events: Vec<Event>) -> (answer: (String, Option<i32>))
    ensures
        answer.0@ == text_of_events(event_models(events@)),
        answer.1 == told_input_tokens(event_models(events@)),
{
    let ghost all = event_models(events@);
    let mut collector = ResponseCollector::new();
    let mut told: Option<i32> = None;
    proof {
        assert(all.take(0) =~= Seq::<EventModel>::empty());
    }
    for e in it: events
        invariant
            event_models(it.seq()) == all,
            collector@ == collected(no_answer(), all.take(it.index() as int)),
            told == told_input_tokens(all.take(it.index() as int)),
    {
        proof {
            assert(all[it.index() as int] == e@);
            assert(all.take(it.index() + 1).drop_last() =~= all.take(it.index() as int));
            assert(all.take(it.index() + 1).last() == e@);
        }
        match &e {
            Event::ContextUsage { input_tokens } => {
                told = Some(*input_tokens);
            },
            _ => {},
        }
        collector.push(e);
    }
    proof {
        assert(all.take(all.len() as int) =~= all);
    }
    let message = collector.finish(0);
    (message.text, told)
}

/// How a connectivity test went.
#[derive(Clone, Debug)]
pub enum TestOutcome {
    /// No upstream provider is set up.
    NoProvider,
    /// The request could not be put into the upstream's form.
    ConversionFailed(String),
    /// The request could not be written out.
    SerializationFailed(String),
    /// The call failed.
    CallFailed(String),
    /// The call took longer than thirty seconds.
    TimedOut,
    /// The upstream answered with a status that is no success.
    Status(u16, String),
    /// The answer could not be read.
    ReadFailed(String),
    /// The upstream answered with this text. The input tokens are known if
    /// the answer told the share of the context in use; the output tokens
    /// are an estimate.
    Answered { text: String, input_tokens: Option<i32>, output_tokens: i32 },
}

pub enum TestOutcomeModel {
    NoProvider,
    ConversionFailed(Seq<char>),
    SerializationFailed(Seq<char>),
    CallFailed(Seq<char>),
    TimedOut,
    Status(u16, Seq<char>),
    ReadFailed(Seq<char>),
    Answered { text: Seq<char>, input_tokens: Option<i32>, output_tokens: i32 },
}

impl View for TestOutcome {
    type V = TestOutcomeModel;

    open spec fn view(&self) -> TestOutcomeModel {
        match self {
            TestOutcome::NoProvider => TestOutcomeModel::NoProvider,
            TestOutcome::ConversionFailed(e) => TestOutcomeModel::ConversionFailed(e@),
            TestOutcome::SerializationFailed(e) => TestOutcomeModel::SerializationFailed(e@),
            TestOutcome::CallFailed(e) => TestOutcomeModel::CallFailed(e@),
            TestOutcome::TimedOut => TestOutcomeModel::TimedOut,
            TestOutcome::Status(code, body) => TestOutcomeModel::Status(*code, body@),
            TestOutcome::ReadFailed(e) => TestOutcomeModel::ReadFailed(e@),
            TestOutcome::Answered { text, input_tokens, output_tokens } => {
                TestOutcomeModel::Answered {
                    text: text@,
                    input_tokens: *input_tokens,
                    output_tokens: *output_tokens,
                }
            },
        }
    }
}

/// A report of a connectivity test, as contracts see it.
pub struct ReportModel {
    pub success: bool,
    pub mode: Seq<char>,
    pub latency_ms: u64,
    pub credential_id: Option<u64>,
    pub model: Option<Seq<char>>,
    pub reply: Option<Seq<char>>,
    pub input_tokens: Option<i32>,
    pub output_tokens: Option<i32>,
    pub error: Option<Seq<char>>,
}

impl View for ConnectivityTestResponse {
    type V = ReportModel;

    open spec fn view(&self) -> ReportModel {
        ReportModel {
            success: self.success,
            mode: self.mode@,
            latency_ms: self.latency_ms,
            credential_id: self.credential_id,
            model: text_of(self.model),
            reply: text_of(self.reply),
            input_tokens: self.input_tokens,
            output_tokens: self.output_tokens,
            error: text_of(self.error),
        }
    }
}

/// The error that a report names.
pub open spec fn outcome_error(outcome: TestOutcomeModel) -> Option<Seq<char>> {
    match outcome {
        TestOutcomeModel::NoProvider => Some("KiroProvider 未配置"@),
        TestOutcomeModel::ConversionFailed(e) => Some("请求转换失败: "@ + e),
        TestOutcomeModel::SerializationFailed(e) => Some("序列化失败: "@ + e),
        TestOutcomeModel::CallFailed(e) => Some("API 调用失败: "@ + e),
        TestOutcomeModel::TimedOut => Some("连接超时（30 秒）"@),
        TestOutcomeModel::Status(code, body) => Some(
            "HTTP "@ + decimal(code as nat) + ": "@ + body,
        ),
        TestOutcomeModel::ReadFailed(e) => Some("读取响应失败: "@ + e),
        TestOutcomeModel::Answered { .. } => None,
    }
}

/// Whether the upstream was called before the test ended as it did; only then
/// does the report tell how long the call took and which credential made it.
pub open spec fn called(outcome: TestOutcomeModel) -> bool {
    !(outcome is NoProvider || outcome is ConversionFailed || outcome is SerializationFailed)
}

/// The report of an Anthropic-style test of `model` that ended as `outcome`
/// after `latency_ms` milliseconds with credential `credential_id`.
pub open spec fn report_of(
    model: Seq<char>,
    latency_ms: u64,
    credential_id: u64,
    outcome: TestOutcomeModel,
) -> ReportModel {
    ReportModel {
        success: outcome is Answered,
        mode: "anthropic"@,
        latency_ms: if called(outcome) {
            latency_ms
        } else {
            0
        },
        credential_id: if called(outcome) {
            Some(credential_id)
        } else {
            None
        },
        model: if outcome is NoProvider {
            None
        } else {
            Some(model)
        },
        reply: match outcome {
            TestOutcomeModel::Answered { text, input_tokens, output_tokens } => if text.len()
                == 0 {
                None
            } else {
                Some(text)
            },
            _ => None,
        },
        input_tokens: match outcome {
            TestOutcomeModel::Answered { text, input_tokens, output_tokens } => input_tokens,
            _ => None,
        },
        output_tokens: match outcome {
            TestOutcomeModel::Answered { text, input_tokens, output_tokens } => Some(
                if text.len() == 0 {
                    0
                } else {
                    output_tokens
                },
            ),
            _ => None,
        },
        error: outcome_error(outcome),
    }
}

/// The error that a report names.
pub fn outcome_error_message(outcome: &TestOutcome) -> (error: Option<String>)
    ensures
        text_of(error) == outcome_error(outcome@),
{
    match outcome {
        TestOutcome::NoProvider => Some(owned("KiroProvider 未配置")),
        TestOutcome::ConversionFailed(e) => {
            let mut m = owned("请求转换失败: ");
            m.append(e.as_str());
            Some(m)
        },
        TestOutcome::SerializationFailed(e) => {
            let mut m = owned("序列化失败: ");
            m.append(e.as_str());
            Some(m)
        },
        TestOutcome::CallFailed(e) => {
            let mut m = owned("API 调用失败: ");
            m.append(e.as_str());
            Some(m)
        },
        TestOutcome::TimedOut => Some(owned("连接超时（30 秒）")),
        TestOutcome::Status(code, body) => {
            let mut m = owned("HTTP ");
            let n: u64 = *code as u64;
            m.append(decimal_string(n).as_str());
            m.append(": ");
            m.append(body.as_str());
            Some(m)
        },
        TestOutcome::ReadFailed(e) => {
            let mut m = owned("读取响应失败: ");
            m.append(e.as_str());
            Some(m)
        },
        TestOutcome::Answered { .. } => None,
    }
}

/// The report of an Anthropic-style test.
pub fn connectivity_report(
    model: &str,
    latency_ms: u64,
    credential_id: u64,
    outcome: TestOutcome,
) -> (report: ConnectivityTestResponse)
    ensures
        report@ == report_of(model@, latency_ms, credential_id, outcome@),
{
    let error = outcome_error_message(&outcome);
    let was_called = match &outcome {
        TestOutcome::NoProvider => false,
        TestOutcome::ConversionFailed(_) => false,
        TestOutcome::SerializationFailed(_) => false,
        _ => true,
    };
    let shown_model = match &outcome {
        TestOutcome::NoProvider => None,
        _ => Some(owned(model)),
    };
    let success = match &outcome {
        TestOutcome::Answered { .. } => true,
        _ => false,
    };
    let (reply, input_tokens, output_tokens) = match outcome {
        TestOutcome::Answered { text, input_tokens, output_tokens } => {
            if text.as_str().unicode_len() == 0 {
                (None, input_tokens, Some(0))
            } else {
                (Some(text), input_tokens, Some(output_tokens))
            }
        },
        _ => (None, None, None),
    };
    ConnectivityTestResponse {
        success,
        mode: owned("anthropic"),
        latency_ms: if was_called {
            latency_ms
        } else {
            0
        },
        credential_id: if was_called {
            Some(credential_id)
        } else {
            None
        },
        model: shown_model,
        reply,
        input_tokens,
        output_tokens,
        error,
    }
}

/// The report of a test of the OpenAI-style surface, which does not exist.
pub fn openai_report() -> (report: ConnectivityTestResponse)
    ensures
        report@ == (ReportModel {
            success: false,
            mode: "openai"@,
            latency_ms: 0,
            credential_id: None,
            model: None,
            reply: None,
            input_tokens: None,
            output_tokens: None,
            error: Some("OpenAI 兼容端点暂未实现"@),
        }),
{
    ConnectivityTestResponse {
        success: false,
        mode: owned("openai"),
        latency_ms: 0,
        credential_id: None,
        model: None,
        reply: None,
        input_tokens: None,
        output_tokens: None,
        error: Some(owned("OpenAI 兼容端点暂未实现")),
    }
}

/// The input tokens to put in the ledger for a test: those that the answer
/// told, none where it told none.
pub fn ledger_input_tokens(input_tokens: Option<i32>) -> (n: i32)
    ensures
        n == match input_tokens {
            Some(t) => t,
            None => 0,
        },
{
    match input_tokens {
        Some(t) => t,
        None => 0,
    }
}

// ---------------------------------------------------------------- messages

/// A message about the thing with number `id`.
pub open spec fn numbered_text(before: Seq<char>, id: u64, after: Seq<char>) -> Seq<char> {
    before + decimal(id as nat) + after
}

/// A message about the thing with number `id`.
pub fn numbered(before: &str, id: u64, after: &str) -> (message: String)
    ensures
        message@ == numbered_text(before@, id, after@),
{
    let mut message = owned(before);
    message.append(decimal_string(id).as_str());
    message.append(after);
    message
}

/// Says that a credential was disabled or enabled.
pub fn disabled_message(id: u64, disabled: bool) -> (message: String)
    ensures
        message@ == numbered_text(
            "凭据 #"@,
            id,
            if disabled {
                " 已禁用"@
            } else {
                " 已启用"@
            },
        ),
{
    if disabled {
        numbered("凭据 #", id, " 已禁用")
    } else {
        numbered("凭据 #", id, " 已启用")
    }
}

/// Says that a credential's priority was set.
pub fn priority_message(id: u64, priority: u32) -> (message: String)
    ensures
        message@ == numbered_text("凭据 #"@, id, " 优先级已设置为 "@) + decimal(priority as nat),
{
    let mut message = numbered("凭据 #", id, " 优先级已设置为 ");
    message.append(decimal_string(priority as u64).as_str());
    message
}

/// Says that a credential was made the preferred one.
pub fn primary_message(id: u64) -> (message: String)
    ensures
        message@ == numbered_text("凭据 #"@, id, " 已设为首选"@),
{
    numbered("凭据 #", id, " 已设为首选")
}

/// Says that a credential's failures were forgotten and that it is enabled
/// again.
pub fn reset_message(id: u64) -> (message: String)
    ensures
        message@ == numbered_text("凭据 #"@, id, " 失败计数已重置并重新启用"@),
{
    numbered("凭据 #", id, " 失败计数已重置并重新启用")
}

/// Says that a credential was deleted.
pub fn credential_deleted_message(id: u64) -> (message: String)
    ensures
        message@ == numbered_text("凭据 #"@, id, " 已删除"@),
{
    numbered("凭据 #", id, " 已删除")
}

/// Says that an API key was created.
pub fn key_created_message(id: u64) -> (message: String)
    ensures
        message@ == numbered_text("API Key #"@, id, " 已创建"@),
{
    numbered("API Key #", id, " 已创建")
}

/// Says that an API key was changed.
pub fn key_updated_message(id: u64) -> (message: String)
    ensures
        message@ == numbered_text("API Key #"@, id, " 已更新"@),
{
    numbered("API Key #", id, " 已更新")
}

/// Says that an API key was deleted.
pub fn key_deleted_message(id: u64) -> (message: String)
    ensures
        message@ == numbered_text("API Key #"@, id, " 已删除"@),
{
    numbered("API Key #", id, " 已删除")
}

} // verus!
