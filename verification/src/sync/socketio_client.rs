//! The device channel over a plain WebSocket: the handshake, the registration
//! and the service phase of a Socket.IO connection, as steps from what the
//! socket yielded to what to do next. Whoever owns the socket performs the
//! steps.

use vstd::prelude::*;
use crate::json::item_json;
use crate::json::item_member_text;
use crate::json::item_text;
use crate::json::json_item_json;
use crate::json::json_item_member_text;
use crate::json::json_item_text;
use crate::json::json_member_u64;
use crate::json::json_quoted;
use crate::json::member_u64;
use crate::json::quote;
use crate::text::copy_text;
use crate::text::has_prefix;
use crate::text::owned;
use crate::text::replace_all;
use crate::text::replaced;
use crate::text::starts_with;
use crate::text::str_eq;
use crate::text::text_of;
use crate::text::without_first;

verus! {

/// Where a connection stands.
#[derive(Clone, Debug, PartialEq)]
pub enum ConnectionState {
    Disconnected,
    Connecting,
    Connected,
    Registered,
    Error(String),
}

/// A connection state, as contracts see it.
pub enum StateModel {
    Disconnected,
    Connecting,
    Connected,
    Registered,
    Error(Seq<char>),
}

impl View for ConnectionState {
    type V = StateModel;

    open spec fn view(&self) -> StateModel {
        match self {
            ConnectionState::Disconnected => StateModel::Disconnected,
            ConnectionState::Connecting => StateModel::Connecting,
            ConnectionState::Connected => StateModel::Connected,
            ConnectionState::Registered => StateModel::Registered,
            ConnectionState::Error(m) => StateModel::Error(m@),
        }
    }
}

impl ConnectionState {
    /// A copy of the state.
    pub fn duplicate(&self) -> (copy: Self)
        ensures
            copy@ == self@,
    {
        match self {
            ConnectionState::Disconnected => ConnectionState::Disconnected,
            ConnectionState::Connecting => ConnectionState::Connecting,
            ConnectionState::Connected => ConnectionState::Connected,
            ConnectionState::Registered => ConnectionState::Registered,
            ConnectionState::Error(m) => ConnectionState::Error(m.clone()),
        }
    }
}

/// What a device says of itself when it registers.
#[derive(Clone, Debug)]
pub struct DeviceInfo {
    pub token: String,
    pub device_id: String,
    pub device_name: String,
    pub device_type: String,
    pub account_type: Option<String>,
}

/// A device's registration, as contracts see it.
pub struct DeviceModel {
    pub token: Seq<char>,
    pub device_id: Seq<char>,
    pub device_name: Seq<char>,
    pub device_type: Seq<char>,
    pub account_type: Option<Seq<char>>,
}

impl View for DeviceInfo {
    type V = DeviceModel;

    open spec fn view(&self) -> DeviceModel {
        DeviceModel {
            token: self.token@,
            device_id: self.device_id@,
            device_name: self.device_name@,
            device_type: self.device_type@,
            account_type: text_of(self.account_type),
        }
    }
}

/// The model of an optional registration.
pub open spec fn device_of(info: Option<DeviceInfo>) -> Option<DeviceModel> {
    match info {
        Some(i) => Some(i@),
        None => None,
    }
}

impl DeviceInfo {
    /// A copy of the registration.
    pub fn duplicate(&self) -> (copy: Self)
        ensures
            copy@ == self@,
    {
        DeviceInfo {
            token: self.token.clone(),
            device_id: self.device_id.clone(),
            device_name: self.device_name.clone(),
            device_type: self.device_type.clone(),
            account_type: copy_text(&self.account_type),
        }
    }
}

// ----------------------------------------------------------- specification

/// The longest wait between two attempts to connect, in seconds.
pub const MAX_RETRY_DELAY_SECS: u64 = 30;

/// The wait before the first new attempt, in seconds.
pub const FIRST_RETRY_DELAY_SECS: u64 = 1;

/// The ping interval assumed when the server names none, in milliseconds.
pub const DEFAULT_PING_INTERVAL_MS: u64 = 25000;

/// How long a registration may take, in seconds.
pub const REGISTRATION_TIMEOUT_SECS: u64 = 5;

/// Seconds between two heartbeats.
pub const HEARTBEAT_SECS: u64 = 15;

/// The address of the Socket.IO endpoint of a server: the server's address
/// with the web scheme replaced by the socket scheme, and the endpoint's path.
pub open spec fn handshake_url_text(server_url: Seq<char>) -> Seq<char> {
    replace_all(replace_all(server_url, "http://"@, "ws://"@), "https://"@, "wss://"@)
        + "/socket.io/?EIO=4&transport=websocket"@
}

/// The JSON object that a device registers with.
pub open spec fn register_object_text(d: DeviceModel) -> Seq<char> {
    "{\"token\":"@ + json_quoted(d.token) + ",\"deviceId\":"@ + json_quoted(d.device_id)
        + ",\"deviceName\":"@ + json_quoted(d.device_name) + ",\"deviceType\":"@ + json_quoted(
        d.device_type,
    ) + ",\"accountType\":"@ + match d.account_type {
        Some(a) => json_quoted(a),
        None => "null"@,
    } + "}"@
}

/// The packet that carries the event `device:register`.
pub open spec fn register_packet_text(d: DeviceModel) -> Seq<char> {
    "42[\"device:register\","@ + register_object_text(d) + "]"@
}

/// The packet that carries the event `device:heartbeat`.
pub open spec fn heartbeat_packet_text(device_id: Seq<char>) -> Seq<char> {
    "42[\"device:heartbeat\",{\"deviceId\":"@ + json_quoted(device_id) + "}]"@
}

/// What the server's first message says of the ping interval.
#[derive(Clone, Copy, Debug, PartialEq, Eq, Structural)]
pub enum OpenOutcome {
    /// The connection is open; pings come at this interval, in milliseconds.
    Opened(u64),
    /// The server did not open the connection.
    Refused,
}

/// What the first message means. A text must be an open packet, which begins
/// with `0` and goes on with a JSON object; its member `pingInterval` is the
/// interval, 25000 where it is missing. Anything but a text is taken as an
/// open packet that names no interval.
pub open spec fn open_outcome(first: Option<Seq<char>>) -> OpenOutcome {
    match first {
        Some(msg) => if has_prefix(msg, "0"@) {
            match json_member_u64(msg.skip(1), "pingInterval"@) {
                Some(ms) => OpenOutcome::Opened(ms),
                None => OpenOutcome::Opened(DEFAULT_PING_INTERVAL_MS),
            }
        } else {
            OpenOutcome::Refused
        },
        None => OpenOutcome::Opened(DEFAULT_PING_INTERVAL_MS),
    }
}

/// The name of the event that a message carries: the first element of the
/// JSON array that follows `42`.
pub open spec fn event_name(msg: Seq<char>) -> Option<Seq<char>> {
    if has_prefix(msg, "42"@) {
        json_item_text(msg.skip(2), 0)
    } else {
        None
    }
}

/// What a message means while the device waits to be registered.
#[derive(Clone, Debug)]
pub enum RegistrationStep {
    /// Nothing yet; keep waiting.
    Pending,
    /// The device is registered.
    Registered,
    /// The server refused the device, with this message.
    Rejected(String),
}

pub enum RegistrationStepModel {
    Pending,
    Registered,
    Rejected(Seq<char>),
}

impl View for RegistrationStep {
    type V = RegistrationStepModel;

    open spec fn view(&self) -> RegistrationStepModel {
        match self {
            RegistrationStep::Pending => RegistrationStepModel::Pending,
            RegistrationStep::Registered => RegistrationStepModel::Registered,
            RegistrationStep::Rejected(m) => RegistrationStepModel::Rejected(m@),
        }
    }
}

/// What the message `msg` means while the device waits to be registered.
pub open spec fn registration_step(msg: Seq<char>) -> RegistrationStepModel {
    match event_name(msg) {
        Some(name) => if name == "device:registered"@ {
            RegistrationStepModel::Registered
        } else if name == "device:error"@ {
            RegistrationStepModel::Rejected(
                match json_item_member_text(msg.skip(2), 1, "message"@) {
                    Some(m) => m,
                    None => "未知错误"@,
                },
            )
        } else {
            RegistrationStepModel::Pending
        },
        None => RegistrationStepModel::Pending,
    }
}

/// What the socket yielded.
#[derive(Clone, Debug)]
pub enum Incoming {
    /// A text message.
    Text(String),
    /// The peer closed the connection.
    Close,
    /// Reading failed, with this description.
    Failed(String),
    /// Any other kind of message.
    Other,
}

pub enum IncomingModel {
    Text(Seq<char>),
    Close,
    Failed(Seq<char>),
    Other,
}

impl View for Incoming {
    type V = IncomingModel;

    open spec fn view(&self) -> IncomingModel {
        match self {
            Incoming::Text(t) => IncomingModel::Text(t@),
            Incoming::Close => IncomingModel::Close,
            Incoming::Failed(e) => IncomingModel::Failed(e@),
            Incoming::Other => IncomingModel::Other,
        }
    }
}

/// What to do about something the socket yielded in the service phase.
#[derive(Clone, Debug)]
pub enum ServiceStep {
    /// Nothing.
    Ignore,
    /// Send this packet.
    Reply(String),
    /// Hand this command, written as JSON, to the command handler.
    Forward(String),
    /// The connection is over.
    Ended,
}

pub enum ServiceStepModel {
    Ignore,
    Reply(Seq<char>),
    Forward(Seq<char>),
    Ended,
}

impl View for ServiceStep {
    type V = ServiceStepModel;

    open spec fn view(&self) -> ServiceStepModel {
        match self {
            ServiceStep::Ignore => ServiceStepModel::Ignore,
            ServiceStep::Reply(p) => ServiceStepModel::Reply(p@),
            ServiceStep::Forward(c) => ServiceStepModel::Forward(c@),
            ServiceStep::Ended => ServiceStepModel::Ended,
        }
    }
}

/// What to do about `incoming` in the service phase: a ping `2` is answered
/// with a pong `3`; the payload of an event `credential:command` goes to the
/// command handler; a close or a failed read ends the connection.
pub open spec fn service_step(incoming: IncomingModel) -> ServiceStepModel {
    match incoming {
        IncomingModel::Text(msg) => if msg == "2"@ {
            ServiceStepModel::Reply("3"@)
        } else {
            match event_name(msg) {
                Some(name) => if name == "credential:command"@ {
                    match json_item_json(msg.skip(2), 1) {
                        Some(command) => ServiceStepModel::Forward(command),
                        None => ServiceStepModel::Ignore,
                    }
                } else {
                    ServiceStepModel::Ignore
                },
                None => ServiceStepModel::Ignore,
            }
        },
        IncomingModel::Close => ServiceStepModel::Ended,
        IncomingModel::Failed(_) => ServiceStepModel::Ended,
        IncomingModel::Other => ServiceStepModel::Ignore,
    }
}

/// The state after `incoming` in the service phase.
pub open spec fn service_state(before: StateModel, incoming: IncomingModel) -> StateModel {
    match incoming {
        IncomingModel::Close => StateModel::Disconnected,
        IncomingModel::Failed(e) => StateModel::Error("读取错误: "@ + e),
        _ => before,
    }
}

/// The wait before the next attempt, in seconds: back to one second after a
/// connection that was established and then ended, twice the last wait after
/// one that failed, and never more than `MAX_RETRY_DELAY_SECS`.
pub open spec fn next_delay(current: u64, established: bool) -> u64 {
    if established {
        FIRST_RETRY_DELAY_SECS
    } else if current * 2 >= MAX_RETRY_DELAY_SECS {
        MAX_RETRY_DELAY_SECS
    } else {
        (current * 2) as u64
    }
}

/// Why an attempt to connect and register failed.
#[derive(Clone, Debug)]
pub enum AttemptFailure {
    /// The socket could not be opened.
    ConnectFailed,
    /// The server's first message was no open packet.
    Refused,
    /// A packet could not be sent, for the reason given.
    SendFailed(String),
    /// The server refused the device, with this message.
    Rejected(String),
    /// No answer to the registration came in time.
    TimedOut,
}

pub enum AttemptFailureModel {
    ConnectFailed,
    Refused,
    SendFailed(Seq<char>),
    Rejected(Seq<char>),
    TimedOut,
}

impl View for AttemptFailure {
    type V = AttemptFailureModel;

    open spec fn view(&self) -> AttemptFailureModel {
        match self {
            AttemptFailure::ConnectFailed => AttemptFailureModel::ConnectFailed,
            AttemptFailure::Refused => AttemptFailureModel::Refused,
            AttemptFailure::SendFailed(e) => AttemptFailureModel::SendFailed(e@),
            AttemptFailure::Rejected(m) => AttemptFailureModel::Rejected(m@),
            AttemptFailure::TimedOut => AttemptFailureModel::TimedOut,
        }
    }
}

/// The description of a failed attempt.
pub open spec fn failure_text(f: AttemptFailureModel) -> Seq<char> {
    match f {
        AttemptFailureModel::ConnectFailed => "WebSocket 连接失败"@,
        AttemptFailureModel::Refused => "未收到 Socket.IO 连接确认"@,
        AttemptFailureModel::SendFailed(e) => e,
        AttemptFailureModel::Rejected(m) => "设备注册失败: "@ + m,
        AttemptFailureModel::TimedOut => "设备注册超时"@,
    }
}

impl AttemptFailure {
    /// The description of the failure.
    pub fn message(&self) -> (text: String)
        ensures
            text@ == failure_text(self@),
    {
        match self {
            AttemptFailure::ConnectFailed => owned("WebSocket 连接失败"),
            AttemptFailure::Refused => owned("未收到 Socket.IO 连接确认"),
            AttemptFailure::SendFailed(e) => e.clone(),
            AttemptFailure::Rejected(m) => {
                let mut text = owned("设备注册失败: ");
                text.append(m.as_str());
                text
            },
            AttemptFailure::TimedOut => owned("设备注册超时"),
        }
    }
}

// ------------------------------------------------------------------ client

/// The device channel's side of a Socket.IO connection.
pub struct SocketIOClient {
    server_url: String,
    state: ConnectionState,
    device_info: Option<DeviceInfo>,
    retry_delay: u64,
    first_registration: bool,
}

/// The client, as contracts see it.
pub struct ClientModel {
    pub server_url: Seq<char>,
    pub state: StateModel,
    pub device_info: Option<DeviceModel>,
    /// Seconds to wait before the next attempt to connect.
    pub retry_delay: u64,
    /// Whether no registration has succeeded yet.
    pub first_registration: bool,
}

impl View for SocketIOClient {
    type V = ClientModel;

    closed spec fn view(&self) -> ClientModel {
        ClientModel {
            server_url: self.server_url@,
            state: self.state@,
            device_info: device_of(self.device_info),
            retry_delay: self.retry_delay,
            first_registration: self.first_registration,
        }
    }
}

/// The address of the Socket.IO endpoint of a server.
pub fn handshake_url(server_url: &str) -> (url: String)
    ensures
        url@ == handshake_url_text(server_url@),
{
    proof {
        reveal_strlit("http://");
        reveal_strlit("https://");
    }
    let plain = replaced(server_url, "http://", "ws://");
    let mut url = replaced(plain.as_str(), "https://", "wss://");
    url.append("/socket.io/?EIO=4&transport=websocket");
    url
}

/// The packet that connects to the default namespace.
pub fn connect_packet() -> (packet: String)
    ensures
        packet@ == "40"@,
{
    owned("40")
}

/// The packet that registers a device.
pub fn register_packet(info: &DeviceInfo) -> (packet: String)
    ensures
        packet@ == register_packet_text(info@),
{
    let mut object = owned("{\"token\":");
    object.append(quote(info.token.as_str()).as_str());
    object.append(",\"deviceId\":");
    object.append(quote(info.device_id.as_str()).as_str());
    object.append(",\"deviceName\":");
    object.append(quote(info.device_name.as_str()).as_str());
    object.append(",\"deviceType\":");
    object.append(quote(info.device_type.as_str()).as_str());
    object.append(",\"accountType\":");
    match &info.account_type {
        Some(a) => {
            object.append(quote(a.as_str()).as_str());
        },
        None => {
            object.append("null");
        },
    }
    object.append("}");
    let mut packet = owned("42[\"device:register\",");
    packet.append(object.as_str());
    packet.append("]");
    packet
}

/// The packet that tells the server that the device is alive.
pub fn heartbeat_packet(device_id: &str) -> (packet: String)
    ensures
        packet@ == heartbeat_packet_text(device_id@),
{
    let mut packet = owned("42[\"device:heartbeat\",{\"deviceId\":");
    packet.append(quote(device_id).as_str());
    packet.append("}]");
    packet
}

/// The name of the event that a message carries.
pub fn event_name_of(msg: &str) -> (name: Option<String>)
    ensures
        text_of(name) == event_name(msg@),
{
    if starts_with(msg, "42") {
        let body = without_first(msg, 2);
        proof {
            reveal_strlit("42");
        }
        item_text(body.as_str(), 0)
    } else {
        None
    }
}

/// Reads the server's first message.
pub fn read_open_packet(first: Option<&str>) -> (outcome: OpenOutcome)
    ensures
        outcome == open_outcome(crate::text::slice_text_of(first)),
{
    match first {
        Some(msg) => {
            if starts_with(msg, "0") {
                let body = without_first(msg, 1);
                proof {
                    reveal_strlit("0");
                }
                match member_u64(body.as_str(), "pingInterval") {
                    Some(ms) => OpenOutcome::Opened(ms),
                    None => OpenOutcome::Opened(DEFAULT_PING_INTERVAL_MS),
                }
            } else {
                OpenOutcome::Refused
            }
        },
        None => OpenOutcome::Opened(DEFAULT_PING_INTERVAL_MS),
    }
}

/// Reads a message that arrives while the device waits to be registered.
pub fn read_registration_message(msg: &str) -> (step: RegistrationStep)
    ensures
        step@ == registration_step(msg@),
{
    match event_name_of(msg) {
        Some(name) => {
            if str_eq(name.as_str(), "device:registered") {
                RegistrationStep::Registered
            } else if str_eq(name.as_str(), "device:error") {
                let body = without_first(msg, 2);
                proof {
                    reveal_strlit("42");
                }
                match item_member_text(body.as_str(), 1, "message") {
                    Some(m) => RegistrationStep::Rejected(m),
                    None => RegistrationStep::Rejected(owned("未知错误")),
                }
            } else {
                RegistrationStep::Pending
            }
        },
        None => RegistrationStep::Pending,
    }
}

/// Decides what to do about something the socket yielded in the service
/// phase.
pub fn read_service_message(incoming: &Incoming) -> (step: ServiceStep)
    ensures
        step@ == service_step(incoming@),
{
    match incoming {
        Incoming::Text(msg) => {
            if str_eq(msg.as_str(), "2") {
                ServiceStep::Reply(owned("3"))
            } else {
                match event_name_of(msg.as_str()) {
                    Some(name) => {
                        if str_eq(name.as_str(), "credential:command") {
                            let body = without_first(msg.as_str(), 2);
                            proof {
                                reveal_strlit("42");
                            }
                            match item_json(body.as_str(), 1) {
                                Some(command) => ServiceStep::Forward(command),
                                None => ServiceStep::Ignore,
                            }
                        } else {
                            ServiceStep::Ignore
                        }
                    },
                    None => ServiceStep::Ignore,
                }
            }
        },
        Incoming::Close => ServiceStep::Ended,
        Incoming::Failed(_) => ServiceStep::Ended,
        Incoming::Other => ServiceStep::Ignore,
    }
}

impl SocketIOClient {
    /// A client for the given server that is not connected.
    pub fn new(server_url: String, device_info: Option<DeviceInfo>) -> (client: Self)
        ensures
            client@ == (ClientModel {
                server_url: server_url@,
                state: StateModel::Disconnected,
                device_info: device_of(device_info),
                retry_delay: FIRST_RETRY_DELAY_SECS,
                first_registration: true,
            }),
    {
        SocketIOClient {
            server_url,
            state: ConnectionState::Disconnected,
            device_info,
            retry_delay: FIRST_RETRY_DELAY_SECS,
            first_registration: true,
        }
    }

    /// The current state.
    pub fn get_state(&self) -> (state: ConnectionState)
        ensures
            state@ == self@.state,
    {
        self.state.duplicate()
    }

    /// The registration to use for the next attempt.
    pub fn device_info(&self) -> (info: Option<DeviceInfo>)
        ensures
            device_of(info) == self@.device_info,
    {
        match &self.device_info {
            Some(i) => Some(i.duplicate()),
            None => None,
        }
    }

    /// Replaces the registration to use from the next attempt on.
    pub fn set_device_info(&mut self, info: Option<DeviceInfo>)
        ensures
            final(self)@ == (ClientModel { device_info: device_of(info), ..old(self)@ }),
    {
        self.device_info = info;
    }

    /// Seconds to wait before the next attempt to connect.
    pub fn retry_delay(&self) -> (seconds: u64)
        ensures
            seconds == self@.retry_delay,
    {
        self.retry_delay
    }

    /// Starts an attempt: the client is connecting to the address returned.
    pub fn begin_attempt(&mut self) -> (url: String)
        ensures
            url@ == handshake_url_text(old(self)@.server_url),
            final(self)@ == (ClientModel { state: StateModel::Connecting, ..old(self)@ }),
    {
        self.state = ConnectionState::Connecting;
        handshake_url(self.server_url.as_str())
    }

    /// Takes the server's first message. If it opens the connection the
    /// client is connected; the next thing to send is the connect packet.
    pub fn on_open(&mut self, first: Option<&str>) -> (outcome: OpenOutcome)
        ensures
            outcome == open_outcome(crate::text::slice_text_of(first)),
            final(self)@ == (ClientModel {
                state: match outcome {
                    OpenOutcome::Opened(_) => StateModel::Connected,
                    OpenOutcome::Refused => old(self)@.state,
                },
                ..old(self)@
            }),
    {
        let outcome = read_open_packet(first);
        match outcome {
            OpenOutcome::Opened(_) => {
                self.state = ConnectionState::Connected;
            },
            OpenOutcome::Refused => {},
        }
        outcome
    }

    /// Takes a message that arrives while the device waits to be registered.
    /// The second part of the result says whether to announce the
    /// registration, which is so for the first one only.
    pub fn on_registration_message(&mut self, msg: &str) -> (result: (RegistrationStep, bool))
        ensures
            result.0@ == registration_step(msg@),
            result.1 == (registration_step(msg@) is Registered && old(self)@.first_registration),
            final(self)@ == (ClientModel {
                state: match registration_step(msg@) {
                    RegistrationStepModel::Pending => old(self)@.state,
                    RegistrationStepModel::Registered => StateModel::Registered,
                    RegistrationStepModel::Rejected(m) => StateModel::Error(m),
                },
                ..old(self)@
            }),
    {
        let step = read_registration_message(msg);
        let mut announce = false;
        match &step {
            RegistrationStep::Pending => {},
            RegistrationStep::Registered => {
                self.state = ConnectionState::Registered;
                announce = self.first_registration;
            },
            RegistrationStep::Rejected(m) => {
                self.state = ConnectionState::Error(m.clone());
            },
        }
        (step, announce)
    }

    /// Takes something the socket yielded in the service phase.
    pub fn on_service_message(&mut self, incoming: &Incoming) -> (step: ServiceStep)
        ensures
            step@ == service_step(incoming@),
            final(self)@ == (ClientModel {
                state: service_state(old(self)@.state, incoming@),
                ..old(self)@
            }),
    {
        match incoming {
            Incoming::Close => {
                self.state = ConnectionState::Disconnected;
            },
            Incoming::Failed(e) => {
                let mut m = owned("读取错误: ");
                m.append(e.as_str());
                self.state = ConnectionState::Error(m);
            },
            _ => {},
        }
        read_service_message(incoming)
    }

    /// Notes that a heartbeat or a pong could not be sent; the connection is
    /// over.
    pub fn on_send_failed(&mut self)
        ensures
            final(self)@ == (ClientModel {
                state: StateModel::Error("心跳失败"@),
                ..old(self)@
            }),
    {
        self.state = ConnectionState::Error(owned("心跳失败"));
    }

    /// Notes how an attempt ended and returns the seconds to wait before the
    /// next one. An attempt that ended after it was established is `Ok`; one
    /// that failed carries the reason.
    pub fn after_attempt(&mut self, outcome: Result<(), String>) -> (wait: u64)
        ensures
            wait == next_delay(old(self)@.retry_delay, outcome is Ok),
            wait <= MAX_RETRY_DELAY_SECS,
            final(self)@ == (ClientModel {
                state: match outcome {
                    Ok(_) => old(self)@.state,
                    Err(e) => StateModel::Error("连接失败: "@ + e@),
                },
                retry_delay: wait,
                first_registration: match outcome {
                    Ok(_) => false,
                    Err(_) => old(self)@.first_registration,
                },
                ..old(self)@
            }),
    {
        match outcome {
            Ok(_) => {
                self.retry_delay = FIRST_RETRY_DELAY_SECS;
                self.first_registration = false;
            },
            Err(e) => {
                let mut m = owned("连接失败: ");
                m.append(e.as_str());
                self.state = ConnectionState::Error(m);
                self.retry_delay = if self.retry_delay >= MAX_RETRY_DELAY_SECS / 2 {
                    MAX_RETRY_DELAY_SECS
                } else {
                    self.retry_delay * 2
                };
            },
        }
        self.retry_delay
    }
}

} // verus!
