//! The device channel over a Socket.IO client library: what each event of the
//! connection does to the client's state, the registration and heartbeat
//! rules, and the answers to the commands that the control plane sends.
//! Whoever owns the connection reports the events and performs what is
//! decided here.

use vstd::prelude::*;
use crate::json::json_quoted;
use crate::json::quote;
use crate::kiro::model::credentials::KiroCredentials;
use crate::kiro::pool::added;
use crate::kiro::pool::error_text;
use crate::kiro::pool::position;
use crate::kiro::pool::well_formed;
use crate::kiro::pool::PoolError;
use crate::kiro::token_manager::MultiTokenManager;
use crate::sync::types::CommandResponse;
use crate::sync::types::DeviceCommand;
use crate::text::copy_text;
use crate::text::owned;
use crate::text::text_of;

verus! {

/// What a device says of itself when it registers.
#[derive(Clone, Debug)]
pub struct DeviceInfo {
    pub token: String,
    pub device_id: String,
    pub device_name: String,
    pub device_type: String,
    pub account_type: Option<String>,
}

/// A device's registration, as contracts see it.
pub struct DeviceModel {
    pub token: Seq<char>,
    pub device_id: Seq<char>,
    pub device_name: Seq<char>,
    pub device_type: Seq<char>,
    pub account_type: Option<Seq<char>>,
}

impl View for DeviceInfo {
    type V = DeviceModel;

    open spec fn view(&self) -> DeviceModel {
        DeviceModel {
            token: self.token@,
            device_id: self.device_id@,
            device_name: self.device_name@,
            device_type: self.device_type@,
            account_type: text_of(self.account_type),
        }
    }
}

/// The model of an optional registration.
pub open spec fn device_of(info: Option<DeviceInfo>) -> Option<DeviceModel> {
    match info {
        Some(i) => Some(i@),
        None => None,
    }
}

impl DeviceInfo {
    /// A copy of the registration.
    pub fn duplicate(&self) -> (copy: Self)
        ensures
            copy@ == self@,
    {
        DeviceInfo {
            token: self.token.clone(),
            device_id: self.device_id.clone(),
            device_name: self.device_name.clone(),
            device_type: self.device_type.clone(),
            account_type: copy_text(&self.account_type),
        }
    }
}

/// The server's answer to a registration.
#[derive(Clone, Debug)]
pub struct DeviceRegisteredResponse {
    pub success: bool,
    pub error: Option<String>,
}

/// A device that is online.
#[derive(Clone, Debug)]
pub struct OnlineDevice {
    pub device_id: String,
    pub device_name: String,
    pub device_type: String,
    pub user_id: u64,
    pub user_email: String,
    pub connected_at: u64,
    pub last_heartbeat: u64,
    pub socket_id: String,
}

/// The devices that are online, as the server announces them.
#[derive(Clone, Debug)]
pub struct DevicesUpdate {
    pub devices: Vec<OnlineDevice>,
    pub count: usize,
}

/// Where a connection stands.
#[derive(Clone, Debug, PartialEq)]
pub enum ConnectionState {
    Disconnected,
    Connecting,
    Connected,
    Registered,
    Error(String),
}

/// A connection state, as contracts see it.
pub enum StateModel {
    Disconnected,
    Connecting,
    Connected,
    Registered,
    Error(Seq<char>),
}

impl View for ConnectionState {
    type V = StateModel;

    open spec fn view(&self) -> StateModel {
        match self {
            ConnectionState::Disconnected => StateModel::Disconnected,
            ConnectionState::Connecting => StateModel::Connecting,
            ConnectionState::Connected => StateModel::Connected,
            ConnectionState::Registered => StateModel::Registered,
            ConnectionState::Error(m) => StateModel::Error(m@),
        }
    }
}

impl ConnectionState {
    /// A copy of the state.
    pub fn duplicate(&self) -> (copy: Self)
        ensures
            copy@ == self@,
    {
        match self {
            ConnectionState::Disconnected => ConnectionState::Disconnected,
            ConnectionState::Connecting => ConnectionState::Connecting,
            ConnectionState::Connected => ConnectionState::Connected,
            ConnectionState::Registered => ConnectionState::Registered,
            ConnectionState::Error(m) => ConnectionState::Error(m.clone()),
        }
    }
}

// ----------------------------------------------------------- specification

/// How often the state is looked at while a registration is awaited.
pub const REGISTRATION_POLLS: u32 = 50;

/// Milliseconds between two looks at the state.
pub const REGISTRATION_POLL_MS: u64 = 100;

/// How many heartbeats in a row may fail before the connection counts as
/// broken.
pub const MAX_HEARTBEAT_FAILURES: u32 = 3;

/// The JSON object that a device registers with. The account type is left out
/// where the device names none.
pub open spec fn register_data_text(d: DeviceModel) -> Seq<char> {
    "{\"token\":"@ + json_quoted(d.token) + ",\"deviceId\":"@ + json_quoted(d.device_id)
        + ",\"deviceName\":"@ + json_quoted(d.device_name) + ",\"deviceType\":"@ + json_quoted(
        d.device_type,
    ) + match d.account_type {
        Some(a) => ",\"accountType\":"@ + json_quoted(a),
        None => Seq::empty(),
    } + "}"@
}

/// The JSON object of a heartbeat.
pub open spec fn heartbeat_data_text(device_id: Seq<char>) -> Seq<char> {
    "{\"deviceId\":"@ + json_quoted(device_id) + "}"@
}

/// The state after the server's answer to a registration.
pub open spec fn state_after_answer(success: bool, error: Option<Seq<char>>) -> StateModel {
    if success {
        StateModel::Registered
    } else {
        StateModel::Error(
            match error {
                Some(e) => e,
                None => "未知错误"@,
            },
        )
    }
}

/// What to do after a look at the state while a registration is awaited.
#[derive(Clone, Copy, Debug, PartialEq, Eq, Structural)]
pub enum RegistrationPoll {
    /// Look again after `REGISTRATION_POLL_MS`.
    Wait,
    /// Go on to the heartbeats: the device is registered.
    Proceed,
    /// Give up: the server refused the device, or the looks are used up and
    /// it has not answered.
    Fail,
}

/// What to do after look number `polls_done`, counted from 1, found the state
/// `state`.
pub open spec fn poll_outcome(state: StateModel, polls_done: u32) -> RegistrationPoll {
    match state {
        StateModel::Registered => RegistrationPoll::Proceed,
        StateModel::Error(_) => RegistrationPoll::Fail,
        _ => if polls_done >= REGISTRATION_POLLS {
            RegistrationPoll::Fail
        } else {
            RegistrationPoll::Wait
        },
    }
}

/// The heartbeats start only for a registered device, and the wait for the
/// server's answer ends with the last look at the latest.
pub proof fn lemma_registration_is_bounded(state: StateModel, polls_done: u32)
    ensures
        poll_outcome(state, polls_done) is Proceed <==> state is Registered,
        polls_done >= REGISTRATION_POLLS ==> !(poll_outcome(state, polls_done) is Wait),
{
}

/// What the state says of a registration that the server did not answer in
/// time.
pub open spec fn timeout_message() -> Seq<char> {
    "设备注册超时"@
}

/// The client, as contracts see it.
pub struct ClientModel {
    pub server_url: Seq<char>,
    pub device_info: Option<DeviceModel>,
    pub state: StateModel,
    /// Seconds between two heartbeats.
    pub heartbeat_interval: u64,
    /// Whether a connection is held.
    pub connected: bool,
    pub reconnect_enabled: bool,
    /// Heartbeats that failed in a row.
    pub heartbeat_failures: u32,
}

/// The client after a heartbeat was sent, or could not be, for the reason
/// given.
pub open spec fn after_heartbeat(c: ClientModel, failure: Option<Seq<char>>) -> ClientModel {
    match failure {
        None => ClientModel { heartbeat_failures: 0, ..c },
        Some(e) => if c.heartbeat_failures + 1 >= MAX_HEARTBEAT_FAILURES {
            ClientModel {
                heartbeat_failures: MAX_HEARTBEAT_FAILURES,
                state: StateModel::Error("心跳失败: "@ + e),
                ..c
            }
        } else {
            ClientModel { heartbeat_failures: (c.heartbeat_failures + 1) as u32, ..c }
        },
    }
}

/// How the execution of a command ended.
#[derive(Clone, Debug)]
pub enum CommandOutcome {
    /// A credential was added and got this id.
    Added(u64),
    /// The command was carried out.
    Done,
    /// The command failed, for the reason given.
    Failed(String),
}

pub enum CommandOutcomeModel {
    Added(u64),
    Done,
    Failed(Seq<char>),
}

impl View for CommandOutcome {
    type V = CommandOutcomeModel;

    open spec fn view(&self) -> CommandOutcomeModel {
        match self {
            CommandOutcome::Added(id) => CommandOutcomeModel::Added(*id),
            CommandOutcome::Done => CommandOutcomeModel::Done,
            CommandOutcome::Failed(e) => CommandOutcomeModel::Failed(e@),
        }
    }
}

/// An answer to a command, as contracts see it.
pub struct ResponseModel {
    pub command_id: Seq<char>,
    pub success: bool,
    pub error: Option<Seq<char>>,
    pub data: Option<u64>,
}

impl View for CommandResponse {
    type V = ResponseModel;

    open spec fn view(&self) -> ResponseModel {
        ResponseModel {
            command_id: self.command_id@,
            success: self.success,
            error: text_of(self.error),
            data: self.data,
        }
    }
}

/// The answer to the command `command_id` that ended as `outcome`.
pub open spec fn response_for(command_id: Seq<char>, outcome: CommandOutcomeModel) -> ResponseModel {
    match outcome {
        CommandOutcomeModel::Added(id) => ResponseModel {
            command_id,
            success: true,
            error: None,
            data: Some(id),
        },
        CommandOutcomeModel::Done => ResponseModel {
            command_id,
            success: true,
            error: None,
            data: None,
        },
        CommandOutcomeModel::Failed(e) => ResponseModel {
            command_id,
            success: false,
            error: Some(e),
            data: None,
        },
    }
}

/// The id that a command carries.
pub open spec fn command_id_text(command: DeviceCommand) -> Seq<char> {
    match command {
        DeviceCommand::AddCredential { credential, command_id } => command_id@,
        DeviceCommand::DeleteCredential { credential_id, command_id } => command_id@,
        DeviceCommand::SetDisabled { credential_id, disabled, command_id } => command_id@,
    }
}

// ------------------------------------------------------------------ client

/// The device channel's side of a connection.
pub struct DeviceClient {
    server_url: String,
    device_info: Option<DeviceInfo>,
    state: ConnectionState,
    heartbeat_interval: u64,
    connected: bool,
    reconnect_enabled: bool,
    heartbeat_failures: u32,
}

impl View for DeviceClient {
    type V = ClientModel;

    closed spec fn view(&self) -> ClientModel {
        ClientModel {
            server_url: self.server_url@,
            device_info: device_of(self.device_info),
            state: self.state@,
            heartbeat_interval: self.heartbeat_interval,
            connected: self.connected,
            reconnect_enabled: self.reconnect_enabled,
            heartbeat_failures: self.heartbeat_failures,
        }
    }
}

/// The JSON object that a device registers with.
pub fn register_data(info: &DeviceInfo) -> (data: String)
    ensures
        data@ == register_data_text(info@),
{
    let mut data = owned("{\"token\":");
    data.append(quote(info.token.as_str()).as_str());
    data.append(",\"deviceId\":");
    data.append(quote(info.device_id.as_str()).as_str());
    data.append(",\"deviceName\":");
    data.append(quote(info.device_name.as_str()).as_str());
    data.append(",\"deviceType\":");
    data.append(quote(info.device_type.as_str()).as_str());
    let ghost head = data@;
    match &info.account_type {
        Some(a) => {
            let mut part = owned(",\"accountType\":");
            part.append(quote(a.as_str()).as_str());
            data.append(part.as_str());
        },
        None => {
            proof {
                assert(head + Seq::<char>::empty() == head);
            }
        },
    }
    data.append("}");
    data
}

/// The JSON object of a heartbeat.
pub fn heartbeat_data(device_id: &str) -> (data: String)
    ensures
        data@ == heartbeat_data_text(device_id@),
{
    let mut data = owned("{\"deviceId\":");
    data.append(quote(device_id).as_str());
    data.append("}");
    data
}

/// The id that a command carries.
pub fn command_id_of(command: &DeviceCommand) -> (id: &str)
    ensures
        id@ == command_id_text(*command),
{
    match command {
        DeviceCommand::AddCredential { credential, command_id } => command_id.as_str(),
        DeviceCommand::DeleteCredential { credential_id, command_id } => command_id.as_str(),
        DeviceCommand::SetDisabled { credential_id, disabled, command_id } => command_id.as_str(),
    }
}

/// The answer to a command that ended as `outcome`.
pub fn command_response(command_id: String, outcome: CommandOutcome) -> (response: CommandResponse)
    ensures
        response@ == response_for(command_id@, outcome@),
{
    match outcome {
        CommandOutcome::Added(id) => CommandResponse {
            command_id,
            success: true,
            error: None,
            data: Some(id),
        },
        CommandOutcome::Done => CommandResponse {
            command_id,
            success: true,
            error: None,
            data: None,
        },
        CommandOutcome::Failed(e) => CommandResponse {
            command_id,
            success: false,
            error: Some(e),
            data: None,
        },
    }
}

/// How a command is carried out.
#[derive(Clone, Copy, Debug, PartialEq, Eq, Structural)]
pub enum CommandPlan {
    /// The credential is refreshed at the upstream first and added to the
    /// pool with what the refresh gave.
    RefreshThenAdd,
    /// The command changes the pool at once.
    Apply,
}

/// How `command` is carried out: only a command to add a credential goes
/// through a refresh.
pub open spec fn plan_of(command: DeviceCommand) -> CommandPlan {
    if command is AddCredential {
        CommandPlan::RefreshThenAdd
    } else {
        CommandPlan::Apply
    }
}

/// How a command is carried out.
pub fn command_plan(command: &DeviceCommand) -> (plan: CommandPlan)
    ensures
        plan == plan_of(*command),
{
    match command {
        DeviceCommand::AddCredential { .. } => CommandPlan::RefreshThenAdd,
        _ => CommandPlan::Apply,
    }
}

/// The credential that a command asks to add.
pub fn credential_to_add(command: &DeviceCommand) -> (credential: Option<KiroCredentials>)
    ensures
        credential is Some <==> plan_of(*command) == CommandPlan::RefreshThenAdd,
        match *command {
            DeviceCommand::AddCredential { credential: c, .. } => credential is Some
                && credential->0@ == c@,
            _ => credential is None,
        },
{
    match command {
        DeviceCommand::AddCredential { credential, .. } => Some(credential.duplicate()),
        _ => None,
    }
}

/// Carries out a command that changes the pool without a request to the
/// upstream: a deletion, or a change of the disabled state. A command to add
/// a credential is not carried out here, for the credential is refreshed
/// first; for it the result is `None` and the pool stays as it is.
pub fn execute_command(manager: &mut MultiTokenManager, command: &DeviceCommand) -> (outcome: Option<
    CommandOutcome,
>)
    requires
        well_formed(old(manager)@.pool),
    ensures
        well_formed(final(manager)@.pool),
        outcome is Some <==> plan_of(*command) == CommandPlan::Apply,
        match *command {
            DeviceCommand::AddCredential { .. } => outcome is None
                && final(manager)@ == old(manager)@,
            DeviceCommand::DeleteCredential { credential_id, .. } => {
                let at = position(old(manager)@.pool, credential_id);
                match at {
                    Some(i) => outcome == Some(CommandOutcome::Done) && final(manager)@.pool
                        == old(manager)@.pool.remove(i),
                    None => outcome is Some && outcome->0@ == CommandOutcomeModel::Failed(
                        error_text(PoolError::NotFound),
                    ) && final(manager)@ == old(manager)@,
                }
            },
            DeviceCommand::SetDisabled { credential_id, disabled, .. } => {
                let at = position(old(manager)@.pool, credential_id);
                match at {
                    Some(i) => outcome == Some(CommandOutcome::Done) && final(manager)@.pool
                        == old(manager)@.pool.update(
                        i,
                        old(manager)@.pool[i].with_disabled(disabled),
                    ),
                    None => outcome is Some && outcome->0@ == CommandOutcomeModel::Failed(
                        error_text(PoolError::NotFound),
                    ) && final(manager)@ == old(manager)@,
                }
            },
        },
{
    match command {
        DeviceCommand::AddCredential { .. } => None,
        DeviceCommand::DeleteCredential { credential_id, .. } => {
            match manager.delete_credential(*credential_id) {
                Ok(_) => Some(CommandOutcome::Done),
                Err(e) => Some(CommandOutcome::Failed(e.message())),
            }
        },
        DeviceCommand::SetDisabled { credential_id, disabled, .. } => {
            match manager.set_disabled(*credential_id, *disabled) {
                Ok(_) => Some(CommandOutcome::Done),
                Err(e) => Some(CommandOutcome::Failed(e.message())),
            }
        },
    }
}

/// How adding a refreshed credential to the pool ended.
pub fn execute_add(manager: &mut MultiTokenManager, credential: KiroCredentials) -> (outcome:
    CommandOutcome)
    requires
        well_formed(old(manager)@.pool),
    ensures
        well_formed(final(manager)@.pool),
        match added(old(manager)@.pool, credential@) {
            Ok((id, pool)) => outcome@ == CommandOutcomeModel::Added(id) && final(manager)@.pool
                == pool && final(manager)@.pool.len() == old(manager)@.pool.len() + 1,
            Err(e) => outcome@ == CommandOutcomeModel::Failed(error_text(e)) && final(manager)@
                == old(manager)@,
        },
{
    match manager.add_credential(credential) {
        Ok(id) => CommandOutcome::Added(id),
        Err(e) => CommandOutcome::Failed(e.message()),
    }
}

/// The answer to a command that could not be read, for the reason given.
pub fn unreadable_command_response(reason: &str) -> (response: CommandResponse)
    ensures
        response@ == (ResponseModel {
            command_id: "unknown"@,
            success: false,
            error: Some("解析命令失败: "@ + reason@),
            data: None,
        }),
{
    let mut error = owned("解析命令失败: ");
    error.append(reason);
    CommandResponse { command_id: owned("unknown"), success: false, error: Some(error), data: None }
}

/// Whether the control plane is to be synced at once after a command: after
/// every command that succeeded.
pub fn sync_after(outcome: &CommandOutcome) -> (yes: bool)
    ensures
        yes == !(outcome@ is Failed),
{
    match outcome {
        CommandOutcome::Failed(_) => false,
        _ => true,
    }
}

/// What to do after a look at the state while a registration is awaited.
pub fn registration_poll(state: &ConnectionState, polls_done: u32) -> (next: RegistrationPoll)
    ensures
        next == poll_outcome(state@, polls_done),
{
    match state {
        ConnectionState::Registered => RegistrationPoll::Proceed,
        ConnectionState::Error(_) => RegistrationPoll::Fail,
        _ => {
            if polls_done >= REGISTRATION_POLLS {
                RegistrationPoll::Fail
            } else {
                RegistrationPoll::Wait
            }
        },
    }
}

impl DeviceClient {
    /// A client for the given server that is not connected. The interval
    /// between heartbeats is given in seconds.
    pub fn new(server_url: String, heartbeat_interval: u64) -> (client: Self)
        ensures
            client@ == (ClientModel {
                server_url: server_url@,
                device_info: None,
                state: StateModel::Disconnected,
                heartbeat_interval,
                connected: false,
                reconnect_enabled: true,
                heartbeat_failures: 0,
            }),
    {
        DeviceClient {
            server_url,
            device_info: None,
            state: ConnectionState::Disconnected,
            heartbeat_interval,
            connected: false,
            reconnect_enabled: true,
            heartbeat_failures: 0,
        }
    }

    /// The server's address.
    pub fn server_url(&self) -> (url: &str)
        ensures
            url@ == self@.server_url,
    {
        self.server_url.as_str()
    }

    /// Seconds between two heartbeats.
    pub fn heartbeat_interval(&self) -> (seconds: u64)
        ensures
            seconds == self@.heartbeat_interval,
    {
        self.heartbeat_interval
    }

    /// The current state.
    pub fn get_state(&self) -> (state: ConnectionState)
        ensures
            state@ == self@.state,
    {
        self.state.duplicate()
    }

    /// The current state.
    pub fn get_state_sync(&self) -> (state: ConnectionState)
        ensures
            state@ == self@.state,
    {
        self.state.duplicate()
    }

    /// Whether the device is registered.
    pub fn is_registered(&self) -> (yes: bool)
        ensures
            yes == (self@.state is Registered),
    {
        match &self.state {
            ConnectionState::Registered => true,
            _ => false,
        }
    }

    /// Whether the connection is to be made anew: it is broken or was never
    /// made.
    pub fn needs_reconnect(&self) -> (yes: bool)
        ensures
            yes == (self@.state is Error || self@.state is Disconnected),
    {
        match &self.state {
            ConnectionState::Error(_) => true,
            ConnectionState::Disconnected => true,
            _ => false,
        }
    }

    /// Starts to connect and register the given device.
    pub fn begin_connect(&mut self, device_info: DeviceInfo)
        ensures
            final(self)@ == (ClientModel {
                device_info: Some(device_info@),
                state: StateModel::Connecting,
                ..old(self)@
            }),
    {
        self.device_info = Some(device_info);
        self.state = ConnectionState::Connecting;
    }

    /// Notes that the connection stands. The registration is to be sent next.
    pub fn on_connected(&mut self)
        ensures
            final(self)@ == (ClientModel {
                state: StateModel::Connected,
                connected: true,
                heartbeat_failures: 0,
                ..old(self)@
            }),
    {
        self.state = ConnectionState::Connected;
        self.connected = true;
        self.heartbeat_failures = 0;
    }

    /// Takes the server's answer to the registration.
    pub fn on_registered(&mut self, response: DeviceRegisteredResponse)
        ensures
            final(self)@ == (ClientModel {
                state: state_after_answer(response.success, text_of(response.error)),
                ..old(self)@
            }),
    {
        if response.success {
            self.state = ConnectionState::Registered;
        } else {
            let error = match response.error {
                Some(e) => e,
                None => owned("未知错误"),
            };
            self.state = ConnectionState::Error(error);
        }
    }

    /// Takes an error event of the server. An event without a message changes
    /// nothing.
    pub fn on_device_error(&mut self, message: Option<String>)
        ensures
            final(self)@ == (ClientModel {
                state: match message {
                    Some(m) => StateModel::Error(m@),
                    None => old(self)@.state,
                },
                ..old(self)@
            }),
    {
        match message {
            Some(m) => {
                self.state = ConnectionState::Error(m);
            },
            None => {},
        }
    }

    /// Notes that the server did not answer the registration in time. The
    /// state becomes an error, so that the connection is made anew.
    pub fn on_registration_timeout(&mut self)
        ensures
            final(self)@ == (ClientModel {
                state: StateModel::Error(timeout_message()),
                ..old(self)@
            }),
    {
        self.state = ConnectionState::Error(owned("设备注册超时"));
    }

    /// Looks at the state while a registration is awaited, for the time
    /// number `polls_done`, counted from 1. Where the looks are used up and
    /// the server has not answered, the timeout is noted.
    pub fn poll_registration(&mut self, polls_done: u32) -> (next: RegistrationPoll)
        ensures
            next == poll_outcome(old(self)@.state, polls_done),
            final(self)@ == (if next is Fail && !(old(self)@.state is Error) {
                ClientModel { state: StateModel::Error(timeout_message()), ..old(self)@ }
            } else {
                old(self)@
            }),
            next is Fail ==> final(self)@.state is Error,
    {
        let next = registration_poll(&self.state, polls_done);
        match next {
            RegistrationPoll::Fail => {
                let refused = match &self.state {
                    ConnectionState::Error(_) => true,
                    _ => false,
                };
                if !refused {
                    self.on_registration_timeout();
                }
            },
            _ => {},
        }
        next
    }

    /// Whether the next heartbeat is to be sent: only while the device is
    /// registered.
    pub fn heartbeat_due(&self) -> (yes: bool)
        ensures
            yes == (self@.state is Registered),
    {
        self.is_registered()
    }

    /// Notes that a heartbeat was sent, or why it could not be, and says
    /// whether heartbeats go on. After `MAX_HEARTBEAT_FAILURES` failures in a
    /// row the connection counts as broken.
    pub fn on_heartbeat_sent(&mut self, failure: Option<String>) -> (go_on: bool)
        ensures
            final(self)@ == after_heartbeat(old(self)@, text_of(failure)),
            go_on == (final(self)@.heartbeat_failures < MAX_HEARTBEAT_FAILURES),
    {
        match failure {
            None => {
                self.heartbeat_failures = 0;
                true
            },
            Some(e) => {
                if self.heartbeat_failures >= MAX_HEARTBEAT_FAILURES - 1 {
                    self.heartbeat_failures = MAX_HEARTBEAT_FAILURES;
                    let mut m = owned("心跳失败: ");
                    m.append(e.as_str());
                    self.state = ConnectionState::Error(m);
                    false
                } else {
                    self.heartbeat_failures = self.heartbeat_failures + 1;
                    true
                }
            },
        }
    }

    /// Gives the connection up for good. Says whether there was one to close;
    /// only then does the state change.
    pub fn disconnect(&mut self) -> (had_connection: bool)
        ensures
            had_connection == old(self)@.connected,
            final(self)@ == (ClientModel {
                reconnect_enabled: false,
                connected: false,
                state: if old(self)@.connected {
                    StateModel::Disconnected
                } else {
                    old(self)@.state
                },
                ..old(self)@
            }),
    {
        self.reconnect_enabled = false;
        let had = self.connected;
        if had {
            self.connected = false;
            self.state = ConnectionState::Disconnected;
        }
        had
    }
}

} // verus!
