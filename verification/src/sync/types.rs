//! What travels between this device and the control plane.

use vstd::prelude::*;
use crate::kiro::model::credentials::KiroCredentials;

verus! {

/// What changed on the control plane since a version.
#[derive(Clone, Debug)]
pub struct SyncChangesResponse {
    /// The control plane's current version.
    pub current_version: u64,
    pub tokens: EntityChanges<TokenSync>,
    pub token_usage: EntityChanges<TokenUsageSync>,
    pub token_subscriptions: EntityChanges<TokenSubscriptionSync>,
    pub token_bonuses: EntityChanges<TokenBonusSync>,
}

/// The changes of one kind of record.
#[derive(Clone, Debug)]
pub struct EntityChanges<T> {
    /// New and changed records.
    pub updated: Vec<T>,
    /// The ids of deleted records.
    pub deleted: Vec<u64>,
}

/// A credential as the control plane stores it.
#[derive(Clone, Debug)]
pub struct TokenSync {
    pub id: u64,
    pub nickname: Option<String>,
    pub access_token: Option<String>,
    pub refresh_token: Option<String>,
    pub status: Option<String>,
    pub device_id: Option<String>,
    pub device_name: Option<String>,
    pub device_type: Option<String>,
    pub account_type: Option<String>,
    pub last_sync_at: Option<String>,
    pub client_id: Option<String>,
    pub client_secret: Option<String>,
    pub region: Option<String>,
    pub auth_method: Option<String>,
    pub expires_at: Option<String>,
    pub sync_version: u64,
}

/// The usage of a credential as the control plane stores it.
#[derive(Clone, Debug)]
pub struct TokenUsageSync {
    pub token_id: u64,
    pub current_usage: Option<i64>,
    pub usage_limit: Option<i64>,
    /// The share used, as the bits of the double-precision number on the
    /// wire.
    pub percent_used_bits: Option<u64>,
    pub base_limit: Option<i64>,
    pub base_current: Option<i64>,
    pub free_trial_limit: Option<i64>,
    pub free_trial_current: Option<i64>,
}

/// The subscription of a credential as the control plane stores it.
#[derive(Clone, Debug)]
pub struct TokenSubscriptionSync {
    pub token_id: u64,
    /// The subscription's type.
    pub kind: Option<String>,
    pub title: Option<String>,
    pub expires_at: Option<i64>,
    pub days_remaining: Option<i32>,
}

/// A bonus of a credential as the control plane stores it.
#[derive(Clone, Debug)]
pub struct TokenBonusSync {
    pub token_id: u64,
    pub code: Option<String>,
    pub name: Option<String>,
    pub current_usage: Option<i64>,
    pub usage_limit: Option<i64>,
}

/// What this device sends to the control plane.
#[derive(Clone, Debug)]
pub struct PushChangesRequest {
    pub tokens: Option<Vec<TokenSync>>,
    pub token_usage: Option<Vec<TokenUsageSync>>,
    pub token_subscriptions: Option<Vec<TokenSubscriptionSync>>,
    pub token_bonuses: Option<Vec<TokenBonusSync>>,
}

/// The control plane's answer to a push.
#[derive(Clone, Debug)]
pub struct PushChangesResponse {
    /// The ids of the records in conflict.
    pub conflicts: Vec<u64>,
    /// The control plane's current version.
    pub current_version: u64,
}

/// The control plane's current version.
#[derive(Clone, Debug)]
pub struct SyncVersionResponse {
    pub current_version: u64,
}

/// The control plane's answer to a deletion.
#[derive(Clone, Debug)]
pub struct DeleteResponse {
    pub message: String,
    pub current_version: u64,
}

/// A command that the control plane sends to this device.
#[derive(Clone, Debug)]
pub enum DeviceCommand {
    AddCredential { credential: KiroCredentials, command_id: String },
    DeleteCredential { credential_id: u64, command_id: String },
    SetDisabled { credential_id: u64, disabled: bool, command_id: String },
}

/// This device's answer to a command.
#[derive(Clone, Debug)]
pub struct CommandResponse {
    pub command_id: String,
    pub success: bool,
    pub error: Option<String>,
    /// The id of the credential that the command created, which travels as
    /// the member `credentialId` of the answer's data.
    pub data: Option<u64>,
}

/// A device that is online, as the control plane reports it.
#[derive(Clone, Debug)]
pub struct OnlineDeviceInfo {
    pub device_id: String,
    pub device_name: String,
    pub device_type: String,
    pub account_type: String,
    pub user_id: u64,
    pub user_email: String,
    pub connected_at: u64,
    pub last_heartbeat: u64,
}

/// The devices that are online.
#[derive(Clone, Debug)]
pub struct DevicesResponse {
    pub devices: Vec<OnlineDeviceInfo>,
    pub count: usize,
}

/// The control plane's answer to a credential pushed to a device.
#[derive(Clone, Debug)]
pub struct PushCredentialResult {
    pub success: bool,
    pub command_id: String,
    pub message: String,
}

} // verus!
