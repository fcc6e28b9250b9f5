//! The request and response shapes of the admin surface.

use vstd::prelude::*;
use crate::text::owned;

verus! {

/// The state of every credential.
#[derive(Clone, Debug)]
pub struct CredentialsStatusResponse {
    /// How many credentials there are.
    pub total: usize,
    /// How many of them are not disabled.
    pub available: usize,
    /// The id of the credential in use.
    pub current_id: u64,
    pub credentials: Vec<CredentialStatusItem>,
}

/// The state of one credential.
#[derive(Clone, Debug)]
pub struct CredentialStatusItem {
    pub id: u64,
    /// Lower numbers are preferred.
    pub priority: u32,
    pub disabled: bool,
    /// Failures in a row.
    pub failure_count: u32,
    /// Failures over the credential's life.
    pub total_failure_count: u64,
    /// Whether this is the credential in use.
    pub is_current: bool,
    /// When the access token expires, in RFC 3339 form.
    pub expires_at: Option<String>,
    pub auth_method: Option<String>,
    pub has_profile_arn: bool,
    /// A digest of the refresh token, for spotting duplicates.
    pub refresh_token_hash: Option<String>,
    pub email: Option<String>,
    pub success_count: u64,
    /// When the credential last served a call, in RFC 3339 form.
    pub last_used_at: Option<String>,
    /// Whether the credential has a proxy of its own.
    pub has_proxy: bool,
    pub proxy_url: Option<String>,
}

/// Asks to disable or enable a credential.
#[derive(Clone, Debug)]
pub struct SetDisabledRequest {
    pub disabled: bool,
}

/// Asks to change a credential's priority.
#[derive(Clone, Debug)]
pub struct SetPriorityRequest {
    pub priority: u32,
}

/// Asks to add a credential.
#[derive(Clone, Debug)]
pub struct AddCredentialRequest {
    pub refresh_token: String,
    /// `social` unless stated.
    pub auth_method: String,
    /// Needed for `idc`.
    pub client_id: Option<String>,
    /// Needed for `idc`.
    pub client_secret: Option<String>,
    pub priority: u32,
    pub region: Option<String>,
    pub auth_region: Option<String>,
    pub api_region: Option<String>,
    pub machine_id: Option<String>,
    pub email: Option<String>,
    /// The credential's own proxy; `direct` means none at all.
    pub proxy_url: Option<String>,
    pub proxy_username: Option<String>,
    pub proxy_password: Option<String>,
}

/// The authentication method of a credential that names none.
pub fn default_auth_method() -> (method: String)
    ensures
        method@ == "social"@,
{
    owned("social")
}

/// Reports an added credential.
#[derive(Clone, Debug)]
pub struct AddCredentialResponse {
    pub success: bool,
    pub message: String,
    pub credential_id: u64,
    pub email: Option<String>,
}

/// Reports the load-balancing mode.
#[derive(Clone, Debug)]
pub struct LoadBalancingModeResponse {
    /// `priority` or `balanced`.
    pub mode: String,
}

/// Asks to change the load-balancing mode.
#[derive(Clone, Debug)]
pub struct SetLoadBalancingModeRequest {
    /// `priority` or `balanced`.
    pub mode: String,
}

/// Reports that an operation succeeded.
#[derive(Clone, Debug)]
pub struct SuccessResponse {
    pub success: bool,
    pub message: String,
}

impl SuccessResponse {
    pub fn new(message: &str) -> (response: Self)
        ensures
            response.success,
            response.message@ == message@,
    {
        SuccessResponse { success: true, message: owned(message) }
    }
}

/// Asks for a connectivity test.
#[derive(Clone, Debug)]
pub struct ConnectivityTestRequest {
    /// `anthropic` or `openai`.
    pub mode: String,
    /// The model to try; a standard one where absent.
    pub model: Option<String>,
}

/// Reports a connectivity test.
#[derive(Clone, Debug)]
pub struct ConnectivityTestResponse {
    pub success: bool,
    pub mode: String,
    pub latency_ms: u64,
    pub credential_id: Option<u64>,
    pub model: Option<String>,
    pub reply: Option<String>,
    pub input_tokens: Option<i32>,
    pub output_tokens: Option<i32>,
    pub error: Option<String>,
}

/// Reports the proxy setting. The password is never shown.
#[derive(Clone, Debug)]
pub struct ProxyConfigResponse {
    pub enabled: bool,
    pub url: Option<String>,
    pub username: Option<String>,
    pub has_password: bool,
}

/// Asks to change the proxy setting.
#[derive(Clone, Debug)]
pub struct UpdateProxyConfigRequest {
    pub enabled: bool,
    pub url: Option<String>,
    pub username: Option<String>,
    pub password: Option<String>,
}

/// Asks to create an API key.
#[derive(Clone, Debug)]
pub struct CreateApiKeyRequest {
    /// The key text; one is generated where absent or blank.
    pub key: Option<String>,
    pub label: String,
    pub read_only: bool,
    pub allowed_models: Option<Vec<String>>,
}

/// Reports a created API key. Only here is the key shown in full.
#[derive(Clone, Debug)]
pub struct CreateApiKeyResponse {
    pub success: bool,
    pub message: String,
    pub id: u64,
    pub key: String,
}

/// Asks to change an API key; absent fields stay as they are.
#[derive(Clone, Debug)]
pub struct UpdateApiKeyRequest {
    pub key: Option<String>,
    pub label: Option<String>,
    pub read_only: Option<bool>,
    pub allowed_models: Option<Option<Vec<String>>>,
    pub disabled: Option<bool>,
    pub bound_credential_ids: Option<Option<Vec<u64>>>,
}

/// An error of the admin surface.
#[derive(Clone, Debug)]
pub struct AdminErrorResponse {
    pub error: AdminError,
}

/// The kind and message of an admin error.
#[derive(Clone, Debug)]
pub struct AdminError {
    pub error_type: String,
    pub message: String,
}

impl AdminErrorResponse {
    pub fn new(error_type: &str, message: &str) -> (response: Self)
        ensures
            response.error.error_type@ == error_type@,
            response.error.message@ == message@,
    {
        AdminErrorResponse {
            error: AdminError { error_type: owned(error_type), message: owned(message) },
        }
    }

    pub fn invalid_request(message: &str) -> (response: Self)
        ensures
            response.error.error_type@ == "invalid_request"@,
            response.error.message@ == message@,
    {
        AdminErrorResponse::new("invalid_request", message)
    }

    pub fn authentication_error() -> (response: Self)
        ensures
            response.error.error_type@ == "authentication_error"@,
            response.error.message@ == "Invalid or missing admin API key"@,
    {
        AdminErrorResponse::new("authentication_error", "Invalid or missing admin API key")
    }

    pub fn not_found(message: &str) -> (response: Self)
        ensures
            response.error.error_type@ == "not_found"@,
            response.error.message@ == message@,
    {
        AdminErrorResponse::new("not_found", message)
    }

    pub fn api_error(message: &str) -> (response: Self)
        ensures
            response.error.error_type@ == "api_error"@,
            response.error.message@ == message@,
    {
        AdminErrorResponse::new("api_error", message)
    }

    pub fn internal_error(message: &str) -> (response: Self)
        ensures
            response.error.error_type@ == "internal_error"@,
            response.error.message@ == message@,
    {
        AdminErrorResponse::new("internal_error", message)
    }
}

} // verus!
