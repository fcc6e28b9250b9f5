//! An upstream identity and what is stored with it.

use vstd::prelude::*;
use crate::text::copy_text;
use crate::text::text_of;

verus! {

/// A stored upstream identity. The access token and its expiry are a cache
/// that a refresh fills in.
#[derive(Clone, Debug)]
pub struct KiroCredentials {
    /// The id in the pool; absent until the pool assigns one.
    pub id: Option<u64>,
    pub access_token: Option<String>,
    pub refresh_token: Option<String>,
    /// The resource name used in upstream requests.
    pub profile_arn: Option<String>,
    /// When the access token expires, in RFC 3339 form.
    pub expires_at: Option<String>,
    /// `social` or `idc`.
    pub auth_method: Option<String>,
    /// Needed for `idc`.
    pub client_id: Option<String>,
    /// Needed for `idc`.
    pub client_secret: Option<String>,
    /// Lower numbers are preferred.
    pub priority: u32,
    pub region: Option<String>,
    pub auth_region: Option<String>,
    pub api_region: Option<String>,
    pub machine_id: Option<String>,
    pub email: Option<String>,
    pub proxy_url: Option<String>,
    pub proxy_username: Option<String>,
    pub proxy_password: Option<String>,
    pub disabled: bool,
}

/// A credential, as contracts see it.
pub struct CredentialModel {
    pub id: Option<u64>,
    pub access_token: Option<Seq<char>>,
    pub refresh_token: Option<Seq<char>>,
    pub profile_arn: Option<Seq<char>>,
    pub expires_at: Option<Seq<char>>,
    pub auth_method: Option<Seq<char>>,
    pub client_id: Option<Seq<char>>,
    pub client_secret: Option<Seq<char>>,
    pub priority: u32,
    pub region: Option<Seq<char>>,
    pub auth_region: Option<Seq<char>>,
    pub api_region: Option<Seq<char>>,
    pub machine_id: Option<Seq<char>>,
    pub email: Option<Seq<char>>,
    pub proxy_url: Option<Seq<char>>,
    pub proxy_username: Option<Seq<char>>,
    pub proxy_password: Option<Seq<char>>,
    pub disabled: bool,
}

impl View for KiroCredentials {
    type V = CredentialModel;

    open spec fn view(&self) -> CredentialModel {
        CredentialModel {
            id: self.id,
            access_token: text_of(self.access_token),
            refresh_token: text_of(self.refresh_token),
            profile_arn: text_of(self.profile_arn),
            expires_at: text_of(self.expires_at),
            auth_method: text_of(self.auth_method),
            client_id: text_of(self.client_id),
            client_secret: text_of(self.client_secret),
            priority: self.priority,
            region: text_of(self.region),
            auth_region: text_of(self.auth_region),
            api_region: text_of(self.api_region),
            machine_id: text_of(self.machine_id),
            email: text_of(self.email),
            proxy_url: text_of(self.proxy_url),
            proxy_username: text_of(self.proxy_username),
            proxy_password: text_of(self.proxy_password),
            disabled: self.disabled,
        }
    }
}

pub open spec fn credential_models(v: Seq<KiroCredentials>) -> Seq<CredentialModel> {
    v.map_values(|c: KiroCredentials| c@)
}

impl KiroCredentials {
    /// A copy of the credential.
    pub fn duplicate(&self) -> (copy: Self)
        ensures
            copy@ == self@,
    {
        KiroCredentials {
            id: self.id,
            access_token: copy_text(&self.access_token),
            refresh_token: copy_text(&self.refresh_token),
            profile_arn: copy_text(&self.profile_arn),
            expires_at: copy_text(&self.expires_at),
            auth_method: copy_text(&self.auth_method),
            client_id: copy_text(&self.client_id),
            client_secret: copy_text(&self.client_secret),
            priority: self.priority,
            region: copy_text(&self.region),
            auth_region: copy_text(&self.auth_region),
            api_region: copy_text(&self.api_region),
            machine_id: copy_text(&self.machine_id),
            email: copy_text(&self.email),
            proxy_url: copy_text(&self.proxy_url),
            proxy_username: copy_text(&self.proxy_username),
            proxy_password: copy_text(&self.proxy_password),
            disabled: self.disabled,
        }
    }
}

} // verus!
