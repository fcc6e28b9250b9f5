//! What the user surface decides about a request: which API key it presents
//! and whether the key is let in.

use vstd::prelude::*;
use crate::api_key_store::first_admitting;
use crate::api_key_store::info_of;
use crate::api_key_store::ApiKeyInfo;
use crate::api_key_store::ApiKeyStore;
use crate::text::has_prefix;
use crate::text::owned;
use crate::text::starts_with;
use crate::text::text_of;
use crate::text::without_first;

verus! {

/// A header of a request.
#[derive(Clone, Debug)]
pub enum Header {
    /// The request has no such header.
    Absent,
    /// The header's value is no text.
    Unreadable,
    /// The header's value.
    Text(String),
}

pub enum HeaderModel {
    Absent,
    Unreadable,
    Text(Seq<char>),
}

impl View for Header {
    type V = HeaderModel;

    open spec fn view(&self) -> HeaderModel {
        match self {
            Header::Absent => HeaderModel::Absent,
            Header::Unreadable => HeaderModel::Unreadable,
            Header::Text(t) => HeaderModel::Text(t@),
        }
    }
}

/// The API key that a request presents: the value of the header `x-api-key`
/// if the request has that header, else what follows `Bearer ` in the header
/// `authorization`.
pub open spec fn presented_key(x_api_key: HeaderModel, authorization: HeaderModel) -> Option<
    Seq<char>,
> {
    match x_api_key {
        HeaderModel::Text(key) => Some(key),
        HeaderModel::Unreadable => None,
        HeaderModel::Absent => match authorization {
            HeaderModel::Text(value) => if has_prefix(value, "Bearer "@) {
                Some(value.skip(7))
            } else {
                None
            },
            _ => None,
        },
    }
}

/// The API key that a request presents.
pub fn extract_api_key(x_api_key: &Header, authorization: &Header) -> (key: Option<String>)
    ensures
        text_of(key) == presented_key(x_api_key@, authorization@),
{
    match x_api_key {
        Header::Text(key) => Some(key.clone()),
        Header::Unreadable => None,
        Header::Absent => match authorization {
            Header::Text(value) => {
                if starts_with(value.as_str(), "Bearer ") {
                    proof {
                        reveal_strlit("Bearer ");
                    }
                    Some(without_first(value.as_str(), 7))
                } else {
                    None
                }
            },
            _ => None,
        },
    }
}

/// Why a request is turned away.
#[derive(Clone, Copy, Debug, PartialEq, Eq, Structural)]
pub enum AuthFailure {
    /// The request presents no API key.
    MissingKey,
    /// The key is unknown or disabled.
    InvalidKey,
}

impl AuthFailure {
    /// What the answer tells of the failure.
    pub fn message(&self) -> (text: String)
        ensures
            text@ == match *self {
                AuthFailure::MissingKey => "缺少 API Key，请通过 x-api-key header 提供"@,
                AuthFailure::InvalidKey => "API Key 无效或已禁用"@,
            },
    {
        match self {
            AuthFailure::MissingKey => owned("缺少 API Key，请通过 x-api-key header 提供"),
            AuthFailure::InvalidKey => owned("API Key 无效或已禁用"),
        }
    }
}

/// Lets a request in if it presents a key that the store accepts.
pub fn authenticate(store: &ApiKeyStore, x_api_key: &Header, authorization: &Header) -> (who: Result<
    ApiKeyInfo,
    AuthFailure,
>)
    ensures
        match presented_key(x_api_key@, authorization@) {
            None => who == Err::<ApiKeyInfo, AuthFailure>(AuthFailure::MissingKey),
            Some(key) => match who {
                Ok(info) => {
                    let at = first_admitting(store@.entries, key, store@.entries.len() as int);
                    store@.accepts(key) && at is Some && info@ == info_of(store@.entries[at->0])
                },
                Err(failure) => failure == AuthFailure::InvalidKey && !store@.accepts(key),
            },
        },
{
    match extract_api_key(x_api_key, authorization) {
        Some(key) => match store.authenticate(key.as_str()) {
            Some(info) => Ok(info),
            None => Err(AuthFailure::InvalidKey),
        },
        None => Err(AuthFailure::MissingKey),
    }
}

} // verus!
