//! The outbound proxy setting and the shared, versioned cell that holds it.

use vstd::prelude::*;
use crate::model::config::TlsBackend;
use crate::text::copy_text;
use crate::text::owned;
use crate::text::text_of;

verus! {

/// How outbound connections are proxied.
#[derive(Clone, Debug)]
pub struct ProxyConfig {
    /// The proxy address; http, https and socks5 are understood.
    pub url: String,
    /// User name for the proxy, if it asks for one.
    pub username: Option<String>,
    /// Password for the proxy, if it asks for one.
    pub password: Option<String>,
}

/// A proxy setting, as contracts see it.
pub struct ProxyModel {
    pub url: Seq<char>,
    pub username: Option<Seq<char>>,
    pub password: Option<Seq<char>>,
}

impl View for ProxyConfig {
    type V = ProxyModel;

    open spec fn view(&self) -> ProxyModel {
        ProxyModel {
            url: self.url@,
            username: text_of(self.username),
            password: text_of(self.password),
        }
    }
}

/// The model of an optional proxy setting.
pub open spec fn proxy_of(config: Option<ProxyConfig>) -> Option<ProxyModel> {
    match config {
        Some(c) => Some(c@),
        None => None,
    }
}

impl Default for ProxyConfig {
    fn default() -> (config: Self)
        ensures
            config@ == (ProxyModel { url: Seq::empty(), username: None, password: None }),
    {
        ProxyConfig { url: String::new(), username: None, password: None }
    }
}

impl ProxyConfig {
    /// A proxy at `url` that asks for no credentials.
    pub fn new(url: &str) -> (config: Self)
        ensures
            config@ == (ProxyModel { url: url@, username: None, password: None }),
    {
        ProxyConfig { url: owned(url), username: None, password: None }
    }

    /// The same proxy with credentials.
    pub fn with_auth(self, username: &str, password: &str) -> (config: Self)
        ensures
            config@ == (ProxyModel {
                url: self@.url,
                username: Some(username@),
                password: Some(password@),
            }),
    {
        let mut config = self;
        config.username = Some(owned(username));
        config.password = Some(owned(password));
        config
    }

    /// A copy of the setting.
    pub fn duplicate(&self) -> (config: Self)
        ensures
            config@ == self@,
    {
        ProxyConfig {
            url: self.url.clone(),
            username: copy_text(&self.username),
            password: copy_text(&self.password),
        }
    }

    /// The credentials to present to the proxy: both parts, or nothing when
    /// either is missing.
    pub fn credentials(&self) -> (pair: Option<(&str, &str)>)
        ensures
            match pair {
                Some((u, p)) => self@.username == Some(u@) && self@.password == Some(p@),
                None => self@.username is None || self@.password is None,
            },
    {
        match &self.username {
            Some(u) => match &self.password {
                Some(p) => Some((u.as_str(), p.as_str())),
                None => None,
            },
            None => None,
        }
    }
}

/// Whether two optional proxy settings are the same.
pub fn same_proxy(a: &Option<ProxyConfig>, b: &Option<ProxyConfig>) -> (same: bool)
    ensures
        same == (proxy_of(*a) == proxy_of(*b)),
{
    match a {
        Some(x) => match b {
            Some(y) => {
                crate::text::str_eq(x.url.as_str(), y.url.as_str()) && same_text(
                    &x.username,
                    &y.username,
                ) && same_text(&x.password, &y.password)
            },
            None => false,
        },
        None => b.is_none(),
    }
}

/// Whether two optional strings are the same.
pub fn same_text(a: &Option<String>, b: &Option<String>) -> (same: bool)
    ensures
        same == (text_of(*a) == text_of(*b)),
{
    match a {
        Some(x) => match b {
            Some(y) => crate::text::str_eq(x.as_str(), y.as_str()),
            None => false,
        },
        None => b.is_none(),
    }
}

/// Whether a client for the given TLS backend is built on rustls.
pub fn uses_rustls(tls_backend: TlsBackend) -> (yes: bool)
    ensures
        yes == (tls_backend == TlsBackend::Rustls),
{
    match tls_backend {
        TlsBackend::Rustls => true,
        TlsBackend::NativeTls => false,
    }
}

/// The proxy setting shared by everything that opens outbound connections.
/// Each replacement of the setting moves the version on by one, so a holder
/// of a client can tell that the client is out of date.
pub struct SharedProxy {
    config: Option<ProxyConfig>,
    version: u64,
}

/// The shared cell, as contracts see it.
pub struct SharedProxyModel {
    pub config: Option<ProxyModel>,
    pub version: u64,
}

impl View for SharedProxy {
    type V = SharedProxyModel;

    closed spec fn view(&self) -> SharedProxyModel {
        SharedProxyModel { config: proxy_of(self.config), version: self.version }
    }
}

/// The version that follows `v`; after the largest comes 0.
pub open spec fn next_version(v: u64) -> u64 {
    if v == u64::MAX {
        0
    } else {
        (v + 1) as u64
    }
}

impl SharedProxy {
    /// A cell holding `config` at version 0.
    pub fn new(config: Option<ProxyConfig>) -> (cell: Self)
        ensures
            cell@ == (SharedProxyModel { config: proxy_of(config), version: 0 }),
    {
        SharedProxy { config, version: 0 }
    }

    /// A copy of the current setting.
    pub fn get(&self) -> (config: Option<ProxyConfig>)
        ensures
            proxy_of(config) == self@.config,
    {
        match &self.config {
            Some(c) => Some(c.duplicate()),
            None => None,
        }
    }

    /// Replaces the setting and moves the version on.
    pub fn set(&mut self, config: Option<ProxyConfig>)
        ensures
            final(self)@ == (SharedProxyModel {
                config: proxy_of(config),
                version: next_version(old(self)@.version),
            }),
    {
        self.config = config;
        self.version = if self.version == u64::MAX {
            0
        } else {
            self.version + 1
        };
    }

    /// The current version.
    pub fn version(&self) -> (v: u64)
        ensures
            v == self@.version,
    {
        self.version
    }

    /// Whether a client can be used again: it can if the shared setting has
    /// not changed since the client was built, and the client was built for
    /// the proxy that the credential at hand asks for.
    pub fn client_is_current(
        &self,
        built_at: u64,
        built_for: &Option<ProxyConfig>,
        wanted: &Option<ProxyConfig>,
    ) -> (current: bool)
        ensures
            current == (self@.version == built_at && proxy_of(*built_for) == proxy_of(*wanted)),
    {
        self.version == built_at && same_proxy(built_for, wanted)
    }

    /// Whether a client built when the version was `seen` is out of date.
    pub fn changed_since(&self, seen: u64) -> (changed: bool)
        ensures
            changed == (self@.version != seen),
    {
        self.version != seen
    }
}

} // verus!
