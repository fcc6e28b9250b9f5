//! The HTTP side of the sync: where each request goes, what it carries, and
//! when a failed request is tried again.

use vstd::prelude::*;
use crate::text::decimal;
use crate::text::decimal_string;
use crate::text::owned;

verus! {

/// When failed requests are tried again.
#[derive(Clone, Copy, Debug)]
pub struct RetryConfig {
    /// How often a request is tried again at most.
    pub max_retries: u32,
    /// Milliseconds to wait before the first new try.
    pub initial_delay_ms: u64,
    /// Whether each wait is twice the one before.
    pub exponential_backoff: bool,
}

impl Default for RetryConfig {
    fn default() -> (config: Self)
        ensures
            config.max_retries == 3,
            config.initial_delay_ms == 1000,
            config.exponential_backoff,
    {
        RetryConfig { max_retries: 3, initial_delay_ms: 1000, exponential_backoff: true }
    }
}

/// How a request failed.
#[derive(Clone, Copy, Debug, PartialEq, Eq, Structural)]
pub enum Failure {
    /// The request did not get through, or its answer could not be read.
    Transport,
    /// The server answered with this status, which is no success.
    Status(u16),
}

/// What to do about a failed request.
#[derive(Clone, Copy, Debug, PartialEq, Eq, Structural)]
pub enum RetryDecision {
    /// Try again after this many milliseconds.
    RetryAfter(u64),
    /// Give up and report the failure.
    GiveUp,
}

/// Two to the power `n`.
pub open spec fn pow2(n: nat) -> nat
    decreases n,
{
    if n == 0 {
        1
    } else {
        2 * pow2((n - 1) as nat)
    }
}

/// Whether a failure is worth another try: a transport failure is, and so is
/// a status from 500 on; a client error is not.
pub open spec fn retryable(failure: Failure) -> bool {
    match failure {
        Failure::Transport => true,
        Failure::Status(code) => code >= 500,
    }
}

/// The wait before new try number `attempt`, counted from 1: the initial
/// delay, doubled with each try where the backoff is exponential.
pub open spec fn delay_before(config: RetryConfig, attempt: nat) -> nat {
    if config.exponential_backoff {
        config.initial_delay_ms as nat * pow2((attempt - 1) as nat)
    } else {
        config.initial_delay_ms as nat
    }
}

/// What to do about a failure after `retries` new tries were made: try again
/// while the failure is worth it and tries are left. A wait that no `u64`
/// holds is cut to the largest one.
pub open spec fn decide(config: RetryConfig, retries: u32, failure: Failure) -> RetryDecision {
    if retryable(failure) && retries < config.max_retries {
        let wait = delay_before(config, (retries + 1) as nat);
        RetryDecision::RetryAfter(
            if wait > u64::MAX {
                u64::MAX
            } else {
                wait as u64
            },
        )
    } else {
        RetryDecision::GiveUp
    }
}

/// `base * 2^exp`, cut to the largest `u64`.
pub fn doubled(base: u64, exp: u32) -> (out: u64)
    ensures
        out == if base as nat * pow2(exp as nat) > u64::MAX {
            u64::MAX
        } else {
            (base as nat * pow2(exp as nat)) as u64
        },
{
    let mut out: u64 = base;
    let mut i: u32 = 0;
    proof {
        assert(base as nat * pow2(0) == base as nat) by (nonlinear_arith)
            requires
                pow2(0) == 1,
        ;
    }
    while i < exp
        invariant
            i <= exp,
            out == if base as nat * pow2(i as nat) > u64::MAX {
                u64::MAX
            } else {
                (base as nat * pow2(i as nat)) as u64
            },
        decreases exp - i,
    {
        proof {
            assert(base as nat * pow2((i + 1) as nat) == 2 * (base as nat * pow2(i as nat)))
                by (nonlinear_arith)
                requires
                    pow2((i + 1) as nat) == 2 * pow2(i as nat),
            ;
        }
        out = if out > u64::MAX / 2 {
            u64::MAX
        } else {
            out * 2
        };
        i = i + 1;
    }
    out
}

/// Decides what to do about a failed request after `retries` new tries.
pub fn retry_decision(config: &RetryConfig, retries: u32, failure: Failure) -> (decision:
    RetryDecision)
    ensures
        decision == decide(*config, retries, failure),
{
    let worth = match failure {
        Failure::Transport => true,
        Failure::Status(code) => code >= 500,
    };
    if worth && retries < config.max_retries {
        if config.exponential_backoff {
            RetryDecision::RetryAfter(doubled(config.initial_delay_ms, retries))
        } else {
            RetryDecision::RetryAfter(config.initial_delay_ms)
        }
    } else {
        RetryDecision::GiveUp
    }
}

/// The sync endpoints of a server.
pub open spec fn changes_url_text(server_url: Seq<char>) -> Seq<char> {
    server_url + "/api/sync/changes"@
}

pub open spec fn version_url_text(server_url: Seq<char>) -> Seq<char> {
    server_url + "/api/sync/version"@
}

pub open spec fn push_url_text(server_url: Seq<char>) -> Seq<char> {
    server_url + "/api/sync/push"@
}

pub open spec fn token_url_text(server_url: Seq<char>, id: u64) -> Seq<char> {
    server_url + "/api/sync/tokens/"@ + decimal(id as nat)
}

pub open spec fn bonus_url_text(server_url: Seq<char>, id: u64) -> Seq<char> {
    server_url + "/api/sync/bonuses/"@ + decimal(id as nat)
}

/// The value of the authorization header for a bearer token.
pub open spec fn bearer_text(token: Seq<char>) -> Seq<char> {
    "Bearer "@ + token
}

/// The value of the authorization header for a bearer token.
pub fn bearer(token: &str) -> (value: String)
    ensures
        value@ == bearer_text(token@),
{
    let mut value = owned("Bearer ");
    value.append(token);
    value
}

/// The part of a sync client that does not touch the network: the server,
/// the token and the retry rules.
#[derive(Clone, Debug)]
pub struct SyncClient {
    server_url: String,
    auth_token: Option<String>,
    retry_config: RetryConfig,
}

impl SyncClient {
    /// A client for the given server with the standard retry rules.
    pub fn new(server_url: String, auth_token: Option<String>) -> (client: Self)
        ensures
            client.server_url()@ == server_url@,
            crate::text::text_of(client.auth_token()) == crate::text::text_of(auth_token),
            client.retry_config().max_retries == 3,
            client.retry_config().initial_delay_ms == 1000,
            client.retry_config().exponential_backoff,
    {
        SyncClient { server_url, auth_token, retry_config: RetryConfig::default() }
    }

    /// A client for the given server with retry rules of its own.
    pub fn new_with_retry(
        server_url: String,
        auth_token: Option<String>,
        retry_config: RetryConfig,
    ) -> (client: Self)
        ensures
            client.server_url()@ == server_url@,
            crate::text::text_of(client.auth_token()) == crate::text::text_of(auth_token),
            client.retry_config() == retry_config,
    {
        SyncClient { server_url, auth_token, retry_config }
    }

    pub closed spec fn server_url(&self) -> String {
        self.server_url
    }

    pub closed spec fn auth_token(&self) -> Option<String> {
        self.auth_token
    }

    pub closed spec fn retry_config(&self) -> RetryConfig {
        self.retry_config
    }

    /// The retry rules.
    pub fn retry_rules(&self) -> (config: RetryConfig)
        ensures
            config == self.retry_config(),
    {
        self.retry_config
    }

    /// Replaces the token.
    pub fn set_auth_token(&mut self, token: Option<String>)
        ensures
            final(self).server_url() == old(self).server_url(),
            final(self).retry_config() == old(self).retry_config(),
            final(self).auth_token() == token,
    {
        self.auth_token = token;
    }

    /// The value of the authorization header, if the client has a token.
    pub fn authorization(&self) -> (value: Option<String>)
        ensures
            crate::text::text_of(value) == match self.auth_token() {
                Some(t) => Some(bearer_text(t@)),
                None => None,
            },
    {
        match &self.auth_token {
            Some(t) => Some(bearer(t.as_str())),
            None => None,
        }
    }

    /// Where the changes since a version are asked for.
    pub fn changes_url(&self) -> (url: String)
        ensures
            url@ == changes_url_text(self.server_url()@),
    {
        let mut url = self.server_url.clone();
        url.append("/api/sync/changes");
        url
    }

    /// Where the current version is asked for.
    pub fn version_url(&self) -> (url: String)
        ensures
            url@ == version_url_text(self.server_url()@),
    {
        let mut url = self.server_url.clone();
        url.append("/api/sync/version");
        url
    }

    /// Where changes are pushed to.
    pub fn push_url(&self) -> (url: String)
        ensures
            url@ == push_url_text(self.server_url()@),
    {
        let mut url = self.server_url.clone();
        url.append("/api/sync/push");
        url
    }

    /// Where a token is deleted.
    pub fn token_url(&self, token_id: u64) -> (url: String)
        ensures
            url@ == token_url_text(self.server_url()@, token_id),
    {
        let mut url = self.server_url.clone();
        url.append("/api/sync/tokens/");
        url.append(decimal_string(token_id).as_str());
        url
    }

    /// Where a bonus is deleted.
    pub fn bonus_url(&self, bonus_id: u64) -> (url: String)
        ensures
            url@ == bonus_url_text(self.server_url()@, bonus_id),
    {
        let mut url = self.server_url.clone();
        url.append("/api/sync/bonuses/");
        url.append(decimal_string(bonus_id).as_str());
        url
    }
}

} // verus!
