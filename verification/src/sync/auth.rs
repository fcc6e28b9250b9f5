//! Logging in to the control plane: where the requests go and which of them
//! is made when.

use vstd::prelude::*;

verus! {

/// The part of an authentication client that does not touch the network.
#[derive(Clone, Debug)]
pub struct AuthClient {
    server_url: String,
}

/// What to do next to get a token.
#[derive(Clone, Copy, Debug, PartialEq, Eq, Structural)]
pub enum AuthStep {
    /// Log in with the account.
    Login,
    /// Register the account.
    Register,
    /// Stop: the last request decides.
    Finish,
}

/// The step that follows: first a login; if that fails, a registration of the
/// same account; whatever the registration gives is final.
pub open spec fn step_after(last: Option<(AuthStep, bool)>) -> AuthStep {
    match last {
        None => AuthStep::Login,
        Some((AuthStep::Login, false)) => AuthStep::Register,
        Some(_) => AuthStep::Finish,
    }
}

impl AuthClient {
    /// A client for the given server.
    pub fn new(server_url: String) -> (client: Self)
        ensures
            client.server_url()@ == server_url@,
    {
        AuthClient { server_url }
    }

    pub closed spec fn server_url(&self) -> String {
        self.server_url
    }

    /// Where accounts are registered.
    pub fn register_url(&self) -> (url: String)
        ensures
            url@ == self.server_url()@ + "/api/auth/register"@,
    {
        let mut url = self.server_url.clone();
        url.append("/api/auth/register");
        url
    }

    /// Where accounts log in.
    pub fn login_url(&self) -> (url: String)
        ensures
            url@ == self.server_url()@ + "/api/auth/login"@,
    {
        let mut url = self.server_url.clone();
        url.append("/api/auth/login");
        url
    }

    /// The step to take after the given one ended with or without success;
    /// `None` stands for the start.
    pub fn next_step(last: Option<(AuthStep, bool)>) -> (step: AuthStep)
        ensures
            step == step_after(last),
    {
        match last {
            None => AuthStep::Login,
            Some((AuthStep::Login, false)) => AuthStep::Register,
            Some(_) => AuthStep::Finish,
        }
    }
}

} // verus!
