//! What the upstream reports of an account.

use vstd::prelude::*;

verus! {

/// The answer to an account query.
#[derive(Clone, Debug)]
pub struct AccountResponse {
    pub email: Option<String>,
    pub account_id: Option<String>,
    pub username: Option<String>,
}

} // verus!
