//! The data that the upstream and the gateway exchange.

pub mod account;
pub mod common;
pub mod credentials;
pub mod events;
