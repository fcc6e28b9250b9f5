//! The verified core of a gateway that fronts an upstream code-assistant
//! service with several credentials.
//!
//! The library holds the data and the rules: who may call, which credential
//! serves a call and what the outcome of the call does to it, how the
//! upstream's framed event stream is decoded and turned into the client's
//! stream, what the usage ledger adds up, and what the device channel and the
//! sync with the control plane decide. It reads no file, opens no socket and
//! takes no lock: whoever embeds it does, and hands it plain values.
//!
//! Contracts speak of models: each type with text in it has a view that shows
//! the text as a sequence of characters, and the collections show as
//! sequences and maps. The few calls into other crates stand behind functions
//! marked `external_body`, whose contracts are taken on trust; each says in
//! its comment what it calls and what it claims.

pub mod admin;
pub mod api_key_store;
pub mod clock;
pub mod http_client;
pub mod json;
pub mod kiro;
pub mod model;
pub mod sync;
pub mod text;
pub mod token_usage;
pub mod user_api;
