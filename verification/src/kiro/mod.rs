//! The upstream side: credentials and their pool, the token manager, what is
//! decided around a call, the event-stream parser and the translators.

pub mod model;
pub mod parser;
pub mod pool;
pub mod provider;
pub mod stream;
pub mod token_manager;
pub mod translate;
