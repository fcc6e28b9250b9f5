//! The user surface, which a caller reaches with an API key of its own.

pub mod handlers;
