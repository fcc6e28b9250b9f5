//! The admin surface: its shapes, its rules and what it shows.

pub mod handlers;
pub mod logs;
pub mod middleware;
pub mod service;
pub mod types;
