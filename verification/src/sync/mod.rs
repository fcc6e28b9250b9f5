//! The sync with the control plane: the requests over HTTP, the device
//! channel, and the manager that drives both.

pub mod auth;
pub mod client;
pub mod manager;
pub mod socketio_client;
pub mod types;
pub mod websocket;

pub use auth::AuthClient;
pub use client::SyncClient;
pub use manager::SyncManager;
pub use socketio_client::DeviceInfo;
pub use socketio_client::SocketIOClient;
