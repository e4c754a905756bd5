//! WebSocket client support: connection configuration, the reconnect policy
//! with exponential backoff, and the message type exchanged on a connection.
pub mod config;
pub mod message;
pub mod reconnect;

pub use config::{ReconnectConfig, WsConfig};
pub use message::WsMessage;
pub use reconnect::{ConnectionLoss, Reconnect, Recovery};
