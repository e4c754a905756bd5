//! FIX (Financial Information eXchange) protocol: tag numbers, field value
//! enumerations, message parsing and encoding, and the session state machine.
pub mod error;
pub mod message;
pub mod session;
pub mod tags;
pub mod types;

pub use error::Error;
