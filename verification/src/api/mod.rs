//! The exchange-independent layer: unified stream descriptions, exchange
//! endpoints and subscription styles, HTTP request building, pipeline
//! configuration checks, and per-stream rate limiting.
pub mod builder;
pub mod http;
pub mod output;
pub mod runtime;
pub mod storage;
pub mod traits;
pub mod types;

pub use runtime::ExchangeName;
pub use traits::{SubscriptionMethod, WsEndpoint};
pub use types::{Side, StreamKind, Symbol, UpdateRate};
