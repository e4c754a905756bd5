//! How exchanges describe their WebSocket connections.
use vstd::prelude::*;

verus! {

/// How an exchange expects subscriptions to be expressed after a WebSocket
/// connection is established.
#[derive(Clone, Debug)]
pub enum SubscriptionMethod {
    /// Subscriptions are encoded in the URL itself — no message is sent after
    /// connect (Binance combined-stream pattern).
    UrlEncoded,
    /// A single JSON message is sent: `{"op":"subscribe","args":[...]}`.
    /// Each string in the vec is one topic arg (Bybit pattern).
    JsonArgs(Vec<String>),
}

/// A single WebSocket connection descriptor.
#[derive(Clone, Debug)]
pub struct WsEndpoint {
    pub url: String,
    pub subscription: SubscriptionMethod,
}

} // verus!
