//! Generic WebSocket message type.
use vstd::prelude::*;
use vstd::utf8::{encode_utf8, valid_utf8};

use crate::api::http::str_from_utf8;

verus! {

/// Generic WebSocket message type.
#[derive(Clone, Debug)]
pub enum WsMessage {
    /// UTF-8 text message.
    Text(String),
    /// Binary payload.
    Binary(Vec<u8>),
    /// Ping frame.
    Ping(Vec<u8>),
    /// Pong frame.
    Pong(Vec<u8>),
}

impl WsMessage {
    /// The text that a data message carries: a text message's text, or a
    /// binary message's bytes read as UTF-8 (the decoding error when they are
    /// not). Pings and pongs carry none; the connection answers them itself.
    pub fn into_text(self) -> (r: Option<Result<String, std::str::Utf8Error>>)
        ensures
            self matches WsMessage::Text(t) ==> r == Some(Ok::<String, std::str::Utf8Error>(t)),
            self matches WsMessage::Binary(b) ==> r is Some && (r->0 is Ok <==> valid_utf8(b@))
                && (r->0 matches Ok(s) ==> encode_utf8(s@) == b@),
            (self is Ping || self is Pong) ==> r is None,
    {
        match self {
            WsMessage::Text(text) => Some(Ok(text)),
            WsMessage::Binary(bytes) => match str_from_utf8(bytes.as_slice()) {
                Ok(s) => Some(Ok(s.to_owned())),
                Err(e) => Some(Err(e)),
            },
            WsMessage::Ping(_) => None,
            WsMessage::Pong(_) => None,
        }
    }
}

} // verus!
