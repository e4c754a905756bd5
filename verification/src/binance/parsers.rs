//! Binance combined-stream messages and command errors.
//!
//! A combined-stream message is `{"stream":"<streamName>","data":<payload>}`;
//! the stream name tells which payload the data holds.
use vstd::prelude::*;

use crate::text::{chars_of, contains, contains_seq};

pub use crate::command_error::{WsError, WsErrorPayload};

verus! {

/// Which payload a combined-stream message carries.
#[derive(Debug, Clone, Copy, PartialEq, Eq, Structural)]
pub enum StreamEventKind {
    Ticker,
    Trade,
    OrderBook,
}

/// The payload kind that a stream name announces, by the first of `@ticker`,
/// `@trade` and `@depth` that it contains.
pub open spec fn stream_event_kind(stream: Seq<char>) -> Option<StreamEventKind> {
    if contains_seq(stream, "@ticker"@) {
        Some(StreamEventKind::Ticker)
    } else if contains_seq(stream, "@trade"@) {
        Some(StreamEventKind::Trade)
    } else if contains_seq(stream, "@depth"@) {
        Some(StreamEventKind::OrderBook)
    } else {
        None
    }
}

/// The payload kind of a message of stream `stream`, or the error text
/// `unknown stream type: <stream>`.
pub fn classify_stream(stream: &str) -> (r: Result<StreamEventKind, String>)
    ensures
        stream_event_kind(stream@) matches Some(k) ==> r == Ok::<StreamEventKind, String>(k),
        stream_event_kind(stream@) is None ==> r is Err && r->Err_0@ == "unknown stream type: "@ + stream@,
{
    let s = chars_of(stream);
    if contains(s.as_slice(), chars_of("@ticker").as_slice()) {
        Ok(StreamEventKind::Ticker)
    } else if contains(s.as_slice(), chars_of("@trade").as_slice()) {
        Ok(StreamEventKind::Trade)
    } else if contains(s.as_slice(), chars_of("@depth").as_slice()) {
        Ok(StreamEventKind::OrderBook)
    } else {
        let mut msg = "unknown stream type: ".to_owned();
        msg.append(stream);
        Err(msg)
    }
}

/// 24-hour rolling ticker (stream `<symbol>@ticker`).
#[derive(Debug, Clone)]
pub struct TickerPayload {
    pub event_type: String,
    pub event_time: i64,
    pub symbol: String,
    pub price_change: String,
    pub price_change_percent: String,
    pub weighted_avg_price: String,
    pub first_trade_price: String,
    pub last_price: String,
    pub last_quantity: String,
    pub best_bid_price: String,
    pub best_bid_quantity: String,
    pub best_ask_price: String,
    pub best_ask_quantity: String,
    pub open_price: String,
    pub high_price: String,
    pub low_price: String,
    pub base_volume: String,
    pub quote_volume: String,
    pub stats_open_time: i64,
    pub stats_close_time: i64,
    pub first_trade_id: i64,
    pub last_trade_id: i64,
    pub total_trades: i64,
}

/// One trade (stream `<symbol>@trade`).
#[derive(Debug, Clone)]
pub struct TradePayload {
    pub event_type: String,
    pub event_time: i64,
    pub symbol: String,
    pub trade_id: i64,
    pub price: String,
    pub quantity: String,
    pub trade_time: i64,
    pub is_buyer_market_maker: bool,
    pub ignore: bool,
}

/// A price level as sent: price and quantity.
#[derive(Debug, Clone)]
pub struct PriceLevel(pub String, pub String);

/// Partial book depth (stream `<symbol>@depth<levels>@100ms`).
#[derive(Debug, Clone)]
pub struct OrderBookPayload {
    pub last_update_id: i64,
    pub bids: Vec<PriceLevel>,
    pub asks: Vec<PriceLevel>,
}

} // verus!
