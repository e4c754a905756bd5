//! Bybit stream messages: topics, payloads, instruments and command errors.
//!
//! Every stream message carries a `topic` (`tickers.{symbol}`,
//! `publicTrade.{symbol}` or `orderbook.{depth}.{symbol}`), a `type`
//! (`snapshot` or `delta`; only order books send deltas), a time `ts` and the
//! payload in `data`.
use vstd::prelude::*;

use crate::api::types::{Side, Symbol};
use crate::book::Level;
use crate::text::{chars_of, contains, contains_seq};

pub use crate::command_error::{WsError, WsErrorPayload};

verus! {

/// Kind of an order book message: a full snapshot or a delta.
#[derive(Debug, Clone, Copy, PartialEq, Eq, Structural)]
pub enum OrderbookUpdateType {
    Snapshot,
    Delta,
}

/// Which payload a stream message carries.
#[derive(Debug, Clone, Copy, PartialEq, Eq, Structural)]
pub enum TopicKind {
    Ticker,
    /// A batch of trades.
    Trade,
    OrderBook(OrderbookUpdateType),
}

/// The payload kind of a message with topic `topic` and type `update_type`,
/// by the first of `tickers`, `publicTrade` and `orderbook` that the topic
/// contains; an order book message's type must be `snapshot` or `delta`.
/// Otherwise the error text.
pub open spec fn topic_kind(topic: Seq<char>, update_type: Seq<char>) -> Result<TopicKind, Seq<char>> {
    if contains_seq(topic, "tickers"@) {
        Ok(TopicKind::Ticker)
    } else if contains_seq(topic, "publicTrade"@) {
        Ok(TopicKind::Trade)
    } else if contains_seq(topic, "orderbook"@) {
        if update_type == "snapshot"@ {
            Ok(TopicKind::OrderBook(OrderbookUpdateType::Snapshot))
        } else if update_type == "delta"@ {
            Ok(TopicKind::OrderBook(OrderbookUpdateType::Delta))
        } else {
            Err("unknown orderbook update type: "@ + update_type)
        }
    } else {
        Err("unknown stream type: "@ + topic)
    }
}

/// The payload kind of a message, or the error text, as [`topic_kind`] says.
pub fn classify_topic(topic: &str, update_type: &str) -> (r: Result<TopicKind, String>)
    ensures
        r matches Ok(k) ==> topic_kind(topic@, update_type@) == Ok::<TopicKind, Seq<char>>(k),
        r matches Err(e) ==> topic_kind(topic@, update_type@) == Err::<TopicKind, Seq<char>>(e@),
{
    let t = chars_of(topic);
    if contains(t.as_slice(), chars_of("tickers").as_slice()) {
        Ok(TopicKind::Ticker)
    } else if contains(t.as_slice(), chars_of("publicTrade").as_slice()) {
        Ok(TopicKind::Trade)
    } else if contains(t.as_slice(), chars_of("orderbook").as_slice()) {
        let kind = update_type.to_owned();
        if kind == "snapshot".to_owned() {
            Ok(TopicKind::OrderBook(OrderbookUpdateType::Snapshot))
        } else if kind == "delta".to_owned() {
            Ok(TopicKind::OrderBook(OrderbookUpdateType::Delta))
        } else {
            let mut msg = "unknown orderbook update type: ".to_owned();
            msg.append(update_type);
            Err(msg)
        }
    } else {
        let mut msg = "unknown stream type: ".to_owned();
        msg.append(topic);
        Err(msg)
    }
}

/// Ticker (topic `tickers.{symbol}`); `data` is a single object.
#[derive(Debug, Clone)]
pub struct TickerPayload {
    /// Set from the envelope's `ts`.
    pub timestamp_ms: u64,
    pub symbol: String,
    pub last_price: String,
    pub high_price_24h: String,
    pub low_price_24h: String,
    pub prev_price_24h: String,
    pub volume_24h: String,
    pub turnover_24h: String,
    pub price_24h_pcnt: String,
    pub usd_index_price: String,
}

/// One trade of a batch (topic `publicTrade.{symbol}`).
#[derive(Debug, Clone)]
pub struct TradePayload {
    /// Set from the envelope's `ts`.
    pub timestamp_ms: u64,
    /// Fill time (milliseconds).
    pub fill_timestamp_ms: u64,
    pub symbol: String,
    /// Taker side: `Buy` or `Sell`.
    pub side: String,
    /// Trade size.
    pub size: String,
    /// Trade price.
    pub price: String,
    /// Trade id (a UUID).
    pub trade_id: String,
    /// Block trade indicator.
    pub is_block_trade: bool,
    /// Cross sequence number.
    pub seq: u64,
}

/// A trade carrying the envelope time `timestamp_ms`.
pub open spec fn stamped(t: TradePayload, timestamp_ms: u64) -> TradePayload {
    TradePayload { timestamp_ms, ..t }
}

/// The trades of one message, each given the envelope time `timestamp_ms`.
pub fn stamp_trades(trades: Vec<TradePayload>, timestamp_ms: u64) -> (v: Vec<TradePayload>)
    ensures
        v@.len() == trades@.len(),
        forall|i: int| 0 <= i < v@.len() ==> #[trigger] v@[i] == stamped(trades@[i], timestamp_ms),
{
    let ghost all = trades@;
    let mut v: Vec<TradePayload> = Vec::new();
    for t in it: trades.into_iter()
        invariant
            it.seq() == all,
            v@.len() == it.index(),
            forall|i: int| 0 <= i < v@.len() ==> #[trigger] v@[i] == stamped(all[i], timestamp_ms),
    {
        let mut t = t;
        t.timestamp_ms = timestamp_ms;
        v.push(t);
    }
    v
}

/// The taker side named by `side`, or the error text.
pub open spec fn side_named(side: Seq<char>) -> Result<Side, Seq<char>> {
    if side == "Buy"@ {
        Ok(Side::Buy)
    } else if side == "Sell"@ {
        Ok(Side::Sell)
    } else {
        Err("unknown side: "@ + side)
    }
}

/// The taker side of a trade (`Buy` or `Sell`), or the error text.
pub fn parse_side(side: &str) -> (r: Result<Side, String>)
    ensures
        r matches Ok(s) ==> side_named(side@) == Ok::<Side, Seq<char>>(s),
        r matches Err(e) ==> side_named(side@) == Err::<Side, Seq<char>>(e@),
{
    let name = side.to_owned();
    if name == "Buy".to_owned() {
        Ok(Side::Buy)
    } else if name == "Sell".to_owned() {
        Ok(Side::Sell)
    } else {
        let mut msg = "unknown side: ".to_owned();
        msg.append(side);
        Err(msg)
    }
}

/// The error text for a field that is not a valid number; `error` is the
/// parser's own message.
pub fn parse_float_error(field: &str, error: &str) -> (s: String)
    ensures
        s@ == "could not parse Bybit returned "@ + field@ + " as valid f64. Error: "@ + error@,
{
    let mut s = "could not parse Bybit returned ".to_owned();
    s.append(field);
    s.append(" as valid f64. Error: ");
    s.append(error);
    s
}

/// A price level as sent: price and quantity.
#[derive(Debug, Clone)]
pub struct PriceLevel(pub String, pub String);

/// Order book message payload (topic `orderbook.{depth}.{symbol}`); the
/// levels are (price key, quantity key).
#[derive(Debug)]
pub struct DepthUpdatePayload {
    /// Set from the envelope's `ts`.
    pub timestamp_ms: u64,
    pub symbol: String,
    pub bids: Vec<Level>,
    pub asks: Vec<Level>,
    /// Update id, increasing within a symbol.
    pub update_id: u64,
    /// Cross sequence number.
    pub seq: u64,
}

/// Instruments response (`GET /v5/market/instruments-info?category=spot`).
#[derive(Debug, Clone)]
pub struct ExchangeInfoPayload {
    pub ret_code: i32,
    pub result: ExchangeInfoResult,
    pub time: i64,
}

/// The instruments of an instruments response.
#[derive(Debug, Clone)]
pub struct ExchangeInfoResult {
    pub list: Vec<SymbolPayload>,
}

/// One instrument.
#[derive(Debug, Clone)]
pub struct SymbolPayload {
    pub symbol: String,
    pub base_coin: String,
    pub quote_coin: String,
    pub status: String,
}

/// A symbol as (symbol, base coin, quote coin).
pub open spec fn symbol_fields(s: Symbol) -> (Seq<char>, Seq<char>, Seq<char>) {
    (s.symbol@, s.base@, s.quote@)
}

/// The instruments of `list` whose status is `Trading`, in order, as
/// (symbol, base coin, quote coin).
pub open spec fn trading_instruments(list: Seq<SymbolPayload>) -> Seq<(Seq<char>, Seq<char>, Seq<char>)>
    decreases list.len(),
{
    if list.len() == 0 {
        Seq::empty()
    } else if list.last().status@ == "Trading"@ {
        trading_instruments(list.drop_last()).push((list.last().symbol@, list.last().base_coin@, list.last().quote_coin@))
    } else {
        trading_instruments(list.drop_last())
    }
}

impl SymbolPayload {
    /// The instrument as a [`Symbol`].
    pub fn into_symbol(self) -> (s: Symbol)
        ensures
            symbol_fields(s) == (self.symbol@, self.base_coin@, self.quote_coin@),
    {
        Symbol { symbol: self.symbol, base: self.base_coin, quote: self.quote_coin }
    }
}

impl ExchangeInfoPayload {
    /// The instruments that are trading, in order.
    pub fn trading_symbols(self) -> (v: Vec<Symbol>)
        ensures
            v@.map_values(|s: Symbol| symbol_fields(s)) == trading_instruments(self.result.list@),
    {
        let ghost list = self.result.list@;
        let mut v: Vec<Symbol> = Vec::new();
        for s in it: self.result.list.into_iter()
            invariant
                it.seq() == list,
                v@.map_values(|s: Symbol| symbol_fields(s)) == trading_instruments(list.take(it.index() as int)),
        {
            let ghost before = v@;
            assert(list.take(it.index() + 1).drop_last() =~= list.take(it.index() as int));
            if s.status == "Trading".to_owned() {
                v.push(s.into_symbol());
                assert(v@.map_values(|s: Symbol| symbol_fields(s))
                    =~= before.map_values(|s: Symbol| symbol_fields(s)).push(symbol_fields(v@.last())));
            }
        }
        assert(list.take(list.len() as int) =~= list);
        v
    }
}

} // verus!
