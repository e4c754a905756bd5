//! Where the Redis output writes an event: keys and channel per exchange,
//! symbol and kind of event.
use vstd::prelude::*;

verus! {

/// The kind of an event, as storage keys name it.
#[derive(Clone, Copy, Debug, PartialEq, Eq, Structural)]
pub enum DataKind {
    Trade,
    OrderBook,
    Ticker,
}

/// The name of a kind of event: `trade`, `orderbook` or `ticker`.
pub open spec fn kind_name(k: DataKind) -> Seq<char> {
    match k {
        DataKind::Trade => "trade"@,
        DataKind::OrderBook => "orderbook"@,
        DataKind::Ticker => "ticker"@,
    }
}

impl DataKind {
    /// The name of the kind.
    pub fn name(&self) -> (s: &'static str)
        ensures
            s@ == kind_name(*self),
    {
        match self {
            DataKind::Trade => "trade",
            DataKind::OrderBook => "orderbook",
            DataKind::Ticker => "ticker",
        }
    }
}

/// The common prefix of a symbol's keys: `exchange:<exchange>:symbol:<symbol>`.
pub open spec fn symbol_prefix(exchange: Seq<char>, symbol: Seq<char>) -> Seq<char> {
    "exchange:"@ + exchange + ":symbol:"@ + symbol
}

/// Where one event is written.
#[derive(Debug, Clone)]
pub struct RedisWrites {
    /// Key set to the latest event of its kind for the symbol.
    pub latest_key: String,
    /// Stream the event is appended to; trades only.
    pub stream_key: Option<String>,
    /// Channel the event is published on.
    pub channel: String,
}

/// The writes of an event of kind `kind` for `symbol` on `exchange`: the
/// latest-value key `…:latest:<kind>`, for a trade also the stream
/// `…:trade:stream`, and the channel `…:updates`.
pub fn redis_writes(exchange: &str, symbol: &str, kind: DataKind) -> (w: RedisWrites)
    ensures
        w.latest_key@ == symbol_prefix(exchange@, symbol@) + ":latest:"@ + kind_name(kind),
        w.stream_key is Some <==> kind == DataKind::Trade,
        w.stream_key matches Some(k) ==> k@ == symbol_prefix(exchange@, symbol@) + ":trade:stream"@,
        w.channel@ == symbol_prefix(exchange@, symbol@) + ":updates"@,
{
    let mut prefix = "exchange:".to_owned();
    prefix.append(exchange);
    prefix.append(":symbol:");
    prefix.append(symbol);
    let mut latest_key = prefix.clone();
    latest_key.append(":latest:");
    latest_key.append(kind.name());
    let stream_key = match kind {
        DataKind::Trade => {
            let mut k = prefix.clone();
            k.append(":trade:stream");
            Some(k)
        },
        _ => None,
    };
    let mut channel = prefix;
    channel.append(":updates");
    RedisWrites { latest_key, stream_key, channel }
}

} // verus!
