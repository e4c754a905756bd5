use exchange_api::bybit::parsers::{stamp_trades, TradePayload};
use exchange_api::api::traits::SubscriptionMethod;
use exchange_api::api::types::{StreamKind, UpdateRate};
use exchange_api::api::ExchangeName;
use exchange_api::binance::parsers::{classify_stream, StreamEventKind};
use exchange_api::binance::BinanceSpot as PlainBinanceSpot;
use exchange_api::bybit::parsers::{
    classify_topic, parse_float_error, parse_side, ExchangeInfoPayload, ExchangeInfoResult, OrderbookUpdateType, SymbolPayload, TopicKind,
};
use exchange_api::bybit::{BybitSpot, SubscriptionRequest};
use exchange_api::okx::spot::BinanceSpot;
use exchange_api::api::types::Side;

#[test]
fn binance_stream_names_and_url() {
    let spot = PlainBinanceSpot;
    assert_eq!(spot.name(), "binance");
    let streams = [StreamKind::Trade, StreamKind::OrderBook { depth: 3 }, StreamKind::OrderBook { depth: 8 }, StreamKind::OrderBook { depth: 50 }, StreamKind::Ticker];
    let subs = spot.subscriptions(&["btcusdt", "ethusdt"], &streams);
    assert_eq!(
        subs,
        vec![
            "btcusdt@trade", "ethusdt@trade", "btcusdt@depth5@100ms", "ethusdt@depth5@100ms", "btcusdt@depth10@100ms",
            "ethusdt@depth10@100ms", "btcusdt@depth20@100ms", "ethusdt@depth20@100ms", "btcusdt@ticker", "ethusdt@ticker",
        ]
    );
    assert_eq!(
        spot.ws_url(&["btcusdt"], &[StreamKind::Trade, StreamKind::Ticker]),
        "wss://stream.binance.com:9443/stream?streams=btcusdt@trade/btcusdt@ticker"
    );
    assert_eq!(spot.ws_url(&[], &[StreamKind::Trade]), "wss://stream.binance.com:9443");
}

#[test]
fn binance_combined_stream_kinds() {
    assert_eq!(classify_stream("btcusdt@ticker"), Ok(StreamEventKind::Ticker));
    assert_eq!(classify_stream("btcusdt@trade"), Ok(StreamEventKind::Trade));
    assert_eq!(classify_stream("btcusdt@depth20@100ms"), Ok(StreamEventKind::OrderBook));
    assert_eq!(classify_stream("btcusdt@kline_1m"), Err("unknown stream type: btcusdt@kline_1m".to_string()));
}

#[test]
fn binance_spot_endpoint_uses_best_depth_speed() {
    let spot = BinanceSpot::new();
    assert_eq!(spot.name(), ExchangeName::Binance);
    let symbols = vec!["btcusdt".to_string(), "ethusdt".to_string()];
    let streams = [StreamKind::OrderBook { depth: 20 }, StreamKind::Trade];
    let eps = spot.ws_endpoints(&symbols, &streams, None);
    assert_eq!(eps.len(), 1);
    assert_eq!(
        eps[0].url,
        "wss://stream.binance.com:9443/stream?streams=btcusdt@depth@100ms/ethusdt@depth@100ms/btcusdt@trade/ethusdt@trade"
    );
    assert!(matches!(eps[0].subscription, SubscriptionMethod::UrlEncoded));
    assert_eq!(
        BinanceSpot::build_url_suffix(&symbols[..1], &streams[..1], Some(UpdateRate::from_millis(900))),
        "/stream?streams=btcusdt@depth@1000ms"
    );
    assert_eq!(
        BinanceSpot::build_url_suffix(&symbols[..1], &streams[..1], Some(UpdateRate::from_millis(550))),
        "/stream?streams=btcusdt@depth@100ms"
    );
    assert_eq!(BinanceSpot::build_url_suffix(&[], &streams, None), "");
}

#[test]
fn bybit_topics_snap_depth_and_uppercase() {
    let symbols = vec!["btcusdt".to_string(), "EthUsdt".to_string()];
    let streams = [
        StreamKind::OrderBook { depth: 0 },
        StreamKind::OrderBook { depth: 26 },
        StreamKind::OrderBook { depth: 125 },
        StreamKind::OrderBook { depth: 601 },
        StreamKind::Trade,
        StreamKind::Ticker,
    ];
    let topics = BybitSpot::build_subscriptions(&symbols[..1], &streams);
    assert_eq!(
        topics,
        vec!["orderbook.1.BTCUSDT", "orderbook.50.BTCUSDT", "orderbook.50.BTCUSDT", "orderbook.1000.BTCUSDT", "publicTrade.BTCUSDT", "tickers.BTCUSDT"]
    );
    let topics = BybitSpot::build_subscriptions(&symbols, &[StreamKind::OrderBook { depth: 600 }]);
    assert_eq!(topics, vec!["orderbook.200.BTCUSDT", "orderbook.200.ETHUSDT"]);
    assert!(BybitSpot::build_subscriptions(&[], &streams).is_empty());
    let spot = BybitSpot::new();
    assert_eq!(spot.name(), ExchangeName::Bybit);
    assert_eq!(spot.ping_interval().map(|d| d.as_millis()), Some(20_000));
    let eps = spot.ws_endpoints(&symbols[..1], &[StreamKind::Ticker]);
    assert_eq!(eps[0].url, "wss://stream.bybit.com/v5/public/spot");
    match &eps[0].subscription {
        SubscriptionMethod::JsonArgs(args) => assert_eq!(args, &vec!["tickers.BTCUSDT".to_string()]),
        _ => panic!("expected JSON args"),
    }
}

#[test]
fn bybit_subscription_request() {
    let r = SubscriptionRequest::new(vec!["tickers.BTCUSDT".to_string()]);
    assert_eq!(r.op(), "subscribe");
    assert_eq!(r.args(), &vec!["tickers.BTCUSDT".to_string()]);
}

#[test]
fn bybit_topic_kinds() {
    assert_eq!(classify_topic("tickers.BTCUSDT", "snapshot"), Ok(TopicKind::Ticker));
    assert_eq!(classify_topic("publicTrade.BTCUSDT", "snapshot"), Ok(TopicKind::Trade));
    assert_eq!(classify_topic("orderbook.50.BTCUSDT", "snapshot"), Ok(TopicKind::OrderBook(OrderbookUpdateType::Snapshot)));
    assert_eq!(classify_topic("orderbook.50.BTCUSDT", "delta"), Ok(TopicKind::OrderBook(OrderbookUpdateType::Delta)));
    assert_eq!(classify_topic("orderbook.50.BTCUSDT", "full"), Err("unknown orderbook update type: full".to_string()));
    assert_eq!(classify_topic("kline.1.BTCUSDT", "snapshot"), Err("unknown stream type: kline.1.BTCUSDT".to_string()));
}

#[test]
fn bybit_trade_sides_and_float_errors() {
    assert_eq!(parse_side("Buy"), Ok(Side::Buy));
    assert_eq!(parse_side("Sell"), Ok(Side::Sell));
    assert_eq!(parse_side("buy"), Err("unknown side: buy".to_string()));
    assert_eq!(
        parse_float_error("price", "invalid float literal"),
        "could not parse Bybit returned price as valid f64. Error: invalid float literal"
    );
}

fn instrument(symbol: &str, base: &str, quote: &str, status: &str) -> SymbolPayload {
    SymbolPayload { symbol: symbol.into(), base_coin: base.into(), quote_coin: quote.into(), status: status.into() }
}

#[test]
fn bybit_instruments_keep_only_trading() {
    let p = ExchangeInfoPayload {
        ret_code: 0,
        result: ExchangeInfoResult {
            list: vec![
                instrument("BTCUSDT", "BTC", "USDT", "Trading"),
                instrument("ETHUSDT", "ETH", "USDT", "Closed"),
                instrument("SOLUSDT", "SOL", "USDT", "Trading"),
            ],
        },
        time: 1672712468011,
    };
    let symbols = p.trading_symbols();
    assert_eq!(symbols.len(), 2);
    assert_eq!(symbols[0].symbol, "BTCUSDT");
    assert_eq!(symbols[0].base, "BTC");
    assert_eq!(symbols[0].quote, "USDT");
    assert_eq!(symbols[1].symbol, "SOLUSDT");
}

#[test]
fn bybit_trades_take_the_envelope_time() {
    let t = |id: &str| TradePayload {
        timestamp_ms: 0,
        fill_timestamp_ms: 5,
        symbol: "BTCUSDT".into(),
        side: "Buy".into(),
        size: "1".into(),
        price: "2".into(),
        trade_id: id.into(),
        is_block_trade: false,
        seq: 9,
    };
    let v = stamp_trades(vec![t("a"), t("b")], 1672304486865);
    assert_eq!(v.len(), 2);
    assert!(v.iter().all(|x| x.timestamp_ms == 1672304486865 && x.fill_timestamp_ms == 5));
    assert_eq!(v[1].trade_id, "b");
}
