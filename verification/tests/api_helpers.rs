use exchange_api::api::storage::{redis_writes, DataKind};
use exchange_api::api::builder::validate_pipeline;
use exchange_api::api::http::{build_url, to_raw_request, urlencode, HttpClient, HttpMethod, HttpRequest, HttpResponse};
use exchange_api::api::runtime::{StreamBucket, Throttle};
use exchange_api::api::types::{StreamKind, UpdateRate};
use exchange_api::api::ExchangeName;
use exchange_api::time::Duration;

#[test]
fn urlencode_escapes_reserved_characters() {
    assert_eq!(urlencode("BTCUSDT"), "BTCUSDT");
    assert_eq!(urlencode("a b&c=d"), "a%20b%26c%3Dd");
    assert_eq!(urlencode("100%"), "100%25");
    assert_eq!(urlencode("x/y?z"), "x%2Fy%3Fz");
}

#[test]
fn build_url_appends_query() {
    assert_eq!(build_url("https://h/p", &[]), "https://h/p");
    let q = vec![("symbol".to_string(), "BTCUSDT".to_string()), ("limit".to_string(), "5000".to_string())];
    assert_eq!(build_url("https://api.binance.com/api/v3/depth", &q), "https://api.binance.com/api/v3/depth?symbol=BTCUSDT&limit=5000");
    assert_eq!(build_url("https://h/p?a=1", &q[..1]), "https://h/p?a=1&symbol=BTCUSDT");
}

#[test]
fn request_builders_and_raw_request() {
    let req = HttpRequest::get("https://h/p").with_query("k", "a b").with_header("H", "v");
    assert_eq!(req.url, "https://h/p");
    let raw = to_raw_request(req, vec![1, 2]);
    assert_eq!(raw.url, "https://h/p?k=a%20b");
    assert_eq!(raw.headers, vec![("H".to_string(), "v".to_string())]);
    assert_eq!(raw.body, vec![1, 2]);
    assert_eq!(HttpMethod::Post.to_string(), "POST");
    assert_eq!(HttpRequest::post("u").method.to_string(), "POST");
}

#[test]
fn response_text_and_status() {
    let ok = HttpResponse { status: 204, body: b"done".to_vec(), headers: vec![] };
    assert!(ok.is_success());
    assert_eq!(ok.text().unwrap(), "done");
    let bad = HttpResponse { status: 302, body: vec![0xc3], headers: vec![] };
    assert!(!bad.is_success());
    assert!(bad.text().is_err());
    let client = HttpClient::new(7u8);
    assert_eq!(*client.backend(), 7);
}

#[test]
fn best_match_picks_first_closest_rate() {
    let supported = [Duration::from_millis(100), Duration::from_millis(1000)];
    assert_eq!(UpdateRate::from_millis(300).best_match(&supported).unwrap().as_millis(), 100);
    assert_eq!(UpdateRate::from_millis(550).best_match(&supported).unwrap().as_millis(), 100);
    assert_eq!(UpdateRate::from_millis(551).best_match(&supported).unwrap().as_millis(), 1000);
    assert!(UpdateRate::from_millis(5).best_match(&[]).is_none());
}

#[test]
fn orderbook_stream_kind() {
    assert!(matches!(StreamKind::orderbook(50), StreamKind::OrderBook { depth: 50 }));
}

#[test]
fn exchange_display_names() {
    assert_eq!(ExchangeName::Binance.to_string(), "Binance");
    assert_eq!(ExchangeName::Bybit.to_string(), "Bybit");
}

#[test]
fn pipeline_needs_exchange_stream_and_symbol() {
    assert_eq!(validate_pipeline(0, 1, 1), Err("at least one exchange must be registered".to_string()));
    assert_eq!(validate_pipeline(1, 0, 0), Err("at least one stream must be registered".to_string()));
    assert_eq!(validate_pipeline(1, 1, 0), Err("symbol must be set".to_string()));
    assert_eq!(validate_pipeline(2, 3, 1), Ok(()));
}

#[test]
fn throttle_spaces_events_per_bucket() {
    let mut t = Throttle::new(Some(UpdateRate::from_millis(100)));
    assert!(t.should_emit(StreamBucket::Trade, 1000));
    assert!(!t.should_emit(StreamBucket::Trade, 1099));
    assert!(t.should_emit(StreamBucket::OrderBook, 1099));
    assert!(t.should_emit(StreamBucket::Trade, 1100));
    let mut open = Throttle::new(None);
    assert!(open.should_emit(StreamBucket::Ticker, 5));
    assert!(open.should_emit(StreamBucket::Ticker, 5));
}

#[test]
fn redis_keys_per_event_kind() {
    let w = redis_writes("bybit", "BTCUSDT", DataKind::Trade);
    assert_eq!(w.latest_key, "exchange:bybit:symbol:BTCUSDT:latest:trade");
    assert_eq!(w.stream_key.as_deref(), Some("exchange:bybit:symbol:BTCUSDT:trade:stream"));
    assert_eq!(w.channel, "exchange:bybit:symbol:BTCUSDT:updates");
    let w = redis_writes("binance", "ethusdt", DataKind::OrderBook);
    assert_eq!(w.latest_key, "exchange:binance:symbol:ethusdt:latest:orderbook");
    assert!(w.stream_key.is_none());
    let w = redis_writes("binance", "ethusdt", DataKind::Ticker);
    assert_eq!(w.latest_key, "exchange:binance:symbol:ethusdt:latest:ticker");
    assert_eq!(w.channel, "exchange:binance:symbol:ethusdt:updates");
}

#[test]
fn throttle_keeps_spacing_over_a_stream_with_drops() {
    let mut t = Throttle::new(Some(UpdateRate::from_millis(100)));
    let arrivals = [(0u64, true), (40, false), (99, false), (100, true), (150, false), (199, false), (230, true), (329, false), (330, true)];
    for (now, expected) in arrivals {
        assert_eq!(t.should_emit(StreamBucket::Ticker, now), expected, "at {now}");
    }
}
