use exchange_api::time::Duration;
use exchange_api::ws::{ConnectionLoss, Reconnect, ReconnectConfig, Recovery, WsConfig, WsMessage};

#[test]
fn backoff_increases() {
    let config = ReconnectConfig {
        max_retries: 5,
        initial_delay: Duration::from_millis(100),
        max_delay: Duration::from_secs(10),
        jitter: false,
    };

    let mut r = Reconnect::new(config);
    let d1 = r.next_delay().unwrap();
    let d2 = r.next_delay().unwrap();
    let d3 = r.next_delay().unwrap();

    assert!(d2 > d1);
    assert!(d3 > d2);
}

#[test]
fn exhausts_retries() {
    let config = ReconnectConfig {
        max_retries: 3,
        initial_delay: Duration::from_millis(10),
        max_delay: Duration::from_secs(1),
        jitter: false,
    };

    let mut r = Reconnect::new(config);
    assert!(r.next_delay().is_some());
    assert!(r.next_delay().is_some());
    assert!(r.next_delay().is_some());
    assert!(r.next_delay().is_none());
}

#[test]
fn backoff_doubles_then_caps() {
    let config = ReconnectConfig {
        max_retries: 10,
        initial_delay: Duration::from_millis(100),
        max_delay: Duration::from_millis(500),
        jitter: false,
    };
    assert_eq!(config.backoff_delay(0).as_millis(), 100);
    assert_eq!(config.backoff_delay(1).as_millis(), 200);
    assert_eq!(config.backoff_delay(2).as_millis(), 400);
    assert_eq!(config.backoff_delay(3).as_millis(), 500);
    assert_eq!(config.delay(9).as_millis(), 500);
}

#[test]
fn jitter_adds_at_most_a_quarter() {
    let config = ReconnectConfig {
        max_retries: 10,
        initial_delay: Duration::from_millis(400),
        max_delay: Duration::from_secs(30),
        jitter: true,
    };
    for retry in 0..5 {
        let base = config.backoff_delay(retry).as_millis();
        let d = config.delay(retry).as_millis();
        assert!(base <= d && d <= base + base / 4, "retry {retry}: {d} not in [{base}, {}]", base + base / 4);
    }
    assert_eq!(config.delay_with_jitter(1, 50).as_millis(), 850);
}

#[test]
fn huge_backoff_is_capped_not_overflowing() {
    let config = ReconnectConfig {
        max_retries: 100,
        initial_delay: Duration::from_millis(u64::MAX / 2),
        max_delay: Duration::from_millis(60_000),
        jitter: false,
    };
    assert_eq!(config.backoff_delay(0).as_millis(), 60_000);
    assert_eq!(config.delay(2).as_millis(), 60_000);
    assert_eq!(config.delay(80).as_millis(), 60_000);
    let unbounded = ReconnectConfig {
        max_retries: 100,
        initial_delay: Duration::from_millis(3),
        max_delay: Duration::from_millis(u64::MAX),
        jitter: false,
    };
    assert_eq!(unbounded.delay(2).as_millis(), 12);
    assert_eq!(unbounded.delay(70).as_millis(), u128::from(u64::MAX));
    let jittered = ReconnectConfig { jitter: true, ..unbounded };
    assert_eq!(jittered.delay_with_jitter(70, 5).as_millis(), u128::from(u64::MAX) + 5);
    let widest = ReconnectConfig {
        max_retries: 200,
        initial_delay: Duration::from_secs(u64::MAX),
        max_delay: Duration::from_secs(u64::MAX),
        jitter: false,
    };
    assert_eq!(widest.delay(0).as_millis(), u128::from(u64::MAX) * 1000);
    assert_eq!(widest.delay(150).as_millis(), u128::from(u64::MAX) * 1000);
}

#[test]
fn durations_from_any_seconds() {
    assert_eq!(Duration::from_secs(0).as_millis(), 0);
    assert_eq!(Duration::from_secs(7).as_millis(), 7_000);
    assert_eq!(Duration::from_secs(u64::MAX).as_millis(), u128::from(u64::MAX) * 1000);
    assert_eq!(Duration::from_millis(u64::MAX).as_millis(), u128::from(u64::MAX));
}

#[test]
fn reset_restarts_the_schedule() {
    let config = ReconnectConfig {
        max_retries: 2,
        initial_delay: Duration::from_millis(u64::MAX),
        max_delay: Duration::from_millis(1_000),
        jitter: false,
    };
    let mut r = Reconnect::new(config);
    assert_eq!(r.next_delay().map(|d| d.as_millis()), Some(1_000));
    assert_eq!(r.next_delay().map(|d| d.as_millis()), Some(1_000));
    assert!(r.next_delay().is_none());
    assert!(r.is_exhausted());
    r.reset();
    assert_eq!(r.attempt(), 0);
    assert!(!r.is_exhausted());
    assert_eq!(r.next_delay().map(|d| d.as_millis()), Some(1_000));
}

#[test]
fn reset_and_attempt_counter() {
    let mut r = Reconnect::new(ReconnectConfig::default());
    assert_eq!(r.attempt(), 0);
    assert!(!r.is_exhausted());
    r.next_delay();
    r.next_delay();
    assert_eq!(r.attempt(), 2);
    r.reset();
    assert_eq!(r.attempt(), 0);
}

#[test]
fn zero_retries_means_no_reconnect() {
    let config = ReconnectConfig { max_retries: 0, ..ReconnectConfig::default() };
    let mut r = Reconnect::new(config);
    assert!(r.is_exhausted());
    assert!(r.next_delay().is_none());
}

#[test]
fn default_reconnect_policy() {
    let c = ReconnectConfig::default();
    assert_eq!(c.max_retries, 5);
    assert_eq!(c.initial_delay.as_millis(), 500);
    assert_eq!(c.max_delay.as_millis(), 30_000);
    assert!(c.jitter);
}

#[test]
fn ws_config_builders() {
    let c = WsConfig::new("wss://example.com/ws")
        .with_header("X-Key", "v")
        .with_ping_interval(Duration::from_secs(20));
    assert_eq!(c.url, "wss://example.com/ws");
    assert_eq!(c.headers, vec![("X-Key".to_string(), "v".to_string())]);
    assert_eq!(c.ping_interval.map(|d| d.as_millis()), Some(20_000));
    let c = c.with_reconnect(ReconnectConfig { max_retries: 1, ..ReconnectConfig::default() });
    assert_eq!(c.reconnect.max_retries, 1);
}

#[test]
fn message_text_payloads() {
    assert_eq!(WsMessage::Text("hi".into()).into_text().unwrap().unwrap(), "hi");
    assert_eq!(WsMessage::Binary(b"{\"a\":1}".to_vec()).into_text().unwrap().unwrap(), "{\"a\":1}");
    assert!(WsMessage::Binary(vec![0xff, 0xfe]).into_text().unwrap().is_err());
    assert!(WsMessage::Ping(vec![1]).into_text().is_none());
    assert!(WsMessage::Pong(vec![]).into_text().is_none());
}

#[test]
fn lost_connection_recovery() {
    let none = ReconnectConfig { max_retries: 0, ..ReconnectConfig::default() };
    assert_eq!(none.on_connection_lost(ConnectionLoss::Closed), Recovery::EndOfStream);
    assert_eq!(none.on_connection_lost(ConnectionLoss::Failed), Recovery::Fail);
    let some = ReconnectConfig::default();
    assert_eq!(some.on_connection_lost(ConnectionLoss::Closed), Recovery::Reconnect);
    assert_eq!(some.on_connection_lost(ConnectionLoss::Failed), Recovery::Reconnect);
}

#[test]
fn exhausted_reconnects_end_stream() {
    let none = ReconnectConfig { max_retries: 0, ..ReconnectConfig::default() };
    assert_eq!(none.on_connection_lost(ConnectionLoss::ReconnectsExhausted), Recovery::EndOfStream);
    let some = ReconnectConfig::default();
    assert_eq!(some.on_connection_lost(ConnectionLoss::ReconnectsExhausted), Recovery::EndOfStream);
}
