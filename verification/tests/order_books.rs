use exchange_api::book::{BookSide, Level, QTY_ZERO};
use exchange_api::bybit::local_order_book::LocalOrderBook as BybitBook;
use exchange_api::bybit::parsers::{DepthUpdatePayload, OrderbookUpdateType};
use exchange_api::okx::local_order_book::{DepthSnapshot, DepthUpdate, LocalOrderBook, SnapshotPoll, SyncStep, DesyncError};
use exchange_api::okx::spot::BinanceSpot;

const Q1: u64 = QTY_ZERO + 1;
const Q2: u64 = QTY_ZERO + 2;
const Q3: u64 = QTY_ZERO + 3;

#[test]
fn book_side_sets_and_removes_levels() {
    let mut side = BookSide::new();
    side.apply(30, Q1);
    side.apply(10, Q2);
    side.apply(20, Q3);
    assert_eq!(side.len(), 3);
    assert_eq!(side.ascending(), vec![(10, Q2), (20, Q3), (30, Q1)]);
    assert_eq!(side.descending(), vec![(30, Q1), (20, Q3), (10, Q2)]);
    side.apply(20, Q1);
    assert_eq!(side.ascending(), vec![(10, Q2), (20, Q1), (30, Q1)]);
    side.apply(20, QTY_ZERO);
    side.apply(99, QTY_ZERO);
    assert_eq!(side.ascending(), vec![(10, Q2), (30, Q1)]);
    side.clear();
    assert_eq!(side.len(), 0);
}

#[test]
fn last_update_of_a_price_wins() {
    let mut side = BookSide::new();
    side.apply_all(&[(5, Q1), (5, Q2), (6, Q1), (6, QTY_ZERO), (7, QTY_ZERO), (7, Q3)]);
    assert_eq!(side.ascending(), vec![(5, Q2), (7, Q3)]);
}

#[test]
fn load_skips_levels_without_quantity() {
    let mut side = BookSide::new();
    side.apply(1, Q1);
    side.load(&[(10, Q1), (11, QTY_ZERO), (12, QTY_ZERO - 5), (13, Q2)]);
    assert_eq!(side.ascending(), vec![(10, Q1), (13, Q2)]);
}

fn update(first: i64, last: i64, bids: Vec<Level>, asks: Vec<Level>) -> DepthUpdate {
    DepthUpdate { first_update_id: first, final_update_id: last, event_time: last * 10, bids, asks }
}

fn snapshot(id: i64, bids: Vec<Level>, asks: Vec<Level>) -> SnapshotPoll {
    SnapshotPoll::Ready(DepthSnapshot { last_update_id: id, bids, asks })
}

#[test]
fn binance_book_buffers_then_goes_live() {
    let mut ob = LocalOrderBook::new("btcusdt".to_string());
    // First event: a fetch is asked for.
    let r = ob.handle_update(update(100, 105, vec![(50, Q1)], vec![]), SnapshotPoll::Pending);
    assert_eq!(r, Ok(SyncStep::Waiting { fetch_snapshot: true }));
    // Fetch still running.
    let r = ob.handle_update(update(106, 110, vec![(51, Q2)], vec![]), SnapshotPoll::Pending);
    assert_eq!(r, Ok(SyncStep::Waiting { fetch_snapshot: false }));
    // Snapshot at 107: the first event is covered and dropped, the second replayed.
    let r = ob.handle_update(
        update(111, 112, vec![], vec![(60, Q1)]),
        snapshot(107, vec![(49, Q3), (50, QTY_ZERO)], vec![(61, Q1)]),
    );
    assert_eq!(r, Ok(SyncStep::Updated));
    assert_eq!(ob.last_update_id, 112);
    assert_eq!(ob.last_event_time, 1120);
    let levels = ob.snapshot();
    assert_eq!(levels.bids, vec![(51, Q2), (49, Q3)]);
    assert_eq!(levels.asks, vec![(60, Q1), (61, Q1)]);
    // Live: a stale event is ignored, a continuing one applied, a gap refused.
    assert_eq!(ob.handle_update(update(90, 100, vec![(1, Q1)], vec![]), SnapshotPoll::Pending), Ok(SyncStep::Updated));
    assert_eq!(ob.last_update_id, 112);
    assert_eq!(ob.handle_update(update(113, 115, vec![(51, QTY_ZERO)], vec![]), SnapshotPoll::Pending), Ok(SyncStep::Updated));
    assert_eq!(ob.snapshot().bids, vec![(49, Q3)]);
    assert_eq!(ob.handle_update(update(117, 118, vec![], vec![]), SnapshotPoll::Pending), Err(DesyncError::MissedEvents));
    assert_eq!(ob.last_update_id, 115);
}

#[test]
fn binance_book_refetches_old_or_failed_snapshots() {
    let mut ob = LocalOrderBook::new("ethusdt".to_string());
    ob.handle_update(update(100, 105, vec![], vec![]), SnapshotPoll::Pending).unwrap();
    let r = ob.handle_update(update(106, 107, vec![], vec![]), SnapshotPoll::Failed);
    assert_eq!(r, Ok(SyncStep::Waiting { fetch_snapshot: true }));
    let r = ob.handle_update(update(108, 109, vec![], vec![]), snapshot(99, vec![], vec![]));
    assert_eq!(r, Ok(SyncStep::Waiting { fetch_snapshot: true }));
}

#[test]
fn binance_book_reports_gap_after_snapshot() {
    let mut ob = LocalOrderBook::new("ethusdt".to_string());
    ob.handle_update(update(100, 105, vec![], vec![]), SnapshotPoll::Pending).unwrap();
    let r = ob.handle_update(update(106, 107, vec![], vec![]), snapshot(100, vec![(1, Q1)], vec![]));
    assert_eq!(r, Ok(SyncStep::Updated));
    let mut ob = LocalOrderBook::new("ethusdt".to_string());
    ob.handle_update(update(100, 105, vec![], vec![]), SnapshotPoll::Pending).unwrap();
    let r = ob.handle_update(update(110, 112, vec![], vec![]), snapshot(105, vec![(1, Q1)], vec![]));
    assert_eq!(r, Err(DesyncError::SnapshotGap));
    assert!(ob.snapshot().bids.is_empty());
    assert_eq!(DesyncError::SnapshotGap.message(), "order book desync: gap between snapshot and buffered stream");
    assert_eq!(DesyncError::MissedEvents.message(), "order book desync: missed events");
}

#[test]
fn binance_spot_resets_a_desynced_book_and_asks_a_new_snapshot() {
    let mut spot = BinanceSpot::new();
    let sym = "btcusdt".to_string();
    let o = spot.handle_depth_update(&sym, update(10, 12, vec![], vec![]), SnapshotPoll::Pending);
    assert!(o.fetch_snapshot && o.levels.is_none());
    let o = spot.handle_depth_update(&sym, update(13, 14, vec![(7, Q1)], vec![]), snapshot(12, vec![], vec![(8, Q2)]));
    assert!(!o.fetch_snapshot);
    let levels = o.levels.unwrap();
    assert_eq!(levels.bids, vec![(7, Q1)]);
    assert_eq!(levels.asks, vec![(8, Q2)]);
    // A gap: the book is reset, buffers this event and asks for a snapshot.
    let o = spot.handle_depth_update(&sym, update(20, 21, vec![], vec![]), SnapshotPoll::Pending);
    assert!(o.fetch_snapshot && o.levels.is_none());
    // Another symbol gets its own book.
    let o = spot.handle_depth_update(&"ethusdt".to_string(), update(1, 2, vec![], vec![]), SnapshotPoll::Pending);
    assert!(o.fetch_snapshot);
    // The reset book replays the buffered event once its snapshot is in.
    let o = spot.handle_depth_update(&sym, update(22, 23, vec![(9, Q3)], vec![]), snapshot(20, vec![], vec![]));
    assert_eq!(o.levels.unwrap().bids, vec![(9, Q3)]);
}

fn bybit_update(symbol: &str, id: u64, bids: Vec<Level>, asks: Vec<Level>) -> DepthUpdatePayload {
    DepthUpdatePayload { timestamp_ms: id * 1000, symbol: symbol.to_string(), bids, asks, update_id: id, seq: id + 7 }
}

#[test]
fn bybit_snapshot_replaces_and_delta_updates() {
    let mut ob = BybitBook::new("BTCUSDT".to_string());
    let l = ob.handle_update(OrderbookUpdateType::Delta, &bybit_update("BTCUSDT", 1, vec![(100, Q1)], vec![(200, Q1)]));
    assert_eq!(l.bids, vec![(100, Q1)]);
    let l = ob.handle_update(OrderbookUpdateType::Snapshot, &bybit_update("BTCUSDT", 2, vec![(101, Q2), (102, Q3)], vec![]));
    assert_eq!(l.bids, vec![(102, Q3), (101, Q2)]);
    assert!(l.asks.is_empty());
    assert_eq!(ob.last_update_id, 2);
    assert_eq!(ob.last_event_time, 2000);
    let l = ob.handle_update(OrderbookUpdateType::Delta, &bybit_update("BTCUSDT", 3, vec![(102, QTY_ZERO)], vec![(300, Q1)]));
    assert_eq!(l.bids, vec![(101, Q2)]);
    assert_eq!(l.asks, vec![(300, Q1)]);
    ob.reset();
    assert_eq!(ob.last_update_id, 0);
    assert!(ob.snapshot().bids.is_empty());
}

#[test]
fn bybit_spot_keeps_one_book_per_symbol() {
    let mut spot = exchange_api::bybit::BybitSpot::new();
    let l = spot.handle_depth_update(OrderbookUpdateType::Snapshot, &bybit_update("BTCUSDT", 1, vec![(1, Q1)], vec![]));
    assert_eq!(l.bids, vec![(1, Q1)]);
    let l = spot.handle_depth_update(OrderbookUpdateType::Snapshot, &bybit_update("ETHUSDT", 1, vec![(5, Q1)], vec![]));
    assert_eq!(l.bids, vec![(5, Q1)]);
    let l = spot.handle_depth_update(OrderbookUpdateType::Delta, &bybit_update("BTCUSDT", 2, vec![(2, Q2)], vec![]));
    assert_eq!(l.bids, vec![(2, Q2), (1, Q1)]);
    spot.reset_book(&"BTCUSDT".to_string());
    let l = spot.handle_depth_update(OrderbookUpdateType::Delta, &bybit_update("BTCUSDT", 3, vec![(3, Q3)], vec![]));
    assert_eq!(l.bids, vec![(3, Q3)]);
}
