//! Binance USDⓈ-M futures.
use vstd::prelude::*;

verus! {

/// Binance USDⓈ-M futures exchange.
///
/// Connects to `wss://fstream.binance.com/ws/`. Stream names differ from
/// spot (e.g. `btcusdt@markPrice` instead of `btcusdt@ticker`), and
/// messages include extra fields (funding rate, mark price).
#[derive(Debug, Clone, Copy)]
pub struct BinanceFuturesUsd;

} // verus!
