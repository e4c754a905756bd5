//! Binance spot and USDⓈ-M futures streaming (combined-stream endpoints).
pub mod futures;
pub mod parsers;
pub mod spot;

pub use futures::BinanceFuturesUsd;
pub use spot::BinanceSpot;
