//! Market-data plumbing for crypto exchanges: FIX message handling, WebSocket
//! reconnection policy, exchange stream naming, and local order books.
pub mod text;
pub mod fix;
pub mod time;
pub mod ws;
pub mod api;
pub mod book;
pub mod okx;
pub mod bybit;
pub mod binance;
pub mod command_error;
