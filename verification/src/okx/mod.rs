//! Binance spot streaming with a locally synchronised order book: the book
//! buffers diff-depth events until a REST snapshot arrives, then replays them.
pub mod local_order_book;
pub mod spot;

