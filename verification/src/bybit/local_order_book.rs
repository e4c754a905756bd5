//! A Bybit order book: a snapshot message replaces the book, a delta message
//! updates it.
use vstd::prelude::*;

use crate::book::{apply_levels, book_levels, lists_ascending, lists_descending, BookLevels, BookSide};
use crate::bybit::parsers::{DepthUpdatePayload, OrderbookUpdateType};

verus! {

/// A local order book for one symbol.
#[derive(Debug)]
pub struct LocalOrderBook {
    pub symbol: String,
    pub last_update_id: u64,
    pub last_event_time: u64,
    pub bids: BookSide,
    pub asks: BookSide,
}

impl LocalOrderBook {
    /// An empty book.
    pub fn new(symbol: String) -> (ob: Self)
        ensures
            ob.symbol == symbol,
            ob.last_update_id == 0,
            ob.last_event_time == 0,
            ob.bids@ == Map::<u64, u64>::empty(),
            ob.asks@ == Map::<u64, u64>::empty(),
    {
        LocalOrderBook { symbol, last_update_id: 0, last_event_time: 0, bids: BookSide::new(), asks: BookSide::new() }
    }

    /// Empties the book.
    pub fn reset(&mut self)
        ensures
            final(self).symbol == old(self).symbol,
            final(self).last_update_id == 0,
            final(self).last_event_time == 0,
            final(self).bids@ == Map::<u64, u64>::empty(),
            final(self).asks@ == Map::<u64, u64>::empty(),
    {
        self.last_update_id = 0;
        self.last_event_time = 0;
        self.bids.clear();
        self.asks.clear();
    }

    /// Applies an order book message: a snapshot first empties the book; the
    /// levels of either kind are then applied in order, and the book takes
    /// the message's update id and time. Returns the book's levels.
    pub fn handle_update(&mut self, update_type: OrderbookUpdateType, update: &DepthUpdatePayload) -> (l: BookLevels)
        ensures
            final(self).symbol == old(self).symbol,
            final(self).last_update_id == update.update_id,
            final(self).last_event_time == update.timestamp_ms,
            final(self).bids@ == apply_levels(
                if update_type == OrderbookUpdateType::Snapshot { Map::empty() } else { old(self).bids@ },
                update.bids@,
            ),
            final(self).asks@ == apply_levels(
                if update_type == OrderbookUpdateType::Snapshot { Map::empty() } else { old(self).asks@ },
                update.asks@,
            ),
            lists_descending(l.bids@, final(self).bids@),
            lists_ascending(l.asks@, final(self).asks@),
    {
        if update_type == OrderbookUpdateType::Snapshot {
            self.reset();
        }
        self.bids.apply_all(&update.bids);
        self.asks.apply_all(&update.asks);
        self.last_update_id = update.update_id;
        self.last_event_time = update.timestamp_ms;
        self.snapshot()
    }

    /// The book's levels: bids from the highest price down, asks from the
    /// lowest price up.
    pub fn snapshot(&self) -> (l: BookLevels)
        ensures
            lists_descending(l.bids@, self.bids@),
            lists_ascending(l.asks@, self.asks@),
    {
        book_levels(&self.bids, &self.asks)
    }
}

} // verus!
