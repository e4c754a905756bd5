//! Bybit spot: subscription topics, the connection, and order book messages.
use vstd::prelude::*;

use crate::api::runtime::ExchangeName;
use crate::api::traits::{SubscriptionMethod, WsEndpoint};
use crate::api::types::{distance, lemma_names_next_stream, lemma_names_next_symbol, names_upto, stream_names, StreamKind};
use crate::book::{apply_levels, lists_ascending, lists_descending, BookLevels};
use crate::bybit::local_order_book::LocalOrderBook;
use crate::bybit::parsers::{DepthUpdatePayload, OrderbookUpdateType};
use crate::text::{decimal, strings_view, to_uppercase, u64_to_string, uppercase};
use crate::time::Duration;

verus! {

/// The order book depth subscribed for a requested depth: the valid Bybit
/// spot depth (1, 50, 200 or 1000) nearest to it, the smaller on a tie.
pub open spec fn snapped_depth(depth: usize) -> nat {
    if depth <= 25 {
        1
    } else if depth <= 125 {
        50
    } else if depth <= 600 {
        200
    } else {
        1000
    }
}

/// The snapped depth is a valid depth, none is nearer to the requested
/// depth, and every valid depth below it is farther.
pub proof fn law_snapped_depth_is_nearest(depth: usize, valid: nat)
    requires
        valid == 1 || valid == 50 || valid == 200 || valid == 1000,
    ensures
        snapped_depth(depth) == 1 || snapped_depth(depth) == 50 || snapped_depth(depth) == 200 || snapped_depth(depth) == 1000,
        distance(depth as nat, snapped_depth(depth)) <= distance(depth as nat, valid),
        valid < snapped_depth(depth) ==> distance(depth as nat, snapped_depth(depth)) < distance(depth as nat, valid),
{
}

/// The topic of `stream` for the (uppercase) symbol `symbol`.
pub open spec fn topic_name(stream: StreamKind, symbol: Seq<char>) -> Seq<char> {
    match stream {
        StreamKind::Trade => "publicTrade."@ + symbol,
        StreamKind::OrderBook { depth } => "orderbook."@ + decimal(snapped_depth(depth)) + "."@ + symbol,
        StreamKind::Ticker => "tickers."@ + symbol,
    }
}

/// [`topic_name`] as a function value.
pub open spec fn topic_namer() -> spec_fn(StreamKind, Seq<char>) -> Seq<char> {
    |k: StreamKind, s: Seq<char>| topic_name(k, s)
}

/// The texts of `syms`, each in uppercase.
pub open spec fn uppercased(syms: Seq<Seq<char>>) -> Seq<Seq<char>> {
    syms.map_values(|s: Seq<char>| uppercase(s))
}

/// The public spot stream endpoint.
pub open spec fn stream_base_url() -> Seq<char> {
    "wss://stream.bybit.com/v5/public/spot"@
}

/// With no symbol there is no name.
pub proof fn lemma_no_symbol_no_names(streams: Seq<StreamKind>, f: spec_fn(StreamKind, Seq<char>) -> Seq<char>)
    ensures
        stream_names(streams, Seq::empty(), f) == Seq::<Seq<char>>::empty(),
    decreases streams.len(),
{
    if streams.len() > 0 {
        lemma_no_symbol_no_names(streams.drop_last(), f);
        assert(Seq::<Seq<char>>::empty().map_values(|s: Seq<char>| f(streams.last(), s)) =~= Seq::<Seq<char>>::empty());
        assert(stream_names(streams, Seq::empty(), f) =~= Seq::<Seq<char>>::empty());
    }
}

/// The topics of `streams` for the symbols `upper_symbols`, taken as they
/// are: for each stream in order, one per symbol in order.
pub fn subscription_topics(upper_symbols: &[String], streams: &[StreamKind]) -> (v: Vec<String>)
    ensures
        strings_view(v@) == stream_names(streams@, strings_view(upper_symbols@), topic_namer()),
{
    let ghost syms = strings_view(upper_symbols@);
    let ghost f = topic_namer();
    let mut v: Vec<String> = Vec::new();
    let mut i: usize = 0;
    while i < streams.len()
        invariant
            i <= streams@.len(),
            syms == strings_view(upper_symbols@),
            f == topic_namer(),
            strings_view(v@) == stream_names(streams@.take(i as int), syms, f),
        decreases streams.len() - i,
    {
        assert(names_upto(streams@, syms, f, i as int, 0) =~= stream_names(streams@.take(i as int), syms, f));
        let mut j: usize = 0;
        while j < upper_symbols.len()
            invariant
                i < streams@.len(),
                j <= upper_symbols@.len(),
                syms == strings_view(upper_symbols@),
                f == topic_namer(),
                strings_view(v@) == names_upto(streams@, syms, f, i as int, j as int),
            decreases upper_symbols.len() - j,
        {
            let name = match &streams[i] {
                StreamKind::Trade => {
                    let mut s = "publicTrade.".to_owned();
                    s.append(upper_symbols[j].as_str());
                    s
                },
                StreamKind::OrderBook { depth } => {
                    let snapped: u64 = if *depth <= 25 {
                        1
                    } else if *depth <= 125 {
                        50
                    } else if *depth <= 600 {
                        200
                    } else {
                        1000
                    };
                    let mut s = "orderbook.".to_owned();
                    let digits = u64_to_string(snapped);
                    s.append(digits.as_str());
                    s.append(".");
                    s.append(upper_symbols[j].as_str());
                    s
                },
                StreamKind::Ticker => {
                    let mut s = "tickers.".to_owned();
                    s.append(upper_symbols[j].as_str());
                    s
                },
            };
            proof {
                lemma_names_next_symbol(streams@, syms, f, i as int, j as int);
            }
            let ghost before = v@;
            v.push(name);
            assert(strings_view(v@) =~= strings_view(before).push(name@));
            j = j + 1;
        }
        proof {
            lemma_names_next_stream(streams@, syms, f, i as int);
        }
        i = i + 1;
    }
    assert(streams@.take(streams@.len() as int) =~= streams@);
    v
}

/// Bybit spot exchange with one local order book per symbol.
///
/// Connects to `wss://stream.bybit.com/v5/public/spot`. Supports trade,
/// depth, and ticker streams for one or more symbols on the same connection.
#[derive(Debug)]
pub struct BybitSpot {
    order_books: Vec<LocalOrderBook>,
}

/// Position of the book for `symbol` in `books`, if any.
pub open spec fn book_position(books: Seq<LocalOrderBook>, symbol: Seq<char>) -> Option<int> {
    if exists|k: int| 0 <= k < books.len() && books[k].symbol@ == symbol {
        Some(choose|k: int| 0 <= k < books.len() && books[k].symbol@ == symbol)
    } else {
        None
    }
}

impl BybitSpot {
    /// No two books are for the same symbol.
    #[verifier::type_invariant]
    spec fn inv(&self) -> bool {
        forall|i: int, j: int|
            0 <= i < j < self.order_books@.len() ==> #[trigger] self.order_books@[i].symbol@ != #[trigger] self.order_books@[j].symbol@
    }

    /// The order books, one per symbol seen.
    pub closed spec fn books(&self) -> Seq<LocalOrderBook> {
        self.order_books@
    }

    /// An exchange with no order book yet.
    pub fn new() -> (s: Self)
        ensures
            s.books() == Seq::<LocalOrderBook>::empty(),
    {
        BybitSpot { order_books: Vec::new() }
    }

    /// The exchange's name.
    pub fn name(&self) -> (n: ExchangeName)
        ensures
            n == ExchangeName::Bybit,
    {
        ExchangeName::Bybit
    }

    /// Bybit drops connections without a ping every 20 seconds.
    pub fn ping_interval(&self) -> (d: Option<Duration>)
        ensures
            d matches Some(p) && p@ == 20_000,
    {
        Some(Duration::from_secs(20))
    }

    /// The topics to subscribe to: those of [`subscription_topics`] for the
    /// symbols in uppercase; none without symbols or streams.
    pub fn build_subscriptions(symbols: &[String], streams: &[StreamKind]) -> (v: Vec<String>)
        ensures
            strings_view(v@) == stream_names(streams@, uppercased(strings_view(symbols@)), topic_namer()),
    {
        if symbols.len() == 0 || streams.len() == 0 {
            proof {
                assert(uppercased(strings_view(symbols@)).len() == 0 ==> uppercased(strings_view(symbols@)) =~= Seq::<Seq<char>>::empty());
                lemma_no_symbol_no_names(streams@, topic_namer());
                assert(strings_view(Seq::<String>::empty()) =~= Seq::<Seq<char>>::empty());
            }
            return Vec::new();
        }
        let mut upper: Vec<String> = Vec::new();
        let mut i: usize = 0;
        while i < symbols.len()
            invariant
                i <= symbols@.len(),
                strings_view(upper@) == uppercased(strings_view(symbols@)).take(i as int),
            decreases symbols.len() - i,
        {
            let u = to_uppercase(symbols[i].as_str());
            let ghost before = upper@;
            upper.push(u);
            assert(strings_view(upper@) =~= strings_view(before).push(u@));
            assert(uppercased(strings_view(symbols@)).take(i + 1)
                =~= uppercased(strings_view(symbols@)).take(i as int).push(uppercase(symbols@[i as int]@)));
            i = i + 1;
        }
        assert(uppercased(strings_view(symbols@)).take(symbols@.len() as int) =~= uppercased(strings_view(symbols@)));
        subscription_topics(upper.as_slice(), streams)
    }

    /// The single connection, subscribing by a JSON message.
    pub fn ws_endpoints(&self, symbols: &[String], streams: &[StreamKind]) -> (v: Vec<WsEndpoint>)
        ensures
            v@.len() == 1,
            v@[0].url@ == stream_base_url(),
            v@[0].subscription matches SubscriptionMethod::JsonArgs(topics)
                && strings_view(topics@) == stream_names(streams@, uppercased(strings_view(symbols@)), topic_namer()),
    {
        let topics = Self::build_subscriptions(symbols, streams);
        vec![WsEndpoint { url: "wss://stream.bybit.com/v5/public/spot".to_owned(), subscription: SubscriptionMethod::JsonArgs(topics) }]
    }

    /// Applies an order book message to the book of its symbol, making an
    /// empty book first if there is none, and returns that book's levels. The
    /// other books are unchanged.
    pub fn handle_depth_update(&mut self, update_type: OrderbookUpdateType, update: &DepthUpdatePayload) -> (l: BookLevels)
        ensures
            ({
                let k = match book_position(old(self).books(), update.symbol@) {
                    Some(k) => k,
                    None => old(self).books().len() as int,
                };
                let before_bids = match book_position(old(self).books(), update.symbol@) {
                    Some(k) => old(self).books()[k].bids@,
                    None => Map::empty(),
                };
                let before_asks = match book_position(old(self).books(), update.symbol@) {
                    Some(k) => old(self).books()[k].asks@,
                    None => Map::empty(),
                };
                let base_bids = if update_type == OrderbookUpdateType::Snapshot { Map::empty() } else { before_bids };
                let base_asks = if update_type == OrderbookUpdateType::Snapshot { Map::empty() } else { before_asks };
                &&& final(self).books().len() == (if k < old(self).books().len() { old(self).books().len() } else { old(self).books().len() + 1 })
                &&& forall|j: int| 0 <= j < old(self).books().len() && j != k ==> final(self).books()[j] == old(self).books()[j]
                &&& final(self).books()[k].symbol@ == update.symbol@
                &&& final(self).books()[k].last_update_id == update.update_id
                &&& final(self).books()[k].last_event_time == update.timestamp_ms
                &&& final(self).books()[k].bids@ == apply_levels(base_bids, update.bids@)
                &&& final(self).books()[k].asks@ == apply_levels(base_asks, update.asks@)
                &&& lists_descending(l.bids@, final(self).books()[k].bids@)
                &&& lists_ascending(l.asks@, final(self).books()[k].asks@)
            }),
    {
        proof {
            use_type_invariant(&*self);
        }
        let ghost books = self.order_books@;
        let mut obs: Vec<LocalOrderBook> = Vec::new();
        std::mem::swap(&mut obs, &mut self.order_books);
        let k = Self::position(&obs, &update.symbol);
        if k < obs.len() {
            let mut ob = obs.remove(k);
            let l = ob.handle_update(update_type, update);
            obs.insert(k, ob);
            assert(obs@ =~= books.update(k as int, ob));
            self.order_books = obs;
            l
        } else {
            let mut ob = LocalOrderBook::new(update.symbol.clone());
            let l = ob.handle_update(update_type, update);
            obs.push(ob);
            proof {
                assert forall|i: int, j: int| 0 <= i < j < obs@.len() implies
                    #[trigger] obs@[i].symbol@ != #[trigger] obs@[j].symbol@ by {
                    if j == books.len() {
                        assert(books[i].symbol@ != update.symbol@);
                    }
                }
            }
            self.order_books = obs;
            l
        }
    }

    /// Empties the book of `symbol`, making it first if there is none. The
    /// other books are unchanged.
    pub fn reset_book(&mut self, symbol: &String)
        ensures
            ({
                let k = match book_position(old(self).books(), symbol@) {
                    Some(k) => k,
                    None => old(self).books().len() as int,
                };
                &&& final(self).books().len() == (if k < old(self).books().len() { old(self).books().len() } else { old(self).books().len() + 1 })
                &&& forall|j: int| 0 <= j < old(self).books().len() && j != k ==> final(self).books()[j] == old(self).books()[j]
                &&& final(self).books()[k].symbol@ == symbol@
                &&& final(self).books()[k].last_update_id == 0
                &&& final(self).books()[k].last_event_time == 0
                &&& final(self).books()[k].bids@ == Map::<u64, u64>::empty()
                &&& final(self).books()[k].asks@ == Map::<u64, u64>::empty()
            }),
    {
        proof {
            use_type_invariant(&*self);
        }
        let ghost books = self.order_books@;
        let mut obs: Vec<LocalOrderBook> = Vec::new();
        std::mem::swap(&mut obs, &mut self.order_books);
        let k = Self::position(&obs, symbol);
        if k < obs.len() {
            let mut ob = obs.remove(k);
            ob.reset();
            obs.insert(k, ob);
            assert(obs@ =~= books.update(k as int, ob));
            self.order_books = obs;
        } else {
            let ob = LocalOrderBook::new(symbol.clone());
            obs.push(ob);
            proof {
                assert forall|i: int, j: int| 0 <= i < j < obs@.len() implies
                    #[trigger] obs@[i].symbol@ != #[trigger] obs@[j].symbol@ by {
                    if j == books.len() {
                        assert(books[i].symbol@ != symbol@);
                    }
                }
            }
            self.order_books = obs;
        }
    }

    /// Position of the book for `symbol` in `obs` (whose symbols are
    /// distinct), or `obs.len()` when there is none.
    fn position(obs: &Vec<LocalOrderBook>, symbol: &String) -> (k: usize)
        requires
            forall|i: int, j: int| 0 <= i < j < obs@.len() ==> #[trigger] obs@[i].symbol@ != #[trigger] obs@[j].symbol@,
        ensures
            k <= obs@.len(),
            k < obs@.len() <==> book_position(obs@, symbol@) is Some,
            k < obs@.len() ==> book_position(obs@, symbol@) == Some(k as int),
            k == obs@.len() ==> forall|j: int| 0 <= j < obs@.len() ==> obs@[j].symbol@ != symbol@,
    {
        let mut k: usize = 0;
        while k < obs.len() && !(obs[k].symbol == *symbol)
            invariant
                k <= obs@.len(),
                forall|j: int| 0 <= j < k ==> obs@[j].symbol@ != symbol@,
            decreases obs.len() - k,
        {
            k = k + 1;
        }
        if k < obs.len() {
            let ghost w = choose|w: int| 0 <= w < obs@.len() && obs@[w].symbol@ == symbol@;
            assert(w == k) by {
                if w != k {
                    if w < k {
                        assert(obs@[w].symbol@ != symbol@);
                    } else {
                        assert(obs@[k as int].symbol@ != obs@[w].symbol@);
                    }
                }
            }
        }
        k
    }
}

impl Default for BybitSpot {
    fn default() -> (s: Self)
        ensures
            s.books() == Seq::<LocalOrderBook>::empty(),
    {
        Self::new()
    }
}

} // verus!
