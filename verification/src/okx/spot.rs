//! Binance spot with local order books: combined-stream URL and the handling
//! of diff-depth events.
use vstd::prelude::*;

use crate::api::runtime::ExchangeName;
use crate::api::traits::{SubscriptionMethod, WsEndpoint};
use crate::api::types::{distance, law_one_name_per_stream_and_symbol, lemma_names_next_stream, lemma_names_next_symbol, names_upto, stream_names, StreamKind, UpdateRate};
use crate::book::{lists_ascending, lists_descending, BookLevels};
use crate::okx::local_order_book::{
    transition, BookModel, DepthUpdate, LocalOrderBook, Phase, SnapshotPoll, SyncStep, UpdateModel,
};
use crate::text::{decimal, join, join_strings, lemma_join_last, strings_view};
use crate::time::Duration;

verus! {

/// The depth update speed for a requested update rate: the closer of 100 ms
/// and 1000 ms (100 ms on a tie), or 100 ms without a rate.
pub open spec fn depth_speed_ms(rate: Option<UpdateRate>) -> nat {
    match rate {
        None => 100,
        Some(r) => if distance(r.duration@, 100) <= distance(r.duration@, 1000) {
            100
        } else {
            1000
        },
    }
}

/// The depth speed as written in a stream name.
pub open spec fn depth_speed_text(rate: Option<UpdateRate>) -> Seq<char> {
    if depth_speed_ms(rate) >= 1000 {
        "1000ms"@
    } else {
        "100ms"@
    }
}

/// The depth speed is one of the two Binance speeds, 100 ms and 1000 ms, the
/// nearer to the requested rate (100 ms on a tie or without a rate), and a
/// stream name writes it as its number of milliseconds followed by `ms`.
pub proof fn law_depth_speed_nearest(rate: Option<UpdateRate>)
    ensures
        depth_speed_ms(rate) == 100 || depth_speed_ms(rate) == 1000,
        rate matches Some(r) ==> distance(r.duration@, depth_speed_ms(rate)) <= distance(r.duration@, 100)
            && distance(r.duration@, depth_speed_ms(rate)) <= distance(r.duration@, 1000),
        rate matches Some(r) ==> (depth_speed_ms(rate) == 1000 ==> distance(r.duration@, 1000) < distance(r.duration@, 100)),
        depth_speed_text(rate) == decimal(depth_speed_ms(rate)) + "ms"@,
{
    reveal_strlit("ms");
    reveal_strlit("100ms");
    reveal_strlit("1000ms");
    reveal_with_fuel(decimal, 4);
    assert(decimal(100) =~= seq!['1', '0', '0']);
    assert(decimal(1000) =~= seq!['1', '0', '0', '0']);
    assert(depth_speed_text(rate) =~= decimal(depth_speed_ms(rate)) + "ms"@);
}

/// The stream name of `stream` for `symbol`, with depth speed `speed`.
pub open spec fn stream_name_at(speed: Seq<char>, stream: StreamKind, symbol: Seq<char>) -> Seq<char> {
    match stream {
        StreamKind::Trade => symbol + "@trade"@,
        StreamKind::OrderBook { .. } => symbol + "@depth@"@ + speed,
        StreamKind::Ticker => symbol + "@ticker"@,
    }
}

/// [`stream_name_at`] for one speed, as a function value.
pub open spec fn namer_at(speed: Seq<char>) -> spec_fn(StreamKind, Seq<char>) -> Seq<char> {
    |k: StreamKind, s: Seq<char>| stream_name_at(speed, k, s)
}

/// The combined-stream URL suffix: empty without symbols or streams, else
/// `/stream?streams=` and the stream names joined by `/`.
pub open spec fn url_suffix(symbols: Seq<Seq<char>>, streams: Seq<StreamKind>, rate: Option<UpdateRate>) -> Seq<char> {
    if symbols.len() == 0 || streams.len() == 0 {
        Seq::empty()
    } else {
        "/stream?streams="@ + join(stream_names(streams, symbols, namer_at(depth_speed_text(rate))), "/"@)
    }
}

/// The combined-stream URL suffix never ends with `/`, which Binance rejects.
pub proof fn law_url_suffix_no_trailing_slash(symbols: Seq<Seq<char>>, streams: Seq<StreamKind>, rate: Option<UpdateRate>)
    ensures
        url_suffix(symbols, streams, rate).len() > 0 ==> url_suffix(symbols, streams, rate).last() != '/',
{
    if symbols.len() > 0 && streams.len() > 0 {
        let f = namer_at(depth_speed_text(rate));
        let names = stream_names(streams, symbols, f);
        let (i, j) = (streams.len() - 1, symbols.len() - 1);
        law_one_name_per_stream_and_symbol(streams, symbols, f, i, j);
        assert((streams.len() - 1) * symbols.len() + symbols.len() - 1 == streams.len() * symbols.len() - 1) by (nonlinear_arith);
        let last = stream_name_at(depth_speed_text(rate), streams[i], symbols[j]);
        assert(names.last() == last);
        reveal_strlit("@trade");
        reveal_strlit("@ticker");
        reveal_strlit("1000ms");
        reveal_strlit("100ms");
        assert(last.len() > 0 && last.last() != '/');
        lemma_join_last(names, "/"@);
    }
}

/// The combined-stream endpoint.
pub open spec fn stream_base_url() -> Seq<char> {
    "wss://stream.binance.com:9443"@
}

/// An empty book's contents.
pub open spec fn empty_book() -> BookModel {
    BookModel { last_update_id: 0, last_event_time: 0, bids: Map::empty(), asks: Map::empty() }
}

/// One diff-depth event handled for the stream: the book's contents and phase
/// after it, whether the book is to be published, and whether a snapshot
/// fetch is to be started. A book that loses sync is reset and handed the
/// event again, which starts a new fetch.
pub open spec fn event_outcome(b: BookModel, p: Phase, u: UpdateModel, poll: SnapshotPoll) -> (BookModel, Phase, bool, bool) {
    let (b2, p2, r) = transition(b, p, u, poll);
    match r {
        Ok(SyncStep::Updated) => (b2, p2, true, false),
        Ok(SyncStep::Waiting { fetch_snapshot }) => (b2, p2, false, fetch_snapshot),
        Err(_) => (empty_book(), Phase::Buffering { buffer: seq![u], fetch_requested: true }, false, true),
    }
}

/// What handling a diff-depth event asks of the caller.
#[derive(Debug)]
pub struct DepthOutcome {
    /// The book's levels, when it is live and up to date.
    pub levels: Option<BookLevels>,
    /// Whether to start a new snapshot fetch for the book (dropping any
    /// earlier one).
    pub fetch_snapshot: bool,
    /// The time of the last event the book applied.
    pub event_time: i64,
}

/// The outcome `o` and book `after` are those of [`event_outcome`] for a book
/// with contents `b` in phase `p`.
pub open spec fn outcome_matches(b: BookModel, p: Phase, u: UpdateModel, poll: SnapshotPoll, after: LocalOrderBook, o: DepthOutcome) -> bool {
    &&& (after.model(), after.phase(), o.levels is Some, o.fetch_snapshot) == event_outcome(b, p, u, poll)
    &&& o.levels matches Some(l) ==> lists_descending(l.bids@, after.model().bids) && lists_ascending(l.asks@, after.model().asks)
    &&& o.event_time as int == after.model().last_event_time
}

/// Handles a diff-depth event on `ob`, as [`event_outcome`] says.
pub fn process_depth_event(ob: &mut LocalOrderBook, update: DepthUpdate, poll: SnapshotPoll) -> (o: DepthOutcome)
    ensures
        outcome_matches(old(ob).model(), old(ob).phase(), update@, poll, *final(ob), o),
        final(ob).symbol_spec() == old(ob).symbol_spec(),
{
    let again = update.copy();
    let r = ob.handle_update(update, poll);
    match r {
        Ok(SyncStep::Updated) => DepthOutcome { levels: Some(ob.snapshot()), fetch_snapshot: false, event_time: ob.event_time() },
        Ok(SyncStep::Waiting { fetch_snapshot }) => DepthOutcome { levels: None, fetch_snapshot, event_time: ob.event_time() },
        Err(_) => {
            ob.reset();
            let _ = ob.handle_update(again, SnapshotPoll::Pending);
            assert(seq![again@] =~= Seq::<UpdateModel>::empty().push(again@));
            DepthOutcome { levels: None, fetch_snapshot: true, event_time: ob.event_time() }
        },
    }
}

/// Position of the book for `symbol` in `books`, if any.
pub open spec fn book_position(books: Seq<LocalOrderBook>, symbol: Seq<char>) -> Option<int> {
    if exists|k: int| 0 <= k < books.len() && books[k].symbol_spec()@ == symbol {
        Some(choose|k: int| 0 <= k < books.len() && books[k].symbol_spec()@ == symbol)
    } else {
        None
    }
}

/// Binance spot exchange with one local order book per symbol.
///
/// Connects to `wss://stream.binance.com:9443/ws/` using the combined
/// stream endpoint. Supports trade, depth, and ticker streams for one or
/// more symbols on the same connection.
#[derive(Debug)]
pub struct BinanceSpot {
    order_books: Vec<LocalOrderBook>,
}

impl BinanceSpot {
    /// No two books are for the same symbol.
    #[verifier::type_invariant]
    spec fn inv(&self) -> bool {
        forall|i: int, j: int|
            0 <= i < j < self.order_books@.len() ==> #[trigger] self.order_books@[i].symbol_spec()@ != #[trigger] self.order_books@[j].symbol_spec()@
    }

    /// The order books, one per symbol seen.
    pub closed spec fn books(&self) -> Seq<LocalOrderBook> {
        self.order_books@
    }

    /// An exchange with no order book yet.
    pub fn new() -> (s: Self)
        ensures
            s.books() == Seq::<LocalOrderBook>::empty(),
    {
        BinanceSpot { order_books: Vec::new() }
    }

    /// The exchange's name.
    pub fn name(&self) -> (n: ExchangeName)
        ensures
            n == ExchangeName::Binance,
    {
        ExchangeName::Binance
    }

    /// The combined-stream URL suffix for `symbols` and `streams`, with the
    /// depth speed that best matches `update_rate`.
    pub fn build_url_suffix(symbols: &[String], streams: &[StreamKind], update_rate: Option<UpdateRate>) -> (s: String)
        ensures
            s@ == url_suffix(strings_view(symbols@), streams@, update_rate),
    {
        if symbols.len() == 0 || streams.len() == 0 {
            return String::new();
        }
        let supported: Vec<Duration> = vec![Duration::from_millis(100), Duration::from_millis(1000)];
        let depth_speed = match update_rate {
            Some(rate) => {
                let best = rate.best_match(supported.as_slice());
                match best {
                    Some(d) => {
                        proof {
                            let k = choose|k: int| crate::api::types::is_first_closest(supported@, rate.duration@, k) && d == supported@[k];
                            assert(k == 0 || k == 1);
                            assert(supported@[0]@ == 100 && supported@[1]@ == 1000);
                        }
                        d
                    },
                    None => Duration::from_millis(100),
                }
            },
            None => Duration::from_millis(100),
        };
        assert(depth_speed@ == depth_speed_ms(update_rate));
        let speed = if depth_speed.as_millis() >= 1000 {
            "1000ms"
        } else {
            "100ms"
        };
        let names = Self::stream_names_at(symbols, streams, speed);
        let joined = join_strings(names.as_slice(), "/");
        let mut s = "/stream?streams=".to_owned();
        s.append(joined.as_str());
        s
    }

    /// The stream names for `symbols` and `streams`, with depth speed `speed`.
    fn stream_names_at(symbols: &[String], streams: &[StreamKind], speed: &str) -> (v: Vec<String>)
        ensures
            strings_view(v@) == stream_names(streams@, strings_view(symbols@), namer_at(speed@)),
    {
        let ghost syms = strings_view(symbols@);
        let ghost f = namer_at(speed@);
        let mut v: Vec<String> = Vec::new();
        let mut i: usize = 0;
        while i < streams.len()
            invariant
                i <= streams@.len(),
                syms == strings_view(symbols@),
                f == namer_at(speed@),
                strings_view(v@) == stream_names(streams@.take(i as int), syms, f),
            decreases streams.len() - i,
        {
            assert(names_upto(streams@, syms, f, i as int, 0) =~= stream_names(streams@.take(i as int), syms, f));
            let mut j: usize = 0;
            while j < symbols.len()
                invariant
                    i < streams@.len(),
                    j <= symbols@.len(),
                    syms == strings_view(symbols@),
                    f == namer_at(speed@),
                    strings_view(v@) == names_upto(streams@, syms, f, i as int, j as int),
                decreases symbols.len() - j,
            {
                let mut name = symbols[j].clone();
                match &streams[i] {
                    StreamKind::Trade => name.append("@trade"),
                    StreamKind::OrderBook { .. } => {
                        name.append("@depth@");
                        name.append(speed);
                    },
                    StreamKind::Ticker => name.append("@ticker"),
                }
                proof {
                    lemma_names_next_symbol(streams@, syms, f, i as int, j as int);
                }
                let ghost before = v@;
                v.push(name);
                assert(strings_view(v@) =~= strings_view(before).push(name@));
                j = j + 1;
            }
            proof {
                lemma_names_next_stream(streams@, syms, f, i as int);
            }
            i = i + 1;
        }
        assert(streams@.take(streams@.len() as int) =~= streams@);
        v
    }

    /// The single combined-stream connection, with the streams in its URL.
    pub fn ws_endpoints(&self, symbols: &[String], streams: &[StreamKind], update_rate: Option<UpdateRate>) -> (v: Vec<WsEndpoint>)
        ensures
            v@.len() == 1,
            v@[0].url@ == stream_base_url() + url_suffix(strings_view(symbols@), streams@, update_rate),
            v@[0].subscription == SubscriptionMethod::UrlEncoded,
    {
        let suffix = Self::build_url_suffix(symbols, streams, update_rate);
        let mut url = "wss://stream.binance.com:9443".to_owned();
        url.append(suffix.as_str());
        vec![WsEndpoint { url, subscription: SubscriptionMethod::UrlEncoded }]
    }

    /// Empties the book of `symbol` and has it synchronise anew, making it
    /// first if there is none. The other books are unchanged.
    pub fn reset_book(&mut self, symbol: &String)
        ensures
            match book_position(old(self).books(), symbol@) {
                Some(k) => {
                    &&& final(self).books().len() == old(self).books().len()
                    &&& forall|j: int| 0 <= j < old(self).books().len() && j != k ==> final(self).books()[j] == old(self).books()[j]
                    &&& final(self).books()[k].symbol_spec() == old(self).books()[k].symbol_spec()
                    &&& final(self).books()[k].model() == empty_book()
                    &&& final(self).books()[k].phase() == (Phase::Buffering { buffer: Seq::empty(), fetch_requested: false })
                },
                None => {
                    &&& final(self).books().len() == old(self).books().len() + 1
                    &&& forall|j: int| 0 <= j < old(self).books().len() ==> final(self).books()[j] == old(self).books()[j]
                    &&& final(self).books().last().symbol_spec()@ == symbol@
                    &&& final(self).books().last().model() == empty_book()
                    &&& final(self).books().last().phase() == (Phase::Buffering { buffer: Seq::empty(), fetch_requested: false })
                },
            },
    {
        proof {
            use_type_invariant(&*self);
        }
        let ghost books = self.order_books@;
        let mut obs: Vec<LocalOrderBook> = Vec::new();
        std::mem::swap(&mut obs, &mut self.order_books);
        let k = Self::position(&obs, symbol);
        if k < obs.len() {
            let mut ob = obs.remove(k);
            ob.reset();
            obs.insert(k, ob);
            assert(obs@ =~= books.update(k as int, ob));
            self.order_books = obs;
        } else {
            let ob = LocalOrderBook::new(symbol.clone());
            obs.push(ob);
            proof {
                assert forall|i: int, j: int| 0 <= i < j < obs@.len() implies
                    #[trigger] obs@[i].symbol_spec()@ != #[trigger] obs@[j].symbol_spec()@ by {
                    if j == books.len() {
                        assert(books[i].symbol_spec()@ != symbol@);
                    }
                }
            }
            self.order_books = obs;
        }
    }

    /// Position of the book for `symbol` in `obs` (whose symbols are
    /// distinct), or `obs.len()` when there is none.
    fn position(obs: &Vec<LocalOrderBook>, symbol: &String) -> (k: usize)
        requires
            forall|i: int, j: int| 0 <= i < j < obs@.len() ==> #[trigger] obs@[i].symbol_spec()@ != #[trigger] obs@[j].symbol_spec()@,
        ensures
            k <= obs@.len(),
            k < obs@.len() ==> book_position(obs@, symbol@) == Some(k as int),
            k == obs@.len() ==> book_position(obs@, symbol@) is None,
            k == obs@.len() ==> forall|j: int| 0 <= j < obs@.len() ==> obs@[j].symbol_spec()@ != symbol@,
    {
        let mut k: usize = 0;
        while k < obs.len() && !(*obs[k].symbol() == *symbol)
            invariant
                k <= obs@.len(),
                forall|j: int| 0 <= j < k ==> obs@[j].symbol_spec()@ != symbol@,
            decreases obs.len() - k,
        {
            k = k + 1;
        }
        if k < obs.len() {
            let ghost w = choose|w: int| 0 <= w < obs@.len() && obs@[w].symbol_spec()@ == symbol@;
            assert(w == k) by {
                if w != k {
                    if w < k {
                        assert(obs@[w].symbol_spec()@ != symbol@);
                    } else {
                        assert(obs@[k as int].symbol_spec()@ != obs@[w].symbol_spec()@);
                    }
                }
            }
        }
        k
    }

    /// Handles a diff-depth event for `symbol` on that symbol's book, making
    /// an empty book first if there is none; `poll` is what that book's
    /// snapshot fetch has produced so far. The other books are unchanged.
    pub fn handle_depth_update(&mut self, symbol: &String, update: DepthUpdate, poll: SnapshotPoll) -> (o: DepthOutcome)
        ensures
            match book_position(old(self).books(), symbol@) {
                Some(k) => {
                    &&& final(self).books().len() == old(self).books().len()
                    &&& forall|j: int| 0 <= j < old(self).books().len() && j != k ==> final(self).books()[j] == old(self).books()[j]
                    &&& final(self).books()[k].symbol_spec() == old(self).books()[k].symbol_spec()
                    &&& outcome_matches(old(self).books()[k].model(), old(self).books()[k].phase(), update@, poll, final(self).books()[k], o)
                },
                None => {
                    &&& final(self).books().len() == old(self).books().len() + 1
                    &&& forall|j: int| 0 <= j < old(self).books().len() ==> final(self).books()[j] == old(self).books()[j]
                    &&& final(self).books().last().symbol_spec()@ == symbol@
                    &&& outcome_matches(empty_book(), Phase::Buffering { buffer: Seq::empty(), fetch_requested: false }, update@, poll, final(self).books().last(), o)
                },
            },
    {
        proof {
            use_type_invariant(&*self);
        }
        let ghost books = self.order_books@;
        let mut obs: Vec<LocalOrderBook> = Vec::new();
        std::mem::swap(&mut obs, &mut self.order_books);
        let k = Self::position(&obs, symbol);
        if k < obs.len() {
            let mut ob = obs.remove(k);
            let o = process_depth_event(&mut ob, update, poll);
            obs.insert(k, ob);
            assert(obs@ =~= books.update(k as int, ob));
            self.order_books = obs;
            o
        } else {
            let mut ob = LocalOrderBook::new(symbol.clone());
            let o = process_depth_event(&mut ob, update, poll);
            obs.push(ob);
            proof {
                assert forall|i: int, j: int| 0 <= i < j < obs@.len() implies
                    #[trigger] obs@[i].symbol_spec()@ != #[trigger] obs@[j].symbol_spec()@ by {
                    if j == books.len() {
                        assert(books[i].symbol_spec()@ != symbol@);
                    }
                }
            }
            self.order_books = obs;
            o
        }
    }
}

impl Default for BinanceSpot {
    fn default() -> (s: Self)
        ensures
            s.books() == Seq::<LocalOrderBook>::empty(),
    {
        Self::new()
    }
}

} // verus!
