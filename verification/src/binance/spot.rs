//! Binance spot: combined-stream names and URL.
use vstd::prelude::*;

use crate::api::types::{law_one_name_per_stream_and_symbol, lemma_names_next_stream, lemma_names_next_symbol, names_upto, stream_names, StreamKind};
use crate::text::{decimal, join, join_strings, lemma_join_last, strings_view, strs_view, u64_to_string};

verus! {

/// The number of depth levels streamed for a requested depth: 5, 10 or 20.
pub open spec fn depth_level(depth: usize) -> nat {
    if depth <= 5 {
        5
    } else if depth <= 10 {
        10
    } else {
        20
    }
}

/// The Binance spot stream name of `stream` for `symbol`.
pub open spec fn spot_stream_name(stream: StreamKind, symbol: Seq<char>) -> Seq<char> {
    match stream {
        StreamKind::Trade => symbol + "@trade"@,
        StreamKind::OrderBook { depth } => symbol + "@depth"@ + decimal(depth_level(depth)) + "@100ms"@,
        StreamKind::Ticker => symbol + "@ticker"@,
    }
}

/// [`spot_stream_name`] as a function value.
pub open spec fn spot_namer() -> spec_fn(StreamKind, Seq<char>) -> Seq<char> {
    |k: StreamKind, s: Seq<char>| spot_stream_name(k, s)
}

/// The stream names for `symbols` and `streams`: for each stream in order,
/// one per symbol in order.
pub open spec fn spot_stream_names(symbols: Seq<Seq<char>>, streams: Seq<StreamKind>) -> Seq<Seq<char>> {
    stream_names(streams, symbols, spot_namer())
}

/// The combined-stream URL suffix: empty without symbols or streams, else
/// `/stream?streams=` and the stream names joined by `/`.
pub open spec fn url_suffix(symbols: Seq<Seq<char>>, streams: Seq<StreamKind>) -> Seq<char> {
    if symbols.len() == 0 || streams.len() == 0 {
        Seq::empty()
    } else {
        "/stream?streams="@ + join(spot_stream_names(symbols, streams), "/"@)
    }
}

/// An order-book stream takes the smallest of 5, 10 and 20 levels that covers
/// the requested depth, and 20 levels when none does: its name is the
/// symbol, `@depth`, that number of levels and `@100ms`.
pub proof fn law_order_book_depth_level(depth: usize, symbol: Seq<char>)
    ensures
        depth_level(depth) == 5 || depth_level(depth) == 10 || depth_level(depth) == 20,
        depth <= 20 ==> depth <= depth_level(depth),
        depth <= 10 ==> depth_level(depth) <= 10,
        depth <= 5 ==> depth_level(depth) <= 5,
        depth > 20 ==> depth_level(depth) == 20,
        depth <= 5 ==> spot_stream_name(StreamKind::OrderBook { depth }, symbol) == symbol + "@depth5@100ms"@,
        5 < depth <= 10 ==> spot_stream_name(StreamKind::OrderBook { depth }, symbol) == symbol + "@depth10@100ms"@,
        depth > 10 ==> spot_stream_name(StreamKind::OrderBook { depth }, symbol) == symbol + "@depth20@100ms"@,
{
    reveal_strlit("@depth");
    reveal_strlit("@100ms");
    reveal_strlit("@depth5@100ms");
    reveal_strlit("@depth10@100ms");
    reveal_strlit("@depth20@100ms");
    reveal_with_fuel(decimal, 2);
    assert(decimal(5) =~= seq!['5']);
    assert(decimal(10) =~= seq!['1', '0']);
    assert(decimal(20) =~= seq!['2', '0']);
    let name = spot_stream_name(StreamKind::OrderBook { depth }, symbol);
    if depth <= 5 {
        assert(name =~= symbol + "@depth5@100ms"@);
    } else if depth <= 10 {
        assert(name =~= symbol + "@depth10@100ms"@);
    } else {
        assert(name =~= symbol + "@depth20@100ms"@);
    }
}

/// The combined-stream URL suffix never ends with `/`, which Binance rejects.
pub proof fn law_url_suffix_no_trailing_slash(symbols: Seq<Seq<char>>, streams: Seq<StreamKind>)
    ensures
        url_suffix(symbols, streams).len() > 0 ==> url_suffix(symbols, streams).last() != '/',
{
    if symbols.len() > 0 && streams.len() > 0 {
        let names = spot_stream_names(symbols, streams);
        let (i, j) = (streams.len() - 1, symbols.len() - 1);
        law_one_name_per_stream_and_symbol(streams, symbols, spot_namer(), i, j);
        assert((streams.len() - 1) * symbols.len() + symbols.len() - 1 == streams.len() * symbols.len() - 1) by (nonlinear_arith);
        let last = spot_stream_name(streams[i], symbols[j]);
        assert(names.last() == last);
        reveal_strlit("@trade");
        reveal_strlit("@100ms");
        reveal_strlit("@ticker");
        assert(last.len() > 0 && last.last() != '/');
        lemma_join_last(names, "/"@);
    }
}

/// The combined-stream endpoint.
pub open spec fn stream_base_url() -> Seq<char> {
    "wss://stream.binance.com:9443"@
}

/// The stream name of `stream` for `symbol`.
fn stream_name(stream: &StreamKind, symbol: &str) -> (s: String)
    ensures
        s@ == spot_stream_name(*stream, symbol@),
{
    let mut s = symbol.to_owned();
    match stream {
        StreamKind::Trade => s.append("@trade"),
        StreamKind::OrderBook { depth } => {
            let level: u64 = if *depth <= 5 {
                5
            } else if *depth <= 10 {
                10
            } else {
                20
            };
            s.append("@depth");
            let digits = u64_to_string(level);
            s.append(digits.as_str());
            s.append("@100ms");
        },
        StreamKind::Ticker => s.append("@ticker"),
    }
    s
}

/// Binance spot exchange.
///
/// Connects to `wss://stream.binance.com:9443/ws/` using the combined
/// stream endpoint. Supports trade, depth, and ticker streams for one or
/// more symbols on the same connection.
#[derive(Debug, Clone, Copy)]
pub struct BinanceSpot;

impl BinanceSpot {
    /// The exchange's name.
    pub fn name(&self) -> (s: &'static str)
        ensures
            s@ == "binance"@,
    {
        "binance"
    }

    /// The stream names to subscribe to.
    pub fn subscriptions(&self, symbols: &[&str], streams: &[StreamKind]) -> (v: Vec<String>)
        ensures
            strings_view(v@) == spot_stream_names(strs_view(symbols@), streams@),
    {
        let ghost syms = strs_view(symbols@);
        let ghost f = spot_namer();
        let mut v: Vec<String> = Vec::new();
        let mut i: usize = 0;
        while i < streams.len()
            invariant
                i <= streams@.len(),
                syms == strs_view(symbols@),
                f == spot_namer(),
                strings_view(v@) == stream_names(streams@.take(i as int), syms, f),
            decreases streams.len() - i,
        {
            assert(names_upto(streams@, syms, f, i as int, 0) =~= stream_names(streams@.take(i as int), syms, f));
            let mut j: usize = 0;
            while j < symbols.len()
                invariant
                    i < streams@.len(),
                    j <= symbols@.len(),
                    syms == strs_view(symbols@),
                    f == spot_namer(),
                    strings_view(v@) == names_upto(streams@, syms, f, i as int, j as int),
                decreases symbols.len() - j,
            {
                let name = stream_name(&streams[i], symbols[j]);
                proof {
                    lemma_names_next_symbol(streams@, syms, f, i as int, j as int);
                }
                let ghost before = v@;
                v.push(name);
                assert(strings_view(v@) =~= strings_view(before).push(name@));
                j = j + 1;
            }
            proof {
                lemma_names_next_stream(streams@, syms, f, i as int);
            }
            i = i + 1;
        }
        assert(streams@.take(streams@.len() as int) =~= streams@);
        v
    }

    /// The combined-stream URL suffix for `symbols` and `streams`.
    fn build_url_suffix(symbols: &[&str], streams: &[StreamKind]) -> (s: String)
        ensures
            s@ == url_suffix(strs_view(symbols@), streams@),
    {
        if symbols.len() == 0 || streams.len() == 0 {
            return String::new();
        }
        let names = BinanceSpot.subscriptions(symbols, streams);
        let joined = join_strings(names.as_slice(), "/");
        let mut s = "/stream?streams=".to_owned();
        s.append(joined.as_str());
        s
    }

    /// The WebSocket URL that streams `streams` for `symbols`.
    pub fn ws_url(&self, symbols: &[&str], streams: &[StreamKind]) -> (s: String)
        ensures
            s@ == stream_base_url() + url_suffix(strs_view(symbols@), streams@),
    {
        let suffix = Self::build_url_suffix(symbols, streams);
        let mut s = "wss://stream.binance.com:9443".to_owned();
        s.append(suffix.as_str());
        s
    }
}

} // verus!
