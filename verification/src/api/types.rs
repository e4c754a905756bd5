//! Unified stream descriptions shared by every exchange.
use vstd::prelude::*;

use crate::time::Duration;

verus! {

/// Target update rate for streaming data. Exchanges match this to their
/// supported rates and select the closest supported rate.
#[derive(Clone, Copy, Debug)]
pub struct UpdateRate {
    pub duration: Duration,
}

/// Distance between two durations in milliseconds.
pub open spec fn distance(a: nat, b: nat) -> nat {
    if a >= b {
        (a - b) as nat
    } else {
        (b - a) as nat
    }
}

/// `k` is the first position of a rate closest to `target` in `rates`.
pub open spec fn is_first_closest(rates: Seq<Duration>, target: nat, k: int) -> bool {
    &&& 0 <= k < rates.len()
    &&& forall|j: int| 0 <= j < rates.len() ==> distance(target, rates[k]@) <= distance(target, #[trigger] rates[j]@)
    &&& forall|j: int| 0 <= j < k ==> distance(target, rates[k]@) < distance(target, #[trigger] rates[j]@)
}

impl UpdateRate {
    pub fn from_millis(ms: u64) -> (r: Self)
        ensures
            r.duration@ == ms as nat,
    {
        Self { duration: Duration::from_millis(ms) }
    }

    /// Find the best supported rate from the given options: the first of the
    /// supported rates with minimum absolute difference from the target.
    pub fn best_match(&self, supported: &[Duration]) -> (r: Option<Duration>)
        ensures
            supported@.len() == 0 <==> r is None,
            r matches Some(d) ==> exists|k: int| is_first_closest(supported@, self.duration@, k) && d == supported@[k],
    {
        if supported.len() == 0 {
            return None;
        }
        let target = self.duration.as_millis();
        let mut best: usize = 0;
        let mut best_dist: u128 = abs_diff(target, supported[0].as_millis());
        let mut i: usize = 1;
        while i < supported.len()
            invariant
                1 <= i <= supported.len(),
                best < i,
                target as nat == self.duration@,
                best_dist as nat == distance(target as nat, supported@[best as int]@),
                forall|j: int| 0 <= j < i ==> best_dist <= distance(target as nat, #[trigger] supported@[j]@),
                forall|j: int| 0 <= j < best ==> best_dist < distance(target as nat, #[trigger] supported@[j]@),
            decreases supported.len() - i,
        {
            let d = abs_diff(target, supported[i].as_millis());
            if d < best_dist {
                best = i;
                best_dist = d;
            }
            i = i + 1;
        }
        assert(is_first_closest(supported@, self.duration@, best as int));
        Some(supported[best])
    }
}

fn abs_diff(a: u128, b: u128) -> (d: u128)
    ensures
        d as nat == distance(a as nat, b as nat),
{
    if a >= b {
        a - b
    } else {
        b - a
    }
}

/// Describes a data stream to subscribe to on every registered exchange.
#[derive(Clone, Debug)]
pub enum StreamKind {
    Trade,
    OrderBook { depth: usize },
    Ticker,
}

impl StreamKind {
    pub fn orderbook(depth: usize) -> (k: Self)
        ensures
            k == (StreamKind::OrderBook { depth }),
    {
        Self::OrderBook { depth }
    }
}

/// Names of the streams `streams` for the symbols `syms`, as given by `name`:
/// for each stream in order, one name per symbol in order.
pub open spec fn stream_names(
    streams: Seq<StreamKind>,
    syms: Seq<Seq<char>>,
    name: spec_fn(StreamKind, Seq<char>) -> Seq<char>,
) -> Seq<Seq<char>>
    decreases streams.len(),
{
    if streams.len() == 0 {
        Seq::empty()
    } else {
        stream_names(streams.drop_last(), syms, name) + syms.map_values(|s: Seq<char>| name(streams.last(), s))
    }
}

/// There is one name per stream and symbol: the name of stream `i` for symbol
/// `j` stands at position `i * syms.len() + j`.
pub proof fn law_one_name_per_stream_and_symbol(
    streams: Seq<StreamKind>,
    syms: Seq<Seq<char>>,
    name: spec_fn(StreamKind, Seq<char>) -> Seq<char>,
    i: int,
    j: int,
)
    requires
        0 <= i < streams.len(),
        0 <= j < syms.len(),
    ensures
        stream_names(streams, syms, name).len() == streams.len() * syms.len(),
        stream_names(streams, syms, name)[i * syms.len() + j] == name(streams[i], syms[j]),
    decreases streams.len(),
{
    let n = streams.len();
    let m = syms.len();
    lemma_names_len(streams.drop_last(), syms, name);
    assert((n - 1) * m + m == n * m) by (nonlinear_arith);
    if i < n - 1 {
        law_one_name_per_stream_and_symbol(streams.drop_last(), syms, name, i, j);
        assert(i * m + j < (n - 1) * m) by (nonlinear_arith)
            requires
                i < n - 1,
                j < m,
                0 <= i,
                0 <= j,
        ;
        assert(i * m + j >= 0) by (nonlinear_arith)
            requires
                0 <= i,
                0 <= j,
                0 <= m,
        ;
    } else {
        assert(i * m == (n - 1) * m);
    }
}

/// The number of names is the number of streams times that of symbols.
pub proof fn lemma_names_len(streams: Seq<StreamKind>, syms: Seq<Seq<char>>, name: spec_fn(StreamKind, Seq<char>) -> Seq<char>)
    ensures
        stream_names(streams, syms, name).len() == streams.len() * syms.len(),
    decreases streams.len(),
{
    if streams.len() > 0 {
        lemma_names_len(streams.drop_last(), syms, name);
        let n = streams.len();
        let m = syms.len();
        assert((n - 1) * m + m == n * m) by (nonlinear_arith);
    }
}

/// The names of the first `i` streams, then those of stream `i` for the
/// first `j` symbols.
pub open spec fn names_upto(
    streams: Seq<StreamKind>,
    syms: Seq<Seq<char>>,
    name: spec_fn(StreamKind, Seq<char>) -> Seq<char>,
    i: int,
    j: int,
) -> Seq<Seq<char>> {
    stream_names(streams.take(i), syms, name) + syms.take(j).map_values(|s: Seq<char>| name(streams[i], s))
}

/// One more name: that of stream `i` for symbol `j`.
pub proof fn lemma_names_next_symbol(
    streams: Seq<StreamKind>,
    syms: Seq<Seq<char>>,
    name: spec_fn(StreamKind, Seq<char>) -> Seq<char>,
    i: int,
    j: int,
)
    requires
        0 <= i < streams.len(),
        0 <= j < syms.len(),
    ensures
        names_upto(streams, syms, name, i, j + 1) == names_upto(streams, syms, name, i, j).push(name(streams[i], syms[j])),
{
    assert(syms.take(j + 1).map_values(|s: Seq<char>| name(streams[i], s))
        =~= syms.take(j).map_values(|s: Seq<char>| name(streams[i], s)).push(name(streams[i], syms[j])));
    assert(names_upto(streams, syms, name, i, j + 1) =~= names_upto(streams, syms, name, i, j).push(name(streams[i], syms[j])));
}

/// All names of stream `i` make the names of the first `i + 1` streams.
pub proof fn lemma_names_next_stream(
    streams: Seq<StreamKind>,
    syms: Seq<Seq<char>>,
    name: spec_fn(StreamKind, Seq<char>) -> Seq<char>,
    i: int,
)
    requires
        0 <= i < streams.len(),
    ensures
        names_upto(streams, syms, name, i, syms.len() as int) == stream_names(streams.take(i + 1), syms, name),
        names_upto(streams, syms, name, i + 1, 0) == stream_names(streams.take(i + 1), syms, name)
            || i + 1 == streams.len(),
{
    assert(streams.take(i + 1).drop_last() =~= streams.take(i));
    assert(syms.take(syms.len() as int) =~= syms);
    assert(names_upto(streams, syms, name, i, syms.len() as int) =~= stream_names(streams.take(i + 1), syms, name));
    if i + 1 < streams.len() {
        assert(names_upto(streams, syms, name, i + 1, 0) =~= stream_names(streams.take(i + 1), syms, name));
    }
}

/// Taker side of a trade.
#[derive(Clone, Copy, Debug, PartialEq, Eq, Structural)]
pub enum Side {
    Buy,
    Sell,
}

/// An instrument listed by an exchange.
#[derive(Clone, Debug)]
pub struct Symbol {
    pub symbol: String,
    pub base: String,
    pub quote: String,
}

} // verus!
