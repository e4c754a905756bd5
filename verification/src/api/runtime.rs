//! Exchange identities and the per-stream rate limiter of the streaming loop.
use vstd::prelude::*;

use crate::api::types::UpdateRate;

verus! {

/// The exchanges a pipeline can register.
#[derive(Clone, Copy, Debug, PartialEq, Eq, Hash, Structural)]
pub enum ExchangeName {
    Binance,
    Bybit,
}

/// The display name of an exchange.
pub open spec fn exchange_display(e: ExchangeName) -> Seq<char> {
    match e {
        ExchangeName::Binance => "Binance"@,
        ExchangeName::Bybit => "Bybit"@,
    }
}

impl ExchangeName {
    /// The display name (`Binance` or `Bybit`).
    pub fn to_string(&self) -> (s: String)
        ensures
            s@ == exchange_display(*self),
    {
        match self {
            ExchangeName::Binance => "Binance".to_owned(),
            ExchangeName::Bybit => "Bybit".to_owned(),
        }
    }
}

/// The rate-limit bucket a stream event falls in; order book snapshots and
/// deltas share one bucket.
#[derive(Clone, Copy, Debug, PartialEq, Eq, Structural)]
pub enum StreamBucket {
    Trade,
    OrderBook,
    Ticker,
}

/// Per-bucket rate limiting of emitted events: with an update rate set, an
/// event of a bucket is emitted only when at least the rate's duration has
/// passed since the last emitted event of that bucket.
#[derive(Clone, Debug)]
pub struct Throttle {
    pub update_rate: Option<UpdateRate>,
    pub last_trade: Option<u64>,
    pub last_order_book: Option<u64>,
    pub last_ticker: Option<u64>,
}

impl Throttle {
    /// The time the last event of `b` was emitted, in milliseconds.
    pub open spec fn last(&self, b: StreamBucket) -> Option<u64> {
        match b {
            StreamBucket::Trade => self.last_trade,
            StreamBucket::OrderBook => self.last_order_book,
            StreamBucket::Ticker => self.last_ticker,
        }
    }

    /// Whether an event of `b` at `now` (milliseconds) is emitted.
    pub open spec fn admits(&self, b: StreamBucket, now: u64) -> bool {
        match self.update_rate {
            None => true,
            Some(rate) => match self.last(b) {
                None => true,
                Some(t) => (if now >= t { now - t } else { 0 }) >= rate.duration@,
            },
        }
    }

    pub fn new(update_rate: Option<UpdateRate>) -> (t: Self)
        ensures
            t.update_rate == update_rate,
            t.last_trade is None,
            t.last_order_book is None,
            t.last_ticker is None,
    {
        Throttle { update_rate, last_trade: None, last_order_book: None, last_ticker: None }
    }

    /// Decides whether an event of bucket `b` arriving at `now` (milliseconds
    /// on a monotonic clock) is emitted, and records the emission time when a
    /// rate is set.
    pub fn should_emit(&mut self, b: StreamBucket, now: u64) -> (emit: bool)
        ensures
            emit == old(self).admits(b, now),
            final(self).update_rate == old(self).update_rate,
            forall|o: StreamBucket| o != b ==> final(self).last(o) == old(self).last(o),
            final(self).last(b) == if emit && old(self).update_rate is Some {
                Some(now)
            } else {
                old(self).last(b)
            },            (*final(self), emit) == old(self).step(b, now),
    {
        let last = match b {
            StreamBucket::Trade => self.last_trade,
            StreamBucket::OrderBook => self.last_order_book,
            StreamBucket::Ticker => self.last_ticker,
        };
        let emit = match self.update_rate {
            None => true,
            Some(rate) => match last {
                None => true,
                Some(t) => now.saturating_sub(t) as u128 >= rate.duration.as_millis(),
            },
        };
        if emit && self.update_rate.is_some() {
            match b {
                StreamBucket::Trade => self.last_trade = Some(now),
                StreamBucket::OrderBook => self.last_order_book = Some(now),
                StreamBucket::Ticker => self.last_ticker = Some(now),
            }
        }
        emit
    }
}

impl Throttle {
    /// The throttle with the emission time of `b` set to `now`.
    pub open spec fn recorded(self, b: StreamBucket, now: u64) -> Throttle {
        match b {
            StreamBucket::Trade => Throttle { last_trade: Some(now), ..self },
            StreamBucket::OrderBook => Throttle { last_order_book: Some(now), ..self },
            StreamBucket::Ticker => Throttle { last_ticker: Some(now), ..self },
        }
    }

    /// One arrival as [`Throttle::should_emit`] handles it: the throttle
    /// after it, and whether the event is emitted.
    pub open spec fn step(self, b: StreamBucket, now: u64) -> (Throttle, bool) {
        let emit = self.admits(b, now);
        (if emit && self.update_rate is Some { self.recorded(b, now) } else { self }, emit)
    }
}

/// A stream of arrivals `(bucket, time)` handled in order: the throttle after
/// them, and for each whether it was emitted.
pub open spec fn throttle_run(t: Throttle, evs: Seq<(StreamBucket, u64)>) -> (Throttle, Seq<bool>)
    decreases evs.len(),
{
    if evs.len() == 0 {
        (t, Seq::empty())
    } else {
        let (t1, es) = throttle_run(t, evs.drop_last());
        let (t2, e) = t1.step(evs.last().0, evs.last().1);
        (t2, es.push(e))
    }
}

/// What the run keeps of the emitted events: the last emission time of each
/// bucket is that of one of its arrivals, and no earlier than any emitted one.
spec fn run_records(t: Throttle, evs: Seq<(StreamBucket, u64)>) -> bool {
    let (t2, es) = throttle_run(t, evs);
    &&& es.len() == evs.len()
    &&& t2.update_rate == t.update_rate
    &&& forall|i: int|
        0 <= i < evs.len() && #[trigger] es[i] ==> t2.last(evs[i].0) is Some && t2.last(evs[i].0)->0 >= evs[i].1
    &&& forall|b: StreamBucket| #[trigger] t2.last(b) is Some ==> exists|k: int| 0 <= k < evs.len() && evs[k].1 == t2.last(b)->0
}

proof fn lemma_run_records(t: Throttle, evs: Seq<(StreamBucket, u64)>)
    requires
        t.update_rate is Some,
        t.last_trade is None && t.last_order_book is None && t.last_ticker is None,
        forall|i: int, j: int| 0 <= i <= j < evs.len() ==> evs[i].1 <= evs[j].1,
    ensures
        run_records(t, evs),
        forall|i: int, j: int|
            0 <= i < j < evs.len() && evs[i].0 == evs[j].0 && #[trigger] throttle_run(t, evs).1[i]
                && #[trigger] throttle_run(t, evs).1[j] ==> evs[j].1 - evs[i].1 >= t.update_rate->0.duration@,
    decreases evs.len(),
{
    if evs.len() > 0 {
        let pre = evs.drop_last();
        lemma_run_records(t, pre);
        let (t1, es) = throttle_run(t, pre);
        let (b, now) = evs.last();
        let (t2, e) = t1.step(b, now);
        let es2 = es.push(e);
        assert(throttle_run(t, evs) == (t2, es2));
        let n = evs.len() - 1;
        assert forall|i: int|
            0 <= i < evs.len() && #[trigger] es2[i] implies t2.last(evs[i].0) is Some && t2.last(evs[i].0)->0 >= evs[i].1 by {
            let c = evs[i].0;
            if i < n {
                assert(pre[i] == evs[i]);
                assert(es[i]);
                assert(t1.last(c) is Some && t1.last(c)->0 >= evs[i].1);
                if c == b && e {
                    assert(evs[i].1 <= now);
                }
            }
        }
        assert forall|c: StreamBucket| #[trigger] t2.last(c) is Some implies exists|k: int| 0 <= k < evs.len() && evs[k].1 == t2.last(c)->0 by {
            if c == b && e {
                assert(evs[n].1 == t2.last(c)->0);
            } else {
                assert(t1.last(c) == t2.last(c));
                let k = choose|k: int| 0 <= k < pre.len() && pre[k].1 == t1.last(c)->0;
                assert(evs[k] == pre[k]);
            }
        }
        assert forall|i: int, j: int|
            0 <= i < j < evs.len() && evs[i].0 == evs[j].0 && #[trigger] es2[i] && #[trigger] es2[j]
                implies evs[j].1 - evs[i].1 >= t.update_rate->0.duration@ by {
            assert(pre[i] == evs[i]);
            assert(es[i]);
            if j < n {
                assert(pre[j] == evs[j]);
                assert(es[j]);
                assert(throttle_run(t, pre).1[i] && throttle_run(t, pre).1[j]);
            } else {
                let x = t1.last(b)->0;
                assert(t1.last(b) is Some && x >= evs[i].1);
                let k = choose|k: int| 0 <= k < pre.len() && pre[k].1 == x;
                assert(evs[k] == pre[k]);
                assert(x <= now);
            }
        }
    }
}

/// With a rate set, over any stream of arrivals in time order, two emitted
/// events of one bucket are at least the rate's duration apart; so an event
/// arriving sooner than that after the last emitted one of its bucket is
/// dropped. Without a rate every event is emitted.
pub proof fn law_throttle_stream_spacing(t: Throttle, evs: Seq<(StreamBucket, u64)>)
    requires
        t.last_trade is None && t.last_order_book is None && t.last_ticker is None,
        forall|i: int, j: int| 0 <= i <= j < evs.len() ==> evs[i].1 <= evs[j].1,
    ensures
        throttle_run(t, evs).1.len() == evs.len(),
        t.update_rate is Some ==> forall|i: int, j: int|
            0 <= i < j < evs.len() && evs[i].0 == evs[j].0 && #[trigger] throttle_run(t, evs).1[i]
                && #[trigger] throttle_run(t, evs).1[j] ==> evs[j].1 - evs[i].1 >= t.update_rate->0.duration@,
        t.update_rate is None ==> forall|i: int| 0 <= i < evs.len() ==> #[trigger] throttle_run(t, evs).1[i],
    decreases evs.len(),
{
    if t.update_rate is Some {
        lemma_run_records(t, evs);
    } else if evs.len() > 0 {
        law_throttle_stream_spacing(t, evs.drop_last());
        let (t1, es) = throttle_run(t, evs.drop_last());
        assert(t1 == t) by {
            lemma_run_without_rate(t, evs.drop_last());
        }
    }
}

proof fn lemma_run_without_rate(t: Throttle, evs: Seq<(StreamBucket, u64)>)
    requires
        t.update_rate is None,
    ensures
        throttle_run(t, evs).0 == t,
    decreases evs.len(),
{
    if evs.len() > 0 {
        lemma_run_without_rate(t, evs.drop_last());
    }
}

/// With a rate set, once an event of a bucket is emitted at `t1`, no event of
/// that bucket arriving before `t1 + rate` is emitted.
pub proof fn law_throttle_spacing(before: Throttle, after: Throttle, b: StreamBucket, t1: u64, t2: u64)
    requires
        before.update_rate is Some,
        before.admits(b, t1),
        after.update_rate == before.update_rate,
        after.last(b) == Some(t1),
        t1 <= t2,
        t2 - t1 < before.update_rate->0.duration@,
    ensures
        !after.admits(b, t2),
{
}

} // verus!
