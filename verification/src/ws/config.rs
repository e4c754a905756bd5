//! Configuration for a WebSocket connection and its reconnect policy.
use vstd::prelude::*;

use crate::time::Duration;

verus! {

/// Configuration for a WebSocket connection.
#[derive(Clone, Debug)]
pub struct WsConfig {
    /// WebSocket endpoint URL (e.g. `wss://stream.binance.com:9443/ws`).
    pub url: String,
    /// Optional HTTP headers sent with the upgrade request.
    pub headers: Vec<(String, String)>,
    /// How often to send pings to keep the connection alive; `None` disables them.
    pub ping_interval: Option<Duration>,
    /// Maximum time to wait for a pong response before considering the connection dead.
    pub pong_timeout: Duration,
    /// Reconnection policy when the connection drops.
    pub reconnect: ReconnectConfig,
}

/// Reconnection policy with exponential backoff.
#[derive(Clone, Debug)]
pub struct ReconnectConfig {
    /// Maximum number of reconnection attempts. 0 = no reconnect.
    pub max_retries: u32,
    /// Initial delay before the first reconnect.
    pub initial_delay: Duration,
    /// Maximum delay between reconnect attempts.
    pub max_delay: Duration,
    /// If true, adds random jitter to each delay to avoid thundering herds.
    pub jitter: bool,
}

/// `2^n`.
pub open spec fn two_pow(n: nat) -> nat
    decreases n,
{
    if n == 0 {
        1
    } else {
        2 * two_pow((n - 1) as nat)
    }
}

/// `2^n`, saturated at `u128::MAX` (`2u128.saturating_pow(n)`).
pub open spec fn two_pow_sat(n: nat) -> nat {
    if two_pow(n) > u128::MAX {
        u128::MAX as nat
    } else {
        two_pow(n)
    }
}

impl ReconnectConfig {
    /// The backoff before jitter: `min(initial_delay * 2^retry, max_delay)`.
    pub open spec fn backoff(&self, retry: u32) -> nat {
        let base = self.initial_delay@ * two_pow(retry as nat);
        if base <= self.max_delay@ {
            base
        } else {
            self.max_delay@
        }
    }

    /// The backoff for `retry` without jitter.
    pub fn backoff_delay(&self, retry: u32) -> (d: Duration)
        ensures
            d@ == self.backoff(retry),
    {
        let exp = saturating_two_pow(retry);
        let init = self.initial_delay.as_millis();
        let max = self.max_delay.as_millis();
        let ghost p = two_pow(retry as nat);
        proof {
            lemma_two_pow_positive(retry as nat);
        }
        // `init * exp`, saturated at `u128::MAX`: above every `max`.
        let base = if init > u128::MAX / exp {
            proof {
                assert(init * exp > u128::MAX) by (nonlinear_arith)
                    requires
                        exp > 0,
                        init > u128::MAX / exp,
                ;
                assert(init * p >= init * exp) by (nonlinear_arith)
                    requires
                        p >= exp,
                ;
            }
            u128::MAX
        } else {
            proof {
                assert(init * exp <= u128::MAX) by (nonlinear_arith)
                    requires
                        exp > 0,
                        init <= u128::MAX / exp,
                ;
                if p > u128::MAX {
                    // `exp` saturated, so `init` is 0 or 1.
                    assert(init <= 1) by (nonlinear_arith)
                        requires
                            exp == u128::MAX,
                            init * exp <= u128::MAX,
                    ;
                    if init == 1 {
                        assert(init * p == p) by (nonlinear_arith)
                            requires
                                init == 1,
                        ;
                    } else {
                        assert(init * p == 0) by (nonlinear_arith)
                            requires
                                init == 0,
                        ;
                    }
                }
            }
            init * exp
        };
        let clamped = if base < max { base } else { max };
        Duration::from_millis_wide(clamped)
    }

    /// The delay for `retry` when the random jitter drawn is `jitter_ms`;
    /// a sum past `u128::MAX` milliseconds saturates.
    pub fn delay_with_jitter(&self, retry: u32, jitter_ms: u128) -> (d: Duration)
        requires
            jitter_ms <= self.backoff(retry) / 4,
        ensures
            d@ == if self.jitter {
                if self.backoff(retry) + jitter_ms <= u128::MAX { self.backoff(retry) + jitter_ms } else { u128::MAX as int }
            } else {
                self.backoff(retry) as int
            },
    {
        let clamped = self.backoff_delay(retry).as_millis();
        if self.jitter {
            Duration::from_millis_wide(clamped.saturating_add(jitter_ms))
        } else {
            Duration::from_millis_wide(clamped)
        }
    }

    /// Calculate the delay for the nth retry (0-indexed): the backoff, plus
    /// a random jitter of up to a quarter of it when `jitter` is set.
    pub fn delay(&self, retry: u32) -> (d: Duration)
        ensures
            !self.jitter ==> d@ == self.backoff(retry),
            self.jitter ==> self.backoff(retry) <= d@ <= self.backoff(retry) + self.backoff(retry) / 4,
    {
        let clamped = self.backoff_delay(retry).as_millis();
        if self.jitter {
            let jitter = random_up_to(clamped / 4);
            self.delay_with_jitter(retry, jitter)
        } else {
            self.delay_with_jitter(retry, 0)
        }
    }
}

/// `2^n` is positive.
proof fn lemma_two_pow_positive(n: nat)
    ensures
        two_pow(n) >= 1,
        two_pow_sat(n) <= two_pow(n),
    decreases n,
{
    if n > 0 {
        lemma_two_pow_positive((n - 1) as nat);
    }
}

/// A uniformly random integer in `0..=hi`, from `fastrand::u128(0..=hi)`.
/// The range is never empty, so the call does not panic; only the bounds of
/// the result are claimed.
#[verifier::external_body]
fn random_up_to(hi: u128) -> (r: u128)
    ensures
        r <= hi,
{
    fastrand::u128(0..=hi)
}

/// `2u128.saturating_pow(n)`.
fn saturating_two_pow(n: u32) -> (r: u128)
    ensures
        r as nat == two_pow_sat(n as nat),
        r > 0,
{
    let mut r: u128 = 1;
    let mut i: u32 = 0;
    while i < n
        invariant
            i <= n,
            r as nat == two_pow_sat(i as nat),
            r > 0,
        decreases n - i,
    {
        proof {
            assert(two_pow((i + 1) as nat) == 2 * two_pow(i as nat));
        }
        if r > u128::MAX / 2 {
            r = u128::MAX;
        } else {
            r = r * 2;
        }
        i = i + 1;
    }
    r
}

impl Default for ReconnectConfig {
    fn default() -> (c: Self)
        ensures
            c.max_retries == 5,
            c.initial_delay@ == 500,
            c.max_delay@ == 30000,
            c.jitter,
    {
        ReconnectConfig {
            max_retries: 5,
            initial_delay: Duration::from_millis(500),
            max_delay: Duration::from_secs(30),
            jitter: true,
        }
    }
}

impl WsConfig {
    pub fn new(url: &str) -> (c: Self)
        ensures
            c.url@ == url@,
            c.headers@.len() == 0,
            c.ping_interval is None,
            c.pong_timeout@ == 10000,
            c.reconnect.max_retries == 5,
            c.reconnect.initial_delay@ == 500,
            c.reconnect.max_delay@ == 30000,
            c.reconnect.jitter,
    {
        WsConfig {
            url: url.to_owned(),
            headers: Vec::new(),
            ping_interval: None,
            pong_timeout: Duration::from_secs(10),
            reconnect: ReconnectConfig::default(),
        }
    }

    pub fn with_header(self, key: &str, value: &str) -> (c: Self)
        ensures
            c.url == self.url,
            c.headers@.len() == self.headers@.len() + 1,
            forall|i: int| 0 <= i < self.headers@.len() ==> c.headers@[i] == self.headers@[i],
            c.headers@.last().0@ == key@,
            c.headers@.last().1@ == value@,
            c.ping_interval == self.ping_interval,
            c.pong_timeout == self.pong_timeout,
            c.reconnect == self.reconnect,
    {
        let mut c = self;
        c.headers.push((key.to_owned(), value.to_owned()));
        c
    }

    pub fn with_ping_interval(self, interval: Duration) -> (c: Self)
        ensures
            c.ping_interval == Some(interval),
            c.url == self.url,
            c.headers == self.headers,
            c.pong_timeout == self.pong_timeout,
            c.reconnect == self.reconnect,
    {
        let mut c = self;
        c.ping_interval = Some(interval);
        c
    }

    pub fn with_reconnect(self, config: ReconnectConfig) -> (c: Self)
        ensures
            c.reconnect == config,
            c.url == self.url,
            c.headers == self.headers,
            c.ping_interval == self.ping_interval,
            c.pong_timeout == self.pong_timeout,
    {
        let mut c = self;
        c.reconnect = config;
        c
    }
}

/// Without jitter the backoff never shrinks from one retry to the next.
pub proof fn law_backoff_non_decreasing(c: ReconnectConfig, retry: u32)
    requires
        retry < u32::MAX,
    ensures
        c.backoff(retry) <= c.backoff((retry + 1) as u32),
{
    let a = two_pow(retry as nat);
    let b = two_pow((retry + 1) as nat);
    assert(b == 2 * a);
    assert(c.initial_delay@ * a <= c.initial_delay@ * b) by (nonlinear_arith)
        requires
            a <= b,
    ;
}

/// Below the cap, each retry doubles the backoff.
pub proof fn law_backoff_doubles_below_cap(c: ReconnectConfig, retry: u32)
    requires
        retry < u32::MAX,
        c.initial_delay@ * two_pow((retry + 1) as nat) <= c.max_delay@,
    ensures
        c.backoff((retry + 1) as u32) == 2 * c.backoff(retry),
{
    assert(two_pow((retry + 1) as nat) == 2 * two_pow(retry as nat));
    let a = two_pow(retry as nat);
    assert(c.initial_delay@ * (2 * a) == 2 * (c.initial_delay@ * a)) by (nonlinear_arith);
    assert(c.initial_delay@ * a <= c.initial_delay@ * (2 * a)) by (nonlinear_arith);
}

} // verus!
