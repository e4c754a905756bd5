//! Reconnection attempts with exponential backoff.
use vstd::prelude::*;

use crate::time::Duration;
use crate::ws::config::ReconnectConfig;

verus! {

/// State tracker for reconnection attempts.
#[derive(Clone, Debug)]
pub struct Reconnect {
    config: ReconnectConfig,
    attempt: u32,
}

impl Reconnect {
    /// The policy the tracker follows.
    pub closed spec fn policy(&self) -> ReconnectConfig {
        self.config
    }

    /// The number of delays handed out since creation or the last reset.
    pub closed spec fn attempts(&self) -> u32 {
        self.attempt
    }

    /// The attempt counter never passes the retry limit.
    pub closed spec fn wf(&self) -> bool {
        self.attempt <= self.config.max_retries
    }

    pub fn new(config: ReconnectConfig) -> (r: Self)
        ensures
            r.policy() == config,
            r.attempts() == 0,
            r.wf(),
    {
        Self { config, attempt: 0 }
    }

    /// Returns the delay before the next reconnect attempt, or `None` if the
    /// maximum number of retries has been reached.
    pub fn next_delay(&mut self) -> (d: Option<Duration>)
        ensures
            final(self).policy() == old(self).policy(),
            old(self).attempts() >= old(self).policy().max_retries ==> d is None && final(self).attempts()
                == old(self).attempts(),
            old(self).attempts() < old(self).policy().max_retries ==> {
                &&& final(self).attempts() == old(self).attempts() + 1
                &&& d matches Some(v) && (!old(self).policy().jitter ==> v@ == old(self).policy().backoff(
                    old(self).attempts(),
                )) && (old(self).policy().jitter ==> old(self).policy().backoff(old(self).attempts()) <= v@
                    <= old(self).policy().backoff(old(self).attempts()) + old(self).policy().backoff(
                    old(self).attempts(),
                ) / 4)
            },
            old(self).wf() ==> final(self).wf(),
    {
        if self.attempt >= self.config.max_retries {
            return None;
        }
        let delay = self.config.delay(self.attempt);
        self.attempt = self.attempt + 1;
        Some(delay)
    }

    /// Reset the attempt counter (e.g. after a successful connection).
    pub fn reset(&mut self)
        ensures
            final(self).attempts() == 0,
            final(self).policy() == old(self).policy(),
            final(self).wf(),
    {
        self.attempt = 0;
    }

    /// The current attempt number (0-based).
    pub fn attempt(&self) -> (a: u32)
        ensures
            a == self.attempts(),
    {
        self.attempt
    }

    /// Whether the maximum number of retries has been reached.
    pub fn is_exhausted(&self) -> (b: bool)
        ensures
            b == (self.attempts() >= self.policy().max_retries),
    {
        self.attempt >= self.config.max_retries
    }
}

/// How a connection was lost.
#[derive(Clone, Copy, Debug, PartialEq, Eq, Structural)]
pub enum ConnectionLoss {
    /// The peer closed the connection, or there was none.
    Closed,
    /// Reading from the connection failed.
    Failed,
    /// Every reconnect attempt that the policy allows has failed.
    ReconnectsExhausted,
}

/// What a client does when its connection is lost.
#[derive(Clone, Copy, Debug, PartialEq, Eq, Structural)]
pub enum Recovery {
    /// Reconnect with backoff; when every attempt fails, the stream ends.
    Reconnect,
    /// Report the end of the stream.
    EndOfStream,
    /// Report the read error.
    Fail,
}

impl ReconnectConfig {
    /// The client reconnects whenever the policy allows any retry; without
    /// retries a closed connection ends the stream and a failed read is
    /// reported. Once every reconnect attempt has failed, the stream ends.
    pub fn on_connection_lost(&self, loss: ConnectionLoss) -> (r: Recovery)
        ensures
            loss == ConnectionLoss::ReconnectsExhausted ==> r == Recovery::EndOfStream,
            loss != ConnectionLoss::ReconnectsExhausted && self.max_retries > 0 ==> r == Recovery::Reconnect,
            self.max_retries == 0 ==> r == (match loss {
                ConnectionLoss::Closed => Recovery::EndOfStream,
                ConnectionLoss::Failed => Recovery::Fail,
                ConnectionLoss::ReconnectsExhausted => Recovery::EndOfStream,
            }),
    {
        match loss {
            ConnectionLoss::ReconnectsExhausted => Recovery::EndOfStream,
            _ => if self.max_retries > 0 {
                Recovery::Reconnect
            } else {
                match loss {
                    ConnectionLoss::Failed => Recovery::Fail,
                    _ => Recovery::EndOfStream,
                }
            },
        }
    }
}

/// The attempt counter after `k` calls of `next_delay` starting from `a`.
pub open spec fn attempts_after(a: nat, max: nat, k: nat) -> nat
    decreases k,
{
    if k == 0 {
        a
    } else {
        let prev = attempts_after(a, max, (k - 1) as nat);
        if prev < max {
            prev + 1
        } else {
            prev
        }
    }
}

/// From a fresh or reset tracker, the first `max_retries` calls of
/// `next_delay` hand out a delay and every later call answers `None`:
/// after `k` calls the counter stands at `min(k, max_retries)`.
pub proof fn law_retries_exhaust(max: nat, k: nat)
    ensures
        attempts_after(0, max, k) == if k <= max { k } else { max },
    decreases k,
{
    if k > 0 {
        law_retries_exhaust(max, (k - 1) as nat);
    }
}

} // verus!
