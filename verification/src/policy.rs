//! The admission arithmetic, on integers and without a clock or a lock.
//!
//! Time is counted in nanoseconds from the origin of whatever clock the caller
//! reads. A policy never stores tokens: it remembers one instant, the mark, up
//! to which all admitted weight has been paid for, and compares it with the
//! present.
use crate::duration::duration_from_nanos;
use crate::error::{verdict_of, Error, Verdict};
use vstd::prelude::*;

verus! {

/// The largest debt, in nanoseconds, that a request may run up: 2^64 seconds
/// less 2^64 nanoseconds. Up to it the time to wait fits a `Duration`
/// wherever the mark and the clock stand.
pub const MAX_DEBT: u128 = 0x1_0000_0000_0000_0000 * 999_999_999;

/// A rate policy: how much virtual time one token costs, and how far back
/// unused credit reaches.
#[derive(Clone, Copy, Debug)]
pub struct Policy {
    /// Nanoseconds of virtual time that one token stands for. Zero marks a
    /// policy that admits nothing, ever.
    pub cost_per_token: u128,
    /// Width of the window in nanoseconds.
    pub interval: u128,
}

impl Policy {
    /// The policy that spreads `limit` tokens evenly over `interval`
    /// nanoseconds. With no tokens to spread there is no cost per token.
    pub open spec fn configured(limit: usize, interval: u128) -> Policy {
        Policy {
            cost_per_token: if limit > 0 {
                (interval / (limit as u128)) as u128
            } else {
                0
            },
            interval,
        }
    }

    /// A policy with no cost per token admits nothing.
    pub open spec fn is_blocked(self) -> bool {
        self.cost_per_token == 0
    }

    /// The earliest instant from which credit still counts at `now`: one
    /// interval back, or `now` itself where the clock has not yet run for a
    /// whole interval.
    pub open spec fn window_start(self, now: u64) -> int {
        if now >= self.interval {
            now - self.interval
        } else {
            now as int
        }
    }

    /// Virtual time that a request of `tokens` tokens has to pay for.
    pub open spec fn debt(self, tokens: nat) -> int {
        tokens * self.cost_per_token
    }

    /// The instant from which the next request is charged: the mark, unless
    /// it is absent or has fallen out of the window.
    pub open spec fn charge_from(self, mark: Option<u64>, now: u64) -> int {
        let start = self.window_start(now);
        match mark {
            Some(m) => if m >= start { m as int } else { start },
            None => start,
        }
    }

    /// The instant at which a request of `tokens` tokens is paid for.
    pub open spec fn required(self, mark: Option<u64>, now: u64, tokens: nat) -> int {
        self.charge_from(mark, now) + self.debt(tokens)
    }

    /// The decision on a request of `tokens` tokens made at `now` with the
    /// mark at `mark`.
    pub open spec fn decision(self, mark: Option<u64>, now: u64, tokens: nat) -> Verdict {
        if self.is_blocked() {
            Verdict::Blocked
        } else if self.required(mark, now, tokens) > now {
            Verdict::RetryAfter((self.required(mark, now, tokens) - now) as nat)
        } else {
            Verdict::Admit
        }
    }

    /// The mark after that decision: moved to the required instant where the
    /// request is admitted, untouched otherwise.
    pub open spec fn next_mark(self, mark: Option<u64>, now: u64, tokens: nat) -> Option<u64> {
        if self.decision(mark, now, tokens) is Admit {
            Some(self.required(mark, now, tokens) as u64)
        } else {
            mark
        }
    }

    /// Builds the policy for `limit` tokens per `interval` nanoseconds. A
    /// limit of zero gives a blocked policy, and so does an interval shorter
    /// than `limit` nanoseconds.
    pub fn new(limit: usize, interval: u128) -> (p: Policy)
        ensures
            p == Policy::configured(limit, interval),
            limit == 0 || interval == 0 ==> p.is_blocked(),
    {
        let cost: u128 = if limit > 0 {
            interval / (limit as u128)
        } else {
            0
        };
        Policy { cost_per_token: cost, interval }
    }

    /// Decides on a request of `tokens` tokens at `now` and commits it to
    /// `mark` where it is admitted. A request that is turned away leaves
    /// `mark` as it was.
    pub fn admit_at(&self, mark: &mut Option<u64>, now: u64, tokens: usize) -> (r: Result<
        (),
        Error,
    >)
        requires
            tokens * self.cost_per_token <= MAX_DEBT,
        ensures
            verdict_of(r) == self.decision(*old(mark), now, tokens as nat),
            *final(mark) == self.next_mark(*old(mark), now, tokens as nat),
            r is Err ==> *final(mark) == *old(mark),
    {
        if self.cost_per_token == 0 {
            return Err(Error::Blocked);
        }
        let start: u64 = if (now as u128) >= self.interval {
            now - (self.interval as u64)
        } else {
            now
        };
        let from: u64 = match *mark {
            Some(m) => if m >= start { m } else { start },
            None => start,
        };
        let debt: u128 = (tokens as u128) * self.cost_per_token;
        let required: u128 = (from as u128) + debt;
        if required > now as u128 {
            let wait: u128 = required - (now as u128);
            Err(Error::RetryAfter(duration_from_nanos(wait)))
        } else {
            *mark = Some(required as u64);
            Ok(())
        }
    }
}

} // verus!
