//! One rate policy with its clock and its mark.
use crate::clock::{Clock, MonotonicClock};
use crate::duration::duration_nanos;
use crate::error::{verdict_of, Error};
use crate::policy::{Policy, MAX_DEBT};
use std::time::Duration;
use vstd::prelude::*;
use vstd::rwlock::{RwLock, RwLockPredicate};

verus! {

/// What the lock of a bucket accepts: any mark, or none.
pub struct AnyMark;

impl RwLockPredicate<Option<u64>> for AnyMark {
    open spec fn inv(self, mark: Option<u64>) -> bool {
        true
    }
}

/// A token bucket.
///
/// Tokens are added at a constant rate up to the bucket's capacity. A request
/// costs a number of tokens: it is admitted and the tokens are taken where the
/// bucket holds that many, and turned away with nothing taken where it does
/// not.
///
/// The bucket keeps no count. It keeps the instant up to which the admitted
/// requests have been paid for, behind a lock, so that it can be shared
/// between threads.
pub struct TokenBucket<C: Clock> {
    policy: Policy,
    mark: RwLock<Option<u64>, AnyMark>,
    clock: C,
}

impl<C: Clock> View for TokenBucket<C> {
    type V = Policy;

    closed spec fn view(&self) -> Policy {
        self.policy
    }
}

impl TokenBucket<MonotonicClock> {
    /// A bucket of `limit` tokens that are added evenly over `interval`, on
    /// the system's monotonic clock.
    ///
    /// With a `limit` or an `interval` of zero the bucket is blocked.
    pub fn new(limit: usize, interval: Duration) -> (bucket: Self)
        ensures
            bucket@ == Policy::configured(limit, duration_nanos(interval) as u128),
            limit == 0 || duration_nanos(interval) == 0 ==> bucket@.is_blocked(),
    {
        TokenBucket::with_timer(limit, interval, MonotonicClock::start())
    }
}

impl<C: Clock> TokenBucket<C> {
    #[verifier::type_invariant]
    spec fn well_formed(&self) -> bool {
        self.clock.ready()
    }

    /// The clock that the bucket reads.
    pub closed spec fn clock(&self) -> C {
        self.clock
    }

    /// Whether `r` answers a request of `tokens` tokens made at some instant
    /// that the bucket's clock may report, with the mark at some position.
    pub open spec fn answers(&self, tokens: usize, r: Result<(), Error>) -> bool {
        exists|mark: Option<u64>, now: u64|
            self.clock().reports(now) && #[trigger] self@.decision(mark, now, tokens as nat)
                == verdict_of(r)
    }

    /// A bucket of `limit` tokens that are added evenly over `interval`, on
    /// the given clock.
    pub fn with_timer(limit: usize, interval: Duration, clock: C) -> (bucket: Self)
        requires
            clock.ready(),
        ensures
            bucket@ == Policy::configured(limit, duration_nanos(interval) as u128),
            limit == 0 || duration_nanos(interval) == 0 ==> bucket@.is_blocked(),
            bucket.clock() == clock,
    {
        TokenBucket {
            policy: Policy::new(limit, interval.as_nanos()),
            mark: RwLock::new(None, Ghost(AnyMark)),
            clock,
        }
    }

    /// The bucket's policy.
    pub fn policy(&self) -> (policy: Policy)
        ensures
            policy == self@,
    {
        self.policy
    }

    /// Tries to take `tokens` tokens from the bucket.
    ///
    /// A blocked bucket answers `Error::Blocked` without reading its clock.
    /// Any other bucket reads the clock once and decides as its policy says
    /// for that instant and the mark it finds: `Ok` where the tokens are
    /// there, and then the mark moves; `Error::RetryAfter` with the time
    /// still missing where they are not, and then the mark stays.
    pub fn consume(&self, tokens: usize) -> (r: Result<(), Error>)
        requires
            tokens * self@.cost_per_token <= MAX_DEBT,
        ensures
            self@.is_blocked() <==> verdict_of(r) is Blocked,
            !self@.is_blocked() ==> self.answers(tokens, r),
    {
        proof {
            use_type_invariant(self);
        }
        if self.policy.cost_per_token == 0 {
            return Err(Error::Blocked);
        }
        let now: u64 = self.clock.now();
        let (mut mark, handle) = self.mark.acquire_write();
        let ghost found = mark;
        let r = self.policy.admit_at(&mut mark, now, tokens);
        handle.release_write(mark);
        assert(self@.decision(found, now, tokens as nat) == verdict_of(r));
        r
    }
}

} // verus!
