//! One bucket per key.
use crate::clock::{Clock, MonotonicClock};
use crate::duration::duration_nanos;
use crate::error::{verdict_of, Error};
use crate::policy::{Policy, MAX_DEBT};
use crate::token_bucket::TokenBucket;
use std::collections::HashMap;
use std::hash::Hash;
use std::time::Duration;
use vstd::prelude::*;
use vstd::std_specs::hash::obeys_key_model;

verus! {

broadcast use vstd::std_specs::hash::group_hash_axioms;

/// The policy that one registration asks for.
pub open spec fn policy_of<K>(entry: (K, usize, Duration)) -> Policy {
    Policy::configured(entry.1, duration_nanos(entry.2) as u128)
}

/// Whether some registration in `limits` is for `key`.
pub open spec fn registers<K>(limits: Seq<(K, usize, Duration)>, key: K) -> bool {
    exists|i: int| 0 <= i < limits.len() && (#[trigger] limits[i]).0 == key
}

/// Whether registration `i` is the last one in `limits` for its key.
pub open spec fn is_last_for_key<K>(limits: Seq<(K, usize, Duration)>, i: int) -> bool {
    &&& 0 <= i < limits.len()
    &&& forall|j: int| i < j < limits.len() ==> (#[trigger] limits[j]).0 != limits[i].0
}

/// A rate limiter: it says how often each of a set of events may happen.
///
/// An event is named by a key. A key with a policy has a token bucket of its
/// own, which no other key touches. A key without one is always admitted.
/// The set of keys is fixed when the limiter is built.
pub struct RateLimiter<K, C: Clock> {
    buckets: HashMap<K, TokenBucket<C>>,
}

/// Collects the policies of a [`RateLimiter`] before it is built.
pub struct RateLimiterBuilder<K, C: Clock> {
    limits: Vec<(K, usize, Duration)>,
    clock: C,
}

impl<K> RateLimiter<K, MonotonicClock> {
    /// Starts the configuration of a limiter on the system's monotonic
    /// clock.
    pub fn configure() -> (builder: RateLimiterBuilder<K, MonotonicClock>)
        ensures
            builder.limits() == Seq::<(K, usize, Duration)>::empty(),
    {
        RateLimiter::with_timer(MonotonicClock::start())
    }
}

impl<K, C: Clock> RateLimiter<K, C> {
    /// The bucket of each key that has a policy.
    pub closed spec fn buckets(&self) -> Map<K, TokenBucket<C>> {
        self.buckets@
    }

    /// Starts the configuration of a limiter on the given clock.
    pub fn with_timer(clock: C) -> (builder: RateLimiterBuilder<K, C>)
        requires
            clock.ready(),
        ensures
            builder.limits() == Seq::<(K, usize, Duration)>::empty(),
            builder.clock() == clock,
    {
        RateLimiterBuilder { limits: Vec::new(), clock }
    }
}

impl<K, C: Clock> View for RateLimiter<K, C> {
    type V = Map<K, Policy>;

    /// The policy of each key that has one.
    open spec fn view(&self) -> Map<K, Policy> {
        self.buckets().map_values(|bucket: TokenBucket<C>| bucket@)
    }
}

impl<K: Eq + Hash, C: Clock> RateLimiter<K, C> {
    /// The policy of `key`, if it has one.
    pub fn policy(&self, key: &K) -> (policy: Option<Policy>)
        requires
            obeys_key_model::<K>(),
        ensures
            policy == if self@.contains_key(*key) {
                Some(self@[*key])
            } else {
                None
            },
    {
        match self.buckets.get(key) {
            Some(bucket) => Some(bucket.policy()),
            None => None,
        }
    }

    /// Tries to take `tokens` tokens from the bucket of `key`.
    ///
    /// A key without a policy is admitted, and no clock is read. For any
    /// other key the answer is the one that its bucket gives.
    pub fn consume(&self, key: K, tokens: usize) -> (r: Result<(), Error>)
        requires
            obeys_key_model::<K>(),
            self@.contains_key(key) ==> tokens * self@[key].cost_per_token <= MAX_DEBT,
        ensures
            !self@.contains_key(key) ==> r == Ok::<(), Error>(()),
            self@.contains_key(key) ==> {
                &&& self@[key].is_blocked() <==> verdict_of(r) is Blocked
                &&& !self@[key].is_blocked() ==> self.buckets()[key].answers(tokens, r)
            },
    {
        match self.buckets.get(&key) {
            Some(bucket) => bucket.consume(tokens),
            None => Ok(()),
        }
    }
}

impl<K, C: Clock> RateLimiterBuilder<K, C> {
    #[verifier::type_invariant]
    spec fn well_formed(&self) -> bool {
        self.clock.ready()
    }

    /// The registrations made so far, oldest first.
    pub closed spec fn limits(&self) -> Seq<(K, usize, Duration)> {
        self.limits@
    }

    /// The clock that every bucket of the limiter will read.
    pub closed spec fn clock(&self) -> C {
        self.clock
    }

    /// Registers a policy for `key`: `limit` events per `interval`.
    ///
    /// A key may be registered more than once. The last registration is the
    /// one that counts.
    pub fn limit(self, key: K, limit: usize, interval: Duration) -> (builder: Self)
        ensures
            builder.limits() == self.limits().push((key, limit, interval)),
            builder.clock() == self.clock(),
    {
        proof {
            use_type_invariant(&self);
        }
        let mut limits = self.limits;
        limits.push((key, limit, interval));
        RateLimiterBuilder { limits, clock: self.clock }
    }
}

impl<K: Eq + Hash, C: Clock + Copy> RateLimiterBuilder<K, C> {
    /// Builds the limiter. Each registered key gets a fresh bucket with the
    /// policy of its last registration, and all buckets read the one clock.
    pub fn done(self) -> (limiter: RateLimiter<K, C>)
        requires
            obeys_key_model::<K>(),
        ensures
            forall|key: K| limiter@.contains_key(key) <==> registers(self.limits(), key),
            forall|i: int|
                is_last_for_key(self.limits(), i) ==> limiter@[(#[trigger] self.limits()[i]).0]
                    == policy_of(self.limits()[i]),
            forall|key: K|
                limiter@.contains_key(key) ==> (#[trigger] limiter.buckets()[key]).clock()
                    == self.clock(),
    {
        proof {
            use_type_invariant(&self);
        }
        let clock = self.clock;
        let ghost all = self.limits@;
        let mut buckets: HashMap<K, TokenBucket<C>> = HashMap::new();
        for entry in it: self.limits
            invariant
                obeys_key_model::<K>(),
                clock.ready(),
                it.seq() == all,
                forall|key: K|
                    buckets@.contains_key(key) <==> registers(all.take(it.index() as int), key),
                forall|i: int|
                    is_last_for_key(all.take(it.index() as int), i) ==> {
                        &&& buckets@.contains_key((#[trigger] all[i]).0)
                        &&& buckets@[all[i].0]@ == policy_of(all[i])
                    },
                forall|key: K|
                    buckets@.contains_key(key) ==> (#[trigger] buckets@[key]).clock() == clock,
        {
            let ghost n = it.index() as int;
            let ghost before = buckets@;
            let (key, limit, interval) = entry;
            let bucket = TokenBucket::with_timer(limit, interval, clock);
            buckets.insert(key, bucket);
            proof {
                let seen = all.take(n);
                let grown = all.take(n + 1);
                assert forall|k: K| buckets@.contains_key(k) <==> registers(grown, k) by {
                    if k == key {
                        assert(grown[n].0 == k);
                    } else if before.contains_key(k) {
                        let i = choose|i: int| 0 <= i < seen.len() && (#[trigger] seen[i]).0 == k;
                        assert(grown[i] == seen[i]);
                    } else if registers(grown, k) {
                        let i = choose|i: int|
                            0 <= i < grown.len() && (#[trigger] grown[i]).0 == k;
                        assert(i < n);
                        assert(seen[i] == grown[i]);
                    }
                }
                assert forall|i: int| is_last_for_key(grown, i) implies {
                    &&& buckets@.contains_key((#[trigger] all[i]).0)
                    &&& buckets@[all[i].0]@ == policy_of(all[i])
                } by {
                    assert(grown[i] == all[i]);
                    if i < n {
                        assert(grown[n].0 != grown[i].0);
                        assert forall|j: int| i < j < seen.len() implies (#[trigger] seen[j]).0
                            != seen[i].0 by {
                            assert(grown[j] == seen[j]);
                        }
                        assert(is_last_for_key(seen, i));
                    }
                }
            }
        }
        proof {
            assert(all.take(all.len() as int) =~= all);
        }
        RateLimiter { buckets }
    }
}

} // verus!
