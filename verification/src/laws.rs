//! What holds of every policy, proved from the definitions in `policy`.
use crate::error::Verdict;
use crate::policy::Policy;
use vstd::arithmetic::div_mod::lemma_fundamental_div_mod;
use vstd::arithmetic::mul::{lemma_mul_inequality, lemma_mul_is_distributive_add_other_way};
use vstd::prelude::*;

verus! {

/// The mark after `n` requests of one token each, all made at `now`, starting
/// from `mark`.
pub open spec fn after_burst(policy: Policy, mark: Option<u64>, now: u64, n: nat) -> Option<u64>
    decreases n,
{
    if n == 0 {
        mark
    } else {
        policy.next_mark(after_burst(policy, mark, now, (n - 1) as nat), now, 1)
    }
}

/// Whether the bucket is full at `now`: nothing was ever taken, or what was
/// taken has been paid for by the start of the window.
pub open spec fn is_full(policy: Policy, mark: Option<u64>, now: u64) -> bool {
    match mark {
        Some(m) => m <= policy.window_start(now),
        None => true,
    }
}

/// Whether a burst of unit requests can be followed on a bucket of `limit`
/// tokens per `interval` nanoseconds at `now`: the bucket is not blocked, and
/// the clock has run for a whole interval.
pub open spec fn burst_ready(limit: usize, interval: u128, now: u64) -> bool {
    &&& limit > 0
    &&& !Policy::configured(limit, interval).is_blocked()
    &&& now >= interval
}

/// From a full bucket, `k` unit requests at one instant, with `k` at most the
/// limit, are all admitted and leave the mark `k` tokens past the start of
/// the window.
proof fn lemma_burst_position(limit: usize, interval: u128, mark: Option<u64>, now: u64, k: nat)
    requires
        burst_ready(limit, interval, now),
        is_full(Policy::configured(limit, interval), mark, now),
        1 <= k <= limit,
    ensures
        after_burst(Policy::configured(limit, interval), mark, now, k) == Some(
            (now - interval + k * Policy::configured(limit, interval).cost_per_token) as u64,
        ),
        k * Policy::configured(limit, interval).cost_per_token <= interval,
        Policy::configured(limit, interval).decision(
            after_burst(Policy::configured(limit, interval), mark, now, (k - 1) as nat),
            now,
            1,
        ) is Admit,
    decreases k,
{
    let policy = Policy::configured(limit, interval);
    let cost = policy.cost_per_token as int;
    lemma_fundamental_div_mod(interval as int, limit as int);
    lemma_mul_inequality(k as int, limit as int, cost);
    assert(k * cost <= interval) by (nonlinear_arith)
        requires
            k * cost <= limit * cost,
            interval == limit * cost + (interval as int) % (limit as int),
            0 <= (interval as int) % (limit as int),
    ;
    if k == 1 {
        assert(after_burst(policy, mark, now, 0) == mark);
    } else {
        lemma_burst_position(limit, interval, mark, now, (k - 1) as nat);
        lemma_mul_is_distributive_add_other_way(cost, (k - 1) as int, 1);
    }
}

/// A full bucket of `limit` tokens admits `limit` unit requests made at one
/// instant. It turns the next one away, for the time that is missing to one
/// more token, unless the division of the interval by `limit` leaves a
/// remainder of a whole token or more: then that request is admitted too.
pub proof fn lemma_burst_drains_bucket(limit: usize, interval: u128, mark: Option<u64>, now: u64)
    requires
        burst_ready(limit, interval, now),
        is_full(Policy::configured(limit, interval), mark, now),
    ensures
        forall|k: nat|
            k < limit ==> Policy::configured(limit, interval).decision(
                #[trigger] after_burst(Policy::configured(limit, interval), mark, now, k),
                now,
                1,
            ) is Admit,
        Policy::configured(limit, interval).decision(
            after_burst(Policy::configured(limit, interval), mark, now, limit as nat),
            now,
            1,
        ) == if interval % (limit as u128) < Policy::configured(limit, interval).cost_per_token {
            Verdict::RetryAfter(
                ((limit + 1) * Policy::configured(limit, interval).cost_per_token - interval) as nat,
            )
        } else {
            Verdict::Admit
        },
{
    let policy = Policy::configured(limit, interval);
    let cost = policy.cost_per_token as int;
    assert forall|k: nat| k < limit implies policy.decision(
        #[trigger] after_burst(policy, mark, now, k),
        now,
        1,
    ) is Admit by {
        lemma_burst_position(limit, interval, mark, now, k + 1);
    }
    lemma_burst_position(limit, interval, mark, now, limit as nat);
    lemma_fundamental_div_mod(interval as int, limit as int);
    lemma_mul_is_distributive_add_other_way(cost, limit as int, 1);
}

/// One interval after a bucket was drained by a burst, it is full again: it
/// admits `limit` unit requests once more, as `lemma_burst_drains_bucket`
/// says of every full bucket.
pub proof fn lemma_bucket_refills_after_interval(
    limit: usize,
    interval: u128,
    mark: Option<u64>,
    now: u64,
)
    requires
        burst_ready(limit, interval, now),
        is_full(Policy::configured(limit, interval), mark, now),
        now + interval <= u64::MAX,
    ensures
        is_full(
            Policy::configured(limit, interval),
            after_burst(Policy::configured(limit, interval), mark, now, limit as nat),
            (now + interval) as u64,
        ),
        forall|k: nat|
            k < limit ==> Policy::configured(limit, interval).decision(
                #[trigger] after_burst(
                    Policy::configured(limit, interval),
                    after_burst(Policy::configured(limit, interval), mark, now, limit as nat),
                    (now + interval) as u64,
                    k,
                ),
                (now + interval) as u64,
                1,
            ) is Admit,
        Policy::configured(limit, interval).decision(
            after_burst(
                Policy::configured(limit, interval),
                after_burst(Policy::configured(limit, interval), mark, now, limit as nat),
                (now + interval) as u64,
                limit as nat,
            ),
            (now + interval) as u64,
            1,
        ) == Policy::configured(limit, interval).decision(
            after_burst(Policy::configured(limit, interval), mark, now, limit as nat),
            now,
            1,
        ),
{
    let policy = Policy::configured(limit, interval);
    lemma_burst_position(limit, interval, mark, now, limit as nat);
    let drained = after_burst(policy, mark, now, limit as nat);
    lemma_burst_drains_bucket(limit, interval, mark, now);
    lemma_burst_drains_bucket(limit, interval, drained, (now + interval) as u64);
}

/// The time that a request still has to wait at `now`: positive where it is
/// turned away, zero or less where it is admitted.
pub open spec fn shortfall(policy: Policy, mark: Option<u64>, now: u64, tokens: nat) -> int {
    policy.required(mark, now, tokens) - now
}

/// While the mark stays where it is, waiting never makes a request wait
/// longer: the time to wait does not grow as the clock advances, and a
/// request that would be admitted now is admitted at every later instant.
pub proof fn lemma_wait_never_grows(
    policy: Policy,
    mark: Option<u64>,
    earlier: u64,
    later: u64,
    tokens: nat,
)
    requires
        earlier <= later,
    ensures
        shortfall(policy, mark, later, tokens) <= shortfall(policy, mark, earlier, tokens),
        policy.decision(mark, earlier, tokens) is Admit ==> policy.decision(
            mark,
            later,
            tokens,
        ) is Admit,
        policy.decision(mark, later, tokens) is RetryAfter ==> {
            &&& policy.decision(mark, earlier, tokens) is RetryAfter
            &&& policy.decision(mark, later, tokens)->RetryAfter_0 <= policy.decision(
                mark,
                earlier,
                tokens,
            )->RetryAfter_0
        },
{
}

/// Once the clock has run for a whole interval, the time to wait shrinks no
/// faster than the clock advances. So a request that is told to wait is not
/// admitted before that time has passed.
pub proof fn lemma_no_early_admission(
    policy: Policy,
    mark: Option<u64>,
    earlier: u64,
    later: u64,
    tokens: nat,
)
    requires
        earlier <= later,
        earlier >= policy.interval,
    ensures
        shortfall(policy, mark, earlier, tokens) - shortfall(policy, mark, later, tokens) <= later
            - earlier,
        policy.decision(mark, earlier, tokens) is RetryAfter && later < earlier + policy.decision(
            mark,
            earlier,
            tokens,
        )->RetryAfter_0 ==> policy.decision(mark, later, tokens) is RetryAfter,
{
}

/// A request that the bucket could hold at all, turned away with a wait of
/// `wait` nanoseconds, is turned away at every instant before that time has
/// passed, with exactly the time that is left, and admitted at the instant
/// at which it has passed.
pub proof fn lemma_retry_after_is_exact(
    policy: Policy,
    mark: Option<u64>,
    now: u64,
    tokens: nat,
    wait: nat,
)
    requires
        policy.decision(mark, now, tokens) == Verdict::RetryAfter(wait),
        policy.debt(tokens) <= policy.interval,
        now >= policy.interval,
        now + wait <= u64::MAX,
    ensures
        forall|t: u64|
            now <= t < now + wait ==> #[trigger] policy.decision(mark, t, tokens)
                == Verdict::RetryAfter((now + wait - t) as nat),
        policy.decision(mark, (now + wait - 1) as u64, tokens) == Verdict::RetryAfter(1),
        policy.decision(mark, (now + wait) as u64, tokens) is Admit,
        policy.next_mark(mark, (now + wait) as u64, tokens) == Some((now + wait) as u64),
{
}

/// A mark, once set, stays set and never moves back.
pub proof fn lemma_mark_never_recedes(policy: Policy, mark: Option<u64>, now: u64, tokens: nat)
    ensures
        mark is Some ==> {
            &&& policy.next_mark(mark, now, tokens) is Some
            &&& policy.next_mark(mark, now, tokens)->0 >= mark->0
        },
{
}

} // verus!
