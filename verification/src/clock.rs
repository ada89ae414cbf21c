//! Where the present instant comes from.
//!
//! An instant is a number of nanoseconds counted from the origin of the clock
//! that reports it. The library never asks more of a clock than a reading: it
//! does not check that readings grow.
use std::time::{Duration, Instant};
use vstd::prelude::*;

verus! {

/// A source of instants.
pub trait Clock {
    /// Whether the clock may be read.
    spec fn ready(&self) -> bool;

    /// Whether `t` is an instant that the clock may report.
    spec fn reports(&self, t: u64) -> bool;

    /// The present instant, in nanoseconds from the clock's origin.
    fn now(&self) -> (t: u64)
        requires
            self.ready(),
        ensures
            self.reports(t),
    ;
}

/// Any function that takes nothing and returns an instant is a clock.
impl<F: Fn() -> u64> Clock for F {
    open spec fn ready(&self) -> bool {
        call_requires(*self, ())
    }

    open spec fn reports(&self, t: u64) -> bool {
        call_ensures(*self, (), t)
    }

    fn now(&self) -> (t: u64) {
        self()
    }
}

/// `std::time::Instant`, which a `MonotonicClock` keeps as the moment at which
/// it was started. Nothing is known of what it holds.
#[verifier::external_type_specification]
#[verifier::external_body]
pub struct ExInstant(Instant);

/// Reads the system's monotonic clock with `Instant::now`. Trusted: the call
/// returns; nothing is claimed of the instant.
#[verifier::external_body]
fn system_instant() -> (t: Instant) {
    Instant::now()
}

/// `Instant::elapsed` measures the time since the instant was taken. Trusted:
/// the call returns; nothing is claimed of the duration.
pub assume_specification[ Instant::elapsed ](t: &Instant) -> (d: Duration)
;

/// Distance, in nanoseconds, between the origin of a `MonotonicClock` and the
/// moment at which it was started.
pub const HEADROOM: u64 = 0x8000_0000_0000_0000;

/// The system's monotonic clock.
///
/// Its origin lies `HEADROOM` nanoseconds before the moment at which it was
/// started, so that a window of up to that width fits before every reading.
#[derive(Clone, Copy, Debug)]
pub struct MonotonicClock {
    started: Instant,
}

impl MonotonicClock {
    /// Starts a clock at the present moment.
    pub fn start() -> (clock: MonotonicClock) {
        MonotonicClock { started: system_instant() }
    }
}

impl Clock for MonotonicClock {
    open spec fn ready(&self) -> bool {
        true
    }

    open spec fn reports(&self, t: u64) -> bool {
        t >= HEADROOM
    }

    /// `HEADROOM` plus the time since the clock was started; the largest
    /// instant once that no longer fits.
    fn now(&self) -> (t: u64) {
        let run: u128 = self.started.elapsed().as_nanos();
        if run <= (u64::MAX - HEADROOM) as u128 {
            HEADROOM + (run as u64)
        } else {
            u64::MAX
        }
    }
}

} // verus!
