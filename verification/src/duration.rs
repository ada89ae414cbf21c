//! Lengths of time in whole nanoseconds.
//!
//! The admission arithmetic works on integers. This module is the only place
//! where a `Duration` is turned into a nanosecond count or built from one.
use std::time::Duration;
use vstd::prelude::*;

verus! {

/// Nanoseconds in one second.
pub const NANOS_PER_SEC: u128 = 1_000_000_000;

/// The length of `d` in nanoseconds.
///
/// `Duration` keeps its fields private, so the length has no definition here:
/// it is whatever `Duration::as_nanos` reports.
pub uninterp spec fn duration_nanos(d: Duration) -> nat;

/// `Duration::as_nanos` returns the total number of nanoseconds that the
/// duration holds. Trusted: the result is the length that the contracts of
/// this crate call `duration_nanos`.
pub assume_specification[ Duration::as_nanos ](d: &Duration) -> (n: u128)
    ensures
        n == duration_nanos(*d),
;

/// `Duration::new` builds a duration from whole seconds and additional
/// nanoseconds. Trusted: with fewer than a billion nanoseconds nothing is
/// carried into the seconds, the call cannot panic, and the length is the sum
/// of the two parts.
pub assume_specification[ Duration::new ](secs: u64, nanos: u32) -> (d: Duration)
    requires
        nanos < 1_000_000_000,
    ensures
        duration_nanos(d) == secs * 1_000_000_000 + nanos,
;

/// Builds the `Duration` that lasts `nanos` nanoseconds. A `Duration` counts
/// its whole seconds in 64 bits, which bounds what can be built.
pub fn duration_from_nanos(nanos: u128) -> (d: Duration)
    requires
        nanos / NANOS_PER_SEC <= u64::MAX,
    ensures
        duration_nanos(d) == nanos,
{
    let secs: u128 = nanos / NANOS_PER_SEC;
    let rest: u128 = nanos % NANOS_PER_SEC;
    Duration::new(secs as u64, rest as u32)
}

} // verus!
