//! Why a request was not admitted.
use crate::duration::duration_nanos;
use std::time::Duration;
use vstd::prelude::*;

verus! {

/// The two ways in which a request can be turned away.
#[derive(Debug, PartialEq, Eq)]
pub enum Error {
    /// The entity is blocked for good. Trying again cannot succeed.
    Blocked,
    /// The rate limit is exceeded. The request can succeed once the given
    /// time has passed, and not before.
    RetryAfter(Duration),
}

/// An admission decision over plain integers: the mathematical counterpart of
/// `Result<(), Error>`, with the wait measured in nanoseconds.
pub enum Verdict {
    Admit,
    Blocked,
    RetryAfter(nat),
}

/// The decision that a result of `consume` stands for.
pub open spec fn verdict_of(r: Result<(), Error>) -> Verdict {
    match r {
        Ok(()) => Verdict::Admit,
        Err(Error::Blocked) => Verdict::Blocked,
        Err(Error::RetryAfter(d)) => Verdict::RetryAfter(duration_nanos(d)),
    }
}

} // verus!
