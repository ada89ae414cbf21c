//! Token-bucket admission control.
//!
//! A [`TokenBucket`] decides whether a weighted request may proceed now or has
//! to wait, under one rate policy. A [`RateLimiter`] keeps one bucket per key
//! and admits every request for a key that has no policy.
pub mod clock;
pub mod duration;
pub mod error;
pub mod laws;
pub mod policy;
pub mod rate_limiter;
pub mod token_bucket;

pub use error::Error;
pub use rate_limiter::{RateLimiter, RateLimiterBuilder};
pub use token_bucket::TokenBucket;
