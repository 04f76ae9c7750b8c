//! Rate limiting with structured evidence about each decision.
//!
//! A rate limiter lets cells through at the pace of a [`Quota`]. Each decision of a
//! [`RateLimiter`] or a [`KeyedRateLimiter`] is a single state transition, and a [`Decision`] is the
//! evidence of one: what was asked for and when, and either the burst capacity that remains or the
//! earliest time for a retry.
pub mod clock;
pub mod decision;
pub mod direct;
pub mod duration;
pub mod errors;
pub mod future;
pub mod gcra;
pub mod keyed;
pub mod laws;
pub mod middleware;
pub mod nanos;
pub mod nonzero;
pub mod outcome;
pub mod quota;

pub use crate::clock::Reference;
pub use crate::decision::Decision;
pub use crate::direct::RateLimiter;
pub use crate::errors::InsufficientCapacity;
pub use crate::future::{Action, Wait};
pub use crate::keyed::KeyedRateLimiter;
pub use crate::middleware::{NoOpMiddleware, RateLimitingMiddleware, StateInformationMiddleware};
pub use crate::nanos::Nanos;
pub use crate::nonzero::NonZeroU32;
pub use crate::outcome::{NotUntil, StateSnapshot};
pub use crate::quota::Quota;
