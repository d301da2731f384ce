//! Decision logic and bookkeeping for a fire-and-forget HTTP traffic mirror.
//!
//! A mirror receives requests, filters them (only bodiless methods, only a
//! sampled fraction, only when every target fits into the concurrency
//! budget), fans the surviving ones out to their targets and counts what
//! happened to each of them.

pub mod config;
pub mod counters;
pub mod dispatch;
pub mod error;
pub mod target;

pub use config::MirrorLimits;
pub use counters::{Counters, SendOutcome};
pub use dispatch::{decide, is_bodiless, Decision, DropReason};
pub use error::ReplayError;
pub use target::{mirror_uri, target_uri, SendError};
