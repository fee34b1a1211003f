//! Garbage collection: its I/O budget, its admission, its source claims and its publication.

pub mod claims;
pub mod commit;
pub mod deletion;
pub mod outputs;
pub mod publish;
pub mod publish_laws;
pub mod rate_limiter;
pub mod reconcile;
pub mod schedule;
pub mod schedule_laws;
pub mod tuner;
pub mod tuner_laws;
