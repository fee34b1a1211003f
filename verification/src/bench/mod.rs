//! Decisions of the lifecycle benchmark: options, workload, control and accounting.

pub mod config;
pub mod control;
pub mod figures;
pub mod http;
pub mod latency;
pub mod lifetimes;
pub mod model;
pub mod model_laws;
pub mod option_laws;
pub mod options;
pub mod profile;
pub mod random;
pub mod records;
pub mod run_laws;
pub mod scorecard;
pub mod space;
pub mod workload;
