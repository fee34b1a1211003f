//! Verified core of an epoch-aware blob store.

pub mod batch;
pub mod bench;
pub mod blob_lsm;
pub mod bytes;
pub mod config;
pub mod decimal;
pub mod double;
pub mod double_laws;
pub mod figure_names;
pub mod figures;
pub mod gc;
pub mod halt;
pub mod keys;
pub mod maintenance;
pub mod metrics;
pub mod metrics_laws;
pub mod num;
pub mod numeral;
pub mod order_laws;
pub mod read;
pub mod read_laws;
pub mod recovery;
pub mod recovery_laws;
pub mod segments;
pub mod shard_map;
pub mod sorting;
pub mod stress;
pub mod text;
pub mod text_laws;
pub mod types;
