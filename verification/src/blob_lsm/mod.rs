//! The blob LSM: persisted formats, the per-blob state machine, garbage accounting and merging.

pub mod codec_laws;
pub mod format_laws;
pub mod garbage;
pub mod merge;
pub mod merge_laws;
pub mod snapshot;
pub mod state;
pub mod state_laws;
pub mod codec;
