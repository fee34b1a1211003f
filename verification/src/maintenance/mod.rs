//! Background maintenance: what to compact, how far, and what becomes durable when.

pub mod cleanup;
pub mod compaction;
pub mod compaction_laws;
pub mod frontier;
pub mod pass;
pub mod relocations;
pub mod tables;
pub mod tier_laws;
pub mod tiers;
