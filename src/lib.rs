//! The orchestration core of a live-stream recorder: a registry of monitored
//! sources grouped by platform, a round-robin status cycle per platform, the
//! per-source state machine that a monitor tick advances, and the rule that
//! hands a large-enough segment to the uploader exactly once.

pub mod status;
pub mod cycle;
pub mod actor;
pub mod laws;
pub mod handoff;
pub mod repository;
pub mod segment;
