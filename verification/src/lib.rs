//! Runtime core for a robot control stack built from independently scheduled
//! "cyclers" (sense-process-act loops) that exchange time-correlated data.
//!
//! The core offers three data structures and an execution model around them:
//! a single-writer/multi-reader slotted state buffer, a bounded
//! timestamp-indexed lookback archive, and a cross-rate merge queue whose
//! completed results a single owning consumer folds into per-timestamp
//! aggregates. Timestamps are plain `u64` ticks of one logical clock; they are
//! the correlation key across cyclers.

pub mod archive;
pub mod buffer;
pub mod engine;
pub mod hardware;
pub mod hierarchy;
pub mod image;
pub mod io;
pub mod merge;
pub mod path;
pub mod stages;

use vstd::prelude::*;

verus! {

/// A capture instant of the canonical clock, in ticks.
pub type Timestamp = u64;

} // verus!
