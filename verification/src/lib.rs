//! Watches the quality of the active wireless connection and decides when to
//! fail over to a trusted backup network.
//!
//! The crate holds the decision logic of the controller: parsing adapter
//! diagnostic text into a snapshot, judging degradation of the active link,
//! keeping the persisted registry of trusted SSIDs, and ranking the visible
//! trusted networks to pick a backup candidate.

pub mod cycle;
pub mod network;
pub mod reader;
pub mod registry;
pub mod selector;
pub mod signal;
pub mod text;

use vstd::prelude::*;

verus! {

/// Signal level in dBm below which the active connection counts as degraded.
pub const DEFAULT_SIGNAL_THRESHOLD: i32 = -75;

/// The threshold the controller uses when none is configured.
pub fn default_signal_threshold() -> (t: i32)
    ensures
        t == DEFAULT_SIGNAL_THRESHOLD,
{
    DEFAULT_SIGNAL_THRESHOLD
}

} // verus!
