//! The options of the store that steer space reclaiming.

use vstd::prelude::*;

verus! {

#[derive(Debug, Clone, Copy, PartialEq, Eq, Structural)]
pub struct Options {
    /// Turns space reclaiming off altogether.
    pub disable_space_reclaiming: bool,
    /// The size that new files aim at, in bytes.
    pub file_base_size: usize,
    /// The highest ratio of reclaimable space to live data, in percent.
    pub max_space_amplification_percent: usize,
    /// Collects long-lived pages in map files.
    pub separate_hot_cold_files: bool,
    /// The used space above which reclaiming starts, in bytes.
    pub space_used_high: u64,
}

} // verus!
