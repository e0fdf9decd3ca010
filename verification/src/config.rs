//! Configuration for one logical bulk operation.
//!
//! All rates are integer bytes per second and all durations integer
//! milliseconds; ratios (backoff, safety fraction) are stored in
//! thousandths so that the timeout arithmetic stays exact.

use vstd::prelude::*;

verus! {

/// Largest timeout the estimator will ever hand out, in milliseconds
/// (about 34 years).  Capping here keeps the per-attempt backoff
/// multiplication monotone even for absurd inputs.
pub const MAX_TIMEOUT_MS: u64 = 0x100_0000_0000;

/// Largest throughput estimate tracked, in bytes per second (2^50).
pub const MAX_ESTIMATE: u64 = 0x4_0000_0000_0000;

/// Cap on the accumulated sample weight inside the estimator.
pub const MAX_WEIGHT: u64 = 0x4000_0000;

/// Immutable tuning knobs, supplied once per logical operation.
#[derive(Clone, Copy, Debug)]
pub struct Config {
    /// Maximum number of transfers in flight at once (>= 1).
    pub copy_parallelization: usize,
    /// Throughput assumed before any samples exist, bytes/sec (>= 1).
    pub expected_upload_speed: u64,
    /// Per-retry timeout inflation, in thousandths (> 1000, i.e. > 1.0x).
    pub backoff_permille: u64,
    /// Floor on the byte count used when weighting an estimate update,
    /// so tiny requests cannot inject noise (>= 1).
    pub avg_min_bytes: u64,
    /// Floor on every computed timeout, milliseconds.
    pub min_timeout_ms: u64,
    /// Safety multiplier on the predicted transfer time, in thousandths
    /// (>= 1000, i.e. >= 1.0x).
    pub timeout_fraction_permille: u64,
}

impl Config {
    /// The ranges every other contract in this crate assumes.
    pub open spec fn well_formed(&self) -> bool {
        &&& self.copy_parallelization >= 1
        &&& 1 <= self.expected_upload_speed <= MAX_ESTIMATE
        &&& 1000 < self.backoff_permille <= 1_000_000
        &&& self.avg_min_bytes >= 1
        &&& self.min_timeout_ms <= MAX_TIMEOUT_MS
        &&& 1000 <= self.timeout_fraction_permille <= 1_000_000
    }
}

impl Default for Config {
    /// Defaults comparable to a first-use interactive upload: 8-way
    /// parallelism, 1 MB/s assumed, 1.5x backoff, 5 s timeout floor.
    fn default() -> (c: Config)
        ensures
            c.well_formed(),
            c.copy_parallelization == 8,
            c.expected_upload_speed == 1_000_000,
            c.backoff_permille == 1500,
            c.avg_min_bytes == 1_000_000,
            c.min_timeout_ms == 5000,
            c.timeout_fraction_permille == 1500,
    {
        Config {
            copy_parallelization: 8,
            expected_upload_speed: 1_000_000,
            backoff_permille: 1500,
            avg_min_bytes: 1_000_000,
            min_timeout_ms: 5000,
            timeout_fraction_permille: 1500,
        }
    }
}

} // verus!
