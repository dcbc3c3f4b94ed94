//! Integer constants of the GPS L1 C/A signal and of the LNAV message.

use vstd::prelude::*;

verus! {

/// Chips in one L1 C/A PRN code period (1 ms at 1.023 Mcps).
pub const PRN_CODE_LEN: usize = 1023;

/// Seconds in a GPS week.
pub const SECS_PER_WEEK: u32 = 7 * 24 * 60 * 60;

/// Capacity of the per-channel navigation symbol FIFO.
pub const SDR_MAX_NSYM: usize = 18000;

/// Fixed-point scale of a normalized prompt correlator value: the in-phase
/// component divided by the magnitude, a real in [-1, 1], is carried as an
/// integer in [-IP_SCALE, IP_SCALE].
pub const IP_SCALE: i32 = 1_000_000;

/// Entries kept in the prompt correlator history of a channel.
pub const CORR_HIST_LEN: usize = 40;

} // verus!
