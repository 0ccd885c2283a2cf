//! Memory in use, in bytes and in hundredths of a percent.

use vstd::prelude::*;

verus! {

/// Bytes in a kilobyte.
pub const BYTES_PER_KB: u64 = 1024;

/// Hundredths of a percent in the whole.
pub const FULL_SCALE: u64 = 10000;

/// The memory of the machine. Utilisation is counted in hundredths of a
/// percent.
#[derive(Debug, Clone, Copy, PartialEq, Eq, Structural)]
pub struct MemoryMetrics {
    pub total_bytes: u64,
    pub used_bytes: u64,
    pub free_bytes: u64,
    pub available_bytes: u64,
    pub utilization_percent: u32,
}

/// `kb` kilobytes in bytes, held at the largest 64-bit value.
pub open spec fn kb_to_bytes(kb: u64) -> u64 {
    if kb * BYTES_PER_KB > u64::MAX {
        u64::MAX
    } else {
        (kb * BYTES_PER_KB) as u64
    }
}

/// The share of `used` in `total` in hundredths of a percent, rounded down
/// and held at the largest 32-bit value; zero where the total is zero.
pub open spec fn utilization_of(used: u64, total: u64) -> u32 {
    if total == 0 {
        0
    } else if (used * FULL_SCALE) / (total as int) > u32::MAX {
        u32::MAX
    } else {
        ((used * FULL_SCALE) / (total as int)) as u32
    }
}

fn to_bytes(kb: u64) -> (bytes: u64)
    ensures
        bytes == kb_to_bytes(kb),
{
    match kb.checked_mul(BYTES_PER_KB) {
        Some(bytes) => bytes,
        None => u64::MAX,
    }
}

impl MemoryMetrics {
    /// The metrics for the given amounts in kilobytes.
    pub fn from_kilobytes(total: u64, used: u64, free: u64, available: u64) -> (metrics:
        MemoryMetrics)
        ensures
            metrics == (MemoryMetrics {
                total_bytes: kb_to_bytes(total),
                used_bytes: kb_to_bytes(used),
                free_bytes: kb_to_bytes(free),
                available_bytes: kb_to_bytes(available),
                utilization_percent: utilization_of(used, total),
            }),
    {
        let utilization_percent: u32 = if total == 0 {
            0
        } else {
            assert(used * FULL_SCALE <= 0xffff_ffff_ffff_ffff * 10000) by (nonlinear_arith)
                requires
                    used <= 0xffff_ffff_ffff_ffff,
                    FULL_SCALE == 10000,
            ;
            let share = (used as u128) * (FULL_SCALE as u128) / (total as u128);
            if share > u32::MAX as u128 {
                u32::MAX
            } else {
                share as u32
            }
        };
        MemoryMetrics {
            total_bytes: to_bytes(total),
            used_bytes: to_bytes(used),
            free_bytes: to_bytes(free),
            available_bytes: to_bytes(available),
            utilization_percent,
        }
    }

    /// Whether the utilisation lies above `threshold`.
    pub fn is_memory_bound(&self, threshold: u32) -> (bound: bool)
        ensures
            bound == (self.utilization_percent > threshold),
    {
        self.utilization_percent > threshold
    }
}

} // verus!
