//! The whole-system headline figure: one global CPU percentage and the
//! used memory in whole megabytes.

use vstd::prelude::*;

use crate::rounding::div_round_half_up;

verus! {

/// Whole-system usage: `cpu` in hundredths of a percent (the global
/// reading rounded to two decimal places), `memory` in whole decimal
/// megabytes (floor division — a deliberately coarse figure).
#[derive(Clone, Copy, Debug, PartialEq, Eq, Structural)]
pub struct TotalUsage {
    pub cpu: u64,
    pub memory: u64,
}

/// Derive the headline figure from a snapshot's global readings.
///
/// `global_cpu_basis_points` is the OS-reported global CPU percentage
/// in basis points (ten-thousandths of a percent); it is rounded to
/// hundredths of a percent with the same rule as every per-process
/// metric. `used_memory_bytes` is truncated to whole megabytes.
pub fn get_total_usage(global_cpu_basis_points: u64, used_memory_bytes: u64) -> (t: TotalUsage)
    ensures
        t.cpu == div_round_half_up(global_cpu_basis_points as int, 100),
        t.memory == used_memory_bytes as int / 1000000,
{
    let q: u64 = global_cpu_basis_points / 100;
    let rem: u64 = global_cpu_basis_points % 100;
    let cpu: u64 = if 2 * rem >= 100 {
        q + 1
    } else {
        q
    };
    TotalUsage { cpu, memory: used_memory_bytes / 1000000 }
}

} // verus!
