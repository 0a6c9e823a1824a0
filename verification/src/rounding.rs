//! Fixed-point metric normalization.
//!
//! Percentages and megabyte figures are rounded to two decimal places,
//! with ties rounded away from zero (all inputs are non-negative, so
//! ties round up). Results are carried as integer hundredths.

use vstd::prelude::*;

verus! {

/// `n / d` rounded to the nearest integer, ties away from zero.
/// Meaningful for `n >= 0` and `d > 0`.
pub open spec fn div_round_half_up(n: int, d: int) -> int
    recommends
        n >= 0,
        d > 0,
{
    if 2 * (n % d) >= d {
        n / d + 1
    } else {
        n / d
    }
}

/// Values too large to represent degrade to 0 rather than failing.
pub open spec fn degrade_to_zero(v: int) -> int {
    if 0 <= v <= u64::MAX {
        v
    } else {
        0
    }
}

/// A raw CPU reading as a share of the snapshot's total capacity, in
/// hundredths of a percent. Zero (or negative) capacity yields exactly 0.
pub open spec fn cpu_share_spec(raw: int, total_capacity: int) -> int {
    if total_capacity <= 0 {
        0
    } else {
        degrade_to_zero(div_round_half_up(raw * 10000, total_capacity))
    }
}

/// A byte count in hundredths of a decimal megabyte (1 MB = 1_000_000
/// bytes), rounded to two decimal places.
pub open spec fn mem_hundredths_spec(bytes: int) -> int {
    div_round_half_up(bytes, 10000)
}

/// A share of a positive capacity normalizes into the closed range
/// [0, 100] (in hundredths: [0, 10000]) whenever the reading does not
/// exceed the capacity.
pub proof fn lemma_cpu_share_in_range(raw: int, total_capacity: int)
    requires
        0 <= raw <= total_capacity,
        0 < total_capacity,
    ensures
        0 <= cpu_share_spec(raw, total_capacity) <= 10000,
{
    let n = raw * 10000;
    let q = n / total_capacity;
    let r = n % total_capacity;
    vstd::arithmetic::div_mod::lemma_fundamental_div_mod(n, total_capacity);
    assert(n <= total_capacity * 10000) by (nonlinear_arith)
        requires
            raw <= total_capacity,
            n == raw * 10000,
    ;
    assert(q <= 10000) by (nonlinear_arith)
        requires
            n == q * total_capacity + r,
            0 <= r,
            n <= total_capacity * 10000,
            0 < total_capacity,
    ;
    if q == 10000 {
        assert(r == 0) by (nonlinear_arith)
            requires
                n == q * total_capacity + r,
                q == 10000,
                0 <= r,
                n <= total_capacity * 10000,
        ;
    }
}

/// Normalize a raw CPU reading against the total CPU capacity observed
/// in the same snapshot. `raw` and `total_capacity` must be in the same
/// unit; the result is in hundredths of a percent (`2500` is `25.00%`).
pub fn normalize_cpu(raw: u64, total_capacity: u64) -> (r: u64)
    ensures
        r == cpu_share_spec(raw as int, total_capacity as int),
{
    if total_capacity == 0 {
        return 0;
    }
    let n: u128 = (raw as u128) * 10000;
    let d: u128 = total_capacity as u128;
    let q: u128 = n / d;
    let rem: u128 = n % d;
    let rounded: u128 = if 2 * rem >= d {
        q + 1
    } else {
        q
    };
    if rounded <= u64::MAX as u128 {
        rounded as u64
    } else {
        0
    }
}

/// Normalize a memory byte count to hundredths of a decimal megabyte
/// (`250` is `2.50 MB`).
pub fn normalize_memory(bytes: u64) -> (r: u64)
    ensures
        r == mem_hundredths_spec(bytes as int),
{
    let q: u64 = bytes / 10000;
    let rem: u64 = bytes % 10000;
    if 2 * rem >= 10000 {
        q + 1
    } else {
        q
    }
}

} // verus!
