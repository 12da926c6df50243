//! Operation counting and throughput arithmetic for the benchmark
//! harness.
//!
//! A dense n-by-n multiplication performs one multiply and one add per
//! reduction step, n steps per cell and n*n cells: 2*n^3 operations in
//! all. One GFLOP/s is one billion operations per second, which is
//! exactly one operation per nanosecond, so the throughput in GFLOP/s is
//! the operation count divided by the elapsed nanoseconds. The library
//! reports it scaled by 1000 (thousandths of a GFLOP/s) to stay in
//! integer arithmetic; the caller that prints it places the decimal
//! point.

use vstd::prelude::*;

verus! {

/// The operation count of a dense n-by-n matrix multiplication.
pub open spec fn flops_of(n: nat) -> nat {
    2 * n * n * n
}

/// The largest dimension whose operation count fits in a `u64`.
pub const MAX_FLOP_DIM: usize = 2097151;

/// The operation count `2 * n^3` of one engine run on dimension `n`, or
/// `None` exactly when that count does not fit in a `u64`.
pub fn flop_count(n: usize) -> (r: Option<u64>)
    ensures
        match r {
            Some(f) => f == flops_of(n as nat) && flops_of(n as nat) <= u64::MAX,
            None => flops_of(n as nat) > u64::MAX,
        },
{
    if n > MAX_FLOP_DIM {
        proof {
            assert(2 * (n as nat) * (n as nat) * (n as nat) > u64::MAX) by (nonlinear_arith)
                requires
                    n as nat >= 2097152,
            ;
        }
        return None;
    }
    let m: u64 = n as u64;
    proof {
        assert(2 * (m as int) <= u64::MAX && 2 * (m as int) * (m as int) <= u64::MAX && 2 * (
        m as int) * (m as int) * (m as int) <= u64::MAX) by (nonlinear_arith)
            requires
                m <= 2097151,
        ;
    }
    Some(2 * m * m * m)
}

/// Throughput in thousandths of a GFLOP/s: `flops * 1000 / elapsed_ns`,
/// rounded down. `None` exactly when no time elapsed or the scaled figure
/// does not fit in a `u64`.
pub fn gflops_milli(flops: u64, elapsed_ns: u64) -> (r: Option<u64>)
    ensures
        match r {
            Some(g) => elapsed_ns > 0 && g == (flops as int) * 1000 / (elapsed_ns as int) && (
            flops as int) * 1000 / (elapsed_ns as int) <= u64::MAX,
            None => elapsed_ns == 0 || (flops as int) * 1000 / (elapsed_ns as int) > u64::MAX,
        },
{
    if elapsed_ns == 0 {
        return None;
    }
    let scaled: u128 = (flops as u128) * 1000;
    let q: u128 = scaled / (elapsed_ns as u128);
    if q > u64::MAX as u128 {
        None
    } else {
        Some(q as u64)
    }
}

} // verus!
