//! Cost-based choice between the SIMD and the GPU path.
//!
//! The model is physical: data crosses the bus at a fixed rate, the GPU
//! computes at a fixed rate, and the GPU is worth the transfer only when
//! its compute time exceeds the transfer time by a fixed factor. Operation
//! counts and byte counts are whole numbers, so the comparison is carried
//! out exactly, without rounding.

use vstd::prelude::*;
use crate::Backend;

verus! {

/// Bus bandwidth in GB/s.
pub const PCIE_BANDWIDTH_GBPS: u64 = 32;

/// Below this many bytes the GPU is never chosen.
pub const MIN_GPU_DATA_SIZE_BYTES: usize = 10_000_000;

/// GPU throughput in GFLOP/s.
pub const GPU_THROUGHPUT_GFLOPS: u64 = 100;

/// GPU compute time must exceed the transfer time by more than this factor.
pub const TRANSFER_OVERHEAD_MULTIPLIER: u64 = 5;

/// The choice for `total_bytes` of data and `estimated_flops` operations.
///
/// Transfer takes `bytes / (32 * 10^9)` seconds and compute takes
/// `flops / (100 * 10^9)` seconds; the GPU is chosen when the data is large
/// enough and compute exceeds five times the transfer, which after clearing
/// the denominators is `flops * 32 > 5 * bytes * 100`.
pub open spec fn spec_select(total_bytes: int, estimated_flops: int) -> Backend {
    if total_bytes < MIN_GPU_DATA_SIZE_BYTES as int {
        Backend::Simd
    } else if estimated_flops * (PCIE_BANDWIDTH_GBPS as int) > (TRANSFER_OVERHEAD_MULTIPLIER as int)
        * total_bytes * (GPU_THROUGHPUT_GFLOPS as int) {
        Backend::Gpu
    } else {
        Backend::Simd
    }
}

/// The choice for an estimate that is given in eighths of an operation.
///
/// The GPU is chosen above 15.625 operations per byte, which is 125
/// eighths: an estimate with a fraction, rounded up to the next eighth, is
/// above the threshold exactly when the estimate itself is.
pub open spec fn spec_select_eighths(total_bytes: int, eighths: int) -> Backend {
    if total_bytes < MIN_GPU_DATA_SIZE_BYTES as int {
        Backend::Simd
    } else if eighths > 125 * total_bytes {
        Backend::Gpu
    } else {
        Backend::Simd
    }
}

/// What a requested strategy resolves to: a forced backend stands, and
/// `CostBased` is decided by the cost model.
pub open spec fn spec_resolve(requested: Backend, total_bytes: int, estimated_flops: int) -> Backend {
    match requested {
        Backend::CostBased => spec_select(total_bytes, estimated_flops),
        Backend::Gpu => Backend::Gpu,
        Backend::Simd => Backend::Simd,
    }
}

/// The cost-based backend dispatcher.
pub struct BackendDispatcher {
    _private: (),
}

impl BackendDispatcher {
    /// Chooses the backend for an operation over `total_bytes` bytes that
    /// performs about `estimated_flops` operations.
    pub fn select(total_bytes: usize, estimated_flops: u128) -> (b: Backend)
        ensures
            b == spec_select(total_bytes as int, estimated_flops as int),
            b != Backend::CostBased,
    {
        if total_bytes < MIN_GPU_DATA_SIZE_BYTES {
            return Backend::Simd;
        }
        let transfer: u128 = 500u128 * (total_bytes as u128);
        if estimated_flops > u128::MAX / 32 {
            return Backend::Gpu;
        }
        if estimated_flops * 32 > transfer {
            Backend::Gpu
        } else {
            Backend::Simd
        }
    }

    /// Chooses the backend for an operation over `total_bytes` bytes whose
    /// estimated operations are counted in eighths, for callers whose
    /// estimate has a fraction.
    pub fn select_eighths(total_bytes: usize, eighths: u128) -> (b: Backend)
        ensures
            b == spec_select_eighths(total_bytes as int, eighths as int),
            b != Backend::CostBased,
    {
        if total_bytes < MIN_GPU_DATA_SIZE_BYTES {
            return Backend::Simd;
        }
        if eighths > 125u128 * (total_bytes as u128) {
            Backend::Gpu
        } else {
            Backend::Simd
        }
    }

    /// Resolves a requested strategy: a forced backend bypasses the cost
    /// model.
    pub fn resolve(requested: Backend, total_bytes: usize, estimated_flops: u128) -> (b: Backend)
        ensures
            b == spec_resolve(requested, total_bytes as int, estimated_flops as int),
            b != Backend::CostBased,
    {
        match requested {
            Backend::CostBased => Self::select(total_bytes, estimated_flops),
            Backend::Gpu => Backend::Gpu,
            Backend::Simd => Backend::Simd,
        }
    }

    /// Operations of a simple aggregation (sum, average, count, minimum,
    /// maximum): one per element.
    pub fn estimate_simple_aggregation_flops(num_elements: usize) -> (flops: u128)
        ensures
            flops == num_elements,
    {
        num_elements as u128
    }

    /// Operations of a grouped aggregation: five to hash and one to
    /// aggregate, per element.
    pub fn estimate_group_by_flops(num_elements: usize) -> (flops: u128)
        ensures
            flops == 6 * num_elements,
    {
        (num_elements as u128) * 6
    }

    /// Operations of a filter: two per element.
    pub fn estimate_filter_flops(num_elements: usize) -> (flops: u128)
        ensures
            flops == 2 * num_elements,
    {
        (num_elements as u128) * 2
    }

    /// Operations of a hash join: five per element of either side.
    pub fn estimate_join_flops(left_size: usize, right_size: usize) -> (flops: u128)
        ensures
            flops == 5 * (left_size + right_size),
    {
        ((left_size as u128) + (right_size as u128)) * 5
    }
}

/// Data below the size threshold always runs on the SIMD path.
pub proof fn lemma_small_data_selects_simd(total_bytes: int, estimated_flops: int)
    requires
        total_bytes < 10_000_000,
    ensures
        spec_select(total_bytes, estimated_flops) == Backend::Simd,
{
}

/// At a fixed size, more work never moves the choice from the GPU back to
/// the SIMD path.
pub proof fn lemma_select_monotone_in_flops(total_bytes: int, fewer: int, more: int)
    requires
        fewer <= more,
        spec_select(total_bytes, fewer) == Backend::Gpu,
    ensures
        spec_select(total_bytes, more) == Backend::Gpu,
{
}

/// A whole number of operations, counted in eighths, has the choice that
/// it has counted in operations.
pub proof fn lemma_select_eighths_of_whole(total_bytes: int, estimated_flops: int)
    ensures
        spec_select_eighths(total_bytes, 8 * estimated_flops) == spec_select(
            total_bytes,
            estimated_flops,
        ),
{
}

/// The choice is never the request `CostBased` itself.
pub proof fn lemma_select_is_concrete(total_bytes: int, estimated_flops: int)
    ensures
        spec_select(total_bytes, estimated_flops) != Backend::CostBased,
{
}

} // verus!
