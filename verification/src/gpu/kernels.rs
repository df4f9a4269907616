//! Reduction kernels for the GPU: shaders, dispatch plans and read-back.
//!
//! Every kernel is a parallel reduction in workgroups of 256 threads. A
//! thread loads one element into a shared array, or the identity of the
//! reduction where it stands beyond the input; the array is reduced as a
//! tree; and the first thread combines the result of its workgroup into the
//! single element of the output with an atomic operation.

use vstd::prelude::*;
use vstd::string::*;
use crate::error::{Error, ErrorKind};
use crate::gpu::jit::{spec_cache_key, spec_get_or_insert, CacheEntry, JitCompiler};
use crate::kernels::{
    spec_ints_i32, spec_masked, spec_max, spec_min, spec_sum_i32,
};
use crate::text::decimal_int;

verus! {

/// Threads per workgroup.
pub const WORKGROUP_SIZE: u32 = 256;

/// The shader of the wrapping sum of 32-bit integers.
pub const SUM_I32_SHADER: &'static str =
    r"
@group(0) @binding(0) var<storage, read> input: array<i32>;
@group(0) @binding(1) var<storage, read_write> output: array<atomic<i32>>;

var<workgroup> shared_data: array<i32, 256>;

@compute @workgroup_size(256)
fn sum_reduce(@builtin(global_invocation_id) global_id: vec3<u32>,
               @builtin(local_invocation_id) local_id: vec3<u32>,
               @builtin(workgroup_id) workgroup_id: vec3<u32>) {
    let tid = local_id.x;
    let gid = global_id.x;
    let input_size = arrayLength(&input);

    // Load data into shared memory
    if (gid < input_size) {
        shared_data[tid] = input[gid];
    } else {
        shared_data[tid] = 0;
    }
    workgroupBarrier();

    // Parallel reduction in shared memory
    var stride = 128u;
    while (stride > 0u) {
        if (tid < stride && gid + stride < input_size) {
            shared_data[tid] += shared_data[tid + stride];
        }
        workgroupBarrier();
        stride = stride / 2u;
    }

    // First thread writes workgroup result
    if (tid == 0u) {
        atomicAdd(&output[0], shared_data[0]);
    }
}
";

/// The shader of the minimum of 32-bit integers.
pub const MIN_I32_SHADER: &'static str =
    r"
@group(0) @binding(0) var<storage, read> input: array<i32>;
@group(0) @binding(1) var<storage, read_write> output: array<atomic<i32>>;

var<workgroup> shared_data: array<i32, 256>;

@compute @workgroup_size(256)
fn min_reduce(@builtin(global_invocation_id) global_id: vec3<u32>,
              @builtin(local_invocation_id) local_id: vec3<u32>) {
    let tid = local_id.x;
    let gid = global_id.x;
    let input_size = arrayLength(&input);

    // Load data into shared memory
    if (gid < input_size) {
        shared_data[tid] = input[gid];
    } else {
        shared_data[tid] = 2147483647; // i32::MAX
    }
    workgroupBarrier();

    // Parallel reduction in shared memory
    var stride = 128u;
    while (stride > 0u) {
        if (tid < stride && gid + stride < input_size) {
            shared_data[tid] = min(shared_data[tid], shared_data[tid + stride]);
        }
        workgroupBarrier();
        stride = stride / 2u;
    }

    // First thread writes workgroup result
    if (tid == 0u) {
        atomicMin(&output[0], shared_data[0]);
    }
}
";

/// The shader of the maximum of 32-bit integers.
pub const MAX_I32_SHADER: &'static str =
    r"
@group(0) @binding(0) var<storage, read> input: array<i32>;
@group(0) @binding(1) var<storage, read_write> output: array<atomic<i32>>;

var<workgroup> shared_data: array<i32, 256>;

@compute @workgroup_size(256)
fn max_reduce(@builtin(global_invocation_id) global_id: vec3<u32>,
              @builtin(local_invocation_id) local_id: vec3<u32>) {
    let tid = local_id.x;
    let gid = global_id.x;
    let input_size = arrayLength(&input);

    // Load data into shared memory
    if (gid < input_size) {
        shared_data[tid] = input[gid];
    } else {
        shared_data[tid] = -2147483648; // i32::MIN
    }
    workgroupBarrier();

    // Parallel reduction in shared memory
    var stride = 128u;
    while (stride > 0u) {
        if (tid < stride && gid + stride < input_size) {
            shared_data[tid] = max(shared_data[tid], shared_data[tid + stride]);
        }
        workgroupBarrier();
        stride = stride / 2u;
    }

    // First thread writes workgroup result
    if (tid == 0u) {
        atomicMax(&output[0], shared_data[0]);
    }
}
";

/// A reduction over 32-bit integers.
#[derive(Debug, Clone, Copy, PartialEq, Eq, Structural)]
pub enum Reduction {
    Sum,
    Min,
    Max,
}

impl Reduction {
    /// The identity of the reduction: the result over no element, and the
    /// initial value of the output.
    pub open spec fn spec_identity(self) -> i32 {
        match self {
            Reduction::Sum => 0,
            Reduction::Min => i32::MAX,
            Reduction::Max => i32::MIN,
        }
    }

    /// The result that every backend must produce.
    pub open spec fn spec_result(self, values: Seq<i32>) -> i32 {
        if values.len() == 0 {
            self.spec_identity()
        } else {
            match self {
                Reduction::Sum => spec_sum_i32(values),
                Reduction::Min => spec_min(spec_ints_i32(values)) as i32,
                Reduction::Max => spec_max(spec_ints_i32(values)) as i32,
            }
        }
    }

    /// The shader of the reduction.
    pub open spec fn spec_shader(self) -> Seq<char> {
        match self {
            Reduction::Sum => SUM_I32_SHADER@,
            Reduction::Min => MIN_I32_SHADER@,
            Reduction::Max => MAX_I32_SHADER@,
        }
    }

    /// The entry point of the shader.
    pub open spec fn spec_entry_point(self) -> Seq<char> {
        match self {
            Reduction::Sum => "sum_reduce"@,
            Reduction::Min => "min_reduce"@,
            Reduction::Max => "max_reduce"@,
        }
    }

    /// The identity of the reduction.
    pub fn identity(self) -> (v: i32)
        ensures
            v == self.spec_identity(),
    {
        match self {
            Reduction::Sum => 0,
            Reduction::Min => i32::MAX,
            Reduction::Max => i32::MIN,
        }
    }

    /// The shader of the reduction.
    pub fn shader(self) -> (s: &'static str)
        ensures
            s@ == self.spec_shader(),
    {
        match self {
            Reduction::Sum => SUM_I32_SHADER,
            Reduction::Min => MIN_I32_SHADER,
            Reduction::Max => MAX_I32_SHADER,
        }
    }

    /// The entry point of the shader.
    pub fn entry_point(self) -> (s: &'static str)
        ensures
            s@ == self.spec_entry_point(),
    {
        match self {
            Reduction::Sum => "sum_reduce",
            Reduction::Min => "min_reduce",
            Reduction::Max => "max_reduce",
        }
    }

    /// The result of the reduction on the CPU: what the device must
    /// return.
    pub fn reference(self, values: &[i32]) -> (v: i32)
        ensures
            v == self.spec_result(values@),
    {
        match self {
            Reduction::Sum => crate::kernels::sum_i32(values),
            Reduction::Min => match crate::kernels::min_i32(values) {
                Some(m) => m,
                None => i32::MAX,
            },
            Reduction::Max => match crate::kernels::max_i32(values) {
                Some(m) => m,
                None => i32::MIN,
            },
        }
    }
}

/// What is sent to the device: binding 0 is the input, read-only; binding
/// 1 is the output, one element, read-write.
#[derive(Debug)]
pub struct Dispatch {
    /// The source of the compute shader.
    pub shader: String,
    /// The entry point of the shader.
    pub entry_point: String,
    /// The input buffer.
    pub input: Vec<i32>,
    /// The initial value of the single element of the output buffer.
    pub output_init: i32,
    /// The number of workgroups.
    pub workgroups: u32,
}

/// The next step of a kernel.
#[derive(Debug)]
pub enum GpuStep {
    /// The result is known without the device.
    Done(i32),
    /// The device must run this.
    Dispatch(Dispatch),
}

/// The number of workgroups for `n` elements: one per 256, rounded up.
pub open spec fn spec_workgroups(n: nat) -> nat {
    (n + 255) / 256
}

/// The number of workgroups for `n` elements.
pub fn workgroup_count(n: u32) -> (w: u32)
    ensures
        w == spec_workgroups(n as nat),
{
    n / WORKGROUP_SIZE + if n % WORKGROUP_SIZE == 0 {
        0
    } else {
        1
    }
}

fn copy_values(values: &[i32]) -> (r: Vec<i32>)
    ensures
        r@ == values@,
{
    let n = values.len();
    let mut r: Vec<i32> = Vec::with_capacity(n);
    let mut i: usize = 0;
    while i < n
        invariant
            n == values@.len(),
            i <= n,
            r@ == values@.subrange(0, i as int),
        decreases n - i,
    {
        r.push(values[i]);
        assert(r@ =~= values@.subrange(0, i + 1));
        i += 1;
    }
    assert(values@.subrange(0, n as int) =~= values@);
    r
}

/// Prepares a reduction. Over no element the result is the identity and
/// the device is not needed. Otherwise the device runs the shader of the
/// reduction over the values, with the output starting at the identity and
/// one workgroup per 256 values. Fails with `InvalidInput` when there are
/// more values than one dispatch can address.
pub fn plan_reduction(kind: Reduction, data: &[i32]) -> (r: Result<GpuStep, Error>)
    ensures
        match r {
            Ok(GpuStep::Done(v)) => data@.len() == 0 && v == kind.spec_identity(),
            Ok(GpuStep::Dispatch(d)) => {
                &&& 0 < data@.len() <= u32::MAX
                &&& d.shader@ == kind.spec_shader()
                &&& d.entry_point@ == kind.spec_entry_point()
                &&& d.input@ == data@
                &&& d.output_init == kind.spec_identity()
                &&& d.workgroups == spec_workgroups(data@.len())
            },
            Err(e) => data@.len() > u32::MAX && e.spec_kind() == ErrorKind::InvalidInput,
        },
{
    let n = data.len();
    if n == 0 {
        return Ok(GpuStep::Done(kind.identity()));
    }
    if n > u32::MAX as usize {
        return Err(
            Error::InvalidInput(String::from_str("input too large for one dispatch")),
        );
    }
    Ok(
        GpuStep::Dispatch(
            Dispatch {
                shader: String::from_str(kind.shader()),
                entry_point: String::from_str(kind.entry_point()),
                input: copy_values(data),
                output_init: kind.identity(),
                workgroups: workgroup_count(n as u32),
            },
        ),
    )
}

/// Prepares the wrapping sum.
pub fn sum_i32(data: &[i32]) -> (r: Result<GpuStep, Error>)
    ensures
        r matches Ok(GpuStep::Done(v)) ==> data@.len() == 0 && v == 0,
        r matches Ok(GpuStep::Dispatch(d)) ==> 0 < data@.len() <= u32::MAX && d.shader@
            == SUM_I32_SHADER@ && d.input@ == data@ && d.output_init == 0 && d.workgroups
            == spec_workgroups(data@.len()),
        r is Err <==> data@.len() > u32::MAX,
{
    plan_reduction(Reduction::Sum, data)
}

/// Prepares the minimum. Over no element it is `i32::MAX`.
pub fn min_i32(data: &[i32]) -> (r: Result<GpuStep, Error>)
    ensures
        r matches Ok(GpuStep::Done(v)) ==> data@.len() == 0 && v == i32::MAX,
        r matches Ok(GpuStep::Dispatch(d)) ==> 0 < data@.len() <= u32::MAX && d.shader@
            == MIN_I32_SHADER@ && d.input@ == data@ && d.output_init == i32::MAX && d.workgroups
            == spec_workgroups(data@.len()),
        r is Err <==> data@.len() > u32::MAX,
{
    plan_reduction(Reduction::Min, data)
}

/// Prepares the maximum. Over no element it is `i32::MIN`.
pub fn max_i32(data: &[i32]) -> (r: Result<GpuStep, Error>)
    ensures
        r matches Ok(GpuStep::Done(v)) ==> data@.len() == 0 && v == i32::MIN,
        r matches Ok(GpuStep::Dispatch(d)) ==> 0 < data@.len() <= u32::MAX && d.shader@
            == MAX_I32_SHADER@ && d.input@ == data@ && d.output_init == i32::MIN && d.workgroups
            == spec_workgroups(data@.len()),
        r is Err <==> data@.len() > u32::MAX,
{
    plan_reduction(Reduction::Max, data)
}

/// The sum of 32-bit floating-point values has no kernel yet: always fails
/// with `NotImplemented`, so that no wrong result is ever returned.
pub fn sum_f32(data: &[u32]) -> (r: Result<GpuStep, Error>)
    ensures
        r matches Err(e) && e.spec_kind() == ErrorKind::NotImplemented,
{
    Err(Error::NotImplemented(String::from_str("f32 SUM not yet implemented")))
}

/// The count needs no device: it is the number of elements.
pub fn count(len: usize) -> (n: usize)
    ensures
        n == len,
{
    len
}

/// Prepares the fused filter and sum: looks the kernel up in the cache of
/// the compiler, putting it there if it is new, and then plans as for a
/// sum, with the source of the fused kernel.
pub fn fused_filter_sum(
    jit: &mut JitCompiler,
    data: &[i32],
    filter_threshold: i32,
    filter_op: &str,
) -> (r: (CacheEntry, Result<GpuStep, Error>))
    requires
        old(jit).wf(),
    ensures
        final(jit).wf(),
        (r.0, final(jit).spec_keys()) == spec_get_or_insert(
            old(jit).spec_keys(),
            spec_cache_key(filter_op@, filter_threshold as int),
        ),
        r.0.handle < final(jit).spec_keys().len(),
        match r.1 {
            Ok(GpuStep::Done(v)) => data@.len() == 0 && v == 0,
            Ok(GpuStep::Dispatch(d)) => {
                &&& 0 < data@.len() <= u32::MAX
                &&& d.shader@ == final(jit).spec_sources()[r.0.handle as int]
                &&& d.entry_point@ == "fused_filter_sum"@
                &&& d.input@ == data@
                &&& d.output_init == 0
                &&& d.workgroups == spec_workgroups(data@.len())
            },
            Err(e) => data@.len() > u32::MAX && e.spec_kind() == ErrorKind::InvalidInput,
        },
{
    let entry = jit.compile_fused_filter_sum(filter_threshold, filter_op);
    let n = data.len();
    if n == 0 {
        return (entry, Ok(GpuStep::Done(0)));
    }
    if n > u32::MAX as usize {
        return (
            entry,
            Err(Error::InvalidInput(String::from_str("input too large for one dispatch"))),
        );
    }
    let step = GpuStep::Dispatch(
        Dispatch {
            shader: jit.source(entry.handle).clone(),
            entry_point: String::from_str("fused_filter_sum"),
            input: copy_values(data),
            output_init: 0,
            workgroups: workgroup_count(n as u32),
        },
    );
    (entry, Ok(step))
}

/// The 32-bit integer that four bytes hold, least significant byte first,
/// in two's complement.
pub open spec fn spec_i32_le(b0: u8, b1: u8, b2: u8, b3: u8) -> int {
    let u = b0 as int + 256 * (b1 as int) + 65536 * (b2 as int) + 16777216 * (b3 as int);
    if u >= 0x8000_0000 {
        u - 0x1_0000_0000
    } else {
        u
    }
}

/// Reads the result that the device wrote: the first four bytes, least
/// significant first. Fails with `Other` when there are fewer.
pub fn read_result(bytes: &[u8]) -> (r: Result<i32, Error>)
    ensures
        match r {
            Ok(v) => bytes@.len() >= 4 && v == spec_i32_le(
                bytes@[0],
                bytes@[1],
                bytes@[2],
                bytes@[3],
            ),
            Err(e) => bytes@.len() < 4 && e.spec_kind() == ErrorKind::Other,
        },
{
    if bytes.len() < 4 {
        return Err(Error::Other(String::from_str("Failed to receive mapping result")));
    }
    let u: i64 = bytes[0] as i64 + 256 * (bytes[1] as i64) + 65536 * (bytes[2] as i64) + 16777216
        * (bytes[3] as i64);
    if u >= 0x8000_0000 {
        Ok((u - 0x1_0000_0000) as i32)
    } else {
        Ok(u as i32)
    }
}

/// Holds the result of the device against the result of the CPU. Fails
/// with `BackendMismatch`, naming both, when they differ.
pub fn check_equivalence(gpu_result: i32, simd_result: i32) -> (r: Result<i32, Error>)
    ensures
        match r {
            Ok(v) => gpu_result == simd_result && v == gpu_result,
            Err(e) => gpu_result != simd_result && e.spec_kind() == ErrorKind::BackendMismatch,
        },
{
    if gpu_result == simd_result {
        Ok(gpu_result)
    } else {
        Err(
            Error::BackendMismatch {
                gpu_result: decimal_int(gpu_result as i128),
                simd_result: decimal_int(simd_result as i128),
            },
        )
    }
}

/// The result that the fused kernel must produce.
pub open spec fn spec_fused_result(values: Seq<i32>, op: Seq<char>, threshold: i32) -> i32 {
    spec_sum_i32(spec_masked(values, op, threshold))
}

} // verus!
