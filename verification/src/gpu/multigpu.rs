//! Partitioning of data across devices.

use vstd::prelude::*;
use vstd::string::*;
use std::hash::Hasher;
use crate::error::{Error, ErrorKind};

verus! {

/// How data is divided among devices.
#[derive(Debug, Clone, Copy, PartialEq, Eq, Structural)]
pub enum PartitionStrategy {
    /// Contiguous chunks, as even as possible.
    Range,
    /// Each row goes where the hash of its position sends it.
    Hash,
}

/// The share of one device.
#[derive(Debug)]
pub struct DataPartition {
    /// The index of the device.
    pub device_id: usize,
    /// The values for this device.
    pub data: Vec<i32>,
}

/// Where the chunk of partition `p` starts when `len` values are divided
/// into `n` chunks: every chunk has `len / n` values, and the first
/// `len % n` chunks have one more.
pub open spec fn spec_range_start(len: int, n: int, p: int) -> int {
    p * (len / n) + if p < len % n {
        p
    } else {
        len % n
    }
}

/// The values of the rows that the hashes send to partition `p`, in their
/// order.
pub open spec fn spec_bucket(data: Seq<i32>, hashes: Seq<u64>, n: int, p: int) -> Seq<i32>
    decreases data.len(),
{
    if data.len() == 0 || hashes.len() != data.len() {
        Seq::empty()
    } else {
        let front = spec_bucket(data.drop_last(), hashes.drop_last(), n, p);
        if hashes.last() as int % n == p {
            front.push(data.last())
        } else {
            front
        }
    }
}

/// The partitions divide the values by the hashes of their positions, one
/// hash per value: partition `p` is for device `p` and holds the values
/// that the hashes send to it, in their order.
pub open spec fn spec_divided_by(parts: Seq<DataPartition>, data: Seq<i32>, hashes: Seq<u64>) -> bool {
    &&& hashes.len() == data.len()
    &&& forall|p: int|
        0 <= p < parts.len() ==> (#[trigger] parts[p]).device_id == p && parts[p].data@
            == spec_bucket(data, hashes, parts.len() as int, p)
}

/// The chunks start at zero, follow one another and end at the end.
pub proof fn lemma_range_covers(len: int, n: int, p: int)
    requires
        0 <= len,
        0 < n,
        0 <= p < n,
    ensures
        spec_range_start(len, n, 0) == 0,
        spec_range_start(len, n, n) == len,
        0 <= spec_range_start(len, n, p) <= spec_range_start(len, n, p + 1) <= len,
        spec_range_start(len, n, p + 1) - spec_range_start(len, n, p) == len / n + if p < len % n {
            1int
        } else {
            0int
        },
{
    let base = len / n;
    let rem = len % n;
    assert(len == n * base + rem) by (nonlinear_arith)
        requires
            n > 0,
            base == len / n,
            rem == len % n,
    ;
    assert(0 <= rem < n);
    assert(base >= 0) by (nonlinear_arith)
        requires
            len >= 0,
            n > 0,
            base == len / n,
    ;
    assert((p + 1) * base == p * base + base) by (nonlinear_arith);
    assert(0 * base == 0);
    assert(p * base >= 0) by (nonlinear_arith)
        requires
            p >= 0,
            base >= 0,
    ;
    assert((p + 1) * base <= n * base) by (nonlinear_arith)
        requires
            p + 1 <= n,
            base >= 0,
    ;
}

/// `Hash::hash` of a row position into a hasher. Nothing is claimed of the
/// hasher afterwards: the algorithm is not specified and may differ between
/// machines.
#[verifier::external_body]
fn feed_position(i: usize, hasher: &mut std::collections::hash_map::DefaultHasher) {
    std::hash::Hash::hash(&i, hasher);
}

/// The hash of a row position under the default hasher.
fn position_hash(i: usize) -> u64 {
    let mut hasher = std::collections::hash_map::DefaultHasher::new();
    feed_position(i, &mut hasher);
    hasher.finish()
}

/// Divides the values into `num_partitions` contiguous chunks, as even as
/// possible: partition `p` holds the values from `spec_range_start(p)` up
/// to `spec_range_start(p + 1)`.
pub fn partition_range(data: &[i32], num_partitions: usize) -> (r: Vec<DataPartition>)
    requires
        num_partitions > 0,
    ensures
        r@.len() == num_partitions,
        forall|p: int|
            0 <= p < num_partitions ==> (#[trigger] r@[p]).device_id == p && r@[p].data@
                == data@.subrange(
                spec_range_start(data@.len() as int, num_partitions as int, p),
                spec_range_start(data@.len() as int, num_partitions as int, p + 1),
            ),
{
    let len = data.len();
    let base = len / num_partitions;
    let remainder = len % num_partitions;
    let mut partitions: Vec<DataPartition> = Vec::with_capacity(num_partitions);
    let mut offset: usize = 0;
    let mut device_id: usize = 0;
    while device_id < num_partitions
        invariant
            len == data@.len(),
            num_partitions > 0,
            base == len / num_partitions,
            remainder == len % num_partitions,
            device_id <= num_partitions,
            partitions@.len() == device_id,
            offset == spec_range_start(len as int, num_partitions as int, device_id as int),
            forall|p: int|
                0 <= p < device_id ==> (#[trigger] partitions@[p]).device_id == p
                    && partitions@[p].data@ == data@.subrange(
                    spec_range_start(len as int, num_partitions as int, p),
                    spec_range_start(len as int, num_partitions as int, p + 1),
                ),
        decreases num_partitions - device_id,
    {
        proof {
            lemma_range_covers(len as int, num_partitions as int, device_id as int);
        }
        let size = if device_id < remainder {
            base + 1
        } else {
            base
        };
        let mut values: Vec<i32> = Vec::with_capacity(size);
        let mut i: usize = 0;
        while i < size
            invariant
                len == data@.len(),
                offset + size <= len,
                i <= size,
                values@ == data@.subrange(offset as int, offset + i),
            decreases size - i,
        {
            values.push(data[offset + i]);
            assert(values@ =~= data@.subrange(offset as int, offset + i + 1));
            i += 1;
        }
        partitions.push(DataPartition { device_id, data: values });
        offset += size;
        device_id += 1;
    }
    partitions
}

/// Divides the values by the given hashes of their positions: partition
/// `p` holds, in their order, the values of the rows whose hash leaves the
/// remainder `p`.
pub fn partition_by_hashes(data: &[i32], hashes: &Vec<u64>, num_partitions: usize) -> (r: Vec<
    DataPartition,
>)
    requires
        num_partitions > 0,
        hashes@.len() == data@.len(),
    ensures
        r@.len() == num_partitions,
        forall|p: int|
            0 <= p < num_partitions ==> (#[trigger] r@[p]).device_id == p && r@[p].data@
                == spec_bucket(data@, hashes@, num_partitions as int, p),
{
    let len = data.len();
    let mut partitions: Vec<DataPartition> = Vec::with_capacity(num_partitions);
    let mut device_id: usize = 0;
    while device_id < num_partitions
        invariant
            len == data@.len(),
            hashes@.len() == len,
            num_partitions > 0,
            device_id <= num_partitions,
            partitions@.len() == device_id,
            forall|p: int|
                0 <= p < device_id ==> (#[trigger] partitions@[p]).device_id == p
                    && partitions@[p].data@ == spec_bucket(
                    data@,
                    hashes@,
                    num_partitions as int,
                    p,
                ),
        decreases num_partitions - device_id,
    {
        let mut values: Vec<i32> = Vec::new();
        let mut i: usize = 0;
        while i < len
            invariant
                len == data@.len(),
                hashes@.len() == len,
                num_partitions > 0,
                device_id < num_partitions,
                i <= len,
                values@ == spec_bucket(
                    data@.subrange(0, i as int),
                    hashes@.subrange(0, i as int),
                    num_partitions as int,
                    device_id as int,
                ),
            decreases len - i,
        {
            proof {
                assert(data@.subrange(0, i + 1).drop_last() =~= data@.subrange(0, i as int));
                assert(hashes@.subrange(0, i + 1).drop_last() =~= hashes@.subrange(0, i as int));
            }
            if hashes[i] % (num_partitions as u64) == device_id as u64 {
                values.push(data[i]);
            }
            i += 1;
        }
        proof {
            assert(data@.subrange(0, len as int) =~= data@);
            assert(hashes@.subrange(0, len as int) =~= hashes@);
        }
        partitions.push(DataPartition { device_id, data: values });
        device_id += 1;
    }
    partitions
}

/// Divides the values by the hash of their positions.
pub fn partition_hash(data: &[i32], num_partitions: usize) -> (r: Vec<DataPartition>)
    requires
        num_partitions > 0,
    ensures
        r@.len() == num_partitions,
        exists|hashes: Seq<u64>| #[trigger] spec_divided_by(r@, data@, hashes),
{
    let len = data.len();
    let mut hashes: Vec<u64> = Vec::with_capacity(len);
    let mut i: usize = 0;
    while i < len
        invariant
            i <= len,
            hashes@.len() == i,
        decreases len - i,
    {
        hashes.push(position_hash(i));
        i += 1;
    }
    let parts = partition_by_hashes(data, &hashes, num_partitions);
    assert(spec_divided_by(parts@, data@, hashes@));
    parts
}

/// Divides the values among `num_partitions` devices. Fails with
/// `InvalidInput` when there is no device to divide among.
pub fn partition_data(data: &[i32], num_partitions: usize, strategy: PartitionStrategy) -> (r:
    Result<Vec<DataPartition>, Error>)
    ensures
        r is Ok <==> num_partitions > 0,
        r matches Err(e) ==> e.spec_kind() == ErrorKind::InvalidInput,
        r matches Ok(parts) ==> parts@.len() == num_partitions && match strategy {
            PartitionStrategy::Range => forall|p: int|
                0 <= p < num_partitions ==> (#[trigger] parts@[p]).device_id == p
                    && parts@[p].data@ == data@.subrange(
                    spec_range_start(data@.len() as int, num_partitions as int, p),
                    spec_range_start(data@.len() as int, num_partitions as int, p + 1),
                ),
            PartitionStrategy::Hash => exists|hashes: Seq<u64>| #[trigger]
                spec_divided_by(parts@, data@, hashes),
        },
{
    if num_partitions == 0 {
        return Err(Error::InvalidInput(String::from_str("num_partitions must be > 0")));
    }
    match strategy {
        PartitionStrategy::Range => Ok(partition_range(data, num_partitions)),
        PartitionStrategy::Hash => Ok(partition_hash(data, num_partitions)),
    }
}

} // verus!
