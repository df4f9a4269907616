//! Reduction kernels over integer columns.
//!
//! These are the reference results that every backend must reproduce bit
//! for bit: the sum wraps on overflow, the extrema of an empty input are
//! absent, and the count is the number of elements.

use vstd::prelude::*;
use vstd::string::*;

verus! {

/// The sum of `values` in unbounded integers.
pub open spec fn spec_total(values: Seq<int>) -> int
    decreases values.len(),
{
    if values.len() == 0 {
        0
    } else {
        spec_total(values.drop_last()) + values.last()
    }
}

/// `x` reduced to the range of a signed 32-bit integer.
pub open spec fn spec_wrap32(x: int) -> int {
    ((x + 0x8000_0000) % 0x1_0000_0000) - 0x8000_0000
}

/// `x` reduced to the range of a signed 64-bit integer.
pub open spec fn spec_wrap64(x: int) -> int {
    ((x + 0x8000_0000_0000_0000) % 0x1_0000_0000_0000_0000) - 0x8000_0000_0000_0000
}

/// The sum of 32-bit values with wrapping addition, left to right.
pub open spec fn spec_sum_i32(values: Seq<i32>) -> i32
    decreases values.len(),
{
    if values.len() == 0 {
        0
    } else {
        vstd::wrapping::i32_specs::wrapping_add(spec_sum_i32(values.drop_last()), values.last())
    }
}

/// The sum of 64-bit values with wrapping addition, left to right.
pub open spec fn spec_sum_i64(values: Seq<i64>) -> i64
    decreases values.len(),
{
    if values.len() == 0 {
        0
    } else {
        vstd::wrapping::i64_specs::wrapping_add(spec_sum_i64(values.drop_last()), values.last())
    }
}

/// The least of `values`; they are not empty.
pub open spec fn spec_min(values: Seq<int>) -> int
    recommends
        values.len() > 0,
    decreases values.len(),
{
    if values.len() <= 1 {
        values[0]
    } else {
        let rest = spec_min(values.drop_last());
        if values.last() < rest {
            values.last()
        } else {
            rest
        }
    }
}

/// The greatest of `values`; they are not empty.
pub open spec fn spec_max(values: Seq<int>) -> int
    recommends
        values.len() > 0,
    decreases values.len(),
{
    if values.len() <= 1 {
        values[0]
    } else {
        let rest = spec_max(values.drop_last());
        if values.last() > rest {
            values.last()
        } else {
            rest
        }
    }
}

/// The values as unbounded integers.
pub open spec fn spec_ints_i32(values: Seq<i32>) -> Seq<int> {
    Seq::new(values.len(), |i: int| values[i] as int)
}

/// The values as unbounded integers.
pub open spec fn spec_ints_i64(values: Seq<i64>) -> Seq<int> {
    Seq::new(values.len(), |i: int| values[i] as int)
}

/// The least value is one of the values and no value is below it.
pub proof fn lemma_min_is_least(values: Seq<int>)
    requires
        values.len() > 0,
    ensures
        values.contains(spec_min(values)),
        forall|i: int| 0 <= i < values.len() ==> spec_min(values) <= #[trigger] values[i],
    decreases values.len(),
{
    if values.len() > 1 {
        let front = values.drop_last();
        lemma_min_is_least(front);
        let p = choose|p: int| 0 <= p < front.len() && front[p] == spec_min(front);
        assert(values[p] == spec_min(front));
        assert(values[values.len() - 1] == values.last());
        assert forall|i: int| 0 <= i < values.len() implies spec_min(values) <= #[trigger] values[i] by {
            if i < front.len() {
                assert(front[i] == values[i]);
            }
        }
    } else {
        assert(values[0] == spec_min(values));
    }
}

/// The greatest value is one of the values and no value is above it.
pub proof fn lemma_max_is_greatest(values: Seq<int>)
    requires
        values.len() > 0,
    ensures
        values.contains(spec_max(values)),
        forall|i: int| 0 <= i < values.len() ==> spec_max(values) >= #[trigger] values[i],
    decreases values.len(),
{
    if values.len() > 1 {
        let front = values.drop_last();
        lemma_max_is_greatest(front);
        let p = choose|p: int| 0 <= p < front.len() && front[p] == spec_max(front);
        assert(values[p] == spec_max(front));
        assert(values[values.len() - 1] == values.last());
        assert forall|i: int| 0 <= i < values.len() implies spec_max(values) >= #[trigger] values[i] by {
            if i < front.len() {
                assert(front[i] == values[i]);
            }
        }
    } else {
        assert(values[0] == spec_max(values));
    }
}

/// The sum of the values with wrapping 32-bit addition.
pub fn sum_i32(values: &[i32]) -> (s: i32)
    ensures
        s == spec_sum_i32(values@),
{
    let n = values.len();
    let mut acc: i32 = 0;
    let mut i: usize = 0;
    while i < n
        invariant
            n == values@.len(),
            i <= n,
            acc == spec_sum_i32(values@.subrange(0, i as int)),
        decreases n - i,
    {
        assert(values@.subrange(0, i + 1).drop_last() =~= values@.subrange(0, i as int));
        acc = acc.wrapping_add(values[i]);
        i += 1;
    }
    assert(values@.subrange(0, n as int) =~= values@);
    acc
}

/// The sum of the values with wrapping 64-bit addition.
pub fn sum_i64(values: &[i64]) -> (s: i64)
    ensures
        s == spec_sum_i64(values@),
{
    let n = values.len();
    let mut acc: i64 = 0;
    let mut i: usize = 0;
    while i < n
        invariant
            n == values@.len(),
            i <= n,
            acc == spec_sum_i64(values@.subrange(0, i as int)),
        decreases n - i,
    {
        assert(values@.subrange(0, i + 1).drop_last() =~= values@.subrange(0, i as int));
        acc = acc.wrapping_add(values[i]);
        i += 1;
    }
    assert(values@.subrange(0, n as int) =~= values@);
    acc
}

/// The least value, or `None` for an empty input.
pub fn min_i32(values: &[i32]) -> (m: Option<i32>)
    ensures
        m is Some <==> values@.len() > 0,
        m matches Some(v) ==> v == spec_min(spec_ints_i32(values@)),
{
    let n = values.len();
    if n == 0 {
        return None;
    }
    let ghost ints = spec_ints_i32(values@);
    let mut best = values[0];
    let mut i: usize = 1;
    assert(ints.subrange(0, 1)[0] == ints[0]);
    while i < n
        invariant
            n == values@.len(),
            ints == spec_ints_i32(values@),
            1 <= i <= n,
            best == spec_min(ints.subrange(0, i as int)),
        decreases n - i,
    {
        assert(ints.subrange(0, i + 1).drop_last() =~= ints.subrange(0, i as int));
        if values[i] < best {
            best = values[i];
        }
        i += 1;
    }
    assert(ints.subrange(0, n as int) =~= ints);
    Some(best)
}

/// The greatest value, or `None` for an empty input.
pub fn max_i32(values: &[i32]) -> (m: Option<i32>)
    ensures
        m is Some <==> values@.len() > 0,
        m matches Some(v) ==> v == spec_max(spec_ints_i32(values@)),
{
    let n = values.len();
    if n == 0 {
        return None;
    }
    let ghost ints = spec_ints_i32(values@);
    let mut best = values[0];
    let mut i: usize = 1;
    assert(ints.subrange(0, 1)[0] == ints[0]);
    while i < n
        invariant
            n == values@.len(),
            ints == spec_ints_i32(values@),
            1 <= i <= n,
            best == spec_max(ints.subrange(0, i as int)),
        decreases n - i,
    {
        assert(ints.subrange(0, i + 1).drop_last() =~= ints.subrange(0, i as int));
        if values[i] > best {
            best = values[i];
        }
        i += 1;
    }
    assert(ints.subrange(0, n as int) =~= ints);
    Some(best)
}

/// The least value, or `None` for an empty input.
pub fn min_i64(values: &[i64]) -> (m: Option<i64>)
    ensures
        m is Some <==> values@.len() > 0,
        m matches Some(v) ==> v == spec_min(spec_ints_i64(values@)),
{
    let n = values.len();
    if n == 0 {
        return None;
    }
    let ghost ints = spec_ints_i64(values@);
    let mut best = values[0];
    let mut i: usize = 1;
    assert(ints.subrange(0, 1)[0] == ints[0]);
    while i < n
        invariant
            n == values@.len(),
            ints == spec_ints_i64(values@),
            1 <= i <= n,
            best == spec_min(ints.subrange(0, i as int)),
        decreases n - i,
    {
        assert(ints.subrange(0, i + 1).drop_last() =~= ints.subrange(0, i as int));
        if values[i] < best {
            best = values[i];
        }
        i += 1;
    }
    assert(ints.subrange(0, n as int) =~= ints);
    Some(best)
}

/// The greatest value, or `None` for an empty input.
pub fn max_i64(values: &[i64]) -> (m: Option<i64>)
    ensures
        m is Some <==> values@.len() > 0,
        m matches Some(v) ==> v == spec_max(spec_ints_i64(values@)),
{
    let n = values.len();
    if n == 0 {
        return None;
    }
    let ghost ints = spec_ints_i64(values@);
    let mut best = values[0];
    let mut i: usize = 1;
    assert(ints.subrange(0, 1)[0] == ints[0]);
    while i < n
        invariant
            n == values@.len(),
            ints == spec_ints_i64(values@),
            1 <= i <= n,
            best == spec_max(ints.subrange(0, i as int)),
        decreases n - i,
    {
        assert(ints.subrange(0, i + 1).drop_last() =~= ints.subrange(0, i as int));
        if values[i] > best {
            best = values[i];
        }
        i += 1;
    }
    assert(ints.subrange(0, n as int) =~= ints);
    Some(best)
}

/// The number of elements.
pub fn count<T>(values: &[T]) -> (n: usize)
    ensures
        n == values@.len(),
{
    values.len()
}

/// Whether a value passes the comparison `value op threshold`. The
/// operators are `gt`, `lt`, `eq`, `gte`, `lte` and `ne`; any other name
/// stands for `gt`.
pub open spec fn spec_passes(op: Seq<char>, value: int, threshold: int) -> bool {
    if op == "lt"@ {
        value < threshold
    } else if op == "eq"@ {
        value == threshold
    } else if op == "gte"@ {
        value >= threshold
    } else if op == "lte"@ {
        value <= threshold
    } else if op == "ne"@ {
        value != threshold
    } else {
        value > threshold
    }
}

/// The values with those that fail the comparison replaced by zero.
pub open spec fn spec_masked(values: Seq<i32>, op: Seq<char>, threshold: i32) -> Seq<i32> {
    Seq::new(
        values.len(),
        |i: int|
            if spec_passes(op, values[i] as int, threshold as int) {
                values[i]
            } else {
                0i32
            },
    )
}

/// A comparison operator of the fused kernel.
#[derive(Debug, Clone, Copy, PartialEq, Eq, Structural)]
pub enum FilterOp {
    Gt,
    Lt,
    Eq,
    Gte,
    Lte,
    Ne,
}

impl FilterOp {
    /// The operator that a name stands for.
    pub open spec fn spec_from_name(name: Seq<char>) -> FilterOp {
        if name == "lt"@ {
            FilterOp::Lt
        } else if name == "eq"@ {
            FilterOp::Eq
        } else if name == "gte"@ {
            FilterOp::Gte
        } else if name == "lte"@ {
            FilterOp::Lte
        } else if name == "ne"@ {
            FilterOp::Ne
        } else {
            FilterOp::Gt
        }
    }

    /// Whether `value op threshold` holds.
    pub open spec fn spec_holds(self, value: int, threshold: int) -> bool {
        match self {
            FilterOp::Gt => value > threshold,
            FilterOp::Lt => value < threshold,
            FilterOp::Eq => value == threshold,
            FilterOp::Gte => value >= threshold,
            FilterOp::Lte => value <= threshold,
            FilterOp::Ne => value != threshold,
        }
    }

    /// The operator that a name stands for; an unknown name stands for
    /// `gt`.
    pub fn from_name(name: &str) -> (op: FilterOp)
        ensures
            op == Self::spec_from_name(name@),
            forall|v: int, t: int| op.spec_holds(v, t) == spec_passes(name@, v, t),
    {
        let name = String::from_str(name);
        let lt = String::from_str("lt");
        let eq = String::from_str("eq");
        let gte = String::from_str("gte");
        let lte = String::from_str("lte");
        let ne = String::from_str("ne");
        if name == lt {
            FilterOp::Lt
        } else if name == eq {
            FilterOp::Eq
        } else if name == gte {
            FilterOp::Gte
        } else if name == lte {
            FilterOp::Lte
        } else if name == ne {
            FilterOp::Ne
        } else {
            FilterOp::Gt
        }
    }

    /// Whether `value op threshold` holds.
    pub fn holds(self, value: i32, threshold: i32) -> (r: bool)
        ensures
            r == self.spec_holds(value as int, threshold as int),
    {
        match self {
            FilterOp::Gt => value > threshold,
            FilterOp::Lt => value < threshold,
            FilterOp::Eq => value == threshold,
            FilterOp::Gte => value >= threshold,
            FilterOp::Lte => value <= threshold,
            FilterOp::Ne => value != threshold,
        }
    }
}

/// The wrapping sum of the values that pass `value op threshold`: the fused
/// filter and sum, in one pass and without an intermediate buffer.
pub fn fused_filter_sum(values: &[i32], threshold: i32, op: &str) -> (s: i32)
    ensures
        s == spec_sum_i32(spec_masked(values@, op@, threshold)),
{
    let which = FilterOp::from_name(op);
    let n = values.len();
    let ghost masked = spec_masked(values@, op@, threshold);
    let mut acc: i32 = 0;
    let mut i: usize = 0;
    while i < n
        invariant
            n == values@.len(),
            masked == spec_masked(values@, op@, threshold),
            forall|v: int, t: int| which.spec_holds(v, t) == spec_passes(op@, v, t),
            i <= n,
            acc == spec_sum_i32(masked.subrange(0, i as int)),
        decreases n - i,
    {
        assert(masked.subrange(0, i + 1).drop_last() =~= masked.subrange(0, i as int));
        let v = values[i];
        assert(which.spec_holds(v as int, threshold as int) == spec_passes(
            op@,
            v as int,
            threshold as int,
        ));
        if which.holds(v, threshold) {
            acc = acc.wrapping_add(v);
        } else {
            acc = acc.wrapping_add(0);
        }
        i += 1;
    }
    assert(masked.subrange(0, n as int) =~= masked);
    acc
}

/// The wrapping 32-bit sum is the true sum reduced to 32 bits. Reduction is
/// blind to the order and the grouping of the additions, so every backend
/// that adds with wrap-around arrives at the same bits.
pub proof fn lemma_sum_i32_is_reduced_total(values: Seq<i32>)
    ensures
        spec_sum_i32(values) as int == spec_wrap32(spec_total(spec_ints_i32(values))),
    decreases values.len(),
{
    let ints = spec_ints_i32(values);
    if values.len() > 0 {
        lemma_sum_i32_is_reduced_total(values.drop_last());
        assert(spec_ints_i32(values.drop_last()) =~= ints.drop_last());
        let t = spec_total(ints.drop_last());
        let s = spec_sum_i32(values.drop_last()) as int;
        let v = values.last() as int;
        assert(ints.last() == v);
        assert(s == spec_wrap32(t));
        assert(spec_wrap32(s + v) == spec_wrap32(t + v)) by {
            lemma_wrap32_congruent(t, v);
        }
    }
}

/// Reducing before an addition does not change the reduced sum.
pub proof fn lemma_wrap32_congruent(t: int, v: int)
    ensures
        spec_wrap32(spec_wrap32(t) + v) == spec_wrap32(t + v),
{
    let r = 0x1_0000_0000int;
    let h = 0x8000_0000int;
    let q = (t + h) / r;
    assert((t + h) == q * r + (t + h) % r) by (nonlinear_arith)
        requires
            r == 0x1_0000_0000int,
            q == (t + h) / r,
    ;
    let a = (t + h) % r;
    assert(spec_wrap32(t) == a - h);
    assert((a + v + q * r) % r == (a + v) % r) by (nonlinear_arith)
        requires
            r == 0x1_0000_0000int,
    ;
}

/// The wrapping 64-bit sum is the true sum reduced to 64 bits.
pub proof fn lemma_sum_i64_is_reduced_total(values: Seq<i64>)
    ensures
        spec_sum_i64(values) as int == spec_wrap64(spec_total(spec_ints_i64(values))),
    decreases values.len(),
{
    let ints = spec_ints_i64(values);
    if values.len() > 0 {
        lemma_sum_i64_is_reduced_total(values.drop_last());
        assert(spec_ints_i64(values.drop_last()) =~= ints.drop_last());
        let t = spec_total(ints.drop_last());
        let s = spec_sum_i64(values.drop_last()) as int;
        let v = values.last() as int;
        assert(ints.last() == v);
        assert(s == spec_wrap64(t));
        assert(spec_wrap64(s + v) == spec_wrap64(t + v)) by {
            lemma_wrap64_congruent(t, v);
        }
    }
}

/// Reducing before an addition does not change the reduced sum.
pub proof fn lemma_wrap64_congruent(t: int, v: int)
    ensures
        spec_wrap64(spec_wrap64(t) + v) == spec_wrap64(t + v),
{
    let r = 0x1_0000_0000_0000_0000int;
    let h = 0x8000_0000_0000_0000int;
    let q = (t + h) / r;
    assert((t + h) == q * r + (t + h) % r) by (nonlinear_arith)
        requires
            r == 0x1_0000_0000_0000_0000int,
            q == (t + h) / r,
    ;
    let a = (t + h) % r;
    assert(spec_wrap64(t) == a - h);
    assert((a + v + q * r) % r == (a + v) % r) by (nonlinear_arith)
        requires
            r == 0x1_0000_0000_0000_0000int,
    ;
}

/// The true sum of a concatenation is the sum of the sums of its parts: the
/// total does not depend on how the input is split among workgroups.
pub proof fn lemma_total_append(a: Seq<int>, b: Seq<int>)
    ensures
        spec_total(a + b) == spec_total(a) + spec_total(b),
    decreases b.len(),
{
    if b.len() == 0 {
        assert(a + b =~= a);
    } else {
        lemma_total_append(a, b.drop_last());
        assert((a + b).drop_last() =~= a + b.drop_last());
        assert((a + b).last() == b.last());
    }
}

/// Backend equivalence for the wrapping sum. The sum of a whole input is
/// the wrapping sum of the sums of its parts, wherever the input is cut: a
/// backend that sums workgroup by workgroup, or lane by lane, and then
/// combines the partial sums with wrapping addition returns the same bits
/// as one that adds from left to right.
pub proof fn lemma_sum_i32_split(a: Seq<i32>, b: Seq<i32>)
    ensures
        spec_sum_i32(a + b) == vstd::wrapping::i32_specs::wrapping_add(
            spec_sum_i32(a),
            spec_sum_i32(b),
        ),
    decreases b.len(),
{
    if b.len() == 0 {
        assert(a + b =~= a);
    } else {
        lemma_sum_i32_split(a, b.drop_last());
        assert((a + b).drop_last() =~= a + b.drop_last());
        assert((a + b).last() == b.last());
    }
}

/// Backend equivalence for the minimum: the least of a whole input is the
/// lesser of the least of its two parts.
pub proof fn lemma_min_split(a: Seq<int>, b: Seq<int>)
    requires
        a.len() > 0,
        b.len() > 0,
    ensures
        spec_min(a + b) == if spec_min(b) < spec_min(a) {
            spec_min(b)
        } else {
            spec_min(a)
        },
    decreases b.len(),
{
    assert((a + b).last() == b.last());
    if b.len() == 1 {
        assert((a + b).drop_last() =~= a);
    } else {
        lemma_min_split(a, b.drop_last());
        assert((a + b).drop_last() =~= a + b.drop_last());
    }
}

/// Backend equivalence for the maximum: the greatest of a whole input is
/// the greater of the greatest of its two parts.
pub proof fn lemma_max_split(a: Seq<int>, b: Seq<int>)
    requires
        a.len() > 0,
        b.len() > 0,
    ensures
        spec_max(a + b) == if spec_max(b) > spec_max(a) {
            spec_max(b)
        } else {
            spec_max(a)
        },
    decreases b.len(),
{
    assert((a + b).last() == b.last());
    if b.len() == 1 {
        assert((a + b).drop_last() =~= a);
    } else {
        lemma_max_split(a, b.drop_last());
        assert((a + b).drop_last() =~= a + b.drop_last());
    }
}

} // verus!
