//! Late materialization under a memory budget.
//!
//! A filter first yields the indices of the rows that pass; only then are
//! the other columns read, and only at those rows. Every working buffer is
//! taken from a budget, so that the memory in use never passes a limit.

use vstd::prelude::*;
use vstd::string::*;
use crate::error::{Error, ErrorKind};

verus! {

/// The default budget: 1.5 GB.
pub const DEFAULT_LIMIT_BYTES: usize = 1_500_000_000;

/// A budget of memory.
#[derive(Debug)]
pub struct MemoryBudget {
    limit: usize,
    current: usize,
}

/// A share of a budget. It is given back with [`MemoryBudget::release`].
#[derive(Debug)]
pub struct MemoryAllocation {
    size: usize,
}

impl MemoryAllocation {
    /// The size of the share.
    pub closed spec fn spec_size(&self) -> usize {
        self.size
    }

    /// The size of the share.
    pub fn size(&self) -> (n: usize)
        ensures
            n == self.spec_size(),
    {
        self.size
    }
}

impl MemoryBudget {
    /// The limit and what is in use.
    pub closed spec fn spec_state(&self) -> (usize, usize) {
        (self.limit, self.current)
    }

    /// A budget with the default limit.
    pub fn new() -> (b: MemoryBudget)
        ensures
            b.spec_state() == (DEFAULT_LIMIT_BYTES, 0usize),
    {
        MemoryBudget::with_limit(DEFAULT_LIMIT_BYTES)
    }

    /// A budget with the given limit, of which nothing is in use.
    pub fn with_limit(limit: usize) -> (b: MemoryBudget)
        ensures
            b.spec_state() == (limit, 0usize),
    {
        MemoryBudget { limit, current: 0 }
    }

    /// Takes `size` bytes from the budget. Fails with `Other`, and takes
    /// nothing, when that would pass the limit.
    pub fn try_allocate(&mut self, size: usize) -> (r: Result<MemoryAllocation, Error>)
        ensures
            final(self).spec_state().0 == old(self).spec_state().0,
            match r {
                Ok(a) => old(self).spec_state().1 + size <= old(self).spec_state().0 && a.spec_size()
                    == size && final(self).spec_state().1 == old(self).spec_state().1 + size,
                Err(e) => old(self).spec_state().1 + size > old(self).spec_state().0
                    && final(self).spec_state().1 == old(self).spec_state().1 && e.spec_kind()
                    == ErrorKind::Other,
            },
    {
        if size > usize::MAX - self.current || self.current + size > self.limit {
            return Err(Error::Other(String::from_str("Memory budget exceeded")));
        }
        self.current = self.current + size;
        Ok(MemoryAllocation { size })
    }

    /// Gives a share back to the budget.
    pub fn release(&mut self, allocation: MemoryAllocation)
        requires
            allocation.spec_size() <= old(self).spec_state().1,
        ensures
            final(self).spec_state() == (
                old(self).spec_state().0,
                (old(self).spec_state().1 - allocation.spec_size()) as usize,
            ),
    {
        self.current = self.current - allocation.size;
    }

    /// The bytes in use.
    pub fn current_usage(&self) -> (n: usize)
        ensures
            n == self.spec_state().1,
    {
        self.current
    }

    /// The limit.
    pub fn limit(&self) -> (n: usize)
        ensures
            n == self.spec_state().0,
    {
        self.limit
    }

    /// The bytes that can still be taken: none when more is in use than
    /// the limit allows.
    pub fn available(&self) -> (n: usize)
        ensures
            n == if self.spec_state().1 >= self.spec_state().0 {
                0
            } else {
                self.spec_state().0 - self.spec_state().1
            },
    {
        if self.current >= self.limit {
            0
        } else {
            self.limit - self.current
        }
    }
}

impl Default for MemoryBudget {
    fn default() -> (b: MemoryBudget)
        ensures
            b.spec_state() == (DEFAULT_LIMIT_BYTES, 0usize),
    {
        MemoryBudget::new()
    }
}

/// The use of a budget: bytes in use, limit, and bytes that can still be
/// taken.
#[derive(Debug, Clone, Copy, PartialEq, Eq, Structural)]
pub struct MemoryStats {
    pub used_bytes: usize,
    pub limit_bytes: usize,
    pub available_bytes: usize,
}

/// The bytes of one index.
pub const INDEX_BYTES: usize = 8;

/// An executor that filters under a budget.
#[derive(Debug)]
pub struct LateMaterializationExecutor {
    budget: MemoryBudget,
}

impl LateMaterializationExecutor {
    /// The limit of the budget and what is in use.
    pub closed spec fn spec_state(&self) -> (usize, usize) {
        self.budget.spec_state()
    }

    /// An executor with the given budget.
    pub fn new(budget: MemoryBudget) -> (e: LateMaterializationExecutor)
        ensures
            e.spec_state() == budget.spec_state(),
    {
        LateMaterializationExecutor { budget }
    }

    /// The indices of the values that pass the predicate, ascending. The
    /// index buffer is taken from the budget for the worst case, in which
    /// every value passes, and given back at the end; where the budget
    /// does not allow it, the filter fails with `Other` and nothing is
    /// evaluated.
    pub fn filter_indices<T, F: Fn(&T) -> bool>(&mut self, column: &[T], predicate: F) -> (r: Result<
        Vec<usize>,
        Error,
    >)
        requires
            forall|i: int| 0 <= i < column@.len() ==> call_requires(predicate, (&#[trigger] column@[i],)),
        ensures
            final(self).spec_state() == old(self).spec_state(),
            r is Ok <==> old(self).spec_state().1 + column@.len() * INDEX_BYTES <= old(
                self,
            ).spec_state().0,
            r matches Err(e) ==> e.spec_kind() == ErrorKind::Other,
            r matches Ok(idx) ==> {
                &&& forall|a: int, b: int| 0 <= a < b < idx@.len() ==> idx@[a] < idx@[b]
                &&& forall|a: int| 0 <= a < idx@.len() ==> (#[trigger] idx@[a]) < column@.len()
                &&& forall|i: int|
                    0 <= i < column@.len() ==> call_ensures(
                        predicate,
                        (&#[trigger] column@[i],),
                        idx@.contains(i as usize),
                    )
            },
    {
        let n = column.len();
        if n > usize::MAX / INDEX_BYTES {
            assert(n * INDEX_BYTES > usize::MAX) by (nonlinear_arith)
                requires
                    n > usize::MAX / INDEX_BYTES,
                    INDEX_BYTES == 8,
            ;
            return Err(Error::Other(String::from_str("Memory budget exceeded")));
        }
        let allocation = match self.budget.try_allocate(n * INDEX_BYTES) {
            Ok(a) => a,
            Err(e) => {
                return Err(e);
            },
        };
        let mut idx: Vec<usize> = Vec::new();
        let mut i: usize = 0;
        while i < n
            invariant
                n == column@.len(),
                i <= n,
                forall|t: int|
                    0 <= t < column@.len() ==> call_requires(predicate, (&#[trigger] column@[t],)),
                forall|a: int, b: int| 0 <= a < b < idx@.len() ==> idx@[a] < idx@[b],
                forall|a: int| 0 <= a < idx@.len() ==> (#[trigger] idx@[a]) < i,
                forall|t: int|
                    0 <= t < i ==> call_ensures(
                        predicate,
                        (&#[trigger] column@[t],),
                        idx@.contains(t as usize),
                    ),
            decreases n - i,
        {
            let ghost before = idx@;
            let pass = predicate(&column[i]);
            if pass {
                idx.push(i);
            }
            proof {
                assert forall|t: int| 0 <= t < i + 1 implies call_ensures(
                    predicate,
                    (&#[trigger] column@[t],),
                    idx@.contains(t as usize),
                ) by {
                    if t < i {
                        if before.contains(t as usize) {
                            let p = choose|p: int| 0 <= p < before.len() && before[p] == t as usize;
                            assert(idx@[p] == t as usize);
                        } else if idx@.contains(t as usize) {
                            let p = choose|p: int| 0 <= p < idx@.len() && idx@[p] == t as usize;
                            assert(p < before.len());
                            assert(before[p] == t as usize);
                        }
                    } else {
                        if pass {
                            assert(idx@[before.len() as int] == i);
                        } else if idx@.contains(t as usize) {
                            let p = choose|p: int| 0 <= p < idx@.len() && idx@[p] == t as usize;
                        }
                    }
                }
            }
            i += 1;
        }
        self.budget.release(allocation);
        Ok(idx)
    }

    /// The use of the budget.
    pub fn memory_stats(&self) -> (s: MemoryStats)
        ensures
            s.used_bytes == self.spec_state().1,
            s.limit_bytes == self.spec_state().0,
            s.available_bytes == if self.spec_state().1 >= self.spec_state().0 {
                0
            } else {
                self.spec_state().0 - self.spec_state().1
            },
    {
        MemoryStats {
            used_bytes: self.budget.current_usage(),
            limit_bytes: self.budget.limit(),
            available_bytes: self.budget.available(),
        }
    }
}

impl Default for LateMaterializationExecutor {
    fn default() -> (e: LateMaterializationExecutor)
        ensures
            e.spec_state() == (DEFAULT_LIMIT_BYTES, 0usize),
    {
        LateMaterializationExecutor::new(MemoryBudget::new())
    }
}

} // verus!
