//! A binary max-heap of ranked rows, the working set of Top-K selection.
//!
//! An entry is a row index with the rank of that row; entries are ordered
//! by rank and, at equal rank, by index. The heap keeps its greatest entry
//! at the root, so the entry to give up first is found in constant time.

use vstd::prelude::*;

verus! {

/// A row index and the rank by which the row is ordered.
#[derive(Debug, Clone, Copy, PartialEq, Eq, Structural)]
pub struct Entry {
    pub rank: i128,
    pub index: usize,
}

/// `a` comes strictly before `b`: lower rank, or equal rank and lower
/// index.
pub open spec fn spec_before(a: Entry, b: Entry) -> bool {
    a.rank < b.rank || (a.rank == b.rank && a.index < b.index)
}

/// Every entry below the root is not after its parent.
pub open spec fn spec_heap_ordered(s: Seq<Entry>) -> bool {
    forall|j: int| 1 <= j < s.len() ==> !spec_before(s[(j - 1) / 2], #[trigger] s[j])
}

/// The heap order holds but possibly between `hole` and its parent; the
/// children of `hole` are not after the parent of `hole`.
pub open spec fn spec_ordered_but_up(s: Seq<Entry>, hole: int) -> bool {
    &&& forall|j: int| 1 <= j < s.len() && j != hole ==> !spec_before(s[(j - 1) / 2], #[trigger] s[j])
    &&& forall|j: int|
        1 <= j < s.len() && (j - 1) / 2 == hole && hole >= 1 ==> !spec_before(
            s[(hole - 1) / 2],
            #[trigger] s[j],
        )
}

/// The heap order holds but possibly between `hole` and its children; the
/// children of `hole` are not after the parent of `hole`.
pub open spec fn spec_ordered_but_down(s: Seq<Entry>, hole: int) -> bool {
    &&& forall|j: int|
        1 <= j < s.len() && (j - 1) / 2 != hole ==> !spec_before(s[(j - 1) / 2], #[trigger] s[j])
    &&& forall|j: int|
        1 <= j < s.len() && (j - 1) / 2 == hole && hole >= 1 ==> !spec_before(
            s[(hole - 1) / 2],
            #[trigger] s[j],
        )
}

/// `s` with the entries at `i` and `j` exchanged.
pub open spec fn spec_swapped(s: Seq<Entry>, i: int, j: int) -> Seq<Entry> {
    s.update(i, s[j]).update(j, s[i])
}

/// Exchanging two entries keeps the set of entries, and keeps them
/// distinct.
pub proof fn lemma_swap_keeps_entries(s: Seq<Entry>, i: int, j: int)
    requires
        0 <= i < s.len(),
        0 <= j < s.len(),
    ensures
        spec_swapped(s, i, j).to_set() == s.to_set(),
        s.no_duplicates() ==> spec_swapped(s, i, j).no_duplicates(),
{
    let t = spec_swapped(s, i, j);
    assert forall|x: Entry| t.to_set().contains(x) <==> s.to_set().contains(x) by {
        if t.to_set().contains(x) {
            let p = choose|p: int| 0 <= p < t.len() && t[p] == x;
            if p == i {
                assert(s[j] == x);
            } else if p == j {
                assert(s[i] == x);
            } else {
                assert(s[p] == x);
            }
        }
        if s.to_set().contains(x) {
            let p = choose|p: int| 0 <= p < s.len() && s[p] == x;
            if p == i {
                assert(t[j] == x);
            } else if p == j {
                assert(t[i] == x);
            } else {
                assert(t[p] == x);
            }
        }
    }
    assert(t.to_set() =~= s.to_set());
    if s.no_duplicates() {
        assert forall|a: int, b: int| 0 <= a < t.len() && 0 <= b < t.len() && a != b implies t[a]
            != t[b] by {
            let sa = if a == i {
                j
            } else if a == j {
                i
            } else {
                a
            };
            let sb = if b == i {
                j
            } else if b == j {
                i
            } else {
                b
            };
            assert(t[a] == s[sa]);
            assert(t[b] == s[sb]);
            assert(sa != sb);
        }
    }
}

/// In a heap no entry is after the root.
pub proof fn lemma_root_is_last(s: Seq<Entry>, j: int)
    requires
        spec_heap_ordered(s),
        0 <= j < s.len(),
    ensures
        !spec_before(s[0], s[j]),
    decreases j,
{
    if j > 0 {
        lemma_root_is_last(s, (j - 1) / 2);
    }
}

/// A binary max-heap of entries.
pub struct EntryHeap {
    items: Vec<Entry>,
}

impl View for EntryHeap {
    type V = Seq<Entry>;

    closed spec fn view(&self) -> Seq<Entry> {
        self.items@
    }
}

impl EntryHeap {
    /// The entries are in heap order.
    pub closed spec fn wf(&self) -> bool {
        spec_heap_ordered(self.items@)
    }

    /// An empty heap with room for `capacity` entries.
    pub fn with_capacity(capacity: usize) -> (h: EntryHeap)
        ensures
            h.wf(),
            h@.len() == 0,
    {
        EntryHeap { items: Vec::with_capacity(capacity) }
    }

    /// The number of entries.
    pub fn len(&self) -> (n: usize)
        ensures
            n == self@.len(),
    {
        self.items.len()
    }

    /// The greatest entry: no entry of the heap is after it.
    pub fn peek(&self) -> (top: Entry)
        requires
            self.wf(),
            self@.len() > 0,
        ensures
            self@.to_set().contains(top),
            forall|x: Entry| self@.to_set().contains(x) ==> !spec_before(top, x),
    {
        let top = self.items[0];
        proof {
            assert(self@[0] == top);
            assert forall|x: Entry| self@.to_set().contains(x) implies !spec_before(top, x) by {
                let p = choose|p: int| 0 <= p < self@.len() && self@[p] == x;
                lemma_root_is_last(self@, p);
            }
        }
        top
    }

    fn swap(&mut self, i: usize, j: usize)
        requires
            i < old(self).items@.len(),
            j < old(self).items@.len(),
        ensures
            final(self).items@ == spec_swapped(old(self).items@, i as int, j as int),
    {
        let a = self.items[i];
        let b = self.items[j];
        self.items.set(i, b);
        self.items.set(j, a);
    }

    fn sift_up(&mut self, start: usize)
        requires
            start < old(self).items@.len(),
            spec_ordered_but_up(old(self).items@, start as int),
        ensures
            spec_heap_ordered(final(self).items@),
            final(self).items@.len() == old(self).items@.len(),
            final(self).items@.to_set() == old(self).items@.to_set(),
            old(self).items@.no_duplicates() ==> final(self).items@.no_duplicates(),
    {
        let mut pos = start;
        loop
            invariant
                pos < self.items@.len(),
                self.items@.len() == old(self).items@.len(),
                spec_ordered_but_up(self.items@, pos as int),
                self.items@.to_set() == old(self).items@.to_set(),
                old(self).items@.no_duplicates() ==> self.items@.no_duplicates(),
            ensures
                spec_heap_ordered(self.items@),
                self.items@.len() == old(self).items@.len(),
                self.items@.to_set() == old(self).items@.to_set(),
                old(self).items@.no_duplicates() ==> self.items@.no_duplicates(),
            decreases pos,
        {
            if pos == 0 {
                break ;
            }
            let parent = (pos - 1) / 2;
            let p = self.items[parent];
            let c = self.items[pos];
            if !(p.rank < c.rank || (p.rank == c.rank && p.index < c.index)) {
                break ;
            }
            proof {
                lemma_swap_keeps_entries(self.items@, parent as int, pos as int);
            }
            let ghost before = self.items@;
            self.swap(parent, pos);
            proof {
                let s = self.items@;
                assert forall|j: int| 1 <= j < s.len() && j != parent implies !spec_before(
                    s[(j - 1) / 2],
                    #[trigger] s[j],
                ) by {
                    if j == pos {
                    } else if (j - 1) / 2 == pos {
                        assert(!spec_before(before[parent as int], before[j]));
                    } else if (j - 1) / 2 == parent {
                        assert(!spec_before(before[parent as int], before[j]));
                    } else {
                        assert(!spec_before(before[(j - 1) / 2], before[j]));
                    }
                }
                assert forall|j: int|
                    1 <= j < s.len() && (j - 1) / 2 == parent && parent >= 1 implies !spec_before(
                    s[(parent - 1) / 2],
                    #[trigger] s[j],
                ) by {
                    if j == pos {
                        assert(!spec_before(before[(parent - 1) / 2], before[parent as int]));
                    } else {
                        assert(!spec_before(before[parent as int], before[j]));
                        assert(!spec_before(before[(parent - 1) / 2], before[parent as int]));
                    }
                }
            }
            pos = parent;
        }
    }

    fn sift_down(&mut self, start: usize)
        requires
            start < old(self).items@.len(),
            spec_ordered_but_down(old(self).items@, start as int),
        ensures
            spec_heap_ordered(final(self).items@),
            final(self).items@.len() == old(self).items@.len(),
            final(self).items@.to_set() == old(self).items@.to_set(),
            old(self).items@.no_duplicates() ==> final(self).items@.no_duplicates(),
    {
        let n = self.items.len();
        let mut pos = start;
        loop
            invariant
                n == self.items@.len(),
                pos < n,
                self.items@.len() == old(self).items@.len(),
                spec_ordered_but_down(self.items@, pos as int),
                self.items@.to_set() == old(self).items@.to_set(),
                old(self).items@.no_duplicates() ==> self.items@.no_duplicates(),
            ensures
                spec_heap_ordered(self.items@),
                self.items@.len() == old(self).items@.len(),
                self.items@.to_set() == old(self).items@.to_set(),
                old(self).items@.no_duplicates() ==> self.items@.no_duplicates(),
            decreases n - pos,
        {
            if pos >= n / 2 {
                // `pos` has no child.
                proof {
                    let s = self.items@;
                    assert forall|j: int| 1 <= j < s.len() implies !spec_before(
                        s[(j - 1) / 2],
                        #[trigger] s[j],
                    ) by {
                        assert((j - 1) / 2 != pos);
                    }
                }
                break ;
            }
            let left = 2 * pos + 1;
            let right = left + 1;
            let mut child = left;
            if right < n {
                let l = self.items[left];
                let r = self.items[right];
                if l.rank < r.rank || (l.rank == r.rank && l.index < r.index) {
                    child = right;
                }
            }
            let c = self.items[child];
            let p = self.items[pos];
            if !(p.rank < c.rank || (p.rank == c.rank && p.index < c.index)) {
                proof {
                    let s = self.items@;
                    assert forall|j: int| 1 <= j < s.len() implies !spec_before(
                        s[(j - 1) / 2],
                        #[trigger] s[j],
                    ) by {
                        if (j - 1) / 2 == pos {
                            assert(j == left || j == right);
                        }
                    }
                }
                break ;
            }
            proof {
                lemma_swap_keeps_entries(self.items@, pos as int, child as int);
            }
            let ghost before = self.items@;
            self.swap(pos, child);
            proof {
                let s = self.items@;
                assert forall|j: int| 1 <= j < s.len() && (j - 1) / 2 != child implies !spec_before(
                    s[(j - 1) / 2],
                    #[trigger] s[j],
                ) by {
                    if j == child {
                    } else if (j - 1) / 2 == pos {
                        assert(j == left || j == right);
                        assert(before[j] == s[j]);
                    } else if j == pos {
                        assert(pos >= 1);
                        assert(!spec_before(before[(pos - 1) / 2], before[child as int]));
                    } else {
                        assert(!spec_before(before[(j - 1) / 2], before[j]));
                    }
                }
                assert forall|j: int|
                    1 <= j < s.len() && (j - 1) / 2 == child && child >= 1 implies !spec_before(
                    s[(child - 1) / 2],
                    #[trigger] s[j],
                ) by {
                    assert(!spec_before(before[child as int], before[j]));
                }
            }
            pos = child;
        }
    }

    /// Adds an entry.
    pub fn push(&mut self, e: Entry)
        requires
            old(self).wf(),
        ensures
            final(self).wf(),
            final(self)@.len() == old(self)@.len() + 1,
            final(self)@.to_set() == old(self)@.to_set().insert(e),
            old(self)@.no_duplicates() && !old(self)@.to_set().contains(e) ==> final(self)@.no_duplicates(),
    {
        let ghost before = self.items@;
        self.items.push(e);
        let last = self.items.len() - 1;
        proof {
            let s = self.items@;
            assert(s == before.push(e));
            assert forall|x: Entry| s.to_set().contains(x) <==> before.to_set().insert(e).contains(
                x,
            ) by {
                if s.to_set().contains(x) {
                    let p = choose|p: int| 0 <= p < s.len() && s[p] == x;
                    if p < before.len() {
                        assert(before[p] == x);
                    }
                }
                if before.to_set().contains(x) {
                    let p = choose|p: int| 0 <= p < before.len() && before[p] == x;
                    assert(s[p] == x);
                }
                if x == e {
                    assert(s[last as int] == x);
                }
            }
            assert(s.to_set() =~= before.to_set().insert(e));
            assert forall|j: int| 1 <= j < s.len() && j != last implies !spec_before(
                s[(j - 1) / 2],
                #[trigger] s[j],
            ) by {
                assert(!spec_before(before[(j - 1) / 2], before[j]));
            }
            if before.no_duplicates() && !before.to_set().contains(e) {
                assert forall|a: int, b: int|
                    0 <= a < s.len() && 0 <= b < s.len() && a != b implies s[a] != s[b] by {
                    if a < before.len() {
                        assert(before.to_set().contains(before[a]));
                    }
                    if b < before.len() {
                        assert(before.to_set().contains(before[b]));
                    }
                }
            }
        }
        self.sift_up(last);
    }

    /// Removes and returns the greatest entry. The entries that stay are
    /// those that were held, but for one occurrence of the greatest; where
    /// no entry was held twice, none is afterwards, and the greatest is
    /// gone.
    pub fn pop(&mut self) -> (top: Entry)
        requires
            old(self).wf(),
            old(self)@.len() > 0,
        ensures
            final(self).wf(),
            final(self)@.len() == old(self)@.len() - 1,
            old(self)@.to_set().contains(top),
            old(self)@.to_set() == final(self)@.to_set().insert(top),
            old(self)@.no_duplicates() ==> final(self)@.no_duplicates() && final(self)@.to_set()
                == old(self)@.to_set().remove(top),
            forall|x: Entry| old(self)@.to_set().contains(x) ==> !spec_before(top, x),
    {
        let ghost before = self.items@;
        let top = self.peek();
        let n = self.items.len();
        let last = self.items[n - 1];
        self.items.set(0, last);
        let popped = self.items.pop();
        proof {
            let s = self.items@;
            assert(before[0] == top) by {
                assert(before.to_set().contains(before[0]));
                assert(!spec_before(top, before[0]));
                let p = choose|p: int| 0 <= p < before.len() && before[p] == top;
                lemma_root_is_last(before, p);
            }
            assert forall|j: int| 0 <= j < s.len() implies s[j] == (if j == 0 {
                before[n - 1]
            } else {
                before[j]
            }) by {}
            assert forall|x: Entry|
                before.to_set().contains(x) <==> s.to_set().insert(top).contains(x) by {
                if s.to_set().contains(x) {
                    let p = choose|p: int| 0 <= p < s.len() && s[p] == x;
                    if p == 0 {
                        assert(before[n - 1] == x);
                    } else {
                        assert(before[p] == x);
                    }
                }
                if before.to_set().contains(x) && x != top {
                    let p = choose|p: int| 0 <= p < before.len() && before[p] == x;
                    if p == n - 1 {
                        assert(s[0] == x);
                    } else {
                        assert(s[p] == x);
                    }
                }
            }
            assert(before.to_set() =~= s.to_set().insert(top));
            if before.no_duplicates() {
                assert forall|a: int, b: int|
                    0 <= a < s.len() && 0 <= b < s.len() && a != b implies s[a] != s[b] by {
                    let sa = if a == 0 {
                        n - 1
                    } else {
                        a
                    };
                    let sb = if b == 0 {
                        n - 1
                    } else {
                        b
                    };
                    assert(s[a] == before[sa]);
                    assert(s[b] == before[sb]);
                }
                assert(!s.to_set().contains(top)) by {
                    if s.to_set().contains(top) {
                        let p = choose|p: int| 0 <= p < s.len() && s[p] == top;
                        if p == 0 {
                            assert(before[n - 1] == before[0]);
                        } else {
                            assert(before[p] == before[0]);
                        }
                    }
                }
                assert(s.to_set() =~= before.to_set().remove(top));
            }
            if s.len() > 0 {
                assert forall|j: int| 1 <= j < s.len() && (j - 1) / 2 != 0 implies !spec_before(
                    s[(j - 1) / 2],
                    #[trigger] s[j],
                ) by {
                    assert(!spec_before(before[(j - 1) / 2], before[j]));
                }
            }
        }
        if self.items.len() > 0 {
            self.sift_down(0);
        }
        top
    }

    /// Replaces the greatest entry by `e`. Where no entry was held twice
    /// and `e` was not held, no entry is held twice afterwards, and the
    /// entries are those that were held, without the greatest and with
    /// `e`.
    pub fn replace_top(&mut self, e: Entry) -> (top: Entry)
        requires
            old(self).wf(),
            old(self)@.len() > 0,
        ensures
            final(self).wf(),
            final(self)@.len() == old(self)@.len(),
            old(self)@.to_set().contains(top),
            final(self)@.to_set().insert(top) == old(self)@.to_set().insert(e),
            old(self)@.no_duplicates() && !old(self)@.to_set().contains(e) ==> final(self)@.no_duplicates()
                && final(self)@.to_set() == old(self)@.to_set().remove(top).insert(e),
            forall|x: Entry| old(self)@.to_set().contains(x) ==> !spec_before(top, x),
    {
        let top = self.pop();
        self.push(e);
        top
    }
}

} // verus!
