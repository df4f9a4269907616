//! Top-K selection: the `k` rows that come first when a batch is ordered by
//! one column.
//!
//! Rows are ordered by the value of the column in the requested direction,
//! nulls after all values, and rows that are equal in this by their
//! position in the batch. The order is total, so the selection is a
//! function of the batch: nothing is left to chance.
//!
//! The selection makes one pass over the column with a heap of at most `k`
//! entries whose root is the entry that would be given up next, and then
//! drains the heap into presentation order.
//!
//! A numeric column is ordered by its values. A text column has an order
//! too, that of its characters, and a boolean column has `false` before
//! `true`, but only the full order of all rows is offered for them: a
//! selection of fewer rows than the batch holds is refused. A text is
//! ranked by the number of texts of the column that come before it, which
//! takes time quadratic in the number of rows.

use vstd::prelude::*;
use vstd::string::*;
use crate::batch::{spec_range_indices, BatchView, ColumnBatch};
use crate::column::{Cell, Column, ColumnData};
use crate::error::{Error, ErrorKind};
use crate::heap::{spec_before, Entry, EntryHeap};
use crate::schema::DataType;
use crate::text::{chars_of, decimal, spec_decimal};

verus! {

/// The direction of a Top-K selection.
#[derive(Debug, Clone, Copy, PartialEq, Eq, Structural)]
pub enum SortOrder {
    /// The `k` smallest values, smallest first.
    Ascending,
    /// The `k` largest values, largest first.
    Descending,
}

/// Whether a selection of any number of rows is offered by a column of
/// this type: the numeric types.
pub open spec fn spec_sortable(t: DataType) -> bool {
    t == DataType::Int32 || t == DataType::Int64 || t == DataType::Float32 || t
        == DataType::Float64
}

/// The integer by which a value is ordered. An integer orders as itself. A
/// floating-point bit pattern orders as in the IEEE 754 total order: a
/// pattern with the sign bit clear as itself, one with the sign bit set
/// below zero and the lower the greater its magnitude.
pub open spec fn spec_sort_key(t: DataType, value: int) -> int {
    match t {
        DataType::Float32 => if value < 0x8000_0000 {
            value
        } else {
            -(value - 0x8000_0000) - 1
        },
        DataType::Float64 => if value < 0x8000_0000_0000_0000 {
            value
        } else {
            -(value - 0x8000_0000_0000_0000) - 1
        },
        _ => value,
    }
}

/// The rank of a null: above the rank of every value.
pub open spec fn spec_null_rank() -> int {
    0x1_0000_0000_0000_0000
}

/// The rank of a cell: rows are presented by ascending rank. Ascending
/// order ranks a value by its sort key, descending order by the negated
/// key, and a null ranks last in both.
pub open spec fn spec_rank(t: DataType, cell: Cell, order: SortOrder) -> int {
    match cell {
        Cell::Int(v) => match order {
            SortOrder::Ascending => spec_sort_key(t, v),
            SortOrder::Descending => -spec_sort_key(t, v),
        },
        _ => spec_null_rank(),
    }
}

/// The ranks of the cells of a column.
pub open spec fn spec_ranks(t: DataType, cells: Seq<Cell>, order: SortOrder) -> Seq<int> {
    Seq::new(cells.len(), |i: int| spec_rank(t, cells[i], order))
}

/// Row `a` is presented before row `b`: it has the lower rank, or the same
/// rank and the lower position.
pub open spec fn spec_row_before(ranks: Seq<int>, a: int, b: int) -> bool {
    ranks[a] < ranks[b] || (ranks[a] == ranks[b] && a < b)
}

/// `sel` is the Top-K selection for `ranks`: it holds `min(k, n)` rows, in
/// presentation order, and every row that it leaves out comes after every
/// row that it holds.
pub open spec fn spec_is_top_k(ranks: Seq<int>, k: nat, sel: Seq<usize>) -> bool {
    &&& sel.len() == if k < ranks.len() {
        k
    } else {
        ranks.len()
    }
    &&& forall|j: int| 0 <= j < sel.len() ==> (#[trigger] sel[j]) < ranks.len()
    &&& forall|a: int, b: int|
        0 <= a < b < sel.len() ==> spec_row_before(ranks, #[trigger] sel[a] as int, #[trigger] sel[b] as int)
    &&& forall|i: int, j: int|
        0 <= i < ranks.len() && 0 <= j < sel.len() && !sel.contains(i as usize) ==> #[trigger] spec_row_before(
            ranks,
            sel[j] as int,
            i,
        )
}

/// The Top-K selection for `ranks`.
pub open spec fn spec_top_k(ranks: Seq<int>, k: nat) -> Seq<usize> {
    choose|sel: Seq<usize>| spec_is_top_k(ranks, k, sel)
}

/// Two Top-K selections for the same ranks agree up to any position.
proof fn lemma_top_k_agree(ranks: Seq<int>, k: nat, x: Seq<usize>, y: Seq<usize>, j: int)
    requires
        spec_is_top_k(ranks, k, x),
        spec_is_top_k(ranks, k, y),
        0 <= j <= x.len(),
    ensures
        forall|t: int| 0 <= t < j ==> x[t] == y[t],
    decreases j,
{
    if j > 0 {
        lemma_top_k_agree(ranks, k, x, y, j - 1);
        let p = j - 1;
        if x[p] != y[p] {
            // Whichever of the two rows comes first is missing from the
            // other selection, which must then hold only rows before it.
            let (first, other, late) = if spec_row_before(ranks, x[p] as int, y[p] as int) {
                (x[p], y, y[p])
            } else {
                (y[p], x, x[p])
            };
            assert(spec_row_before(ranks, first as int, late as int));
            assert forall|q: int| 0 <= q < other.len() implies other[q] != first by {
                if other[q] == first {
                    if q < p {
                        // Then `first` stands at `q` in both selections.
                        assert(x[q] == y[q]);
                        if other == y {
                            assert(spec_row_before(ranks, x[q] as int, x[p] as int));
                        } else {
                            assert(spec_row_before(ranks, y[q] as int, y[p] as int));
                        }
                    } else if q > p {
                        assert(spec_row_before(ranks, other[p] as int, other[q] as int));
                    }
                }
            }
            assert(!other.contains(first));
            assert(spec_row_before(ranks, other[p] as int, first as int));
        }
    }
}

/// The Top-K selection is unique.
pub proof fn lemma_top_k_unique(ranks: Seq<int>, k: nat, x: Seq<usize>, y: Seq<usize>)
    requires
        spec_is_top_k(ranks, k, x),
        spec_is_top_k(ranks, k, y),
    ensures
        x == y,
{
    lemma_top_k_agree(ranks, k, x, y, x.len() as int);
    assert(x =~= y);
}

/// A selection with the defining property is the Top-K selection.
pub proof fn lemma_top_k_is(ranks: Seq<int>, k: nat, sel: Seq<usize>)
    requires
        spec_is_top_k(ranks, k, sel),
    ensures
        spec_top_k(ranks, k) == sel,
{
    lemma_top_k_unique(ranks, k, spec_top_k(ranks, k), sel);
}

/// The entry of row `r`.
pub open spec fn spec_entry(ranks: Seq<int>, r: int) -> Entry {
    Entry { rank: ranks[r] as i128, index: r as usize }
}

/// Every entry of `s` comes before `e`.
pub open spec fn spec_all_before(s: Set<Entry>, e: Entry) -> bool {
    forall|x: Entry| s.contains(x) ==> spec_before(x, e)
}

/// Every rank fits the exec type of ranks, and there are no more rows than
/// a machine word counts.
pub open spec fn spec_ranks_fit(ranks: Seq<int>) -> bool {
    &&& ranks.len() <= usize::MAX
    &&& forall|i: int| 0 <= i < ranks.len() ==> i128::MIN <= #[trigger] ranks[i] <= i128::MAX
}

/// The ranks of a column of a sortable type fit.
pub proof fn lemma_column_ranks_fit(column: &Column, order: SortOrder)
    requires
        column.wf(),
        column.spec_len() <= usize::MAX,
        spec_sortable(column.spec_data_type()),
    ensures
        spec_ranks_fit(spec_ranks(column.spec_data_type(), column.cells(), order)),
{
}

/// The rank of row `i` of a column.
pub fn rank_at(column: &Column, i: usize, order: SortOrder) -> (r: i128)
    requires
        column.wf(),
        i < column.spec_len(),
        spec_sortable(column.spec_data_type()),
    ensures
        r == spec_rank(column.spec_data_type(), column.cells()[i as int], order),
{
    if !column.validity[i] {
        return 0x1_0000_0000_0000_0000i128;
    }
    let key: i128 = match &column.data {
        ColumnData::Int32(v) => v[i] as i128,
        ColumnData::Int64(v) => v[i] as i128,
        ColumnData::Float32(v) => {
            let bits = v[i];
            if bits < 0x8000_0000u32 {
                bits as i128
            } else {
                -((bits - 0x8000_0000u32) as i128) - 1
            }
        },
        ColumnData::Float64(v) => {
            let bits = v[i];
            if bits < 0x8000_0000_0000_0000u64 {
                bits as i128
            } else {
                -((bits - 0x8000_0000_0000_0000u64) as i128) - 1
            }
        },
        _ => 0,
    };
    match order {
        SortOrder::Ascending => key,
        SortOrder::Descending => -key,
    }
}

/// Something whose rows have ranks.
pub trait RankSource {
    /// The source can be read.
    spec fn spec_ready(&self) -> bool;

    /// The rank of every row.
    spec fn spec_source_ranks(&self) -> Seq<int>;

    /// The number of rows.
    fn count(&self) -> (n: usize)
        requires
            self.spec_ready(),
        ensures
            n == self.spec_source_ranks().len(),
    ;

    /// The rank of row `i`.
    fn rank(&self, i: usize) -> (r: i128)
        requires
            self.spec_ready(),
            i < self.spec_source_ranks().len(),
        ensures
            r == self.spec_source_ranks()[i as int],
    ;
}

/// The rows of a column, ranked for a direction.
pub struct ColumnRanks<'a> {
    pub column: &'a Column,
    pub order: SortOrder,
}

impl<'a> RankSource for ColumnRanks<'a> {
    open spec fn spec_ready(&self) -> bool {
        self.column.wf() && spec_sortable(self.column.spec_data_type())
    }

    open spec fn spec_source_ranks(&self) -> Seq<int> {
        spec_ranks(self.column.spec_data_type(), self.column.cells(), self.order)
    }

    fn count(&self) -> (n: usize) {
        self.column.len()
    }

    fn rank(&self, i: usize) -> (r: i128) {
        rank_at(self.column, i, self.order)
    }
}

/// Whether text `a` comes before text `b` in the order of their characters:
/// at the first position where they differ `a` has the character with the
/// lower code, or `a` ends there and `b` does not.
pub open spec fn spec_text_less(a: Seq<char>, b: Seq<char>) -> bool
    decreases a.len(),
{
    if b.len() == 0 {
        false
    } else if a.len() == 0 {
        true
    } else if a[0] != b[0] {
        (a[0] as int) < (b[0] as int)
    } else {
        spec_text_less(a.skip(1), b.skip(1))
    }
}

/// Whether text `x` is presented before text `y` in a direction.
pub open spec fn spec_text_first(x: Seq<char>, y: Seq<char>, order: SortOrder) -> bool {
    match order {
        SortOrder::Ascending => spec_text_less(x, y),
        SortOrder::Descending => spec_text_less(y, x),
    }
}

/// The number of rows among the first `upto` whose text is presented
/// before `text`.
pub open spec fn spec_texts_before(cells: Seq<Cell>, upto: int, text: Seq<char>, order: SortOrder) -> int
    decreases upto,
{
    if upto <= 0 {
        0
    } else {
        spec_texts_before(cells, upto - 1, text, order) + if cells[upto - 1] matches Cell::Text(x)
            && spec_text_first(x, text, order) {
            1int
        } else {
            0int
        }
    }
}

/// The rank of row `i` of a text column: the number of rows whose text is
/// presented before its own, and for a null the rank of a null.
pub open spec fn spec_text_rank(cells: Seq<Cell>, i: int, order: SortOrder) -> int {
    match cells[i] {
        Cell::Text(x) => spec_texts_before(cells, cells.len() as int, x, order),
        _ => spec_null_rank(),
    }
}

/// The rank of a cell of a boolean column: `false` before `true` in
/// ascending order, `true` before `false` in descending order, and a null
/// last in both.
pub open spec fn spec_flag_rank(cell: Cell, order: SortOrder) -> int {
    match cell {
        Cell::Bool(b) => if b == (order == SortOrder::Ascending) {
            1
        } else {
            0
        },
        _ => spec_null_rank(),
    }
}

/// The ranks by which the rows of a column of any type are presented:
/// those of [`spec_ranks`], for a text column those of [`spec_text_rank`],
/// and for a boolean column those of [`spec_flag_rank`].
pub open spec fn spec_order_ranks(t: DataType, cells: Seq<Cell>, order: SortOrder) -> Seq<int> {
    if t == DataType::Utf8 {
        Seq::new(cells.len(), |i: int| spec_text_rank(cells, i, order))
    } else if t == DataType::Boolean {
        Seq::new(cells.len(), |i: int| spec_flag_rank(cells[i], order))
    } else {
        spec_ranks(t, cells, order)
    }
}

/// No text comes before itself.
pub proof fn lemma_text_less_irreflexive(a: Seq<char>)
    ensures
        !spec_text_less(a, a),
    decreases a.len(),
{
    if a.len() > 0 {
        lemma_text_less_irreflexive(a.skip(1));
    }
}

/// The order of texts is transitive.
pub proof fn lemma_text_less_transitive(a: Seq<char>, b: Seq<char>, c: Seq<char>)
    requires
        spec_text_less(a, b),
        spec_text_less(b, c),
    ensures
        spec_text_less(a, c),
    decreases a.len(),
{
    if a.len() > 0 && a[0] == b[0] && b[0] == c[0] {
        lemma_text_less_transitive(a.skip(1), b.skip(1), c.skip(1));
    }
}

/// Of two different texts one comes before the other.
pub proof fn lemma_text_less_total(a: Seq<char>, b: Seq<char>)
    ensures
        a == b || spec_text_less(a, b) || spec_text_less(b, a),
    decreases a.len(),
{
    if a.len() == 0 || b.len() == 0 {
        if a.len() == 0 && b.len() == 0 {
            assert(a =~= b);
        }
    } else if a[0] == b[0] {
        lemma_text_less_total(a.skip(1), b.skip(1));
        if a.skip(1) == b.skip(1) {
            assert(a =~= seq![a[0]] + a.skip(1));
            assert(b =~= seq![b[0]] + b.skip(1));
        }
    }
}

/// Text ranks follow the order of the texts: a text that is presented
/// before another has no higher rank, and a lower one if a row `i` among
/// the first `upto` holds it.
pub proof fn lemma_texts_before_rises(
    cells: Seq<Cell>,
    upto: int,
    x: Seq<char>,
    y: Seq<char>,
    order: SortOrder,
    i: int,
)
    requires
        spec_text_first(x, y, order),
        0 <= upto <= cells.len(),
    ensures
        spec_texts_before(cells, upto, x, order) <= spec_texts_before(cells, upto, y, order),
        0 <= i < upto && cells[i] == Cell::Text(x) ==> spec_texts_before(cells, upto, x, order)
            < spec_texts_before(cells, upto, y, order),
        0 <= spec_texts_before(cells, upto, x, order) <= upto,
    decreases upto,
{
    if upto > 0 {
        lemma_texts_before_rises(cells, upto - 1, x, y, order, i);
        if cells[upto - 1] is Text {
            let z = cells[upto - 1]->Text_0;
            lemma_text_less_irreflexive(x);
            if spec_text_first(z, x, order) {
                match order {
                    SortOrder::Ascending => lemma_text_less_transitive(z, x, y),
                    SortOrder::Descending => lemma_text_less_transitive(y, x, z),
                }
            }
        }
    }
}

/// In a text column, a row whose text is presented before that of another
/// row has the lower rank, and rows of one text have one rank: by rank and
/// position the rows stand in the order of their texts.
pub proof fn lemma_text_rank_orders(cells: Seq<Cell>, i: int, j: int, order: SortOrder)
    requires
        cells.len() <= usize::MAX,
        0 <= i < cells.len(),
        0 <= j < cells.len(),
        cells[i] is Text,
        cells[j] is Text,
    ensures
        spec_text_first(cells[i]->Text_0, cells[j]->Text_0, order) ==> spec_text_rank(cells, i, order)
            < spec_text_rank(cells, j, order),
        cells[i] == cells[j] ==> spec_text_rank(cells, i, order) == spec_text_rank(cells, j, order),
        0 <= spec_text_rank(cells, i, order) < spec_null_rank(),
{
    let x = cells[i]->Text_0;
    let y = cells[j]->Text_0;
    if spec_text_first(x, y, order) {
        lemma_texts_before_rises(cells, cells.len() as int, x, y, order, i);
    }
    lemma_texts_before_bounded(cells, cells.len() as int, x, order);
}

/// No more texts come before a text than there are rows.
pub proof fn lemma_texts_before_bounded(cells: Seq<Cell>, upto: int, x: Seq<char>, order: SortOrder)
    requires
        0 <= upto,
    ensures
        0 <= spec_texts_before(cells, upto, x, order) <= upto,
    decreases upto,
{
    if upto > 0 {
        lemma_texts_before_bounded(cells, upto - 1, x, order);
    }
}

/// Whether one text comes before another: see [`spec_text_less`].
pub fn text_less(a: &Vec<char>, b: &Vec<char>) -> (r: bool)
    ensures
        r == spec_text_less(a@, b@),
{
    let n = a.len();
    let m = b.len();
    let mut i: usize = 0;
    assert(a@.skip(0) =~= a@ && b@.skip(0) =~= b@);
    while i < n && i < m
        invariant
            n == a@.len(),
            m == b@.len(),
            i <= n,
            i <= m,
            spec_text_less(a@, b@) == spec_text_less(a@.skip(i as int), b@.skip(i as int)),
        decreases n - i,
    {
        let x = a[i];
        let y = b[i];
        proof {
            assert(a@.skip(i as int)[0] == a@[i as int]);
            assert(b@.skip(i as int)[0] == b@[i as int]);
            assert(a@.skip(i as int).skip(1) =~= a@.skip(i + 1));
            assert(b@.skip(i as int).skip(1) =~= b@.skip(i + 1));
        }
        if x != y {
            return x < y;
        }
        i += 1;
    }
    i < m
}

/// The text ranks of the rows of a text column: see [`spec_text_rank`].
/// Every text is compared with every other.
pub fn text_ranks(column: &Column, order: SortOrder) -> (r: Vec<i128>)
    requires
        column.wf(),
        column.spec_data_type() == DataType::Utf8,
    ensures
        r@.len() == column.spec_len(),
        forall|i: int|
            0 <= i < r@.len() ==> #[trigger] r@[i] == spec_text_rank(column.cells(), i, order),
{
    let n = column.len();
    let ghost cells = column.cells();
    let mut texts: Vec<Vec<char>> = Vec::with_capacity(n);
    let mut t: usize = 0;
    while t < n
        invariant
            column.wf(),
            column.spec_data_type() == DataType::Utf8,
            n == column.spec_len(),
            t <= n,
            texts@.len() == t,
            forall|j: int|
                0 <= j < t ==> column.data.spec_raw(j) == Cell::Text((#[trigger] texts@[j])@),
        decreases n - t,
    {
        let chars = match &column.data {
            ColumnData::Utf8(v) => chars_of(v[t].as_str()),
            _ => Vec::new(),
        };
        texts.push(chars);
        t += 1;
    }
    let mut ranks: Vec<i128> = Vec::with_capacity(n);
    let mut i: usize = 0;
    while i < n
        invariant
            column.wf(),
            cells == column.cells(),
            n == column.spec_len(),
            n == cells.len(),
            texts@.len() == n,
            forall|j: int|
                0 <= j < n ==> column.data.spec_raw(j) == Cell::Text((#[trigger] texts@[j])@),
            i <= n,
            ranks@.len() == i,
            forall|j: int| 0 <= j < i ==> #[trigger] ranks@[j] == spec_text_rank(cells, j, order),
        decreases n - i,
    {
        if !column.validity[i] {
            ranks.push(0x1_0000_0000_0000_0000i128);
        } else {
            let ghost x = texts@[i as int]@;
            assert(cells[i as int] == Cell::Text(x));
            let mut before: usize = 0;
            let mut j: usize = 0;
            while j < n
                invariant
                    column.wf(),
                    cells == column.cells(),
                    n == column.spec_len(),
                    n == cells.len(),
                    texts@.len() == n,
                    forall|q: int|
                        0 <= q < n ==> column.data.spec_raw(q) == Cell::Text(
                            (#[trigger] texts@[q])@,
                        ),
                    i < n,
                    x == texts@[i as int]@,
                    j <= n,
                    before <= j,
                    before == spec_texts_before(cells, j as int, x, order),
                decreases n - j,
            {
                if column.validity[j] {
                    assert(cells[j as int] == Cell::Text(texts@[j as int]@));
                    let first = match order {
                        SortOrder::Ascending => text_less(&texts[j], &texts[i]),
                        SortOrder::Descending => text_less(&texts[i], &texts[j]),
                    };
                    if first {
                        before = before + 1;
                    }
                } else {
                    assert(cells[j as int] == Cell::Null);
                }
                j += 1;
            }
            ranks.push(before as i128);
        }
        i += 1;
    }
    ranks
}

/// The ranks of the rows of a boolean column: see [`spec_flag_rank`].
pub fn flag_ranks(column: &Column, order: SortOrder) -> (r: Vec<i128>)
    requires
        column.wf(),
        column.spec_data_type() == DataType::Boolean,
    ensures
        r@.len() == column.spec_len(),
        forall|i: int|
            0 <= i < r@.len() ==> #[trigger] r@[i] == spec_flag_rank(column.cells()[i], order),
{
    let n = column.len();
    let mut ranks: Vec<i128> = Vec::with_capacity(n);
    let mut i: usize = 0;
    while i < n
        invariant
            column.wf(),
            column.spec_data_type() == DataType::Boolean,
            n == column.spec_len(),
            i <= n,
            ranks@.len() == i,
            forall|j: int|
                0 <= j < i ==> #[trigger] ranks@[j] == spec_flag_rank(column.cells()[j], order),
        decreases n - i,
    {
        let rank: i128 = if !column.validity[i] {
            0x1_0000_0000_0000_0000i128
        } else {
            let flag = match &column.data {
                ColumnData::Boolean(v) => v[i],
                _ => false,
            };
            let up = match order {
                SortOrder::Ascending => true,
                SortOrder::Descending => false,
            };
            if flag == up {
                1
            } else {
                0
            }
        };
        ranks.push(rank);
        i += 1;
    }
    ranks
}

/// Ranks held in a list, one for each row.
pub struct RankList {
    pub ranks: Vec<i128>,
}

impl RankSource for RankList {
    open spec fn spec_ready(&self) -> bool {
        true
    }

    open spec fn spec_source_ranks(&self) -> Seq<int> {
        Seq::new(self.ranks@.len(), |i: int| self.ranks@[i] as int)
    }

    fn count(&self) -> (n: usize) {
        self.ranks.len()
    }

    fn rank(&self, i: usize) -> (r: i128) {
        self.ranks[i]
    }
}

/// The Top-K selection over a source of ranks: one pass with a heap of at
/// most `k` entries whose root is the entry to give up next, then the heap
/// drained into presentation order.
pub fn select_first<S: RankSource>(source: &S, k: usize) -> (sel: Vec<usize>)
    requires
        source.spec_ready(),
        k > 0,
    ensures
        spec_is_top_k(source.spec_source_ranks(), k as nat, sel@),
{
    let n = source.count();
    let ghost ranks = source.spec_source_ranks();
    let mut heap = EntryHeap::with_capacity(
        if k < n {
            k
        } else {
            n
        },
    );
    let mut i: usize = 0;
    while i < n
        invariant
            source.spec_ready(),
            n == ranks.len(),
            ranks == source.spec_source_ranks(),
            forall|r: int| 0 <= r < i ==> i128::MIN <= #[trigger] ranks[r] <= i128::MAX,
            k > 0,
            i <= n,
            heap.wf(),
            heap@.no_duplicates(),
            heap@.len() == if k < i {
                k
            } else {
                i
            },
            forall|x: Entry| #[trigger]
                heap@.to_set().contains(x) ==> x.index < i && x == spec_entry(ranks, x.index as int),
            forall|r: int|
                0 <= r < i ==> heap@.to_set().contains(#[trigger] spec_entry(ranks, r))
                    || spec_all_before(heap@.to_set(), spec_entry(ranks, r)),
            heap@.len() < k ==> forall|r: int|
                0 <= r < i ==> heap@.to_set().contains(#[trigger] spec_entry(ranks, r)),
        decreases n - i,
    {
        let e = Entry { rank: source.rank(i), index: i };
        assert(e == spec_entry(ranks, i as int));
        let ghost before = heap@.to_set();
        assert(!before.contains(e));
        if heap.len() < k {
            heap.push(e);
            proof {
                assert forall|r: int| 0 <= r < i + 1 implies heap@.to_set().contains(
                    #[trigger] spec_entry(ranks, r),
                ) by {
                    if r < i {
                        assert(before.contains(spec_entry(ranks, r)));
                    }
                }
            }
        } else {
            let top = heap.peek();
            if e.rank < top.rank {
                let gone = heap.replace_top(e);
                proof {
                    let after = heap@.to_set();
                    assert(before.contains(gone) && before.contains(top));
                    assert(!spec_before(gone, top) && !spec_before(top, gone));
                    assert(gone == top);
                    assert(spec_before(e, gone));
                    assert forall|r: int| 0 <= r < i + 1 implies after.contains(
                        #[trigger] spec_entry(ranks, r),
                    ) || spec_all_before(after, spec_entry(ranks, r)) by {
                        let er = spec_entry(ranks, r);
                        if r == i {
                        } else if er == gone {
                            assert forall|x: Entry| after.contains(x) implies spec_before(x, er) by {
                                if x != e {
                                    assert(before.contains(x));
                                    assert(!spec_before(gone, x));
                                }
                            }
                        } else if before.contains(er) {
                        } else {
                            assert(spec_all_before(before, er));
                            assert(spec_before(gone, er));
                            assert forall|x: Entry| after.contains(x) implies spec_before(x, er) by {
                                if x != e {
                                    assert(before.contains(x));
                                }
                            }
                        }
                    }
                }
            } else {
                proof {
                    assert(top.index < i);
                    assert(spec_before(top, e));
                    assert forall|x: Entry| before.contains(x) implies spec_before(x, e) by {
                        assert(!spec_before(top, x));
                    }
                    assert(spec_all_before(before, e));
                }
            }
        }
        i += 1;
    }
    // Drain the heap, last row first.
    let m = heap.len();
    let ghost kept = heap@.to_set();
    let mut rev: Vec<Entry> = Vec::with_capacity(m);
    while heap.len() > 0
        invariant
            heap.wf(),
            heap@.no_duplicates(),
            rev@.len() + heap@.len() == m,
            forall|x: Entry|
                kept.contains(x) <==> #[trigger] heap@.to_set().contains(x) || rev@.contains(x),
            forall|a: int, b: int|
                0 <= a < b < rev@.len() ==> spec_before(#[trigger] rev@[b], #[trigger] rev@[a]),
            forall|a: int, x: Entry|
                0 <= a < rev@.len() && #[trigger] heap@.to_set().contains(x) ==> spec_before(
                    x,
                    #[trigger] rev@[a],
                ),
        decreases heap@.len(),
    {
        let ghost before = heap@.to_set();
        let ghost done = rev@;
        let top = heap.pop();
        rev.push(top);
        proof {
            assert(rev@ == done.push(top));
            assert forall|x: Entry| kept.contains(x) <==> #[trigger] heap@.to_set().contains(x)
                || rev@.contains(x) by {
                if rev@.contains(x) {
                    let p = choose|p: int| 0 <= p < rev@.len() && rev@[p] == x;
                    if p < done.len() {
                        assert(done.contains(x));
                    }
                }
                if done.contains(x) {
                    let p = choose|p: int| 0 <= p < done.len() && done[p] == x;
                    assert(rev@[p] == x);
                }
                if x == top {
                    assert(rev@[done.len() as int] == x);
                }
                assert(before.contains(x) || done.contains(x) <==> kept.contains(x));
            }
            assert forall|a: int, x: Entry|
                0 <= a < rev@.len() && #[trigger] heap@.to_set().contains(x) implies spec_before(
                x,
                #[trigger] rev@[a],
            ) by {
                assert(before.contains(x));
                if a == done.len() {
                    assert(!spec_before(top, x));
                }
            }
            assert forall|a: int, b: int| 0 <= a < b < rev@.len() implies spec_before(
                #[trigger] rev@[b],
                #[trigger] rev@[a],
            ) by {
                if b == done.len() {
                    assert(before.contains(top));
                }
            }
        }
    }
    let mut sel: Vec<usize> = Vec::with_capacity(m);
    let mut j: usize = 0;
    while j < m
        invariant
            rev@.len() == m,
            j <= m,
            sel@.len() == j,
            forall|t: int| 0 <= t < j ==> #[trigger] sel@[t] == rev@[m - 1 - t].index,
        decreases m - j,
    {
        sel.push(rev[m - 1 - j].index);
        j += 1;
    }
    proof {
        assert(heap@.len() == 0);
        assert forall|x: Entry| kept.contains(x) <==> rev@.contains(x) by {
            if heap@.to_set().contains(x) {
                let p = choose|p: int| 0 <= p < heap@.len() && heap@[p] == x;
            }
        }
        assert forall|t: int| 0 <= t < m implies rev@[t] == spec_entry(
            ranks,
            #[trigger] rev@[t].index as int,
        ) && rev@[t].index < n by {
            assert(rev@.contains(rev@[t]));
            assert(kept.contains(rev@[t]));
        }
        assert forall|a: int, b: int| 0 <= a < b < sel@.len() implies spec_row_before(
            ranks,
            #[trigger] sel@[a] as int,
            #[trigger] sel@[b] as int,
        ) by {
            assert(spec_before(rev@[m - 1 - a], rev@[m - 1 - b]));
        }
        assert forall|i: int, j: int|
            0 <= i < ranks.len() && 0 <= j < sel@.len() && !sel@.contains(
                i as usize,
            ) implies #[trigger] spec_row_before(ranks, sel@[j] as int, i) by {
            let e = spec_entry(ranks, i);
            if kept.contains(e) {
                let p = choose|p: int| 0 <= p < rev@.len() && rev@[p] == e;
                assert(sel@[m - 1 - p] == i as usize);
                assert(sel@.contains(i as usize));
            }
            assert(spec_all_before(kept, e));
            assert(kept.contains(rev@[m - 1 - j]));
            assert(spec_before(rev@[m - 1 - j], e));
        }
    }
    sel
}

/// The rows of the Top-K selection by a numeric column, in presentation
/// order. Fails with `InvalidInput` when `k` is zero or when the column is
/// not numeric.
pub fn select_top_k_indices(column: &Column, k: usize, order: SortOrder) -> (r: Result<
    Vec<usize>,
    Error,
>)
    requires
        column.wf(),
    ensures
        r is Ok <==> k > 0 && spec_sortable(column.spec_data_type()),
        r matches Ok(sel) ==> spec_is_top_k(
            spec_ranks(column.spec_data_type(), column.cells(), order),
            k as nat,
            sel@,
        ),
        r matches Err(e) ==> e.spec_kind() == ErrorKind::InvalidInput && e.spec_detail() == (if k
            == 0 {
            "k must be greater than 0"@
        } else {
            "Top-K not supported for data type"@
        }),
{
    if k == 0 {
        return Err(Error::InvalidInput(String::from_str("k must be greater than 0")));
    }
    match column.data_type() {
        DataType::Int32 | DataType::Int64 | DataType::Float32 | DataType::Float64 => {},
        _ => {
            return Err(
                Error::InvalidInput(String::from_str("Top-K not supported for data type")),
            );
        },
    }
    let source = ColumnRanks { column, order };
    Ok(select_first(&source, k))
}

/// Where a new last row goes among rows in presentation order: after the
/// rows whose rank is not above its own.
proof fn lemma_insert_position(ranks: Seq<int>, sel: Seq<usize>, rank: int, upto: int) -> (p: int)
    requires
        0 <= upto <= sel.len(),
        forall|j: int| 0 <= j < sel.len() ==> (#[trigger] sel[j]) < ranks.len(),
        forall|a: int, b: int|
            0 <= a < b < sel.len() ==> spec_row_before(ranks, #[trigger] sel[a] as int, #[trigger] sel[b] as int),
        forall|j: int| upto <= j < sel.len() ==> ranks[#[trigger] sel[j] as int] > rank,
    ensures
        0 <= p <= upto,
        forall|j: int| 0 <= j < p ==> ranks[#[trigger] sel[j] as int] <= rank,
        forall|j: int| p <= j < sel.len() ==> ranks[#[trigger] sel[j] as int] > rank,
    decreases upto,
{
    if upto == 0 {
        0
    } else if ranks[sel[upto - 1] as int] > rank {
        lemma_insert_position(ranks, sel, rank, upto - 1)
    } else {
        assert forall|j: int| 0 <= j < upto implies ranks[#[trigger] sel[j] as int] <= rank by {
            if j < upto - 1 {
                assert(spec_row_before(ranks, sel[j] as int, sel[upto - 1] as int));
            }
        }
        upto
    }
}

/// A Top-K selection for given ranks; where it holds as many rows as there
/// are, it holds every row.
proof fn lemma_top_k_witness(ranks: Seq<int>, k: nat) -> (sel: Seq<usize>)
    requires
        ranks.len() <= usize::MAX,
    ensures
        spec_is_top_k(ranks, k, sel),
        sel.len() == ranks.len() ==> forall|i: int|
            0 <= i < ranks.len() ==> sel.contains(#[trigger] (i as usize)),
    decreases ranks.len(),
{
    if ranks.len() == 0 {
        let sel = Seq::<usize>::empty();
        return sel;
    }
    let r = ranks.len() - 1;
    let prev = ranks.drop_last();
    let s = lemma_top_k_witness(prev, k);
    assert forall|j: int| 0 <= j < s.len() implies (#[trigger] s[j]) < ranks.len() by {}
    assert forall|a: int, b: int| 0 <= a < b < s.len() implies spec_row_before(
        ranks,
        #[trigger] s[a] as int,
        #[trigger] s[b] as int,
    ) by {
        assert(spec_row_before(prev, s[a] as int, s[b] as int));
    }
    let p = lemma_insert_position(ranks, s, ranks[r], s.len() as int);
    let grown = s.insert(p, r as usize);
    assert forall|j: int| 0 <= j < grown.len() implies #[trigger] grown[j] == (if j < p {
        s[j]
    } else if j == p {
        r as usize
    } else {
        s[j - 1]
    }) by {}
    assert forall|a: int, b: int| 0 <= a < b < grown.len() implies spec_row_before(
        ranks,
        #[trigger] grown[a] as int,
        #[trigger] grown[b] as int,
    ) by {
        if b < p {
            assert(spec_row_before(ranks, s[a] as int, s[b] as int));
        } else if b == p {
            assert(ranks[s[a] as int] <= ranks[r]);
        } else if a == p {
            assert(ranks[s[b - 1] as int] > ranks[r]);
        } else if a > p {
            assert(spec_row_before(ranks, s[a - 1] as int, s[b - 1] as int));
        } else {
            assert(spec_row_before(ranks, s[a] as int, s[b - 1] as int));
        }
    }
    if s.len() < k {
        // Every earlier row is selected, and so is the new one.
        let sel = grown;
        assert forall|i: int| 0 <= i < ranks.len() implies sel.contains(#[trigger] (i as usize)) by {
            if i == r {
                assert(sel[p] == i as usize);
            } else {
                assert(s.contains(i as usize));
                let q = choose|q: int| 0 <= q < s.len() && s[q] == i as usize;
                if q < p {
                    assert(sel[q] == i as usize);
                } else {
                    assert(sel[q + 1] == i as usize);
                }
            }
        }
        sel
    } else if p == s.len() {
        // The new row comes after every selected row.
        let sel = s;
        assert forall|i: int, j: int|
            0 <= i < ranks.len() && 0 <= j < sel.len() && !sel.contains(
                i as usize,
            ) implies #[trigger] spec_row_before(ranks, sel[j] as int, i) by {
            if i == r {
                assert(ranks[s[j] as int] <= ranks[r]);
            } else {
                assert(spec_row_before(prev, s[j] as int, i));
            }
        }
        sel
    } else {
        // The new row takes the place of the last selected row.
        let sel = grown.drop_last();
        let last = s[s.len() - 1];
        assert forall|j: int| 0 <= j < sel.len() implies #[trigger] sel[j] == grown[j] by {}
        assert(spec_row_before(ranks, r, last as int)) by {
            assert(ranks[s[s.len() - 1] as int] > ranks[r]);
        }
        assert forall|i: int, j: int|
            0 <= i < ranks.len() && 0 <= j < sel.len() && !sel.contains(
                i as usize,
            ) implies #[trigger] spec_row_before(ranks, sel[j] as int, i) by {
            // Every selected row is the new row or an earlier selected row
            // other than the last, and so comes before the last or is it.
            let x = sel[j];
            if i == r {
                assert(sel[p] == r as usize);
            } else if i == last {
                if j < p {
                    assert(spec_row_before(ranks, s[j] as int, s[s.len() - 1] as int));
                } else if j > p {
                    assert(spec_row_before(ranks, s[j - 1] as int, s[s.len() - 1] as int));
                }
            } else {
                if s.contains(i as usize) {
                    let q = choose|q: int| 0 <= q < s.len() && s[q] == i as usize;
                    assert(q < s.len() - 1);
                    if q < p {
                        assert(sel[q] == i as usize);
                    } else {
                        assert(sel[q + 1] == i as usize);
                    }
                }
                assert(!s.contains(i as usize));
                assert(spec_row_before(prev, s[s.len() - 1] as int, i));
                if j < p {
                    assert(spec_row_before(prev, s[j] as int, i));
                } else if j > p {
                    assert(spec_row_before(prev, s[j - 1] as int, i));
                }
            }
        }
        sel
    }
}

/// For all ranks there is a Top-K selection, and `spec_top_k` is it.
pub proof fn lemma_top_k_exists(ranks: Seq<int>, k: nat)
    requires
        ranks.len() <= usize::MAX,
    ensures
        spec_is_top_k(ranks, k, spec_top_k(ranks, k)),
{
    let sel = lemma_top_k_witness(ranks, k);
    lemma_top_k_is(ranks, k, sel);
}

/// Whether the Top-K selection of `k` rows by a column of this type is
/// offered on a batch of `rows` rows: for a numeric column always, for a
/// text or boolean column where all rows are selected.
pub open spec fn spec_selectable(t: DataType, k: usize, rows: nat) -> bool {
    spec_sortable(t) || k >= rows
}

/// Why a Top-K selection on a batch fails, if it does: `k` is zero, the
/// column does not exist, or the selection is not offered for its type.
pub open spec fn spec_top_k_refusal(v: BatchView, column_index: usize, k: usize) -> Option<
    Seq<char>,
> {
    if k == 0 {
        Some("k must be greater than 0"@)
    } else if column_index >= v.columns.len() {
        Some(
            "Column index "@ + spec_decimal(column_index as nat) + " out of bounds (batch has "@
                + spec_decimal(v.columns.len()) + " columns)"@,
        )
    } else if !spec_selectable(v.fields[column_index as int].data_type, k, v.rows) {
        Some("Top-K not supported for data type"@)
    } else {
        None
    }
}

/// The result of Top-K selection on a batch: nothing when `k` is zero, the
/// column does not exist or the selection is not offered for its type;
/// otherwise the rows of the Top-K selection by that column, in
/// presentation order.
pub open spec fn spec_top_k_batch(v: BatchView, column_index: usize, k: usize, order: SortOrder) -> Option<
    BatchView,
> {
    if spec_top_k_refusal(v, column_index, k) is Some {
        None
    } else {
        Some(
            v.gather(
                spec_top_k(
                    spec_order_ranks(
                        v.fields[column_index as int].data_type,
                        v.columns[column_index as int],
                        order,
                    ),
                    k as nat,
                ),
            ),
        )
    }
}

/// Top-K selection on a batch.
pub trait TopKSelection {
    /// The batch is well formed.
    spec fn spec_ready(&self) -> bool;

    /// The view of the batch.
    spec fn spec_batch(&self) -> BatchView;

    /// The `k` rows that come first when the batch is ordered by column
    /// `column_index` in the given direction, in that order; all rows when
    /// the batch has no more than `k`. Fails with `InvalidInput` when `k`
    /// is zero, when there is no such column, or when the selection is not
    /// offered for the type of the column: a text or boolean column is
    /// ordered only as a whole.
    fn top_k(&self, column_index: usize, k: usize, order: SortOrder) -> (r: Result<
        ColumnBatch,
        Error,
    >)
        requires
            self.spec_ready(),
        ensures
            r is Ok <==> spec_top_k_batch(self.spec_batch(), column_index, k, order) is Some,
            r matches Ok(b) ==> b.wf() && Some(b@) == spec_top_k_batch(
                self.spec_batch(),
                column_index,
                k,
                order,
            ),
            r matches Err(e) ==> e.spec_kind() == ErrorKind::InvalidInput && Some(e.spec_detail())
                == spec_top_k_refusal(self.spec_batch(), column_index, k),
    ;
}

impl TopKSelection for ColumnBatch {
    open spec fn spec_ready(&self) -> bool {
        self.wf()
    }

    open spec fn spec_batch(&self) -> BatchView {
        self@
    }

    fn top_k(&self, column_index: usize, k: usize, order: SortOrder) -> (r: Result<
        ColumnBatch,
        Error,
    >) {
        if k == 0 {
            return Err(Error::InvalidInput(String::from_str("k must be greater than 0")));
        }
        if column_index >= self.num_columns() {
            let mut msg = String::from_str("Column index ");
            msg.append(decimal(column_index as u128).as_str());
            msg.append(" out of bounds (batch has ");
            msg.append(decimal(self.num_columns() as u128).as_str());
            msg.append(" columns)");
            return Err(Error::InvalidInput(msg));
        }
        let column = self.column(column_index);
        let t = column.data_type();
        if t == DataType::Utf8 || t == DataType::Boolean {
            if k < self.num_rows() {
                return Err(
                    Error::InvalidInput(String::from_str("Top-K not supported for data type")),
                );
            }
            let ranks = if t == DataType::Utf8 {
                text_ranks(column, order)
            } else {
                flag_ranks(column, order)
            };
            let source = RankList { ranks };
            let sel = select_first(&source, k);
            proof {
                let ranks = spec_order_ranks(t, column.cells(), order);
                assert(source.spec_source_ranks() =~= ranks);
                lemma_top_k_is(ranks, k as nat, sel@);
            }
            return Ok(self.gather(&sel));
        }
        match select_top_k_indices(column, k, order) {
            Ok(sel) => {
                proof {
                    lemma_top_k_is(
                        spec_ranks(column.spec_data_type(), column.cells(), order),
                        k as nat,
                        sel@,
                    );
                }
                Ok(self.gather(&sel))
            },
            Err(e) => Err(e),
        }
    }
}

/// Top-K selection correctness. The selection holds `min(k, n)` distinct
/// rows of the input; its ranks never fall from one row to the next; and no
/// row that it leaves out has a lower rank than a row that it holds. (Rank
/// rises with the value under ascending order and falls with it under
/// descending order.)
pub proof fn lemma_top_k_correct(ranks: Seq<int>, k: nat, sel: Seq<usize>)
    requires
        spec_is_top_k(ranks, k, sel),
    ensures
        sel.len() == if k < ranks.len() {
            k
        } else {
            ranks.len()
        },
        sel.no_duplicates(),
        forall|j: int| 0 <= j < sel.len() ==> (#[trigger] sel[j]) < ranks.len(),
        forall|a: int, b: int|
            0 <= a < b < sel.len() ==> ranks[#[trigger] sel[a] as int] <= ranks[#[trigger] sel[b] as int],
        forall|i: int, j: int|
            0 <= i < ranks.len() && 0 <= j < sel.len() && !sel.contains(i as usize)
                ==> ranks[#[trigger] sel[j] as int] <= #[trigger] ranks[i],
{
    assert forall|a: int, b: int| 0 <= a < sel.len() && 0 <= b < sel.len() && a != b implies sel[a]
        != sel[b] by {
        if a < b {
            assert(spec_row_before(ranks, sel[a] as int, sel[b] as int));
        } else {
            assert(spec_row_before(ranks, sel[b] as int, sel[a] as int));
        }
    }
    assert forall|i: int, j: int|
        0 <= i < ranks.len() && 0 <= j < sel.len() && !sel.contains(
            i as usize,
        ) implies ranks[#[trigger] sel[j] as int] <= #[trigger] ranks[i] by {
        assert(spec_row_before(ranks, sel[j] as int, i));
    }
}

/// The ranks of the selected rows, in presentation order.
pub open spec fn spec_selected_ranks(ranks: Seq<int>, sel: Seq<usize>) -> Seq<int> {
    Seq::new(sel.len(), |j: int| ranks[sel[j] as int])
}

/// Top-K idempotence on ranks. Selecting `k2 <= k` rows from the rows of
/// the Top-K selection of `k` rows selects the first `k2` of them, in their
/// order.
pub proof fn lemma_top_k_idempotent(ranks: Seq<int>, k: nat, k2: nat)
    requires
        ranks.len() <= usize::MAX,
        k2 <= k,
    ensures
        ({
            let first = spec_top_k(ranks, k);
            spec_top_k(spec_selected_ranks(ranks, first), k2) == spec_range_indices(
                0,
                if k2 < first.len() {
                    k2
                } else {
                    first.len()
                },
            )
        }),
{
    lemma_top_k_exists(ranks, k);
    let first = spec_top_k(ranks, k);
    let inner = spec_selected_ranks(ranks, first);
    let m: nat = if k2 < first.len() {
        k2
    } else {
        first.len()
    };
    let prefix = spec_range_indices(0, m);
    assert forall|a: int, b: int| 0 <= a < b < inner.len() implies spec_row_before(inner, a, b) by {
        assert(spec_row_before(ranks, first[a] as int, first[b] as int));
    }
    assert forall|i: int, j: int|
        0 <= i < inner.len() && 0 <= j < prefix.len() && !prefix.contains(
            i as usize,
        ) implies #[trigger] spec_row_before(inner, prefix[j] as int, i) by {
        if i < m {
            assert(prefix[i] == i as usize);
        }
    }
    assert(spec_is_top_k(inner, k2, prefix));
    lemma_top_k_is(inner, k2, prefix);
}

/// Of two texts, one is presented before the other or they are the same.
pub proof fn lemma_text_first_total(x: Seq<char>, y: Seq<char>, order: SortOrder)
    ensures
        x == y || spec_text_first(x, y, order) || spec_text_first(y, x, order),
{
    lemma_text_less_total(x, y);
}

/// The rows of a text column, once in presentation order, keep their
/// places: where `sel` presents all rows of the column, the rows gathered
/// by `sel` are presented as they stand.
pub proof fn lemma_text_order_settled(
    cells: Seq<Cell>,
    order: SortOrder,
    k: nat,
    k2: nat,
    sel: Seq<usize>,
)
    requires
        cells.len() <= usize::MAX,
        k >= cells.len(),
        k2 >= cells.len(),
        spec_is_top_k(spec_order_ranks(DataType::Utf8, cells, order), k, sel),
    ensures
        spec_is_top_k(
            spec_order_ranks(DataType::Utf8, crate::column::spec_gather(cells, sel), order),
            k2,
            spec_range_indices(0, sel.len()),
        ),
{
    let ranks = spec_order_ranks(DataType::Utf8, cells, order);
    let gathered = crate::column::spec_gather(cells, sel);
    let inner = spec_order_ranks(DataType::Utf8, gathered, order);
    let all = spec_range_indices(0, sel.len());
    assert forall|a: int, b: int| 0 <= a < b < all.len() implies spec_row_before(
        inner,
        #[trigger] all[a] as int,
        #[trigger] all[b] as int,
    ) by {
        let ra = sel[a] as int;
        let rb = sel[b] as int;
        assert(spec_row_before(ranks, ra, rb));
        assert(gathered[a] == cells[ra] && gathered[b] == cells[rb]);
        if cells[ra] is Text {
            lemma_text_rank_orders(cells, ra, ra, order);
            lemma_text_rank_orders(gathered, a, a, order);
            if cells[rb] is Text {
                let x = cells[ra]->Text_0;
                let y = cells[rb]->Text_0;
                lemma_text_first_total(x, y, order);
                lemma_text_rank_orders(cells, rb, ra, order);
                lemma_text_rank_orders(gathered, a, b, order);
            }
        } else if cells[rb] is Text {
            lemma_text_rank_orders(cells, rb, rb, order);
        }
    }
    assert forall|i: int, j: int|
        0 <= i < inner.len() && 0 <= j < all.len() && !all.contains(
            i as usize,
        ) implies #[trigger] spec_row_before(inner, all[j] as int, i) by {
        assert(all[i] == i as usize);
    }
}

/// Top-K idempotence. Top-K selection of `k2 <= k` rows from the result of
/// a Top-K selection of `k` rows, by the same column and in the same
/// direction, yields the first `k2` rows of that result. (By a text or
/// boolean column only all rows are selected: `k2` is then no less than
/// their number.)
pub proof fn lemma_top_k_batch_idempotent(
    v: BatchView,
    column_index: usize,
    k: usize,
    k2: usize,
    order: SortOrder,
)
    requires
        v.wf(),
        v.rows <= usize::MAX,
        spec_top_k_batch(v, column_index, k, order) is Some,
        spec_sortable(v.fields[column_index as int].data_type) || k2 >= v.rows,
        0 < k2 <= k,
    ensures
        ({
            let first = spec_top_k_batch(v, column_index, k, order)->Some_0;
            spec_top_k_batch(first, column_index, k2, order) == Some(
                first.slice(
                    0,
                    if k2 < first.rows {
                        k2 as nat
                    } else {
                        first.rows
                    },
                ),
            )
        }),
{
    let t = v.fields[column_index as int].data_type;
    let cells = v.columns[column_index as int];
    let ranks = spec_order_ranks(t, cells, order);
    lemma_top_k_exists(ranks, k as nat);
    let first = spec_top_k(ranks, k as nat);
    let result = v.gather(first);
    let inner = spec_order_ranks(t, result.columns[column_index as int], order);
    if t == DataType::Utf8 {
        lemma_text_order_settled(cells, order, k as nat, k2 as nat, first);
        lemma_top_k_is(inner, k2 as nat, spec_range_indices(0, first.len()));
        assert(result.gather(spec_range_indices(0, first.len())).columns =~= result.slice(
            0,
            first.len(),
        ).columns);
    } else {
        assert(inner =~= spec_selected_ranks(ranks, first));
        lemma_top_k_idempotent(ranks, k as nat, k2 as nat);
        assert(first.len() <= v.rows);
    }
}

/// Top-K selection correctness on a batch. The result holds `min(k, n)`
/// rows, each a row of the input and no row twice; in the column of the
/// selection its ranks never fall from one row to the next; and no row that
/// was left out has a lower rank than a row of the result. (For a text
/// column, [`lemma_text_rank_orders`] says how rank and text go together.)
pub proof fn lemma_top_k_batch_correct(v: BatchView, column_index: usize, k: usize, order: SortOrder)
    requires
        v.wf(),
        v.rows <= usize::MAX,
        spec_top_k_batch(v, column_index, k, order) is Some,
    ensures
        ({
            let t = v.fields[column_index as int].data_type;
            let ranks = spec_order_ranks(t, v.columns[column_index as int], order);
            let sel = spec_top_k(ranks, k as nat);
            let result = spec_top_k_batch(v, column_index, k, order)->Some_0;
            &&& result == v.gather(sel)
            &&& result.fields == v.fields
            &&& result.rows == if k < v.rows {
                k as nat
            } else {
                v.rows
            }
            &&& sel.no_duplicates()
            &&& forall|j: int| 0 <= j < sel.len() ==> (#[trigger] sel[j]) < v.rows
            &&& forall|a: int, b: int|
                0 <= a < b < sel.len() ==> ranks[#[trigger] sel[a] as int] <= ranks[#[trigger] sel[b] as int]
            &&& forall|i: int, j: int|
                0 <= i < v.rows && 0 <= j < sel.len() && !sel.contains(i as usize)
                    ==> ranks[#[trigger] sel[j] as int] <= #[trigger] ranks[i]
        }),
{
    let t = v.fields[column_index as int].data_type;
    let ranks = spec_order_ranks(t, v.columns[column_index as int], order);
    lemma_top_k_exists(ranks, k as nat);
    lemma_top_k_correct(ranks, k as nat, spec_top_k(ranks, k as nat));
}

} // verus!
