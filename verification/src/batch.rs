//! Column batches: a schema and one column per field, all of one length.
//!
//! In contracts a batch is a [`BatchView`]: its fields and, per column, the
//! cells from top to bottom. Every operation says which view it returns.

use vstd::prelude::*;
use vstd::string::*;
use crate::column::{
    lemma_cells_bytes_split, saturating_plus, spec_cell_fits, spec_cells_bytes, spec_gather,
    spec_indices_below, spec_saturate, Cell, Column,
};
use crate::error::{Error, ErrorKind};
use crate::schema::{spec_same_schema, Field, FieldView, Schema};

verus! {

/// A batch as contracts see it.
pub struct BatchView {
    pub fields: Seq<FieldView>,
    /// One sequence of cells per field, each of length `rows`.
    pub columns: Seq<Seq<Cell>>,
    pub rows: nat,
}

/// The bytes that rows `lo..hi` occupy in the first `upto` columns.
pub open spec fn spec_columns_bytes(v: BatchView, upto: int, lo: int, hi: int) -> nat
    decreases upto,
{
    if upto <= 0 {
        0
    } else {
        spec_columns_bytes(v, upto - 1, lo, hi) + spec_cells_bytes(
            v.fields[upto - 1].data_type,
            v.columns[upto - 1],
            lo,
            hi,
        )
    }
}

/// The indices at which `mask` is true, ascending.
pub open spec fn spec_true_positions(mask: Seq<bool>) -> Seq<usize>
    decreases mask.len(),
{
    if mask.len() == 0 {
        Seq::empty()
    } else if mask.last() {
        spec_true_positions(mask.drop_last()).push((mask.len() - 1) as usize)
    } else {
        spec_true_positions(mask.drop_last())
    }
}

/// The indices `lo, lo + 1, ..`, `len` of them.
pub open spec fn spec_range_indices(lo: usize, len: nat) -> Seq<usize> {
    Seq::new(len, |j: int| (lo + j) as usize)
}

impl BatchView {
    /// There is one column per field and at least one, every column has
    /// `rows` cells, and every cell fits the type of its field.
    pub open spec fn wf(self) -> bool {
        &&& self.columns.len() == self.fields.len()
        &&& self.columns.len() > 0
        &&& forall|c: int|
            0 <= c < self.columns.len() ==> (#[trigger] self.columns[c]).len() == self.rows
        &&& forall|c: int, i: int|
            0 <= c < self.columns.len() && 0 <= i < self.rows ==> spec_cell_fits(
                self.fields[c].data_type,
                #[trigger] self.columns[c][i],
            )
    }

    /// The rows at `idx`, in the order of `idx`.
    pub open spec fn gather(self, idx: Seq<usize>) -> BatchView {
        BatchView {
            fields: self.fields,
            columns: Seq::new(self.columns.len(), |c: int| spec_gather(self.columns[c], idx)),
            rows: idx.len(),
        }
    }

    /// Rows `offset .. offset + len`.
    pub open spec fn slice(self, offset: usize, len: nat) -> BatchView {
        self.gather(spec_range_indices(offset, len))
    }

    /// The rows at which `mask` is true, in their order.
    pub open spec fn filter(self, mask: Seq<bool>) -> BatchView {
        self.gather(spec_true_positions(mask))
    }

    /// The columns at `idx`, in the order of `idx`.
    pub open spec fn project(self, idx: Seq<usize>) -> BatchView {
        BatchView {
            fields: Seq::new(idx.len(), |j: int| self.fields[idx[j] as int]),
            columns: Seq::new(idx.len(), |j: int| self.columns[idx[j] as int]),
            rows: self.rows,
        }
    }

    /// The bytes that rows `lo..hi` occupy.
    pub open spec fn range_bytes(self, lo: int, hi: int) -> nat {
        spec_columns_bytes(self, self.columns.len() as int, lo, hi)
    }

    /// The bytes that the batch occupies.
    pub open spec fn bytes(self) -> nat {
        self.range_bytes(0, self.rows as int)
    }
}

/// The bytes of a row range are those of its two halves.
pub proof fn lemma_range_bytes_split(v: BatchView, upto: int, lo: int, mid: int, hi: int)
    requires
        lo <= mid <= hi,
    ensures
        spec_columns_bytes(v, upto, lo, hi) == spec_columns_bytes(v, upto, lo, mid)
            + spec_columns_bytes(v, upto, mid, hi),
    decreases upto,
{
    if upto > 0 {
        lemma_range_bytes_split(v, upto - 1, lo, mid, hi);
        lemma_cells_bytes_split(v.fields[upto - 1].data_type, v.columns[upto - 1], lo, mid, hi);
    }
}

/// Whether a schema and columns make a batch: one column per field and at
/// least one, each column with a parallel validity bitmap, of the type of
/// its field and of the length of the first.
pub open spec fn spec_parts_fit(fields: Seq<FieldView>, columns: Seq<Column>) -> bool {
    &&& columns.len() == fields.len()
    &&& columns.len() > 0
    &&& forall|c: int|
        0 <= c < columns.len() ==> {
            &&& (#[trigger] columns[c]).wf()
            &&& columns[c].spec_len() == columns[0].spec_len()
            &&& columns[c].spec_data_type() == fields[c].data_type
        }
}

/// The batch that a schema and columns make.
pub open spec fn spec_parts_view(fields: Seq<FieldView>, columns: Seq<Column>) -> BatchView {
    BatchView {
        fields,
        columns: Seq::new(columns.len(), |c: int| columns[c].cells()),
        rows: columns[0].spec_len(),
    }
}

/// A batch of typed columns.
#[derive(Debug)]
pub struct ColumnBatch {
    schema: Schema,
    columns: Vec<Column>,
    rows: usize,
}

impl View for ColumnBatch {
    type V = BatchView;

    closed spec fn view(&self) -> BatchView {
        spec_parts_view(self.schema@, self.columns@)
    }
}

impl ColumnBatch {
    /// The parts of the batch fit together.
    pub closed spec fn wf(&self) -> bool {
        &&& spec_parts_fit(self.schema@, self.columns@)
        &&& self.rows == self.columns@[0].spec_len()
    }

    /// A well-formed batch has a well-formed view.
    pub proof fn lemma_wf_view(&self)
        requires
            self.wf(),
        ensures
            self@.wf(),
    {
        let v = self@;
        assert forall|c: int, i: int| 0 <= c < v.columns.len() && 0 <= i < v.rows implies spec_cell_fits(
            v.fields[c].data_type,
            #[trigger] v.columns[c][i],
        ) by {
            assert(self.columns@[c].wf());
        }
    }

    /// Makes a batch of a schema and its columns. Fails when there is no
    /// column, when the numbers of fields and columns differ, when a column
    /// has another type than its field, or when the columns differ in
    /// length.
    pub fn try_new(schema: Schema, columns: Vec<Column>) -> (r: Result<ColumnBatch, Error>)
        ensures
            r is Ok <==> spec_parts_fit(schema@, columns@),
            r matches Ok(b) ==> b.wf() && b@ == spec_parts_view(schema@, columns@),
            r matches Err(e) ==> e.spec_kind() == ErrorKind::Arrow,
    {
        let n = columns.len();
        if n == 0 {
            return Err(
                Error::Arrow(String::from_str("a batch needs at least one column")),
            );
        }
        if n != schema.fields.len() {
            return Err(
                Error::Arrow(
                    String::from_str("number of columns must match number of fields in schema"),
                ),
            );
        }
        let rows = columns[0].len();
        let mut c: usize = 0;
        while c < n
            invariant
                n == columns@.len(),
                n == schema.fields@.len(),
                n > 0,
                rows == columns@[0].spec_len(),
                c <= n,
                forall|k: int|
                    0 <= k < c ==> {
                        &&& (#[trigger] columns@[k]).wf()
                        &&& columns@[k].spec_len() == rows
                        &&& columns@[k].spec_data_type() == schema@[k].data_type
                    },
            decreases n - c,
        {
            let col = &columns[c];
            if col.validity.len() != col.len() {
                assert(!columns@[c as int].wf());
                return Err(
                    Error::Arrow(String::from_str("validity bitmap must be as long as the column")),
                );
            }
            if col.len() != rows {
                assert(columns@[c as int].spec_len() != columns@[0].spec_len());
                return Err(Error::Arrow(String::from_str("all columns must have the same length")));
            }
            if col.data_type() != schema.fields[c].data_type {
                assert(columns@[c as int].spec_data_type() != schema@[c as int].data_type);
                return Err(
                    Error::Arrow(String::from_str("column types must match schema types")),
                );
            }
            c += 1;
        }
        Ok(ColumnBatch { schema, columns, rows })
    }

    /// The number of rows.
    pub fn num_rows(&self) -> (n: usize)
        requires
            self.wf(),
        ensures
            n == self@.rows,
    {
        self.rows
    }

    /// The number of columns.
    pub fn num_columns(&self) -> (n: usize)
        requires
            self.wf(),
        ensures
            n == self@.columns.len(),
            n == self@.fields.len(),
            n > 0,
    {
        self.columns.len()
    }

    /// The schema.
    pub fn schema(&self) -> (s: &Schema)
        requires
            self.wf(),
        ensures
            s@ == self@.fields,
    {
        &self.schema
    }

    /// Column `c`.
    pub fn column(&self, c: usize) -> (col: &Column)
        requires
            self.wf(),
            c < self@.columns.len(),
        ensures
            col.wf(),
            col.spec_len() == self@.rows,
            col.cells() == self@.columns[c as int],
            col.spec_data_type() == self@.fields[c as int].data_type,
    {
        &self.columns[c]
    }

    /// The rows at `idx`, in the order of `idx`.
    pub fn gather(&self, idx: &Vec<usize>) -> (r: ColumnBatch)
        requires
            self.wf(),
            spec_indices_below(idx@, self@.rows),
        ensures
            r.wf(),
            r@ == self@.gather(idx@),
    {
        let n = self.columns.len();
        let mut columns: Vec<Column> = Vec::with_capacity(n);
        let mut c: usize = 0;
        while c < n
            invariant
                self.wf(),
                spec_indices_below(idx@, self@.rows),
                n == self.columns@.len(),
                c <= n,
                columns@.len() == c,
                forall|k: int|
                    0 <= k < c ==> {
                        &&& (#[trigger] columns@[k]).wf()
                        &&& columns@[k].spec_len() == idx@.len()
                        &&& columns@[k].spec_data_type() == self.columns@[k].spec_data_type()
                        &&& columns@[k].cells() == spec_gather(self.columns@[k].cells(), idx@)
                    },
            decreases n - c,
        {
            assert(self.columns@[c as int].wf());
            columns.push(self.columns[c].gather(idx));
            c += 1;
        }
        let r = ColumnBatch { schema: self.schema.duplicate(), columns, rows: idx.len() };
        assert(r@.columns =~= self@.gather(idx@).columns);
        r
    }

    /// Rows `offset .. offset + length`.
    pub fn slice(&self, offset: usize, length: usize) -> (r: ColumnBatch)
        requires
            self.wf(),
            offset + length <= self@.rows,
        ensures
            r.wf(),
            r@ == self@.slice(offset, length as nat),
    {
        let mut idx: Vec<usize> = Vec::with_capacity(length);
        let mut j: usize = 0;
        while j < length
            invariant
                offset + length <= self@.rows,
                self@.rows <= usize::MAX,
                j <= length,
                idx@ == spec_range_indices(offset, j as nat),
            decreases length - j,
        {
            idx.push(offset + j);
            assert(idx@ =~= spec_range_indices(offset, (j + 1) as nat));
            j += 1;
        }
        self.gather(&idx)
    }

    /// A copy of the batch.
    pub fn duplicate(&self) -> (r: ColumnBatch)
        requires
            self.wf(),
        ensures
            r.wf(),
            r@ == self@,
    {
        let r = self.slice(0, self.rows);
        proof {
            self.lemma_wf_view();
            let idx = spec_range_indices(0, self@.rows);
            assert forall|c: int| 0 <= c < self@.columns.len() implies spec_gather(
                self@.columns[c],
                idx,
            ) == self@.columns[c] by {
                assert(spec_gather(self@.columns[c], idx) =~= self@.columns[c]);
            }
            assert(r@.columns =~= self@.columns);
        }
        r
    }

    /// The rows at which `mask` is true, in their order.
    pub fn filter(&self, mask: &Vec<bool>) -> (r: ColumnBatch)
        requires
            self.wf(),
            mask@.len() == self@.rows,
        ensures
            r.wf(),
            r@ == self@.filter(mask@),
    {
        let n = mask.len();
        let mut idx: Vec<usize> = Vec::new();
        let mut i: usize = 0;
        while i < n
            invariant
                n == mask@.len(),
                i <= n,
                idx@ == spec_true_positions(mask@.subrange(0, i as int)),
                spec_indices_below(idx@, i as nat),
            decreases n - i,
        {
            proof {
                let next = mask@.subrange(0, i + 1);
                assert(next.drop_last() =~= mask@.subrange(0, i as int));
                assert(next.last() == mask@[i as int]);
            }
            if mask[i] {
                idx.push(i);
            }
            i += 1;
        }
        assert(mask@.subrange(0, n as int) =~= mask@);
        self.gather(&idx)
    }

    /// The columns at `idx`, in the order of `idx`.
    pub fn project(&self, idx: &Vec<usize>) -> (r: ColumnBatch)
        requires
            self.wf(),
            idx@.len() > 0,
            spec_indices_below(idx@, self@.columns.len()),
        ensures
            r.wf(),
            r@ == self@.project(idx@),
    {
        let n = idx.len();
        let mut fields: Vec<Field> = Vec::with_capacity(n);
        let mut columns: Vec<Column> = Vec::with_capacity(n);
        let mut all: Vec<usize> = Vec::with_capacity(self.rows);
        let mut i: usize = 0;
        while i < self.rows
            invariant
                i <= self.rows,
                all@ == spec_range_indices(0, i as nat),
            decreases self.rows - i,
        {
            all.push(i);
            assert(all@ =~= spec_range_indices(0, (i + 1) as nat));
            i += 1;
        }
        let mut j: usize = 0;
        while j < n
            invariant
                self.wf(),
                n == idx@.len(),
                spec_indices_below(idx@, self@.columns.len()),
                all@ == spec_range_indices(0, self.rows as nat),
                j <= n,
                fields@.len() == j,
                columns@.len() == j,
                forall|k: int| 0 <= k < j ==> (#[trigger] fields@[k])@ == self.schema@[idx@[k] as int],
                forall|k: int|
                    0 <= k < j ==> {
                        &&& (#[trigger] columns@[k]).wf()
                        &&& columns@[k].spec_len() == self.rows
                        &&& columns@[k].spec_data_type() == self.schema@[idx@[k] as int].data_type
                        &&& columns@[k].cells() == self.columns@[idx@[k] as int].cells()
                    },
            decreases n - j,
        {
            let c = idx[j];
            assert(self.columns@[c as int].wf());
            fields.push(self.schema.fields[c].duplicate());
            let col = self.columns[c].gather(&all);
            assert(col.cells() =~= self.columns@[c as int].cells());
            columns.push(col);
            j += 1;
        }
        let r = ColumnBatch { schema: Schema { fields }, columns, rows: self.rows };
        assert(r@.fields =~= self@.project(idx@).fields);
        assert(r@.columns =~= self@.project(idx@).columns);
        r
    }

    /// The bytes that rows `lo..hi` occupy, or `usize::MAX` if the count
    /// does not fit.
    pub fn range_bytes(&self, lo: usize, hi: usize) -> (n: usize)
        requires
            self.wf(),
            lo <= hi <= self@.rows,
        ensures
            n == spec_saturate(self@.range_bytes(lo as int, hi as int)),
    {
        let m = self.columns.len();
        let mut acc: usize = 0;
        let mut c: usize = 0;
        while c < m
            invariant
                self.wf(),
                lo <= hi <= self@.rows,
                m == self.columns@.len(),
                c <= m,
                acc == spec_saturate(spec_columns_bytes(self@, c as int, lo as int, hi as int)),
            decreases m - c,
        {
            assert(self.columns@[c as int].wf());
            let w = self.columns[c].range_bytes(lo, hi);
            acc = saturating_plus(acc, w);
            c += 1;
        }
        acc
    }

    /// The bytes that the batch occupies, or `usize::MAX` if the count does
    /// not fit.
    pub fn memory_size(&self) -> (n: usize)
        requires
            self.wf(),
        ensures
            n == spec_saturate(self@.bytes()),
    {
        self.range_bytes(0, self.rows)
    }
}

/// The batches of `batches` laid end to end, under the schema of the first.
pub fn concat_batches(batches: &Vec<ColumnBatch>) -> (r: ColumnBatch)
    requires
        batches@.len() > 0,
        forall|b: int| 0 <= b < batches@.len() ==> (#[trigger] batches@[b]).wf(),
        forall|b: int|
            0 <= b < batches@.len() ==> spec_same_schema(batches@[0]@.fields, (#[trigger] batches@[b])@.fields),
    ensures
        r.wf(),
        r@ == spec_concat_all(spec_views(batches@)),
{
    let first = &batches[0];
    let m = batches.len();
    let n = first.columns.len();
    let ghost views = spec_views(batches@);
    let none: Vec<usize> = Vec::new();
    let mut columns: Vec<Column> = Vec::with_capacity(n);
    let mut c: usize = 0;
    while c < n
        invariant
            batches@.len() > 0,
            forall|b: int| 0 <= b < batches@.len() ==> (#[trigger] batches@[b]).wf(),
            forall|b: int|
                0 <= b < batches@.len() ==> spec_same_schema(
                    batches@[0]@.fields,
                    (#[trigger] batches@[b])@.fields,
                ),
            first == &batches@[0],
            m == batches@.len(),
            n == first.columns@.len(),
            views == spec_views(batches@),
            none@.len() == 0,
            c <= n,
            columns@.len() == c,
            forall|k: int|
                0 <= k < c ==> {
                    &&& (#[trigger] columns@[k]).wf()
                    &&& columns@[k].spec_len() == spec_total_rows(views, m as int)
                    &&& columns@[k].spec_data_type() == first.schema@[k].data_type
                    &&& columns@[k].cells() == spec_concat_column(views, k, m as int)
                },
        decreases n - c,
    {
        assert(first.wf());
        assert(first.columns@[c as int].wf());
        let mut col = first.columns[c].gather(&none);
        assert(col.cells() =~= Seq::<Cell>::empty());
        let mut b: usize = 0;
        while b < m
            invariant
                batches@.len() > 0,
                forall|t: int| 0 <= t < batches@.len() ==> (#[trigger] batches@[t]).wf(),
                forall|t: int|
                    0 <= t < batches@.len() ==> spec_same_schema(
                        batches@[0]@.fields,
                        (#[trigger] batches@[t])@.fields,
                    ),
                first == &batches@[0],
                m == batches@.len(),
                n == first.columns@.len(),
                views == spec_views(batches@),
                c < n,
                b <= m,
                col.wf(),
                col.spec_len() == spec_total_rows(views, b as int),
                col.spec_data_type() == first.schema@[c as int].data_type,
                col.cells() == spec_concat_column(views, c as int, b as int),
            decreases m - b,
        {
            let other = &batches[b];
            assert(other.wf());
            assert(spec_same_schema(first@.fields, other@.fields));
            assert(other.columns@[c as int].wf());
            assert(first@.fields[c as int].data_type == other@.fields[c as int].data_type);
            col.append(&other.columns[c]);
            b += 1;
        }
        columns.push(col);
        c += 1;
    }
    assert(first.wf());
    let rows = columns[0].len();
    let r = ColumnBatch { schema: first.schema.duplicate(), columns, rows };
    assert(r@.columns =~= spec_concat_all(views).columns);
    r
}

/// The views of a sequence of batches.
pub open spec fn spec_views(batches: Seq<ColumnBatch>) -> Seq<BatchView> {
    Seq::new(batches.len(), |b: int| batches[b]@)
}

/// The rows of the first `upto` batches together.
pub open spec fn spec_total_rows(views: Seq<BatchView>, upto: int) -> nat
    decreases upto,
{
    if upto <= 0 {
        0
    } else {
        spec_total_rows(views, upto - 1) + views[upto - 1].rows
    }
}

/// Column `c` of the first `upto` batches, laid end to end.
pub open spec fn spec_concat_column(views: Seq<BatchView>, c: int, upto: int) -> Seq<Cell>
    decreases upto,
{
    if upto <= 0 {
        Seq::empty()
    } else {
        spec_concat_column(views, c, upto - 1) + views[upto - 1].columns[c]
    }
}

/// The batches of `views` laid end to end, under the fields of the first.
pub open spec fn spec_concat_all(views: Seq<BatchView>) -> BatchView {
    BatchView {
        fields: views[0].fields,
        columns: Seq::new(
            views[0].columns.len(),
            |c: int| spec_concat_column(views, c, views.len() as int),
        ),
        rows: spec_total_rows(views, views.len() as int),
    }
}

} // verus!
