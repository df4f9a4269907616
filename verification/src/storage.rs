//! The append-only column store and its morsels.
//!
//! A store is a sequence of batches that share one schema. Batches are
//! appended, never changed or removed. For execution the store is cut into
//! morsels: contiguous row ranges of single batches, sized to a byte budget.

use vstd::prelude::*;
use vstd::string::*;
use crate::batch::{spec_total_rows, spec_views, BatchView, ColumnBatch};
use crate::column::{lemma_fixed_width_bytes, spec_fixed_width, spec_saturate, Cell};
use crate::error::{Error, ErrorKind};
use crate::schema::spec_same_schema;

verus! {

/// The byte budget of one morsel: 128 MiB.
pub const MORSEL_SIZE_BYTES: usize = 128 * 1024 * 1024;

/// The number of transfers that may be in flight to the GPU at once.
pub const MAX_IN_FLIGHT_TRANSFERS: usize = 2;

/// A contiguous row range of one batch of a store. It names the rows and
/// holds no copy of them.
#[derive(Debug, Clone, Copy, PartialEq, Eq, Structural)]
pub struct Morsel {
    /// The index of the batch in the store.
    pub batch_index: usize,
    /// The first row of the range.
    pub offset: usize,
    /// The number of rows.
    pub length: usize,
}

impl Morsel {
    /// The number of rows.
    pub fn num_rows(&self) -> (n: usize)
        ensures
            n == self.length,
    {
        self.length
    }
}

/// How many rows of a batch go into one morsel: the budget divided by the
/// bytes per row, where the bytes per row are the batch's bytes divided by
/// its rows, with zero taken as one; and at least one row, so that a row
/// wider than the budget still travels, alone.
pub open spec fn spec_rows_per_morsel(batch_bytes: nat, batch_rows: nat) -> nat
    recommends
        batch_rows > 0,
{
    let per_row = batch_bytes / batch_rows;
    let per_row = if per_row == 0 {
        1
    } else {
        per_row
    };
    let rows = (MORSEL_SIZE_BYTES as nat) / per_row;
    if rows == 0 {
        1
    } else {
        rows
    }
}

/// The morsels of rows `offset..rows` of batch `batch_index`, each of `step`
/// rows but the last, which takes what is left.
pub open spec fn spec_cut(batch_index: usize, rows: nat, step: nat, offset: nat) -> Seq<Morsel>
    recommends
        step > 0,
    decreases rows - offset,
{
    if offset >= rows || step == 0 {
        Seq::empty()
    } else {
        let length = if rows - offset < step {
            (rows - offset) as nat
        } else {
            step
        };
        seq![Morsel { batch_index, offset: offset as usize, length: length as usize }] + spec_cut(
            batch_index,
            rows,
            step,
            offset + length,
        )
    }
}

/// The morsels of one batch; none when it has no rows.
pub open spec fn spec_batch_morsels(batch_index: usize, v: BatchView) -> Seq<Morsel> {
    spec_cut(
        batch_index,
        v.rows,
        spec_rows_per_morsel(spec_saturate(v.bytes()) as nat, v.rows),
        0,
    )
}

/// The morsels of batches `from..` of a store, in store order.
pub open spec fn spec_morsels_from(views: Seq<BatchView>, from: int) -> Seq<Morsel>
    decreases views.len() - from,
{
    if from < 0 || from >= views.len() {
        Seq::empty()
    } else {
        spec_batch_morsels(from as usize, views[from]) + spec_morsels_from(views, from + 1)
    }
}

/// The morsels of a store.
pub open spec fn spec_morsels(views: Seq<BatchView>) -> Seq<Morsel> {
    spec_morsels_from(views, 0)
}

/// The rows of the first `upto` morsels together.
pub open spec fn spec_morsel_rows(morsels: Seq<Morsel>, upto: int) -> nat
    decreases upto,
{
    if upto <= 0 {
        0
    } else {
        spec_morsel_rows(morsels, upto - 1) + morsels[upto - 1].length as nat
    }
}

/// A morsel lies within a batch of the store and has at least one row.
pub open spec fn spec_morsel_within(views: Seq<BatchView>, m: Morsel) -> bool {
    &&& m.batch_index < views.len()
    &&& m.length > 0
    &&& m.offset + m.length <= views[m.batch_index as int].rows
}

/// The bytes of a morsel.
pub open spec fn spec_morsel_bytes(views: Seq<BatchView>, m: Morsel) -> nat {
    views[m.batch_index as int].range_bytes(m.offset as int, m.offset + m.length)
}

/// The column store.
#[derive(Debug)]
pub struct StorageEngine {
    batches: Vec<ColumnBatch>,
}

impl View for StorageEngine {
    type V = Seq<BatchView>;

    closed spec fn view(&self) -> Seq<BatchView> {
        spec_views(self.batches@)
    }
}

/// Every batch is well formed and has the schema of the first, by field
/// name and type.
pub open spec fn spec_store_wf(batches: Seq<ColumnBatch>) -> bool {
    &&& forall|b: int| 0 <= b < batches.len() ==> (#[trigger] batches[b]).wf()
    &&& forall|b: int|
        0 <= b < batches.len() ==> spec_same_schema(batches[0]@.fields, (#[trigger] batches[b])@.fields)
}

impl StorageEngine {
    /// The store keeps its invariant: well-formed batches of one schema.
    pub closed spec fn wf(&self) -> bool {
        spec_store_wf(self.batches@)
    }

    /// The batches of the store as exec values.
    pub closed spec fn spec_batches(&self) -> Seq<ColumnBatch> {
        self.batches@
    }

    /// What `wf` and the view mean in terms of the batches.
    pub proof fn lemma_wf(&self)
        ensures
            self.wf() == spec_store_wf(self.spec_batches()),
            self@ == spec_views(self.spec_batches()),
    {
    }

    /// A store of the given batches, which share one schema.
    pub fn new(batches: Vec<ColumnBatch>) -> (s: StorageEngine)
        requires
            spec_store_wf(batches@),
        ensures
            s.wf(),
            s.spec_batches() == batches@,
            s@ == spec_views(batches@),
    {
        StorageEngine { batches }
    }

    /// A store of the given batches, or `SchemaMismatch` when one of them
    /// has another schema than the first.
    pub fn try_new(batches: Vec<ColumnBatch>) -> (r: Result<StorageEngine, Error>)
        requires
            forall|b: int| 0 <= b < batches@.len() ==> (#[trigger] batches@[b]).wf(),
        ensures
            r is Ok <==> spec_store_wf(batches@),
            r matches Ok(s) ==> s.wf() && s.spec_batches() == batches@ && s@ == spec_views(batches@),
            r matches Err(e) ==> e.spec_kind() == ErrorKind::SchemaMismatch,
    {
        let n = batches.len();
        let mut b: usize = 0;
        while b < n
            invariant
                n == batches@.len(),
                b <= n,
                forall|t: int| 0 <= t < batches@.len() ==> (#[trigger] batches@[t]).wf(),
                forall|t: int|
                    0 <= t < b ==> spec_same_schema(batches@[0]@.fields, (#[trigger] batches@[t])@.fields),
            decreases n - b,
        {
            assert(batches@[0].wf());
            assert(batches@[b as int].wf());
            if !batches[0].schema().same_as(batches[b].schema()) {
                return Err(
                    Error::SchemaMismatch(
                        String::from_str("every batch of a store must have the schema of the first"),
                    ),
                );
            }
            b += 1;
        }
        Ok(StorageEngine { batches })
    }

    /// The batches, in the order in which they were appended.
    pub fn batches(&self) -> (r: &Vec<ColumnBatch>)
        ensures
            r@ == self.spec_batches(),
    {
        &self.batches
    }

    /// Appends a batch. Fails with `SchemaMismatch`, and leaves the store as
    /// it was, when the store is not empty and the batch has another schema
    /// than the store; otherwise the batch becomes the last of the store.
    pub fn append_batch(&mut self, batch: ColumnBatch) -> (r: Result<(), Error>)
        requires
            old(self).wf(),
            batch.wf(),
        ensures
            final(self).wf(),
            r is Err <==> old(self)@.len() > 0 && !spec_same_schema(old(self)@[0].fields, batch@.fields),
            r matches Err(e) ==> e.spec_kind() == ErrorKind::SchemaMismatch && final(self)@ == old(self)@
                && final(self).spec_batches() == old(self).spec_batches(),
            r is Ok ==> final(self)@ == old(self)@.push(batch@) && final(self).spec_batches() == old(
                self,
            ).spec_batches().push(batch),
    {
        if self.batches.len() > 0 {
            assert(self.batches@[0].wf());
            if !self.batches[0].schema().same_as(batch.schema()) {
                return Err(
                    Error::SchemaMismatch(
                        String::from_str("the batch does not have the schema of the store"),
                    ),
                );
            }
        }
        let ghost before = self.batches@;
        self.batches.push(batch);
        proof {
            assert(self.batches@ == before.push(batch));
            assert(spec_views(self.batches@) =~= spec_views(before).push(batch@));
            assert forall|b: int| 0 <= b < self.batches@.len() implies spec_same_schema(
                self.batches@[0]@.fields,
                (#[trigger] self.batches@[b])@.fields,
            ) by {
                if b < before.len() {
                    assert(self.batches@[b] == before[b]);
                }
            }
        }
        Ok(())
    }

    /// Always fails with `Unsupported` and leaves the store as it was: rows
    /// of a column store are not updated in place.
    pub fn update_row(&mut self, row_id: usize, values: ColumnBatch) -> (r: Result<(), Error>)
        ensures
            *final(self) == *old(self),
            r matches Err(e) && e.spec_kind() == ErrorKind::Unsupported,
    {
        Err(
            Error::Unsupported(
                String::from_str(
                    "Single-row updates not supported in columnar storage. Use append_batch() for bulk re-analysis instead.",
                ),
            ),
        )
    }

    /// An iterator over the morsels of the store.
    pub fn morsels(&self) -> (it: MorselIterator<'_>)
        requires
            self.wf(),
        ensures
            it.wf(),
            it.spec_store() == self@,
            it.spec_remaining() == spec_morsels(self@),
    {
        let it = MorselIterator { batches: &self.batches, current_batch_idx: 0, current_offset: 0 };
        proof {
            lemma_remaining_at_batch_start(self@, 0);
        }
        it
    }

    /// The rows of a morsel as a batch of their own.
    pub fn morsel_batch(&self, m: &Morsel) -> (r: ColumnBatch)
        requires
            self.wf(),
            spec_morsel_within(self@, *m),
        ensures
            r.wf(),
            r@ == self@[m.batch_index as int].slice(m.offset, m.length as nat),
    {
        assert(self.batches@[m.batch_index as int].wf());
        self.batches[m.batch_index].slice(m.offset, m.length)
    }

    /// The bytes of a morsel, or `usize::MAX` if the count does not fit.
    pub fn morsel_bytes(&self, m: &Morsel) -> (n: usize)
        requires
            self.wf(),
            spec_morsel_within(self@, *m),
        ensures
            n == spec_saturate(spec_morsel_bytes(self@, *m)),
    {
        assert(self.batches@[m.batch_index as int].wf());
        let batch = &self.batches[m.batch_index];
        let rows = batch.num_rows();
        assert(m.offset + m.length <= rows);
        batch.range_bytes(m.offset, m.offset + m.length)
    }
}

/// The number of rows that go into one morsel of a batch of `batch_bytes`
/// bytes and `batch_rows` rows.
pub fn rows_per_morsel(batch_bytes: usize, batch_rows: usize) -> (n: usize)
    requires
        batch_rows > 0,
    ensures
        n == spec_rows_per_morsel(batch_bytes as nat, batch_rows as nat),
        n > 0,
{
    let per_row = batch_bytes / batch_rows;
    let per_row = if per_row == 0 {
        1
    } else {
        per_row
    };
    let rows = MORSEL_SIZE_BYTES / per_row;
    if rows == 0 {
        1
    } else {
        rows
    }
}

/// The morsels that remain when the iterator stands at row `offset` of
/// batch `b`.
pub open spec fn spec_remaining_at(views: Seq<BatchView>, b: int, offset: nat) -> Seq<Morsel> {
    if b < 0 || b >= views.len() {
        Seq::empty()
    } else {
        spec_cut(
            b as usize,
            views[b].rows,
            spec_rows_per_morsel(spec_saturate(views[b].bytes()) as nat, views[b].rows),
            offset,
        ) + spec_morsels_from(views, b + 1)
    }
}

/// At the start of a batch, what remains is the morsels from that batch on.
pub proof fn lemma_remaining_at_batch_start(views: Seq<BatchView>, b: int)
    requires
        0 <= b,
    ensures
        spec_remaining_at(views, b, 0) == spec_morsels_from(views, b),
{
}

/// At the end of a batch, what remains is the morsels of the batches after
/// it.
pub proof fn lemma_remaining_at_batch_end(views: Seq<BatchView>, b: int, offset: nat)
    requires
        0 <= b < views.len(),
        offset >= views[b].rows,
    ensures
        spec_remaining_at(views, b, offset) == spec_morsels_from(views, b + 1),
{
    assert(Seq::<Morsel>::empty() + spec_morsels_from(views, b + 1) =~= spec_morsels_from(
        views,
        b + 1,
    ));
}

/// A finite, non-restartable walk over the morsels of a store.
pub struct MorselIterator<'a> {
    batches: &'a Vec<ColumnBatch>,
    current_batch_idx: usize,
    current_offset: usize,
}

impl<'a> MorselIterator<'a> {
    /// The store that the iterator walks.
    pub closed spec fn spec_store(&self) -> Seq<BatchView> {
        spec_views(self.batches@)
    }

    /// The iterator stands inside its store.
    pub closed spec fn wf(&self) -> bool {
        &&& spec_store_wf(self.batches@)
        &&& self.current_batch_idx <= self.batches@.len()
        &&& self.current_batch_idx < self.batches@.len() ==> self.current_offset
            <= self.batches@[self.current_batch_idx as int]@.rows
    }

    /// The morsels that the iterator has yet to yield, in order.
    pub closed spec fn spec_remaining(&self) -> Seq<Morsel> {
        spec_remaining_at(self.spec_store(), self.current_batch_idx as int, self.current_offset as nat)
    }

    /// Yields the next morsel, or `None` when none is left.
    pub fn next(&mut self) -> (r: Option<Morsel>)
        requires
            old(self).wf(),
        ensures
            final(self).wf(),
            final(self).spec_store() == old(self).spec_store(),
            match r {
                Some(m) => old(self).spec_remaining() == seq![m] + final(self).spec_remaining()
                    && spec_morsel_within(old(self).spec_store(), m),
                None => old(self).spec_remaining().len() == 0 && final(self).spec_remaining().len()
                    == 0,
            },
    {
        let ghost views = self.spec_store();
        loop
            invariant
                self.wf(),
                self.batches == old(self).batches,
                views == self.spec_store(),
                self.spec_remaining() == old(self).spec_remaining(),
            decreases self.batches@.len() - self.current_batch_idx,
        {
            if self.current_batch_idx >= self.batches.len() {
                return None;
            }
            let batch = &self.batches[self.current_batch_idx];
            assert(batch.wf());
            let rows = batch.num_rows();
            if self.current_offset >= rows {
                proof {
                    lemma_remaining_at_batch_end(
                        views,
                        self.current_batch_idx as int,
                        self.current_offset as nat,
                    );
                    lemma_remaining_at_batch_start(views, self.current_batch_idx + 1);
                }
                self.current_batch_idx += 1;
                self.current_offset = 0;
                continue ;
            }
            let step = rows_per_morsel(batch.memory_size(), rows);
            let remaining_rows = rows - self.current_offset;
            let length = if remaining_rows < step {
                remaining_rows
            } else {
                step
            };
            let m = Morsel {
                batch_index: self.current_batch_idx,
                offset: self.current_offset,
                length,
            };
            proof {
                let rest = spec_cut(
                    self.current_batch_idx,
                    rows as nat,
                    step as nat,
                    (self.current_offset + length) as nat,
                );
                assert(old(self).spec_remaining() == (seq![m] + rest) + spec_morsels_from(
                    views,
                    self.current_batch_idx + 1,
                ));
                assert((seq![m] + rest) + spec_morsels_from(views, self.current_batch_idx + 1)
                    =~= seq![m] + (rest + spec_morsels_from(views, self.current_batch_idx + 1)));
            }
            self.current_offset += length;
            return Some(m);
        }
    }
}

/// The views of a store are well formed, and every batch has a number of
/// rows that a machine word holds.
pub open spec fn spec_views_wf(views: Seq<BatchView>) -> bool {
    forall|b: int| 0 <= b < views.len() ==> (#[trigger] views[b]).wf() && views[b].rows <= usize::MAX
}

/// Row counts add up over a concatenation of morsel sequences.
pub proof fn lemma_morsel_rows_concat(a: Seq<Morsel>, b: Seq<Morsel>, k: int)
    requires
        0 <= k <= a.len() + b.len(),
    ensures
        k <= a.len() ==> spec_morsel_rows(a + b, k) == spec_morsel_rows(a, k),
        k >= a.len() ==> spec_morsel_rows(a + b, k) == spec_morsel_rows(a, a.len() as int)
            + spec_morsel_rows(b, k - a.len()),
    decreases k,
{
    if k > 0 {
        lemma_morsel_rows_concat(a, b, k - 1);
        if k <= a.len() {
            assert((a + b)[k - 1] == a[k - 1]);
        } else {
            assert((a + b)[k - 1] == b[k - 1 - a.len()]);
        }
    }
}

/// The morsels cut from one batch tile its rows: they lie in that batch,
/// each starts where the one before it ends, each has at least one row and
/// at most `step`, and together they end at the last row.
pub proof fn lemma_cut_tiles(batch_index: usize, rows: nat, step: nat, offset: nat)
    requires
        step > 0,
        offset <= rows <= usize::MAX,
    ensures
        ({
            let cut = spec_cut(batch_index, rows, step, offset);
            &&& offset + spec_morsel_rows(cut, cut.len() as int) == rows
            &&& forall|j: int|
                0 <= j < cut.len() ==> {
                    &&& (#[trigger] cut[j]).batch_index == batch_index
                    &&& cut[j].offset == offset + spec_morsel_rows(cut, j)
                    &&& 0 < cut[j].length <= step
                    &&& cut[j].offset + cut[j].length <= rows
                }
        }),
    decreases rows - offset,
{
    let cut = spec_cut(batch_index, rows, step, offset);
    if offset < rows {
        let length = if rows - offset < step {
            (rows - offset) as nat
        } else {
            step
        };
        let m = Morsel { batch_index, offset: offset as usize, length: length as usize };
        let rest = spec_cut(batch_index, rows, step, offset + length);
        lemma_cut_tiles(batch_index, rows, step, offset + length);
        assert(cut == seq![m] + rest);
        lemma_morsel_rows_concat(seq![m], rest, cut.len() as int);
        assert(spec_morsel_rows(seq![m], 1) == spec_morsel_rows(seq![m], 0) + m.length as nat);
        assert forall|j: int| 0 <= j < cut.len() implies {
            &&& (#[trigger] cut[j]).batch_index == batch_index
            &&& cut[j].offset == offset + spec_morsel_rows(cut, j)
            &&& 0 < cut[j].length <= step
            &&& cut[j].offset + cut[j].length <= rows
        } by {
            lemma_morsel_rows_concat(seq![m], rest, j);
            if j > 0 {
                assert(cut[j] == rest[j - 1]);
            }
        }
    }
}

/// The rows of the morsels of batches `from..` are the rows of those
/// batches.
pub proof fn lemma_morsels_from_rows(views: Seq<BatchView>, from: int)
    requires
        spec_views_wf(views),
        0 <= from <= views.len(),
    ensures
        spec_total_rows(views, from) + spec_morsel_rows(
            spec_morsels_from(views, from),
            spec_morsels_from(views, from).len() as int,
        ) == spec_total_rows(views, views.len() as int),
    decreases views.len() - from,
{
    if from < views.len() {
        let v = views[from];
        let step = spec_rows_per_morsel(spec_saturate(v.bytes()) as nat, v.rows);
        let head = spec_batch_morsels(from as usize, v);
        let tail = spec_morsels_from(views, from + 1);
        lemma_cut_tiles(from as usize, v.rows, step, 0);
        lemma_morsels_from_rows(views, from + 1);
        lemma_morsel_rows_concat(head, tail, (head + tail).len() as int);
    }
}

/// Morsel totality: the rows of all morsels of a store together are the
/// rows of all its batches together.
pub proof fn lemma_morsels_cover_all_rows(views: Seq<BatchView>)
    requires
        spec_views_wf(views),
    ensures
        spec_morsel_rows(spec_morsels(views), spec_morsels(views).len() as int) == spec_total_rows(
            views,
            views.len() as int,
        ),
{
    lemma_morsels_from_rows(views, 0);
}

/// A morsel lies within one batch, and has no more rows than that batch
/// puts into a morsel.
pub open spec fn spec_morsel_sized(views: Seq<BatchView>, m: Morsel) -> bool {
    &&& spec_morsel_within(views, m)
    &&& m.length <= spec_rows_per_morsel(
        spec_saturate(views[m.batch_index as int].bytes()) as nat,
        views[m.batch_index as int].rows,
    )
}

/// Every morsel of batches `from..` lies within one batch and has the size
/// that batch calls for.
pub proof fn lemma_morsels_from_sized(views: Seq<BatchView>, from: int, i: int)
    requires
        spec_views_wf(views),
        0 <= from <= views.len() <= usize::MAX,
        0 <= i < spec_morsels_from(views, from).len(),
    ensures
        spec_morsel_sized(views, spec_morsels_from(views, from)[i]),
        spec_morsels_from(views, from)[i].batch_index >= from,
    decreases views.len() - from,
{
    if from < views.len() {
        let v = views[from];
        let step = spec_rows_per_morsel(spec_saturate(v.bytes()) as nat, v.rows);
        let head = spec_batch_morsels(from as usize, v);
        let tail = spec_morsels_from(views, from + 1);
        lemma_cut_tiles(from as usize, v.rows, step, 0);
        if i < head.len() {
            assert((head + tail)[i] == head[i]);
        } else {
            assert((head + tail)[i] == tail[i - head.len()]);
            lemma_morsels_from_sized(views, from + 1, i - head.len());
        }
    }
}

/// No morsel straddles two batches: every morsel of a store is a row range
/// of one of its batches, with at least one row.
pub proof fn lemma_morsel_within_one_batch(views: Seq<BatchView>, i: int)
    requires
        spec_views_wf(views),
        views.len() <= usize::MAX,
        0 <= i < spec_morsels(views).len(),
    ensures
        spec_morsel_within(views, spec_morsels(views)[i]),
{
    lemma_morsels_from_sized(views, 0, i);
}

/// Every column of the batch has a fixed width.
pub open spec fn spec_fixed_width_batch(v: BatchView) -> bool {
    forall|c: int| 0 <= c < v.fields.len() ==> spec_fixed_width((#[trigger] v.fields[c]).data_type) is Some
}

/// The bytes of one row of the first `upto` columns of a fixed-width batch.
pub open spec fn spec_row_width(v: BatchView, upto: int) -> nat
    decreases upto,
{
    if upto <= 0 {
        0
    } else {
        spec_row_width(v, upto - 1) + match spec_fixed_width(v.fields[upto - 1].data_type) {
            Some(w) => w,
            None => 0,
        }
    }
}

/// A row range of a fixed-width batch occupies the row width times the
/// number of rows.
pub proof fn lemma_fixed_width_range_bytes(v: BatchView, upto: int, lo: int, hi: int)
    requires
        spec_fixed_width_batch(v),
        v.fields.len() == v.columns.len(),
        0 <= upto <= v.columns.len(),
        lo <= hi,
    ensures
        crate::batch::spec_columns_bytes(v, upto, lo, hi) == spec_row_width(v, upto) * (hi - lo),
    decreases upto,
{
    if upto > 0 {
        lemma_fixed_width_range_bytes(v, upto - 1, lo, hi);
        let t = v.fields[upto - 1].data_type;
        lemma_fixed_width_bytes(t, v.columns[upto - 1], lo, hi);
        let w = spec_fixed_width(t)->Some_0;
        assert(spec_row_width(v, upto - 1) * (hi - lo) + w * (hi - lo) == (spec_row_width(
            v,
            upto - 1,
        ) + w) * (hi - lo)) by (nonlinear_arith);
        assert(spec_row_width(v, upto) == spec_row_width(v, upto - 1) + w);
    } else {
        assert(spec_row_width(v, upto) * (hi - lo) == 0) by (nonlinear_arith)
            requires
                spec_row_width(v, upto) == 0,
        ;
    }
}

/// Every row of the batch occupies `width` bytes.
pub open spec fn spec_uniform_rows(v: BatchView, width: nat) -> bool {
    forall|r: int| 0 <= r < v.rows ==> #[trigger] v.range_bytes(r, r + 1) == width
}

/// A row range of a batch of rows of one width occupies the width times
/// the number of rows.
pub proof fn lemma_uniform_range_bytes(v: BatchView, width: nat, lo: int, hi: int)
    requires
        spec_uniform_rows(v, width),
        0 <= lo <= hi <= v.rows,
    ensures
        v.range_bytes(lo, hi) == width * (hi - lo),
    decreases hi - lo,
{
    let n = v.columns.len() as int;
    if lo < hi {
        lemma_uniform_range_bytes(v, width, lo, hi - 1);
        crate::batch::lemma_range_bytes_split(v, n, lo, hi - 1, hi);
        assert(v.range_bytes(hi - 1, hi - 1 + 1) == width);
        assert(width * (hi - 1 - lo) + width == width * (hi - lo)) by (nonlinear_arith);
    } else {
        lemma_empty_range_bytes(v, n, lo);
        assert(width * (hi - lo) == 0) by (nonlinear_arith)
            requires
                hi - lo == 0,
        ;
    }
}

/// No rows occupy no bytes.
pub proof fn lemma_empty_range_bytes(v: BatchView, upto: int, lo: int)
    ensures
        crate::batch::spec_columns_bytes(v, upto, lo, lo) == 0,
    decreases upto,
{
    if upto > 0 {
        lemma_empty_range_bytes(v, upto - 1, lo);
    }
}

/// In a fixed-width batch every row occupies the row width.
pub proof fn lemma_fixed_width_uniform(v: BatchView)
    requires
        spec_fixed_width_batch(v),
        v.fields.len() == v.columns.len(),
    ensures
        spec_uniform_rows(v, spec_row_width(v, v.columns.len() as int)),
{
    let n = v.columns.len() as int;
    assert forall|r: int| 0 <= r < v.rows implies #[trigger] v.range_bytes(r, r + 1)
        == spec_row_width(v, n) by {
        lemma_fixed_width_range_bytes(v, n, r, r + 1);
        assert(spec_row_width(v, n) * (r + 1 - r) == spec_row_width(v, n)) by (nonlinear_arith);
    }
}

/// Morsel bound: in a store whose batches each hold rows of one width, no
/// wider than the budget, and whose byte counts fit a machine word, every
/// morsel occupies at most the budget. `widths` gives the width of the rows
/// of each batch.
pub proof fn lemma_morsel_within_budget(views: Seq<BatchView>, widths: Seq<nat>, i: int)
    requires
        spec_views_wf(views),
        views.len() <= usize::MAX,
        0 <= i < spec_morsels(views).len(),
        widths.len() == views.len(),
        forall|b: int|
            0 <= b < views.len() ==> {
                &&& spec_uniform_rows(#[trigger] views[b], widths[b])
                &&& widths[b] <= MORSEL_SIZE_BYTES
                &&& views[b].bytes() <= usize::MAX
            },
    ensures
        spec_morsel_bytes(views, spec_morsels(views)[i]) <= MORSEL_SIZE_BYTES,
{
    lemma_morsels_from_sized(views, 0, i);
    let m = spec_morsels(views)[i];
    let v = views[m.batch_index as int];
    let w = widths[m.batch_index as int];
    let rows = v.rows as int;
    let len = m.length as int;
    lemma_uniform_range_bytes(v, w, m.offset as int, m.offset + m.length);
    lemma_uniform_range_bytes(v, w, 0, rows);
    assert(spec_morsel_bytes(views, m) == w * len);
    assert(v.bytes() == w * rows);
    let budget = MORSEL_SIZE_BYTES as int;
    if w == 0 {
        assert(w * len == 0) by (nonlinear_arith)
            requires
                w == 0,
        ;
    } else {
        assert((w * rows) / rows == w) by (nonlinear_arith)
            requires
                rows > 0,
                w > 0,
        ;
        let per_morsel = budget / (w as int);
        assert(per_morsel >= 1) by (nonlinear_arith)
            requires
                per_morsel == budget / (w as int),
                0 < w <= budget,
        ;
        assert(len <= per_morsel);
        assert(w * len <= budget) by (nonlinear_arith)
            requires
                0 <= len <= per_morsel,
                per_morsel == budget / (w as int),
                0 < w,
        ;
    }
}

/// Morsel bound for fixed-width batches: where no batch holds text and no
/// row is wider than the budget, every morsel occupies at most the
/// budget.
pub proof fn lemma_fixed_width_morsel_within_budget(views: Seq<BatchView>, i: int)
    requires
        spec_views_wf(views),
        views.len() <= usize::MAX,
        0 <= i < spec_morsels(views).len(),
        forall|b: int|
            0 <= b < views.len() ==> {
                &&& spec_fixed_width_batch(#[trigger] views[b])
                &&& spec_row_width(views[b], views[b].columns.len() as int) <= MORSEL_SIZE_BYTES
                &&& views[b].bytes() <= usize::MAX
            },
    ensures
        spec_morsel_bytes(views, spec_morsels(views)[i]) <= MORSEL_SIZE_BYTES,
{
    let widths = Seq::new(
        views.len(),
        |b: int| spec_row_width(views[b], views[b].columns.len() as int),
    );
    assert forall|b: int| 0 <= b < views.len() implies spec_uniform_rows(
        #[trigger] views[b],
        widths[b],
    ) by {
        lemma_fixed_width_uniform(views[b]);
    }
    lemma_morsel_within_budget(views, widths, i);
}

/// The cells of column `c` that a morsel names.
pub open spec fn spec_morsel_column(views: Seq<BatchView>, m: Morsel, c: int) -> Seq<Cell> {
    views[m.batch_index as int].columns[c].subrange(m.offset as int, m.offset + m.length)
}

/// Column `c` of the first `upto` morsels, laid end to end.
pub open spec fn spec_morsels_column(views: Seq<BatchView>, morsels: Seq<Morsel>, c: int, upto: int) -> Seq<
    Cell,
>
    decreases upto,
{
    if upto <= 0 {
        Seq::empty()
    } else {
        spec_morsels_column(views, morsels, c, upto - 1) + spec_morsel_column(
            views,
            morsels[upto - 1],
            c,
        )
    }
}

/// The batch of a morsel holds, in every column, the cells that the morsel
/// names.
pub proof fn lemma_morsel_batch_column(views: Seq<BatchView>, m: Morsel, c: int)
    requires
        spec_views_wf(views),
        spec_morsel_within(views, m),
        0 <= c < views[m.batch_index as int].columns.len(),
    ensures
        views[m.batch_index as int].slice(m.offset, m.length as nat).columns[c]
            == spec_morsel_column(views, m, c),
{
    let v = views[m.batch_index as int];
    assert(v.slice(m.offset, m.length as nat).columns[c] =~= spec_morsel_column(views, m, c));
}

/// The cells of two runs of morsels, laid end to end, are the cells of the
/// first run followed by those of the second.
pub proof fn lemma_morsels_column_concat(
    views: Seq<BatchView>,
    a: Seq<Morsel>,
    b: Seq<Morsel>,
    c: int,
    k: int,
)
    requires
        0 <= k <= b.len(),
    ensures
        spec_morsels_column(views, a + b, c, a.len() + k) == spec_morsels_column(
            views,
            a,
            c,
            a.len() as int,
        ) + spec_morsels_column(views, b, c, k),
    decreases k,
{
    if k == 0 {
        lemma_morsels_column_prefix(views, a, b, c, a.len() as int);
        assert(spec_morsels_column(views, a, c, a.len() as int) + Seq::<Cell>::empty()
            =~= spec_morsels_column(views, a, c, a.len() as int));
    } else {
        lemma_morsels_column_concat(views, a, b, c, k - 1);
        assert((a + b)[a.len() + k - 1] == b[k - 1]);
        assert((spec_morsels_column(views, a, c, a.len() as int) + spec_morsels_column(
            views,
            b,
            c,
            k - 1,
        )) + spec_morsel_column(views, b[k - 1], c) =~= spec_morsels_column(
            views,
            a,
            c,
            a.len() as int,
        ) + (spec_morsels_column(views, b, c, k - 1) + spec_morsel_column(views, b[k - 1], c)));
    }
}

/// The cells of the first morsels of a run do not depend on what follows
/// the run.
pub proof fn lemma_morsels_column_prefix(
    views: Seq<BatchView>,
    a: Seq<Morsel>,
    b: Seq<Morsel>,
    c: int,
    k: int,
)
    requires
        0 <= k <= a.len(),
    ensures
        spec_morsels_column(views, a + b, c, k) == spec_morsels_column(views, a, c, k),
    decreases k,
{
    if k > 0 {
        lemma_morsels_column_prefix(views, a, b, c, k - 1);
        assert((a + b)[k - 1] == a[k - 1]);
    }
}

/// The morsels cut from rows `offset..` of a batch hold, laid end to end,
/// the cells of those rows.
pub proof fn lemma_cut_column(views: Seq<BatchView>, batch_index: usize, step: nat, offset: nat, c: int)
    requires
        spec_views_wf(views),
        batch_index < views.len(),
        step > 0,
        offset <= views[batch_index as int].rows,
        0 <= c < views[batch_index as int].columns.len(),
    ensures
        ({
            let v = views[batch_index as int];
            let cut = spec_cut(batch_index, v.rows, step, offset);
            spec_morsels_column(views, cut, c, cut.len() as int) == v.columns[c].subrange(
                offset as int,
                v.rows as int,
            )
        }),
    decreases views[batch_index as int].rows - offset,
{
    let v = views[batch_index as int];
    let cut = spec_cut(batch_index, v.rows, step, offset);
    let column = v.columns[c];
    assert(column.len() == v.rows);
    if offset >= v.rows {
        assert(column.subrange(offset as int, v.rows as int) =~= Seq::<Cell>::empty());
    } else {
        let length = if v.rows - offset < step {
            (v.rows - offset) as nat
        } else {
            step
        };
        let m = Morsel { batch_index, offset: offset as usize, length: length as usize };
        let rest = spec_cut(batch_index, v.rows, step, offset + length);
        lemma_cut_column(views, batch_index, step, offset + length, c);
        assert(cut == seq![m] + rest);
        lemma_morsels_column_concat(views, seq![m], rest, c, rest.len() as int);
        assert(spec_morsels_column(views, seq![m], c, 1) == spec_morsels_column(
            views,
            seq![m],
            c,
            0,
        ) + spec_morsel_column(views, m, c));
        let end = (offset + length) as int;
        assert(spec_morsels_column(views, seq![m], c, 1) =~= column.subrange(offset as int, end));
        assert(column.subrange(offset as int, end) + column.subrange(end, v.rows as int)
            =~= column.subrange(offset as int, v.rows as int));
    }
}

/// The morsels of batches `from..` hold, laid end to end, the cells of
/// those batches.
pub proof fn lemma_morsels_from_column(views: Seq<BatchView>, from: int, c: int)
    requires
        spec_views_wf(views),
        0 <= from <= views.len() <= usize::MAX,
        forall|b: int| 0 <= b < views.len() ==> c < (#[trigger] views[b]).columns.len(),
        0 <= c,
    ensures
        crate::batch::spec_concat_column(views, c, from) + spec_morsels_column(
            views,
            spec_morsels_from(views, from),
            c,
            spec_morsels_from(views, from).len() as int,
        ) == crate::batch::spec_concat_column(views, c, views.len() as int),
    decreases views.len() - from,
{
    let done = crate::batch::spec_concat_column(views, c, from);
    if from >= views.len() {
        assert(done + Seq::<Cell>::empty() =~= done);
    } else {
        let v = views[from];
        let step = spec_rows_per_morsel(spec_saturate(v.bytes()) as nat, v.rows);
        let head = spec_batch_morsels(from as usize, v);
        let tail = spec_morsels_from(views, from + 1);
        lemma_cut_column(views, from as usize, step, 0, c);
        lemma_morsels_from_column(views, from + 1, c);
        lemma_morsels_column_concat(views, head, tail, c, tail.len() as int);
        assert(v.columns[c].subrange(0, v.rows as int) =~= v.columns[c]);
        let head_cells = spec_morsels_column(views, head, c, head.len() as int);
        let tail_cells = spec_morsels_column(views, tail, c, tail.len() as int);
        assert(done + (head_cells + tail_cells) =~= (done + head_cells) + tail_cells);
    }
}

/// The concatenation of all morsels of a store, in iteration order, is the
/// concatenation of all its batches: in every column, cell by cell.
pub proof fn lemma_morsels_concatenate_to_store(views: Seq<BatchView>, c: int)
    requires
        spec_views_wf(views),
        views.len() <= usize::MAX,
        forall|b: int| 0 <= b < views.len() ==> c < (#[trigger] views[b]).columns.len(),
        0 <= c,
    ensures
        spec_morsels_column(views, spec_morsels(views), c, spec_morsels(views).len() as int)
            == crate::batch::spec_concat_column(views, c, views.len() as int),
{
    lemma_morsels_from_column(views, 0, c);
    let cells = spec_morsels_column(views, spec_morsels(views), c, spec_morsels(views).len() as int);
    assert(Seq::<Cell>::empty() + cells =~= cells);
}

/// Append is additive: a store with one more batch has the rows of the
/// store before and the rows of the batch.
pub proof fn lemma_append_adds_rows(views: Seq<BatchView>, batch: BatchView)
    ensures
        spec_total_rows(views.push(batch), (views.len() + 1) as int) == spec_total_rows(
            views,
            views.len() as int,
        ) + batch.rows,
{
    lemma_total_rows_prefix(views, views.push(batch), views.len() as int);
}

/// The rows of the first batches do not depend on the batches after them.
pub proof fn lemma_total_rows_prefix(a: Seq<BatchView>, b: Seq<BatchView>, upto: int)
    requires
        0 <= upto <= a.len() <= b.len(),
        forall|i: int| 0 <= i < a.len() ==> a[i] == b[i],
    ensures
        spec_total_rows(a, upto) == spec_total_rows(b, upto),
    decreases upto,
{
    if upto > 0 {
        lemma_total_rows_prefix(a, b, upto - 1);
    }
}

} // verus!
