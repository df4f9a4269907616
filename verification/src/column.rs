//! Typed columns and the cell-level view of them.

use vstd::prelude::*;
use vstd::string::*;
use crate::schema::DataType;

verus! {

/// One value of a column as contracts see it. Floating-point values appear
/// as the integer of their bit pattern.
pub enum Cell {
    Null,
    Int(int),
    Text(Seq<char>),
    Bool(bool),
}

/// The values of a column, one vector per logical type.
#[derive(Debug, Clone)]
pub enum ColumnData {
    Int32(Vec<i32>),
    Int64(Vec<i64>),
    /// Bit patterns of 32-bit floating-point values.
    Float32(Vec<u32>),
    /// Bit patterns of 64-bit floating-point values.
    Float64(Vec<u64>),
    Utf8(Vec<String>),
    Boolean(Vec<bool>),
}

impl ColumnData {
    /// The number of stored values.
    pub open spec fn spec_len(&self) -> nat {
        match self {
            ColumnData::Int32(v) => v@.len(),
            ColumnData::Int64(v) => v@.len(),
            ColumnData::Float32(v) => v@.len(),
            ColumnData::Float64(v) => v@.len(),
            ColumnData::Utf8(v) => v@.len(),
            ColumnData::Boolean(v) => v@.len(),
        }
    }

    /// The logical type of the values.
    pub open spec fn spec_data_type(&self) -> DataType {
        match self {
            ColumnData::Int32(_) => DataType::Int32,
            ColumnData::Int64(_) => DataType::Int64,
            ColumnData::Float32(_) => DataType::Float32,
            ColumnData::Float64(_) => DataType::Float64,
            ColumnData::Utf8(_) => DataType::Utf8,
            ColumnData::Boolean(_) => DataType::Boolean,
        }
    }

    /// The stored value at `i`, whether or not the slot is valid.
    pub open spec fn spec_raw(&self, i: int) -> Cell {
        match self {
            ColumnData::Int32(v) => Cell::Int(v@[i] as int),
            ColumnData::Int64(v) => Cell::Int(v@[i] as int),
            ColumnData::Float32(v) => Cell::Int(v@[i] as int),
            ColumnData::Float64(v) => Cell::Int(v@[i] as int),
            ColumnData::Utf8(v) => Cell::Text(v@[i]@),
            ColumnData::Boolean(v) => Cell::Bool(v@[i]),
        }
    }

    /// The number of stored values.
    pub fn len(&self) -> (n: usize)
        ensures
            n == self.spec_len(),
    {
        match self {
            ColumnData::Int32(v) => v.len(),
            ColumnData::Int64(v) => v.len(),
            ColumnData::Float32(v) => v.len(),
            ColumnData::Float64(v) => v.len(),
            ColumnData::Utf8(v) => v.len(),
            ColumnData::Boolean(v) => v.len(),
        }
    }

    /// The logical type of the values.
    pub fn data_type(&self) -> (t: DataType)
        ensures
            t == self.spec_data_type(),
    {
        match self {
            ColumnData::Int32(_) => DataType::Int32,
            ColumnData::Int64(_) => DataType::Int64,
            ColumnData::Float32(_) => DataType::Float32,
            ColumnData::Float64(_) => DataType::Float64,
            ColumnData::Utf8(_) => DataType::Utf8,
            ColumnData::Boolean(_) => DataType::Boolean,
        }
    }
}

/// Whether a cell can stand in a column of the type: a null in any, and a
/// value in a column of its kind and range.
pub open spec fn spec_cell_fits(t: DataType, c: Cell) -> bool {
    match c {
        Cell::Null => true,
        Cell::Int(v) => match t {
            DataType::Int32 => i32::MIN <= v <= i32::MAX,
            DataType::Int64 => i64::MIN <= v <= i64::MAX,
            DataType::Float32 => 0 <= v <= u32::MAX,
            DataType::Float64 => 0 <= v <= u64::MAX,
            _ => false,
        },
        Cell::Text(_) => t == DataType::Utf8,
        Cell::Bool(_) => t == DataType::Boolean,
    }
}

/// The length of the UTF-8 encoding of a text, as the length of a string
/// reports it.
pub open spec fn spec_text_bytes(s: Seq<char>) -> nat {
    (vstd::utf8::encode_utf8(s).len() as usize) as nat
}

/// The bytes that one cell of a type occupies: the width of the type, and
/// for text the length of its UTF-8 encoding (none for a null).
pub open spec fn spec_value_bytes(t: DataType, raw: Cell) -> nat {
    match t {
        DataType::Int32 => 4,
        DataType::Int64 => 8,
        DataType::Float32 => 4,
        DataType::Float64 => 8,
        DataType::Boolean => 1,
        DataType::Utf8 => match raw {
            Cell::Text(s) => spec_text_bytes(s),
            _ => 0,
        },
    }
}

/// The bytes that cells `lo..hi` of a column of type `t` occupy.
pub open spec fn spec_cells_bytes(t: DataType, cells: Seq<Cell>, lo: int, hi: int) -> nat
    decreases hi - lo,
{
    if lo >= hi {
        0
    } else {
        spec_cells_bytes(t, cells, lo, hi - 1) + spec_value_bytes(t, cells[hi - 1])
    }
}

/// The width in bytes of one value of a fixed-width type; text has none.
pub open spec fn spec_fixed_width(t: DataType) -> Option<nat> {
    match t {
        DataType::Int32 => Some(4),
        DataType::Int64 => Some(8),
        DataType::Float32 => Some(4),
        DataType::Float64 => Some(8),
        DataType::Boolean => Some(1),
        DataType::Utf8 => None,
    }
}

/// A range of a fixed-width column occupies its width times its length.
pub proof fn lemma_fixed_width_bytes(t: DataType, cells: Seq<Cell>, lo: int, hi: int)
    requires
        spec_fixed_width(t) is Some,
        lo <= hi,
    ensures
        spec_cells_bytes(t, cells, lo, hi) == spec_fixed_width(t)->Some_0 * (hi - lo),
    decreases hi - lo,
{
    if lo < hi {
        lemma_fixed_width_bytes(t, cells, lo, hi - 1);
        assert(spec_fixed_width(t)->Some_0 * (hi - 1 - lo) + spec_fixed_width(t)->Some_0
            == spec_fixed_width(t)->Some_0 * (hi - lo)) by (nonlinear_arith);
    }
}

/// The bytes of a range are those of its two halves.
pub proof fn lemma_cells_bytes_split(t: DataType, cells: Seq<Cell>, lo: int, mid: int, hi: int)
    requires
        lo <= mid <= hi,
    ensures
        spec_cells_bytes(t, cells, lo, hi) == spec_cells_bytes(t, cells, lo, mid)
            + spec_cells_bytes(t, cells, mid, hi),
    decreases hi - mid,
{
    if mid < hi {
        lemma_cells_bytes_split(t, cells, lo, mid, hi - 1);
    }
}

/// The rows selected from `cells` by `idx`, in the order of `idx`.
pub open spec fn spec_gather(cells: Seq<Cell>, idx: Seq<usize>) -> Seq<Cell> {
    Seq::new(idx.len(), |j: int| cells[idx[j] as int])
}

/// Every index in `idx` is below `n`.
pub open spec fn spec_indices_below(idx: Seq<usize>, n: nat) -> bool {
    forall|j: int| 0 <= j < idx.len() ==> (#[trigger] idx[j]) < n
}

/// A byte count as a `usize` holds it: itself, or `usize::MAX` when it does
/// not fit.
pub open spec fn spec_saturate(n: nat) -> usize {
    if n > usize::MAX {
        usize::MAX
    } else {
        n as usize
    }
}

/// `a + b`, held at `usize::MAX`.
pub fn saturating_plus(a: usize, b: usize) -> (r: usize)
    ensures
        r == spec_saturate((a + b) as nat),
{
    if a > usize::MAX - b {
        usize::MAX
    } else {
        a + b
    }
}

/// `a * b`, held at `usize::MAX`.
pub fn saturating_times(a: usize, b: usize) -> (r: usize)
    ensures
        r == spec_saturate((a * b) as nat),
{
    if a == 0 || b == 0 {
        assert(a * b == 0) by (nonlinear_arith)
            requires
                a == 0 || b == 0,
        ;
        return 0;
    }
    if a > usize::MAX / b {
        assert(a * b > usize::MAX) by (nonlinear_arith)
            requires
                b > 0,
                a > usize::MAX / b,
        ;
        usize::MAX
    } else {
        assert(a * b <= usize::MAX) by (nonlinear_arith)
            requires
                b > 0,
                a <= usize::MAX / b,
        ;
        a * b
    }
}

fn gather_values<T: Copy>(v: &Vec<T>, idx: &Vec<usize>) -> (r: Vec<T>)
    requires
        spec_indices_below(idx@, v@.len()),
    ensures
        r@.len() == idx@.len(),
        forall|j: int| 0 <= j < idx@.len() ==> r@[j] == v@[idx@[j] as int],
{
    let n = idx.len();
    let mut out: Vec<T> = Vec::with_capacity(n);
    let mut j: usize = 0;
    while j < n
        invariant
            n == idx@.len(),
            j <= n,
            out@.len() == j,
            spec_indices_below(idx@, v@.len()),
            forall|t: int| 0 <= t < j ==> out@[t] == v@[idx@[t] as int],
        decreases n - j,
    {
        out.push(v[idx[j]]);
        j += 1;
    }
    out
}

fn gather_strings(v: &Vec<String>, idx: &Vec<usize>) -> (r: Vec<String>)
    requires
        spec_indices_below(idx@, v@.len()),
    ensures
        r@.len() == idx@.len(),
        forall|j: int| 0 <= j < idx@.len() ==> r@[j]@ == v@[idx@[j] as int]@,
{
    let n = idx.len();
    let mut out: Vec<String> = Vec::with_capacity(n);
    let mut j: usize = 0;
    while j < n
        invariant
            n == idx@.len(),
            j <= n,
            out@.len() == j,
            spec_indices_below(idx@, v@.len()),
            forall|t: int| 0 <= t < j ==> out@[t]@ == v@[idx@[t] as int]@,
        decreases n - j,
    {
        out.push(v[idx[j]].clone());
        j += 1;
    }
    out
}

fn append_values<T: Copy>(v: &mut Vec<T>, more: &Vec<T>)
    ensures
        final(v)@ == old(v)@ + more@,
{
    let n = more.len();
    let mut j: usize = 0;
    while j < n
        invariant
            n == more@.len(),
            j <= n,
            v@ == old(v)@ + more@.subrange(0, j as int),
        decreases n - j,
    {
        v.push(more[j]);
        assert(more@.subrange(0, j as int).push(more@[j as int]) =~= more@.subrange(
            0,
            j + 1 as int,
        ));
        j += 1;
    }
    assert(more@.subrange(0, n as int) =~= more@);
}

fn append_strings(v: &mut Vec<String>, more: &Vec<String>)
    ensures
        final(v)@.len() == old(v)@.len() + more@.len(),
        forall|j: int| 0 <= j < old(v)@.len() ==> final(v)@[j] == old(v)@[j],
        forall|j: int| 0 <= j < more@.len() ==> final(v)@[old(v)@.len() + j]@ == more@[j]@,
{
    let n = more.len();
    let mut j: usize = 0;
    while j < n
        invariant
            n == more@.len(),
            j <= n,
            v@.len() == old(v)@.len() + j,
            forall|t: int| 0 <= t < old(v)@.len() ==> v@[t] == old(v)@[t],
            forall|t: int| 0 <= t < j ==> v@[old(v)@.len() + t]@ == more@[t]@,
        decreases n - j,
    {
        v.push(more[j].clone());
        j += 1;
    }
}

/// A column: its stored values and, parallel to them, which are valid.
#[derive(Debug, Clone)]
pub struct Column {
    pub data: ColumnData,
    /// `validity[i]` is false where row `i` is null.
    pub validity: Vec<bool>,
}

impl Column {
    /// The validity bitmap is parallel to the values.
    pub open spec fn wf(&self) -> bool {
        self.validity@.len() == self.data.spec_len()
    }

    /// The number of rows.
    pub open spec fn spec_len(&self) -> nat {
        self.data.spec_len()
    }

    /// The logical type.
    pub open spec fn spec_data_type(&self) -> DataType {
        self.data.spec_data_type()
    }

    /// The cell at row `i`: null where the slot is invalid, else the stored
    /// value.
    pub open spec fn spec_cell(&self, i: int) -> Cell {
        if self.validity@[i] {
            self.data.spec_raw(i)
        } else {
            Cell::Null
        }
    }

    /// The cells of the column, top to bottom.
    pub open spec fn cells(&self) -> Seq<Cell> {
        Seq::new(self.data.spec_len(), |i: int| self.spec_cell(i))
    }

    /// Whether any row is null.
    pub open spec fn spec_has_null(&self) -> bool {
        exists|i: int| 0 <= i < self.validity@.len() && !(#[trigger] self.validity@[i])
    }

    /// A column of `data` in which every row is valid.
    pub fn new(data: ColumnData) -> (c: Column)
        ensures
            c.wf(),
            c.data == data,
            !c.spec_has_null(),
            c.cells() == Seq::new(data.spec_len(), |i: int| data.spec_raw(i)),
    {
        let n = data.len();
        let mut validity: Vec<bool> = Vec::with_capacity(n);
        let mut i: usize = 0;
        while i < n
            invariant
                i <= n,
                validity@.len() == i,
                forall|j: int| 0 <= j < i ==> validity@[j],
            decreases n - i,
        {
            validity.push(true);
            i += 1;
        }
        let c = Column { data, validity };
        assert(c.cells() =~= Seq::new(data.spec_len(), |i: int| data.spec_raw(i)));
        c
    }

    /// A column of `data` with the given validity bitmap, or `None` when
    /// the bitmap is not parallel to the values.
    pub fn with_validity(data: ColumnData, validity: Vec<bool>) -> (r: Option<Column>)
        ensures
            r is Some <==> validity@.len() == data.spec_len(),
            r matches Some(c) ==> c.wf() && c.data == data && c.validity == validity,
    {
        if validity.len() == data.len() {
            Some(Column { data, validity })
        } else {
            None
        }
    }

    /// The number of rows.
    pub fn len(&self) -> (n: usize)
        ensures
            n == self.spec_len(),
    {
        self.data.len()
    }

    /// The logical type.
    pub fn data_type(&self) -> (t: DataType)
        ensures
            t == self.spec_data_type(),
    {
        self.data.data_type()
    }

    /// Whether row `i` is null.
    pub fn is_null(&self, i: usize) -> (r: bool)
        requires
            self.wf(),
            i < self.spec_len(),
        ensures
            r == (self.cells()[i as int] is Null),
    {
        !self.validity[i]
    }

    /// Whether any row is null.
    pub fn has_null(&self) -> (r: bool)
        ensures
            r == self.spec_has_null(),
    {
        let n = self.validity.len();
        let mut i: usize = 0;
        while i < n
            invariant
                n == self.validity@.len(),
                i <= n,
                forall|j: int| 0 <= j < i ==> self.validity@[j],
            decreases n - i,
        {
            if !self.validity[i] {
                return true;
            }
            i += 1;
        }
        false
    }

    /// The bytes that rows `lo..hi` occupy, or `usize::MAX` if the count
    /// does not fit.
    pub fn range_bytes(&self, lo: usize, hi: usize) -> (n: usize)
        requires
            self.wf(),
            lo <= hi <= self.spec_len(),
        ensures
            n == spec_saturate(spec_cells_bytes(self.spec_data_type(), self.cells(), lo as int, hi as int)),
    {
        let t = self.data.data_type();
        proof {
            if spec_fixed_width(t) is Some {
                lemma_fixed_width_bytes(t, self.cells(), lo as int, hi as int);
            }
        }
        match &self.data {
            ColumnData::Int32(_) => saturating_times(4, hi - lo),
            ColumnData::Int64(_) => saturating_times(8, hi - lo),
            ColumnData::Float32(_) => saturating_times(4, hi - lo),
            ColumnData::Float64(_) => saturating_times(8, hi - lo),
            ColumnData::Boolean(_) => saturating_times(1, hi - lo),
            ColumnData::Utf8(v) => {
                let mut acc: usize = 0;
                let mut i: usize = lo;
                while i < hi
                    invariant
                        self.wf(),
                        self.data == ColumnData::Utf8(*v),
                        t == DataType::Utf8,
                        lo <= i <= hi <= self.spec_len(),
                        acc == spec_saturate(spec_cells_bytes(t, self.cells(), lo as int, i as int)),
                    decreases hi - i,
                {
                    proof {
                        let cells = self.cells();
                        assert(spec_cells_bytes(t, cells, lo as int, i + 1) == spec_cells_bytes(
                            t,
                            cells,
                            lo as int,
                            i as int,
                        ) + spec_value_bytes(t, cells[i as int]));
                        assert(cells[i as int] == self.spec_cell(i as int));
                    }
                    let ghost before = spec_cells_bytes(t, self.cells(), lo as int, i as int);
                    if self.validity[i] {
                        let s = v[i].as_str();
                        assert(s.spec_bytes() == vstd::utf8::encode_utf8(v@[i as int]@));
                        assert(self.spec_cell(i as int) == Cell::Text(v@[i as int]@));
                        let w = s.len();
                        assert(w == spec_value_bytes(t, self.spec_cell(i as int)));
                        acc = saturating_plus(acc, w);
                        assert(acc == spec_saturate(before + w as nat));
                    } else {
                        assert(self.spec_cell(i as int) == Cell::Null);
                    }
                    i += 1;
                }
                acc
            },
        }
    }

    /// The rows at `idx`, in the order of `idx`.
    pub fn gather(&self, idx: &Vec<usize>) -> (r: Column)
        requires
            self.wf(),
            spec_indices_below(idx@, self.spec_len()),
        ensures
            r.wf(),
            r.spec_data_type() == self.spec_data_type(),
            r.spec_len() == idx@.len(),
            r.cells() == spec_gather(self.cells(), idx@),
    {
        let validity = gather_values(&self.validity, idx);
        let data = match &self.data {
            ColumnData::Int32(v) => ColumnData::Int32(gather_values(v, idx)),
            ColumnData::Int64(v) => ColumnData::Int64(gather_values(v, idx)),
            ColumnData::Float32(v) => ColumnData::Float32(gather_values(v, idx)),
            ColumnData::Float64(v) => ColumnData::Float64(gather_values(v, idx)),
            ColumnData::Utf8(v) => ColumnData::Utf8(gather_strings(v, idx)),
            ColumnData::Boolean(v) => ColumnData::Boolean(gather_values(v, idx)),
        };
        let r = Column { data, validity };
        assert(r.cells() =~= spec_gather(self.cells(), idx@));
        r
    }

    /// A copy of the column.
    pub fn duplicate(&self) -> (r: Column)
        requires
            self.wf(),
        ensures
            r.wf(),
            r.spec_data_type() == self.spec_data_type(),
            r.spec_len() == self.spec_len(),
            r.cells() == self.cells(),
    {
        let n = self.len();
        let mut all: Vec<usize> = Vec::with_capacity(n);
        let mut i: usize = 0;
        while i < n
            invariant
                i <= n,
                all@.len() == i,
                forall|j: int| 0 <= j < i ==> all@[j] == j,
            decreases n - i,
        {
            all.push(i);
            i += 1;
        }
        let r = self.gather(&all);
        assert(r.cells() =~= self.cells());
        r
    }

    /// Appends the rows of `other`, which has the same type.
    pub fn append(&mut self, other: &Column)
        requires
            old(self).wf(),
            other.wf(),
            old(self).spec_data_type() == other.spec_data_type(),
        ensures
            final(self).wf(),
            final(self).spec_data_type() == other.spec_data_type(),
            final(self).spec_len() == old(self).spec_len() + other.spec_len(),
            final(self).cells() == old(self).cells() + other.cells(),
    {
        append_values(&mut self.validity, &other.validity);
        match (&mut self.data, &other.data) {
            (ColumnData::Int32(a), ColumnData::Int32(b)) => append_values(a, b),
            (ColumnData::Int64(a), ColumnData::Int64(b)) => append_values(a, b),
            (ColumnData::Float32(a), ColumnData::Float32(b)) => append_values(a, b),
            (ColumnData::Float64(a), ColumnData::Float64(b)) => append_values(a, b),
            (ColumnData::Utf8(a), ColumnData::Utf8(b)) => append_strings(a, b),
            (ColumnData::Boolean(a), ColumnData::Boolean(b)) => append_values(a, b),
            _ => {},
        }
        assert(self.cells() =~= old(self).cells() + other.cells());
    }
}

} // verus!
