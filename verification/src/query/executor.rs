//! Query execution: a plan is run over a store and yields one batch.
//!
//! The pipeline concatenates the batches of the store, applies the filter,
//! then either aggregates or projects, and at last orders and limits.
//!
//! Integer work is done here, and so is every comparison of
//! floating-point values, on their bit patterns. Work in floating-point
//! arithmetic (reading a literal, summing, averaging) is
//! handed to the caller as a [`FloatTask`]: `execute` then returns
//! [`Step::Pending`], the caller computes the answer and calls again with
//! the answers so far, in the order in which the tasks were raised.

use vstd::prelude::*;
use vstd::string::*;
use crate::backend::{spec_resolve, BackendDispatcher};
use crate::batch::{concat_batches, spec_concat_all, BatchView, ColumnBatch};
use crate::column::{Cell, Column, ColumnData};
use crate::error::{Error, ErrorKind};
use crate::query::{AggregateFunction, AggregationView, OrderDirection, PlanView, QueryPlan};
use crate::schema::{spec_position, DataType, Field, FieldView, Schema};
use crate::storage::StorageEngine;
use crate::text::{
    join_from, parse_int, spec_join, spec_parse_in_range, spec_texts, spec_words, split_whitespace,
};
use crate::topk::{spec_top_k_batch, SortOrder, TopKSelection};
use crate::Backend;

verus! {

/// A computation in floating-point arithmetic that the caller performs.
#[derive(Debug)]
pub enum FloatTask {
    /// The value that a text writes, as a literal of the floating-point
    /// type. The answer is [`FloatAnswer::Literal`] with the bit pattern of
    /// the value, or with `None` when the text is no such literal.
    Literal { text: String, data_type: DataType },
    /// The aggregate of the valid rows of the column. For `Sum` of a
    /// floating-point column: the compensated sum, where after each value
    /// `v` the running sum `s` and the compensation `c`, both zero at
    /// first and both carried in 64-bit arithmetic, become `y = v - c`,
    /// `t = s + y`, `c = (t - s) - y`, `s = t`, and the sum is rounded to
    /// the type of the column at the end; the plain sum where a value is
    /// not finite, so that a NaN or an infinity shows in the result. For
    /// `Avg`: the sum of the values in 64-bit arithmetic, divided by their
    /// number; at least one row is valid.
    /// The aggregate runs on `backend`, which is `Simd` or `Gpu`. The
    /// answer is [`FloatAnswer::Value`] with the bit pattern of the result.
    Aggregate { function: AggregateFunction, column: Column, backend: Backend },
}

/// The answer to a [`FloatTask`].
#[derive(Debug)]
pub enum FloatAnswer {
    Literal(Option<u64>),
    Value(u64),
}

/// A task as contracts see it.
pub enum TaskView {
    Literal { text: Seq<char>, data_type: DataType },
    Aggregate {
        function: AggregateFunction,
        data_type: DataType,
        cells: Seq<Cell>,
        backend: Backend,
    },
}

/// An answer as contracts see it.
pub enum AnswerView {
    Literal(Option<u64>),
    Value(u64),
}

impl View for FloatTask {
    type V = TaskView;

    open spec fn view(&self) -> TaskView {
        match self {
            FloatTask::Literal { text, data_type } => TaskView::Literal {
                text: text@,
                data_type: *data_type,
            },
            FloatTask::Aggregate { function, column, backend } => TaskView::Aggregate {
                function: *function,
                data_type: column.spec_data_type(),
                cells: column.cells(),
                backend: *backend,
            },
        }
    }
}

impl View for FloatAnswer {
    type V = AnswerView;

    open spec fn view(&self) -> AnswerView {
        match self {
            FloatAnswer::Literal(bits) => AnswerView::Literal(*bits),
            FloatAnswer::Value(bits) => AnswerView::Value(*bits),
        }
    }
}

/// The views of the answers.
pub open spec fn spec_answers(answers: Seq<FloatAnswer>) -> Seq<AnswerView> {
    Seq::new(answers.len(), |i: int| answers[i]@)
}

/// The result of a stage: its value, or the task that must be answered
/// before the stage can go on.
#[derive(Debug)]
pub enum Step<T> {
    Done(T),
    Pending(FloatTask),
}

/// How a stage ends, as contracts see it.
pub enum Outcome<T> {
    Done(T),
    Pending(TaskView),
    Failed(ErrorKind),
}

/// A comparison operator of a filter.
#[derive(Debug, Clone, Copy, PartialEq, Eq, Structural)]
pub enum CompareOp {
    Gt,
    Ge,
    Lt,
    Le,
    Eq,
    Ne,
    /// Any other text; no row passes.
    Unknown,
}

impl CompareOp {
    /// The operator that a text writes.
    pub open spec fn spec_from_text(op: Seq<char>) -> CompareOp {
        if op == ">"@ {
            CompareOp::Gt
        } else if op == ">="@ {
            CompareOp::Ge
        } else if op == "<"@ {
            CompareOp::Lt
        } else if op == "<="@ {
            CompareOp::Le
        } else if op == "="@ {
            CompareOp::Eq
        } else if op == "!="@ || op == "<>"@ {
            CompareOp::Ne
        } else {
            CompareOp::Unknown
        }
    }

    /// Whether `value op literal` holds.
    pub open spec fn spec_holds(self, value: int, literal: int) -> bool {
        match self {
            CompareOp::Gt => value > literal,
            CompareOp::Ge => value >= literal,
            CompareOp::Lt => value < literal,
            CompareOp::Le => value <= literal,
            CompareOp::Eq => value == literal,
            CompareOp::Ne => value != literal,
            CompareOp::Unknown => false,
        }
    }

    /// The operator that a text writes.
    pub fn from_text(op: &String) -> (r: CompareOp)
        ensures
            r == Self::spec_from_text(op@),
    {
        if *op == String::from_str(">") {
            CompareOp::Gt
        } else if *op == String::from_str(">=") {
            CompareOp::Ge
        } else if *op == String::from_str("<") {
            CompareOp::Lt
        } else if *op == String::from_str("<=") {
            CompareOp::Le
        } else if *op == String::from_str("=") {
            CompareOp::Eq
        } else if *op == String::from_str("!=") || *op == String::from_str("<>") {
            CompareOp::Ne
        } else {
            CompareOp::Unknown
        }
    }

    /// Whether `value op literal` holds.
    pub fn holds(self, value: i64, literal: i64) -> (r: bool)
        ensures
            r == self.spec_holds(value as int, literal as int),
    {
        match self {
            CompareOp::Gt => value > literal,
            CompareOp::Ge => value >= literal,
            CompareOp::Lt => value < literal,
            CompareOp::Le => value <= literal,
            CompareOp::Eq => value == literal,
            CompareOp::Ne => value != literal,
            CompareOp::Unknown => false,
        }
    }
}

/// For each cell of an integer column, whether it passes the comparison; a
/// null does not.
pub open spec fn spec_int_mask(cells: Seq<Cell>, op: CompareOp, literal: int) -> Seq<bool> {
    Seq::new(
        cells.len(),
        |i: int|
            match cells[i] {
                Cell::Int(v) => op.spec_holds(v, literal),
                _ => false,
            },
    )
}

/// Whether the type is one of the two integer types.
pub open spec fn spec_is_integer(t: DataType) -> bool {
    t == DataType::Int32 || t == DataType::Int64
}

/// Whether the type is one of the two floating-point types.
pub open spec fn spec_is_float(t: DataType) -> bool {
    t == DataType::Float32 || t == DataType::Float64
}

/// The range of the literals of an integer type.
pub open spec fn spec_literal_range(t: DataType) -> (int, int) {
    if t == DataType::Int32 {
        (i32::MIN as int, i32::MAX as int)
    } else {
        (i64::MIN as int, i64::MAX as int)
    }
}

/// Whether a bit pattern of a floating-point type is no number: all
/// exponent bits set and a fraction that is not zero.
pub open spec fn spec_is_nan(t: DataType, bits: int) -> bool {
    if t == DataType::Float32 {
        bits % 0x8000_0000 > 0x7F80_0000
    } else {
        bits % 0x8000_0000_0000_0000 > 0x7FF0_0000_0000_0000
    }
}

/// The place of a bit pattern that is a number in the order of the values:
/// its magnitude, negated where the sign bit is set, so that the two zeros
/// share a place.
pub open spec fn spec_float_place(t: DataType, bits: int) -> int {
    let half = if t == DataType::Float32 {
        0x8000_0000int
    } else {
        0x8000_0000_0000_0000int
    };
    if bits >= half {
        -(bits - half)
    } else {
        bits
    }
}

/// Whether the value of `a` is greater than the value of `b`; it is not
/// where either is no number.
pub open spec fn spec_float_greater(t: DataType, a: int, b: int) -> bool {
    !spec_is_nan(t, a) && !spec_is_nan(t, b) && spec_float_place(t, a) > spec_float_place(t, b)
}

/// Whether a floating-point value compares to a literal as the operator
/// says. Where either is no number, only `!=` holds. The two zeros are
/// equal. An unknown operator holds for no value.
pub open spec fn spec_float_holds(op: CompareOp, t: DataType, value: int, literal: int) -> bool {
    match op {
        CompareOp::Gt => spec_float_greater(t, value, literal),
        CompareOp::Lt => spec_float_greater(t, literal, value),
        CompareOp::Ge => !spec_is_nan(t, value) && !spec_is_nan(t, literal) && spec_float_place(
            t,
            value,
        ) >= spec_float_place(t, literal),
        CompareOp::Le => !spec_is_nan(t, value) && !spec_is_nan(t, literal) && spec_float_place(
            t,
            value,
        ) <= spec_float_place(t, literal),
        CompareOp::Eq => !spec_is_nan(t, value) && !spec_is_nan(t, literal) && spec_float_place(
            t,
            value,
        ) == spec_float_place(t, literal),
        CompareOp::Ne => spec_is_nan(t, value) || spec_is_nan(t, literal) || spec_float_place(
            t,
            value,
        ) != spec_float_place(t, literal),
        CompareOp::Unknown => false,
    }
}

/// For each cell of a floating-point column, whether it passes the
/// comparison; a null does not.
pub open spec fn spec_float_mask(t: DataType, cells: Seq<Cell>, op: CompareOp, literal: int) -> Seq<
    bool,
> {
    Seq::new(
        cells.len(),
        |i: int|
            match cells[i] {
                Cell::Int(v) => spec_float_holds(op, t, v, literal),
                _ => false,
            },
    )
}

/// The filter stage. The expression is three words or more: a column, an
/// operator, and a literal made of the remaining words. It fails with
/// `ParseError` on fewer words and on a literal that is not of the type of
/// the column, and with `InvalidInput` on an unknown column and on a column
/// that is neither integer nor floating point. It keeps the rows that pass
/// the comparison; an unknown operator lets no row pass. On a
/// floating-point column the literal is read by the caller: the stage is
/// pending until there is an answer, and fails with `Other` on an answer of
/// the wrong kind.
pub open spec fn spec_apply_filter(
    v: BatchView,
    expr: Seq<char>,
    answers: Seq<AnswerView>,
    next: int,
) -> Outcome<(BatchView, int)> {
    let words = spec_words(expr);
    if words.len() < 3 {
        Outcome::Failed(ErrorKind::ParseError)
    } else {
        match spec_position(v.fields, words[0]) {
            None => Outcome::Failed(ErrorKind::InvalidInput),
            Some(c) => {
                let t = v.fields[c].data_type;
                let op = words[1];
                let literal = spec_join(words, 2, " "@);
                if spec_is_integer(t) {
                    let range = spec_literal_range(t);
                    match spec_parse_in_range(literal, range.0, range.1) {
                        None => Outcome::Failed(ErrorKind::ParseError),
                        Some(x) => Outcome::Done(
                            (
                                v.filter(
                                    spec_int_mask(v.columns[c], CompareOp::spec_from_text(op), x),
                                ),
                                next,
                            ),
                        ),
                    }
                } else if spec_is_float(t) {
                    if next >= answers.len() {
                        Outcome::Pending(TaskView::Literal { text: literal, data_type: t })
                    } else {
                        match answers[next] {
                            AnswerView::Literal(None) => Outcome::Failed(ErrorKind::ParseError),
                            AnswerView::Literal(Some(k)) => if t == DataType::Float32 && k
                                > u32::MAX {
                                Outcome::Failed(ErrorKind::Other)
                            } else {
                                Outcome::Done(
                                    (
                                        v.filter(
                                            spec_float_mask(
                                                t,
                                                v.columns[c],
                                                CompareOp::spec_from_text(op),
                                                k as int,
                                            ),
                                        ),
                                        next + 1,
                                    ),
                                )
                            },
                            _ => Outcome::Failed(ErrorKind::Other),
                        }
                    }
                } else {
                    Outcome::Failed(ErrorKind::InvalidInput)
                }
            },
        }
    }
}

/// How the result of a filter stage reads as an outcome.
pub open spec fn spec_filter_outcome(r: Result<Step<(ColumnBatch, usize)>, Error>) -> Outcome<
    (BatchView, int),
> {
    match r {
        Ok(Step::Done((b, n))) => Outcome::Done((b@, n as int)),
        Ok(Step::Pending(t)) => Outcome::Pending(t@),
        Err(e) => Outcome::Failed(e.spec_kind()),
    }
}

/// How the result of a stage that yields a batch reads as an outcome.
pub open spec fn spec_batch_outcome(r: Result<Step<ColumnBatch>, Error>) -> Outcome<BatchView> {
    match r {
        Ok(Step::Done(b)) => Outcome::Done(b@),
        Ok(Step::Pending(t)) => Outcome::Pending(t@),
        Err(e) => Outcome::Failed(e.spec_kind()),
    }
}

/// The value of row `i` of an integer column.
fn int_at(column: &Column, i: usize) -> (v: i64)
    requires
        column.wf(),
        i < column.spec_len(),
        spec_is_integer(column.spec_data_type()),
    ensures
        column.data.spec_raw(i as int) == Cell::Int(v as int),
{
    match &column.data {
        ColumnData::Int32(values) => values[i] as i64,
        ColumnData::Int64(values) => values[i],
        _ => 0,
    }
}

fn int_mask(column: &Column, op: CompareOp, literal: i64) -> (mask: Vec<bool>)
    requires
        column.wf(),
        spec_is_integer(column.spec_data_type()),
    ensures
        mask@ == spec_int_mask(column.cells(), op, literal as int),
{
    let n = column.len();
    let mut mask: Vec<bool> = Vec::with_capacity(n);
    let mut i: usize = 0;
    while i < n
        invariant
            column.wf(),
            spec_is_integer(column.spec_data_type()),
            n == column.spec_len(),
            i <= n,
            mask@.len() == i,
            forall|j: int|
                0 <= j < i ==> mask@[j] == spec_int_mask(column.cells(), op, literal as int)[j],
        decreases n - i,
    {
        let pass = if column.validity[i] {
            op.holds(int_at(column, i), literal)
        } else {
            false
        };
        mask.push(pass);
        i += 1;
    }
    assert(mask@ =~= spec_int_mask(column.cells(), op, literal as int));
    mask
}

/// Whether a floating-point value compares to a literal as an operator of
/// order says.
pub fn float_holds(op: CompareOp, t: DataType, value: u64, literal: u64) -> (r: bool)
    requires
        spec_is_float(t),
        t == DataType::Float32 ==> value <= u32::MAX && literal <= u32::MAX,
    ensures
        r == spec_float_holds(op, t, value as int, literal as int),
{
    match op {
        CompareOp::Gt => float_greater(t, value, literal),
        CompareOp::Lt => float_greater(t, literal, value),
        CompareOp::Ge => !float_is_nan(t, value) && !float_is_nan(t, literal) && !float_greater(
            t,
            literal,
            value,
        ),
        CompareOp::Le => !float_is_nan(t, value) && !float_is_nan(t, literal) && !float_greater(
            t,
            value,
            literal,
        ),
        CompareOp::Eq => !float_is_nan(t, value) && !float_is_nan(t, literal) && !float_greater(
            t,
            value,
            literal,
        ) && !float_greater(t, literal, value),
        CompareOp::Ne => float_is_nan(t, value) || float_is_nan(t, literal) || float_greater(
            t,
            value,
            literal,
        ) || float_greater(t, literal, value),
        CompareOp::Unknown => false,
    }
}

/// Whether a bit pattern of a floating-point type is no number.
pub fn float_is_nan(t: DataType, bits: u64) -> (r: bool)
    requires
        spec_is_float(t),
    ensures
        r == spec_is_nan(t, bits as int),
{
    if t == DataType::Float32 {
        bits % 0x8000_0000 > 0x7F80_0000
    } else {
        bits % 0x8000_0000_0000_0000 > 0x7FF0_0000_0000_0000
    }
}

fn float_mask(column: &Column, op: CompareOp, literal: u64) -> (mask: Vec<bool>)
    requires
        column.wf(),
        spec_is_float(column.spec_data_type()),
        column.spec_data_type() == DataType::Float32 ==> literal <= u32::MAX,
    ensures
        mask@ == spec_float_mask(column.spec_data_type(), column.cells(), op, literal as int),
{
    let n = column.len();
    let t = column.data_type();
    let mut mask: Vec<bool> = Vec::with_capacity(n);
    let mut i: usize = 0;
    while i < n
        invariant
            column.wf(),
            spec_is_float(column.spec_data_type()),
            t == column.spec_data_type(),
            t == DataType::Float32 ==> literal <= u32::MAX,
            n == column.spec_len(),
            i <= n,
            mask@.len() == i,
            forall|j: int|
                0 <= j < i ==> mask@[j] == spec_float_mask(t, column.cells(), op, literal as int)[j],
        decreases n - i,
    {
        let pass = if column.validity[i] {
            float_holds(op, t, bits_at(column, i), literal)
        } else {
            false
        };
        mask.push(pass);
        i += 1;
    }
    assert(mask@ =~= spec_float_mask(t, column.cells(), op, literal as int));
    mask
}

/// The filter stage: see [`spec_apply_filter`].
pub fn apply_filter(
    batch: &ColumnBatch,
    filter_expr: &String,
    answers: &Vec<FloatAnswer>,
    next: usize,
) -> (r: Result<Step<(ColumnBatch, usize)>, Error>)
    requires
        batch.wf(),
        next <= answers@.len(),
    ensures
        spec_filter_outcome(r) == spec_apply_filter(
            batch@,
            filter_expr@,
            spec_answers(answers@),
            next as int,
        ),
        r matches Ok(Step::Done((b, n))) ==> b.wf() && n <= answers@.len(),
{
    let words = split_whitespace(filter_expr.as_str());
    if words.len() < 3 {
        let mut msg = String::from_str("Invalid filter expression: ");
        msg.append(filter_expr.as_str());
        return Err(Error::ParseError(msg));
    }
    assert(spec_texts(words@)[0] == words@[0]@);
    assert(spec_texts(words@)[1] == words@[1]@);
    let literal = join_from(&words, 2, " ");
    let c = match batch.schema().position(&words[0]) {
        Some(c) => c,
        None => {
            let mut msg = String::from_str("Column not found: ");
            msg.append(words[0].as_str());
            return Err(Error::InvalidInput(msg));
        },
    };
    proof {
        batch.lemma_wf_view();
    }
    let column = batch.column(c);
    match column.data_type() {
        DataType::Int32 => {
            match parse_int(literal.as_str(), i32::MIN as i128, i32::MAX as i128) {
                Some(x) => {
                    let mask = int_mask(column, CompareOp::from_text(&words[1]), x as i64);
                    Ok(Step::Done((batch.filter(&mask), next)))
                },
                None => {
                    let mut msg = String::from_str("Invalid Int32 value: ");
                    msg.append(literal.as_str());
                    Err(Error::ParseError(msg))
                },
            }
        },
        DataType::Int64 => {
            match parse_int(literal.as_str(), i64::MIN as i128, i64::MAX as i128) {
                Some(x) => {
                    let mask = int_mask(column, CompareOp::from_text(&words[1]), x as i64);
                    Ok(Step::Done((batch.filter(&mask), next)))
                },
                None => {
                    let mut msg = String::from_str("Invalid Int64 value: ");
                    msg.append(literal.as_str());
                    Err(Error::ParseError(msg))
                },
            }
        },
        DataType::Float32 | DataType::Float64 => {
            let t = column.data_type();
            if next >= answers.len() {
                return Ok(Step::Pending(FloatTask::Literal { text: literal, data_type: t }));
            }
            assert(spec_answers(answers@)[next as int] == answers@[next as int]@);
            let k = match &answers[next] {
                FloatAnswer::Literal(Some(k)) => *k,
                FloatAnswer::Literal(None) => {
                    let mut msg = String::from_str("Invalid floating-point value: ");
                    msg.append(literal.as_str());
                    return Err(Error::ParseError(msg));
                },
                _ => {
                    return Err(
                        Error::Other(
                            String::from_str("a literal task was answered with something else"),
                        ),
                    );
                },
            };
            if t == DataType::Float32 && k > u32::MAX as u64 {
                return Err(
                    Error::Other(String::from_str("the literal does not fit a 32-bit value")),
                );
            }
            let mask = float_mask(column, CompareOp::from_text(&words[1]), k);
            Ok(Step::Done((batch.filter(&mask), next + 1)))
        },
        _ => Err(Error::InvalidInput(String::from_str("Filter not supported for data type"))),
    }
}

/// The wrapping 64-bit sum of the integers among the cells.
pub open spec fn spec_fold_sum(cells: Seq<Cell>) -> i64
    decreases cells.len(),
{
    if cells.len() == 0 {
        0
    } else {
        let front = spec_fold_sum(cells.drop_last());
        match cells.last() {
            Cell::Int(v) => vstd::wrapping::i64_specs::wrapping_add(front, v as i64),
            _ => front,
        }
    }
}

/// The least integer among the cells, if there is one.
pub open spec fn spec_fold_min(cells: Seq<Cell>) -> Option<int>
    decreases cells.len(),
{
    if cells.len() == 0 {
        None
    } else {
        let front = spec_fold_min(cells.drop_last());
        match cells.last() {
            Cell::Int(v) => match front {
                Some(m) => if v < m {
                    Some(v)
                } else {
                    Some(m)
                },
                None => Some(v),
            },
            _ => front,
        }
    }
}

/// The greatest integer among the cells, if there is one.
pub open spec fn spec_fold_max(cells: Seq<Cell>) -> Option<int>
    decreases cells.len(),
{
    if cells.len() == 0 {
        None
    } else {
        let front = spec_fold_max(cells.drop_last());
        match cells.last() {
            Cell::Int(v) => match front {
                Some(m) => if v > m {
                    Some(v)
                } else {
                    Some(m)
                },
                None => Some(v),
            },
            _ => front,
        }
    }
}

/// The 32-bit integers among the cells, in their order.
pub open spec fn spec_valid_i32(cells: Seq<Cell>) -> Seq<i32>
    decreases cells.len(),
{
    if cells.len() == 0 {
        Seq::empty()
    } else {
        let front = spec_valid_i32(cells.drop_last());
        match cells.last() {
            Cell::Int(v) => front.push(v as i32),
            _ => front,
        }
    }
}

/// Whether a cell is not null.
pub open spec fn spec_any_valid(cells: Seq<Cell>) -> bool {
    exists|i: int| 0 <= i < cells.len() && !(#[trigger] cells[i] is Null)
}

/// The bit pattern of the first value among the cells that is no number,
/// if there is one.
pub open spec fn spec_first_nan(t: DataType, cells: Seq<Cell>) -> Option<int>
    decreases cells.len(),
{
    if cells.len() == 0 {
        None
    } else {
        match spec_first_nan(t, cells.drop_last()) {
            Some(n) => Some(n),
            None => match cells.last() {
                Cell::Int(v) => if spec_is_nan(t, v) {
                    Some(v)
                } else {
                    None
                },
                _ => None,
            },
        }
    }
}

/// The least or the greatest of the floating-point values among the cells,
/// as a bit pattern. Where a value is no number, the result is the first
/// such value: it is handed on, never passed over. Where no row is valid,
/// the result is zero.
pub open spec fn spec_float_extremum(t: DataType, cells: Seq<Cell>, greatest: bool) -> int {
    match spec_first_nan(t, cells) {
        Some(n) => n,
        None => match if greatest {
            spec_fold_float_max(t, cells)
        } else {
            spec_fold_float_min(t, cells)
        } {
            Some(m) => m,
            None => 0,
        },
    }
}

/// The width in bytes of a value of an integer or floating-point type.
pub open spec fn spec_width(t: DataType) -> nat {
    if t == DataType::Int32 || t == DataType::Float32 {
        4
    } else {
        8
    }
}

/// The backend on which an aggregate over `rows` values of `width` bytes
/// each runs: the forced backend, or else the choice of the cost model for
/// that many bytes and one operation per value.
pub open spec fn spec_aggregate_backend(requested: Backend, rows: nat, width: nat) -> Backend {
    spec_resolve(
        requested,
        crate::column::spec_saturate(rows * width) as int,
        rows as int,
    )
}

/// A row count as a 64-bit result holds it.
pub open spec fn spec_row_count(rows: nat) -> int {
    if rows > i64::MAX {
        i64::MAX as int
    } else {
        rows as int
    }
}

/// The least of the floating-point values among the cells, all of them
/// numbers, as the bit pattern of the first value that no later value is
/// less than.
pub open spec fn spec_fold_float_min(t: DataType, cells: Seq<Cell>) -> Option<int>
    decreases cells.len(),
{
    if cells.len() == 0 {
        None
    } else {
        let front = spec_fold_float_min(t, cells.drop_last());
        match cells.last() {
            Cell::Int(v) => match front {
                Some(m) => if spec_float_greater(t, m, v) {
                    Some(v)
                } else {
                    Some(m)
                },
                None => Some(v),
            },
            _ => front,
        }
    }
}

/// The greatest of the floating-point values among the cells, all of them
/// numbers, as the bit pattern of the last value that no earlier value is
/// greater than.
pub open spec fn spec_fold_float_max(t: DataType, cells: Seq<Cell>) -> Option<int>
    decreases cells.len(),
{
    if cells.len() == 0 {
        None
    } else {
        let front = spec_fold_float_max(t, cells.drop_last());
        match cells.last() {
            Cell::Int(v) => match front {
                Some(m) => if spec_float_greater(t, m, v) {
                    Some(m)
                } else {
                    Some(v)
                },
                None => Some(v),
            },
            _ => front,
        }
    }
}

/// The result of an aggregation that is decided without floating-point
/// arithmetic: its type and value. `Count` is the number of rows, as
/// 64-bit. `Sum` over a 32-bit integer column is the sum of the valid rows
/// with wrapping 32-bit addition, and over a 64-bit integer column with
/// wrapping 64-bit addition; both are reported as 64-bit. `Min` and `Max`
/// are of the type of the column, over the valid rows, and zero when no
/// row is valid; over floating-point values a NaN among them is the
/// result. Sums of floating-point values and every average need
/// floating-point arithmetic.
pub open spec fn spec_int_aggregate(f: AggregateFunction, t: DataType, cells: Seq<Cell>) -> Option<
    (DataType, int),
> {
    match f {
        AggregateFunction::Count => Some((DataType::Int64, spec_row_count(cells.len()))),
        AggregateFunction::Sum => if t == DataType::Int32 {
            Some((DataType::Int64, crate::kernels::spec_sum_i32(spec_valid_i32(cells)) as int))
        } else if t == DataType::Int64 {
            Some((DataType::Int64, spec_fold_sum(cells) as int))
        } else {
            None
        },
        AggregateFunction::Min => Some(
            (
                t,
                if spec_is_integer(t) {
                    match spec_fold_min(cells) {
                        Some(m) => m,
                        None => 0,
                    }
                } else {
                    spec_float_extremum(t, cells, false)
                },
            ),
        ),
        AggregateFunction::Max => Some(
            (
                t,
                if spec_is_integer(t) {
                    match spec_fold_max(cells) {
                        Some(m) => m,
                        None => 0,
                    }
                } else {
                    spec_float_extremum(t, cells, true)
                },
            ),
        ),
        AggregateFunction::Avg => None,
    }
}

/// The type of the result of an aggregation in floating-point arithmetic:
/// 64-bit for `Avg`, and else the type of the column.
pub open spec fn spec_float_result_type(f: AggregateFunction, t: DataType) -> DataType {
    if f == AggregateFunction::Avg {
        DataType::Float64
    } else {
        t
    }
}

/// The column that an aggregation reads: the first one for `*`, and else
/// the first of that name.
pub open spec fn spec_aggregate_position(fields: Seq<FieldView>, name: Seq<char>) -> Option<int> {
    if name == "*"@ {
        if fields.len() > 0 {
            Some(0)
        } else {
            None
        }
    } else {
        spec_position(fields, name)
    }
}

/// One aggregation: the field and the cell of its result, and the index of
/// the next unused answer. The result is named by the alias, or else as the
/// aggregation names its column. The average of no valid row is absent:
/// its cell is null, and no task is raised. What needs floating-point
/// arithmetic is a task for the backend that the requested strategy
/// resolves to for this column. Fails with `InvalidInput` on an unknown
/// column and on a column that is neither integer nor floating point.
pub open spec fn spec_one_aggregate(
    v: BatchView,
    a: AggregationView,
    answers: Seq<AnswerView>,
    next: int,
    requested: Backend,
) -> Outcome<(FieldView, Cell, int)> {
    let name = match a.alias {
        Some(alias) => alias,
        None => a.column,
    };
    match spec_aggregate_position(v.fields, a.column) {
        None => Outcome::Failed(ErrorKind::InvalidInput),
        Some(c) => {
            let t = v.fields[c].data_type;
            if !spec_is_integer(t) && !spec_is_float(t) {
                Outcome::Failed(ErrorKind::InvalidInput)
            } else {
                match spec_int_aggregate(a.function, t, v.columns[c]) {
                    Some((rt, value)) => Outcome::Done(
                        (FieldView { name, data_type: rt, nullable: false }, Cell::Int(value), next),
                    ),
                    None => if a.function == AggregateFunction::Avg && !spec_any_valid(
                        v.columns[c],
                    ) {
                        Outcome::Done(
                            (
                                FieldView { name, data_type: DataType::Float64, nullable: true },
                                Cell::Null,
                                next,
                            ),
                        )
                    } else if next >= answers.len() {
                        Outcome::Pending(
                            TaskView::Aggregate {
                                function: a.function,
                                data_type: t,
                                cells: v.columns[c],
                                backend: spec_aggregate_backend(
                                    requested,
                                    v.columns[c].len(),
                                    spec_width(t),
                                ),
                            },
                        )
                    } else {
                        let rt = spec_float_result_type(a.function, t);
                        match answers[next] {
                            AnswerView::Value(bits) => if rt == DataType::Float32 && bits > u32::MAX {
                                Outcome::Failed(ErrorKind::Other)
                            } else {
                                Outcome::Done(
                                    (
                                        FieldView { name, data_type: rt, nullable: false },
                                        Cell::Int(bits as int),
                                        next + 1,
                                    ),
                                )
                            },
                            _ => Outcome::Failed(ErrorKind::Other),
                        }
                    },
                }
            }
        },
    }
}

/// The first `upto` aggregations, in order: the fields and the cells of
/// their results, and the index of the next unused answer. The first one
/// that fails or is pending decides.
pub open spec fn spec_aggregations(
    v: BatchView,
    aggs: Seq<AggregationView>,
    upto: int,
    answers: Seq<AnswerView>,
    next: int,
    requested: Backend,
) -> Outcome<(Seq<FieldView>, Seq<Cell>, int)>
    decreases upto,
{
    if upto <= 0 {
        Outcome::Done((Seq::empty(), Seq::empty(), next))
    } else {
        match spec_aggregations(v, aggs, upto - 1, answers, next, requested) {
            Outcome::Done((fields, cells, n)) => match spec_one_aggregate(
                v,
                aggs[upto - 1],
                answers,
                n,
                requested,
            ) {
                Outcome::Done((f, c, n2)) => Outcome::Done((fields.push(f), cells.push(c), n2)),
                Outcome::Pending(t) => Outcome::Pending(t),
                Outcome::Failed(k) => Outcome::Failed(k),
            },
            Outcome::Pending(t) => Outcome::Pending(t),
            Outcome::Failed(k) => Outcome::Failed(k),
        }
    }
}

/// The aggregation stage: a batch of one row with one column per
/// aggregation. Fails with `InvalidInput` when the plan groups.
pub open spec fn spec_execute_aggregations(
    v: BatchView,
    plan: PlanView,
    answers: Seq<AnswerView>,
    next: int,
    requested: Backend,
) -> Outcome<BatchView> {
    if plan.group_by.len() > 0 {
        Outcome::Failed(ErrorKind::InvalidInput)
    } else {
        match spec_aggregations(
            v,
            plan.aggregations,
            plan.aggregations.len() as int,
            answers,
            next,
            requested,
        ) {
            Outcome::Done((fields, cells, _)) => Outcome::Done(
                BatchView {
                    fields,
                    columns: Seq::new(cells.len(), |i: int| seq![cells[i]]),
                    rows: 1,
                },
            ),
            Outcome::Pending(t) => Outcome::Pending(t),
            Outcome::Failed(k) => Outcome::Failed(k),
        }
    }
}

/// Once an aggregation has failed or is pending, the later ones do not
/// change the outcome.
pub proof fn lemma_aggregations_settle(
    v: BatchView,
    aggs: Seq<AggregationView>,
    upto: int,
    later: int,
    answers: Seq<AnswerView>,
    next: int,
    requested: Backend,
)
    requires
        0 <= upto <= later,
        !(spec_aggregations(v, aggs, upto, answers, next, requested) is Done),
    ensures
        spec_aggregations(v, aggs, later, answers, next, requested) == spec_aggregations(
            v,
            aggs,
            upto,
            answers,
            next,
            requested,
        ),
    decreases later - upto,
{
    if upto < later {
        lemma_aggregations_settle(v, aggs, upto, later - 1, answers, next, requested);
    }
}

fn sum_valid(column: &Column) -> (s: i64)
    requires
        column.wf(),
        spec_is_integer(column.spec_data_type()),
    ensures
        s == spec_fold_sum(column.cells()),
{
    let n = column.len();
    let ghost cells = column.cells();
    let mut acc: i64 = 0;
    let mut i: usize = 0;
    while i < n
        invariant
            column.wf(),
            spec_is_integer(column.spec_data_type()),
            n == column.spec_len(),
            cells == column.cells(),
            i <= n,
            acc == spec_fold_sum(cells.subrange(0, i as int)),
        decreases n - i,
    {
        assert(cells.subrange(0, i + 1).drop_last() =~= cells.subrange(0, i as int));
        assert(cells.subrange(0, i + 1).last() == column.spec_cell(i as int));
        if column.validity[i] {
            acc = acc.wrapping_add(int_at(column, i));
        }
        i += 1;
    }
    assert(cells.subrange(0, n as int) =~= cells);
    acc
}

fn min_valid(column: &Column) -> (m: Option<i64>)
    requires
        column.wf(),
        spec_is_integer(column.spec_data_type()),
    ensures
        match m {
            Some(v) => spec_fold_min(column.cells()) == Some(v as int),
            None => spec_fold_min(column.cells()) is None,
        },
{
    let n = column.len();
    let ghost cells = column.cells();
    let mut best: Option<i64> = None;
    let mut i: usize = 0;
    while i < n
        invariant
            column.wf(),
            spec_is_integer(column.spec_data_type()),
            n == column.spec_len(),
            cells == column.cells(),
            i <= n,
            match best {
                Some(v) => spec_fold_min(cells.subrange(0, i as int)) == Some(v as int),
                None => spec_fold_min(cells.subrange(0, i as int)) is None,
            },
        decreases n - i,
    {
        assert(cells.subrange(0, i + 1).drop_last() =~= cells.subrange(0, i as int));
        assert(cells.subrange(0, i + 1).last() == column.spec_cell(i as int));
        if column.validity[i] {
            let v = int_at(column, i);
            best = match best {
                Some(m) => if v < m {
                    Some(v)
                } else {
                    Some(m)
                },
                None => Some(v),
            };
        }
        i += 1;
    }
    assert(cells.subrange(0, n as int) =~= cells);
    best
}

fn max_valid(column: &Column) -> (m: Option<i64>)
    requires
        column.wf(),
        spec_is_integer(column.spec_data_type()),
    ensures
        match m {
            Some(v) => spec_fold_max(column.cells()) == Some(v as int),
            None => spec_fold_max(column.cells()) is None,
        },
{
    let n = column.len();
    let ghost cells = column.cells();
    let mut best: Option<i64> = None;
    let mut i: usize = 0;
    while i < n
        invariant
            column.wf(),
            spec_is_integer(column.spec_data_type()),
            n == column.spec_len(),
            cells == column.cells(),
            i <= n,
            match best {
                Some(v) => spec_fold_max(cells.subrange(0, i as int)) == Some(v as int),
                None => spec_fold_max(cells.subrange(0, i as int)) is None,
            },
        decreases n - i,
    {
        assert(cells.subrange(0, i + 1).drop_last() =~= cells.subrange(0, i as int));
        assert(cells.subrange(0, i + 1).last() == column.spec_cell(i as int));
        if column.validity[i] {
            let v = int_at(column, i);
            best = match best {
                Some(m) => if v > m {
                    Some(v)
                } else {
                    Some(m)
                },
                None => Some(v),
            };
        }
        i += 1;
    }
    assert(cells.subrange(0, n as int) =~= cells);
    best
}

/// The bit pattern at row `i` of a floating-point column.
fn bits_at(column: &Column, i: usize) -> (v: u64)
    requires
        column.wf(),
        i < column.spec_len(),
        spec_is_float(column.spec_data_type()),
    ensures
        column.data.spec_raw(i as int) == Cell::Int(v as int),
        column.spec_data_type() == DataType::Float32 ==> v <= u32::MAX,
{
    match &column.data {
        ColumnData::Float32(values) => values[i] as u64,
        ColumnData::Float64(values) => values[i],
        _ => 0,
    }
}

/// Whether the value of `a` is greater than the value of `b`.
pub fn float_greater(t: DataType, a: u64, b: u64) -> (r: bool)
    requires
        spec_is_float(t),
        t == DataType::Float32 ==> a <= u32::MAX && b <= u32::MAX,
    ensures
        r == spec_float_greater(t, a as int, b as int),
{
    let half: u64 = if t == DataType::Float32 {
        0x8000_0000
    } else {
        0x8000_0000_0000_0000
    };
    let top: u64 = if t == DataType::Float32 {
        0x7F80_0000
    } else {
        0x7FF0_0000_0000_0000
    };
    if a % half > top || b % half > top {
        return false;
    }
    let place_a: i128 = if a >= half {
        -((a - half) as i128)
    } else {
        a as i128
    };
    let place_b: i128 = if b >= half {
        -((b - half) as i128)
    } else {
        b as i128
    };
    place_a > place_b
}

fn float_min_valid(column: &Column) -> (m: Option<u64>)
    requires
        column.wf(),
        spec_is_float(column.spec_data_type()),
    ensures
        match m {
            Some(v) => spec_fold_float_min(column.spec_data_type(), column.cells()) == Some(
                v as int,
            ) && (column.spec_data_type() == DataType::Float32 ==> v <= u32::MAX),
            None => spec_fold_float_min(column.spec_data_type(), column.cells()) is None,
        },
{
    let n = column.len();
    let t = column.data_type();
    let ghost cells = column.cells();
    let mut best: Option<u64> = None;
    let mut i: usize = 0;
    while i < n
        invariant
            column.wf(),
            spec_is_float(column.spec_data_type()),
            t == column.spec_data_type(),
            n == column.spec_len(),
            cells == column.cells(),
            i <= n,
            match best {
                Some(v) => spec_fold_float_min(t, cells.subrange(0, i as int)) == Some(v as int)
                    && (t == DataType::Float32 ==> v <= u32::MAX),
                None => spec_fold_float_min(t, cells.subrange(0, i as int)) is None,
            },
        decreases n - i,
    {
        assert(cells.subrange(0, i + 1).drop_last() =~= cells.subrange(0, i as int));
        assert(cells.subrange(0, i + 1).last() == column.spec_cell(i as int));
        if column.validity[i] {
            let v = bits_at(column, i);
            best = match best {
                Some(m) => if float_greater(t, m, v) {
                    Some(v)
                } else {
                    Some(m)
                },
                None => Some(v),
            };
        }
        i += 1;
    }
    assert(cells.subrange(0, n as int) =~= cells);
    best
}

fn float_max_valid(column: &Column) -> (m: Option<u64>)
    requires
        column.wf(),
        spec_is_float(column.spec_data_type()),
    ensures
        match m {
            Some(v) => spec_fold_float_max(column.spec_data_type(), column.cells()) == Some(
                v as int,
            ) && (column.spec_data_type() == DataType::Float32 ==> v <= u32::MAX),
            None => spec_fold_float_max(column.spec_data_type(), column.cells()) is None,
        },
{
    let n = column.len();
    let t = column.data_type();
    let ghost cells = column.cells();
    let mut best: Option<u64> = None;
    let mut i: usize = 0;
    while i < n
        invariant
            column.wf(),
            spec_is_float(column.spec_data_type()),
            t == column.spec_data_type(),
            n == column.spec_len(),
            cells == column.cells(),
            i <= n,
            match best {
                Some(v) => spec_fold_float_max(t, cells.subrange(0, i as int)) == Some(v as int)
                    && (t == DataType::Float32 ==> v <= u32::MAX),
                None => spec_fold_float_max(t, cells.subrange(0, i as int)) is None,
            },
        decreases n - i,
    {
        assert(cells.subrange(0, i + 1).drop_last() =~= cells.subrange(0, i as int));
        assert(cells.subrange(0, i + 1).last() == column.spec_cell(i as int));
        if column.validity[i] {
            let v = bits_at(column, i);
            best = match best {
                Some(m) => if float_greater(t, m, v) {
                    Some(m)
                } else {
                    Some(v)
                },
                None => Some(v),
            };
        }
        i += 1;
    }
    assert(cells.subrange(0, n as int) =~= cells);
    best
}

/// The extremum of a column of a type is a value of that type.
proof fn lemma_fold_bounds(cells: Seq<Cell>, lo: int, hi: int)
    requires
        forall|i: int|
            0 <= i < cells.len() ==> (#[trigger] cells[i] matches Cell::Int(v) ==> lo <= v <= hi),
    ensures
        spec_fold_min(cells) matches Some(m) ==> lo <= m <= hi,
        spec_fold_max(cells) matches Some(m) ==> lo <= m <= hi,
    decreases cells.len(),
{
    if cells.len() > 0 {
        let front = cells.drop_last();
        assert forall|i: int| 0 <= i < front.len() implies (#[trigger] front[i] matches Cell::Int(v)
            ==> lo <= v <= hi) by {
            assert(front[i] == cells[i]);
        }
        lemma_fold_bounds(front, lo, hi);
        assert(cells.last() == cells[cells.len() - 1]);
    }
}

/// A column of one value of the given type, which is integer or floating
/// point.
fn single_value(t: DataType, value: i128) -> (c: Column)
    requires
        match t {
            DataType::Int32 => i32::MIN <= value <= i32::MAX,
            DataType::Int64 => i64::MIN <= value <= i64::MAX,
            DataType::Float32 => 0 <= value <= u32::MAX,
            DataType::Float64 => 0 <= value <= u64::MAX,
            _ => false,
        },
    ensures
        c.wf(),
        c.spec_len() == 1,
        c.spec_data_type() == t,
        c.cells() == seq![Cell::Int(value as int)],
{
    let data = match t {
        DataType::Int32 => {
            let mut v: Vec<i32> = Vec::new();
            v.push(value as i32);
            ColumnData::Int32(v)
        },
        DataType::Int64 => {
            let mut v: Vec<i64> = Vec::new();
            v.push(value as i64);
            ColumnData::Int64(v)
        },
        DataType::Float32 => {
            let mut v: Vec<u32> = Vec::new();
            v.push(value as u32);
            ColumnData::Float32(v)
        },
        _ => {
            let mut v: Vec<u64> = Vec::new();
            v.push(value as u64);
            ColumnData::Float64(v)
        },
    };
    let c = Column::new(data);
    assert(c.cells() =~= seq![Cell::Int(value as int)]);
    c
}

/// A column of one null of the 64-bit floating-point type.
fn single_null() -> (c: Column)
    ensures
        c.wf(),
        c.spec_len() == 1,
        c.spec_data_type() == DataType::Float64,
        c.cells() == seq![Cell::Null],
{
    let mut values: Vec<u64> = Vec::new();
    values.push(0);
    let mut validity: Vec<bool> = Vec::new();
    validity.push(false);
    let c = Column { data: ColumnData::Float64(values), validity };
    assert(c.cells() =~= seq![Cell::Null]);
    c
}

/// Whether a row of the column is valid.
fn any_valid(column: &Column) -> (r: bool)
    requires
        column.wf(),
    ensures
        r == spec_any_valid(column.cells()),
{
    let n = column.len();
    let mut i: usize = 0;
    while i < n
        invariant
            column.wf(),
            n == column.spec_len(),
            i <= n,
            forall|j: int| 0 <= j < i ==> #[trigger] column.cells()[j] is Null,
        decreases n - i,
    {
        if column.validity[i] {
            assert(!(column.cells()[i as int] is Null));
            return true;
        }
        i += 1;
    }
    false
}

/// The wrapping 32-bit sum of the valid rows of a 32-bit integer column.
fn sum_valid_i32(column: &Column) -> (s: i32)
    requires
        column.wf(),
        column.spec_data_type() == DataType::Int32,
    ensures
        s == crate::kernels::spec_sum_i32(spec_valid_i32(column.cells())),
{
    let n = column.len();
    let ghost cells = column.cells();
    let mut acc: i32 = 0;
    let mut i: usize = 0;
    while i < n
        invariant
            column.wf(),
            column.spec_data_type() == DataType::Int32,
            n == column.spec_len(),
            cells == column.cells(),
            i <= n,
            acc == crate::kernels::spec_sum_i32(spec_valid_i32(cells.subrange(0, i as int))),
        decreases n - i,
    {
        assert(cells.subrange(0, i + 1).drop_last() =~= cells.subrange(0, i as int));
        assert(cells.subrange(0, i + 1).last() == column.spec_cell(i as int));
        if column.validity[i] {
            let v = int_at(column, i);
            proof {
                let before = spec_valid_i32(cells.subrange(0, i as int));
                let now = spec_valid_i32(cells.subrange(0, i + 1));
                assert(now == before.push(v as i32));
                assert(now.drop_last() =~= before);
                assert(now.last() == v as i32);
            }
            acc = acc.wrapping_add(v as i32);
        }
        i += 1;
    }
    assert(cells.subrange(0, n as int) =~= cells);
    acc
}

/// The first value of a floating-point column that is no number.
fn first_nan_valid(column: &Column) -> (m: Option<u64>)
    requires
        column.wf(),
        spec_is_float(column.spec_data_type()),
    ensures
        match m {
            Some(v) => spec_first_nan(column.spec_data_type(), column.cells()) == Some(v as int)
                && (column.spec_data_type() == DataType::Float32 ==> v <= u32::MAX),
            None => spec_first_nan(column.spec_data_type(), column.cells()) is None,
        },
{
    let n = column.len();
    let t = column.data_type();
    let ghost cells = column.cells();
    let mut i: usize = 0;
    while i < n
        invariant
            column.wf(),
            spec_is_float(column.spec_data_type()),
            t == column.spec_data_type(),
            n == column.spec_len(),
            cells == column.cells(),
            i <= n,
            spec_first_nan(t, cells.subrange(0, i as int)) is None,
        decreases n - i,
    {
        assert(cells.subrange(0, i + 1).drop_last() =~= cells.subrange(0, i as int));
        assert(cells.subrange(0, i + 1).last() == column.spec_cell(i as int));
        if column.validity[i] {
            let v = bits_at(column, i);
            if float_is_nan(t, v) {
                proof {
                    lemma_first_nan_stays(t, cells, i + 1);
                }
                return Some(v);
            }
        }
        i += 1;
    }
    assert(cells.subrange(0, n as int) =~= cells);
    None
}

/// A value that is no number and stands first in a prefix of the cells
/// stands first in all of them.
proof fn lemma_first_nan_stays(t: DataType, cells: Seq<Cell>, upto: int)
    requires
        0 <= upto <= cells.len(),
        spec_first_nan(t, cells.subrange(0, upto)) is Some,
    ensures
        spec_first_nan(t, cells) == spec_first_nan(t, cells.subrange(0, upto)),
    decreases cells.len() - upto,
{
    if upto < cells.len() {
        assert(cells.subrange(0, upto + 1).drop_last() =~= cells.subrange(0, upto));
        lemma_first_nan_stays(t, cells, upto + 1);
    } else {
        assert(cells.subrange(0, upto) =~= cells);
    }
}

/// What `spec_first_nan` finds is no number, and it finds something
/// wherever a cell holds a value that is no number.
pub proof fn lemma_first_nan_is_nan(t: DataType, cells: Seq<Cell>, i: int)
    ensures
        spec_first_nan(t, cells) matches Some(n) ==> spec_is_nan(t, n),
        0 <= i < cells.len() && (cells[i] matches Cell::Int(v) && spec_is_nan(t, v))
            ==> spec_first_nan(t, cells) is Some,
    decreases cells.len(),
{
    if cells.len() > 0 {
        lemma_first_nan_is_nan(t, cells.drop_last(), i);
    }
}

/// NaN is handed on: where a valid cell of a floating-point column holds a
/// value that is no number, so is the least and so is the greatest of the
/// column.
pub proof fn lemma_extremum_hands_on_nan(t: DataType, cells: Seq<Cell>, greatest: bool, i: int)
    requires
        0 <= i < cells.len(),
        cells[i] matches Cell::Int(v) && spec_is_nan(t, v),
    ensures
        spec_is_nan(t, spec_float_extremum(t, cells, greatest)),
{
    lemma_first_nan_is_nan(t, cells, i);
}

/// The least or the greatest value of a floating-point column.
fn float_extremum(column: &Column, greatest: bool) -> (m: u64)
    requires
        column.wf(),
        spec_is_float(column.spec_data_type()),
    ensures
        m == spec_float_extremum(column.spec_data_type(), column.cells(), greatest),
        column.spec_data_type() == DataType::Float32 ==> m <= u32::MAX,
{
    match first_nan_valid(column) {
        Some(n) => n,
        None => {
            let found = if greatest {
                float_max_valid(column)
            } else {
                float_min_valid(column)
            };
            match found {
                Some(m) => m,
                None => 0,
            }
        },
    }
}

/// The backend on which an aggregate over `rows` values of `width` bytes
/// each runs: see [`spec_aggregate_backend`].
pub fn aggregate_backend(requested: Backend, rows: usize, width: usize) -> (b: Backend)
    ensures
        b == spec_aggregate_backend(requested, rows as nat, width as nat),
        b != Backend::CostBased,
{
    let bytes = crate::column::saturating_times(rows, width);
    BackendDispatcher::resolve(
        requested,
        bytes,
        BackendDispatcher::estimate_simple_aggregation_flops(rows),
    )
}

/// How the result of one aggregation reads as an outcome.
pub open spec fn spec_aggregate_outcome(r: Result<Step<(Field, Column, usize)>, Error>) -> Outcome<
    (FieldView, Cell, int),
> {
    match r {
        Ok(Step::Done((f, c, n))) => Outcome::Done((f@, c.cells()[0], n as int)),
        Ok(Step::Pending(t)) => Outcome::Pending(t@),
        Err(e) => Outcome::Failed(e.spec_kind()),
    }
}

/// One aggregation: see [`spec_one_aggregate`].
pub fn execute_single_aggregation(
    batch: &ColumnBatch,
    aggregation: &(AggregateFunction, String, Option<String>),
    answers: &Vec<FloatAnswer>,
    next: usize,
    requested: Backend,
) -> (r: Result<Step<(Field, Column, usize)>, Error>)
    requires
        batch.wf(),
        next <= answers@.len(),
    ensures
        spec_aggregate_outcome(r) == spec_one_aggregate(
            batch@,
            crate::query::spec_aggregation(*aggregation),
            spec_answers(answers@),
            next as int,
            requested,
        ),
        r matches Ok(Step::Done((f, c, n))) ==> c.wf() && c.spec_len() == 1 && c.spec_data_type()
            == f@.data_type && n <= answers@.len(),
{
    let function = aggregation.0;
    let column_name = &aggregation.1;
    let name = match &aggregation.2 {
        Some(alias) => alias.clone(),
        None => column_name.clone(),
    };
    proof {
        batch.lemma_wf_view();
    }
    let found = if *column_name == String::from_str("*") {
        if batch.num_columns() > 0 {
            Some(0usize)
        } else {
            None
        }
    } else {
        batch.schema().position(column_name)
    };
    let c = match found {
        Some(c) => c,
        None => {
            let mut msg = String::from_str("Column not found: ");
            msg.append(column_name.as_str());
            return Err(Error::InvalidInput(msg));
        },
    };
    let column = batch.column(c);
    let t = column.data_type();
    let integer = match t {
        DataType::Int32 | DataType::Int64 => true,
        DataType::Float32 | DataType::Float64 => false,
        _ => {
            return Err(
                Error::InvalidInput(String::from_str("Aggregation not supported for data type")),
            );
        },
    };
    proof {
        if integer {
            let range = spec_literal_range(t);
            lemma_fold_bounds(column.cells(), range.0, range.1);
        }
    }
    let decided: Option<(DataType, i128)> = match function {
        AggregateFunction::Count => {
            let rows = column.len();
            let count: i128 = if rows as u128 > i64::MAX as u128 {
                i64::MAX as i128
            } else {
                rows as i128
            };
            Some((DataType::Int64, count))
        },
        AggregateFunction::Sum => match t {
            DataType::Int32 => Some((DataType::Int64, sum_valid_i32(column) as i128)),
            DataType::Int64 => Some((DataType::Int64, sum_valid(column) as i128)),
            _ => None,
        },
        AggregateFunction::Min => if integer {
            Some(
                (
                    t,
                    match min_valid(column) {
                        Some(m) => m as i128,
                        None => 0,
                    },
                ),
            )
        } else {
            Some((t, float_extremum(column, false) as i128))
        },
        AggregateFunction::Max => if integer {
            Some(
                (
                    t,
                    match max_valid(column) {
                        Some(m) => m as i128,
                        None => 0,
                    },
                ),
            )
        } else {
            Some((t, float_extremum(column, true) as i128))
        },
        AggregateFunction::Avg => None,
    };
    match decided {
        Some((rt, value)) => {
            let field = Field { name, data_type: rt, nullable: false };
            Ok(Step::Done((field, single_value(rt, value), next)))
        },
        None => {
            if function == AggregateFunction::Avg && !any_valid(column) {
                let field = Field { name, data_type: DataType::Float64, nullable: true };
                return Ok(Step::Done((field, single_null(), next)));
            }
            if next >= answers.len() {
                let width: usize = match t {
                    DataType::Int32 | DataType::Float32 => 4,
                    _ => 8,
                };
                return Ok(
                    Step::Pending(
                        FloatTask::Aggregate {
                            function,
                            column: column.duplicate(),
                            backend: aggregate_backend(requested, column.len(), width),
                        },
                    ),
                );
            }
            assert(spec_answers(answers@)[next as int] == answers@[next as int]@);
            let rt = match function {
                AggregateFunction::Avg => DataType::Float64,
                _ => t,
            };
            match &answers[next] {
                FloatAnswer::Value(bits) => {
                    if rt == DataType::Float32 && *bits > u32::MAX as u64 {
                        return Err(
                            Error::Other(
                                String::from_str("the answer does not fit a 32-bit value"),
                            ),
                        );
                    }
                    let field = Field { name, data_type: rt, nullable: false };
                    Ok(Step::Done((field, single_value(rt, *bits as i128), next + 1)))
                },
                _ => Err(
                    Error::Other(
                        String::from_str("an aggregate task was answered with something else"),
                    ),
                ),
            }
        },
    }
}

/// The aggregation stage: see [`spec_execute_aggregations`].
pub fn execute_aggregations(
    batch: &ColumnBatch,
    plan: &QueryPlan,
    answers: &Vec<FloatAnswer>,
    next: usize,
    requested: Backend,
) -> (r: Result<Step<ColumnBatch>, Error>)
    requires
        batch.wf(),
        next <= answers@.len(),
        plan.aggregations@.len() > 0,
    ensures
        spec_batch_outcome(r) == spec_execute_aggregations(
            batch@,
            plan@,
            spec_answers(answers@),
            next as int,
            requested,
        ),
        r matches Ok(Step::Done(b)) ==> b.wf(),
{
    if plan.group_by.len() > 0 {
        return Err(
            Error::InvalidInput(
                String::from_str("GROUP BY aggregations not yet implemented"),
            ),
        );
    }
    let n = plan.aggregations.len();
    let ghost aggs = plan@.aggregations;
    let ghost ans = spec_answers(answers@);
    let mut fields: Vec<Field> = Vec::with_capacity(n);
    let mut columns: Vec<Column> = Vec::with_capacity(n);
    let mut cursor = next;
    let ghost mut result_fields: Seq<FieldView> = Seq::empty();
    let ghost mut result_cells: Seq<Cell> = Seq::empty();
    let mut i: usize = 0;
    while i < n
        invariant
            batch.wf(),
            n == plan.aggregations@.len(),
            aggs == plan@.aggregations,
            ans == spec_answers(answers@),
            plan.group_by@.len() == 0,
            i <= n,
            cursor <= answers@.len(),
            fields@.len() == i,
            columns@.len() == i,
            result_fields.len() == i,
            result_cells.len() == i,
            forall|k: int| 0 <= k < i ==> (#[trigger] fields@[k])@ == result_fields[k],
            forall|k: int|
                0 <= k < i ==> {
                    &&& (#[trigger] columns@[k]).wf()
                    &&& columns@[k].spec_len() == 1
                    &&& columns@[k].spec_data_type() == result_fields[k].data_type
                    &&& columns@[k].cells()[0] == result_cells[k]
                },
            spec_aggregations(batch@, aggs, i as int, ans, next as int, requested) == Outcome::Done(
                (result_fields, result_cells, cursor as int),
            ),
        decreases n - i,
    {
        assert(aggs[i as int] == crate::query::spec_aggregation(plan.aggregations@[i as int]));
        let step = execute_single_aggregation(
            batch,
            &plan.aggregations[i],
            answers,
            cursor,
            requested,
        );
        proof {
            assert(spec_aggregate_outcome(step) == spec_one_aggregate(
                batch@,
                aggs[i as int],
                ans,
                cursor as int,
                requested,
            ));
            if !(step matches Ok(Step::Done(_))) {
                assert(!(spec_aggregations(batch@, aggs, i + 1, ans, next as int, requested) is Done));
                lemma_aggregations_settle(
                    batch@,
                    aggs,
                    i + 1,
                    n as int,
                    ans,
                    next as int,
                    requested,
                );
            }
        }
        match step {
            Ok(Step::Done((f, c, n2))) => {
                proof {
                    result_fields = result_fields.push(f@);
                    result_cells = result_cells.push(c.cells()[0]);
                }
                fields.push(f);
                columns.push(c);
                cursor = n2;
            },
            Ok(Step::Pending(t)) => {
                return Ok(Step::Pending(t));
            },
            Err(e) => {
                return Err(e);
            },
        }
        i += 1;
    }
    let schema = Schema::new(fields);
    assert(schema@ =~= result_fields);
    proof {
        assert forall|k: int| 0 <= k < columns@.len() implies {
            &&& (#[trigger] columns@[k]).wf()
            &&& columns@[k].spec_len() == columns@[0].spec_len()
            &&& columns@[k].spec_data_type() == schema@[k].data_type
        } by {}
    }
    match ColumnBatch::try_new(schema, columns) {
        Ok(b) => {
            proof {
                assert forall|k: int| 0 <= k < n implies #[trigger] b@.columns[k] == seq![
                    result_cells[k],
                ] by {
                    assert(columns@[k].cells() =~= seq![columns@[k].cells()[0]]);
                }
                assert(b@.columns =~= Seq::new(result_cells.len(), |i: int| seq![result_cells[i]]));
            }
            Ok(Step::Done(b))
        },
        Err(e) => Err(e),
    }
}

/// The positions of the first `upto` names among the fields, if every one
/// of them names a field.
pub open spec fn spec_positions(fields: Seq<FieldView>, names: Seq<Seq<char>>, upto: int) -> Option<
    Seq<usize>,
>
    decreases upto,
{
    if upto <= 0 {
        Some(Seq::empty())
    } else {
        match spec_positions(fields, names, upto - 1) {
            None => None,
            Some(found) => match spec_position(fields, names[upto - 1]) {
                None => None,
                Some(c) => Some(found.push(c as usize)),
            },
        }
    }
}

/// Once a name is unknown, the later ones do not change that.
pub proof fn lemma_positions_settle(
    fields: Seq<FieldView>,
    names: Seq<Seq<char>>,
    upto: int,
    later: int,
)
    requires
        0 <= upto <= later,
        spec_positions(fields, names, upto) is None,
    ensures
        spec_positions(fields, names, later) is None,
    decreases later - upto,
{
    if upto < later {
        lemma_positions_settle(fields, names, upto, later - 1);
    }
}

/// The projection stage: the batch itself for a single `*`, and else the
/// named columns in the order of the names. Fails with `InvalidInput` on an
/// unknown column and with `StorageError` when no column is named.
pub open spec fn spec_project(v: BatchView, columns: Seq<Seq<char>>) -> Outcome<BatchView> {
    if columns.len() == 1 && columns[0] == "*"@ {
        Outcome::Done(v)
    } else {
        match spec_positions(v.fields, columns, columns.len() as int) {
            None => Outcome::Failed(ErrorKind::InvalidInput),
            Some(idx) => if idx.len() == 0 {
                Outcome::Failed(ErrorKind::StorageError)
            } else {
                Outcome::Done(v.project(idx))
            },
        }
    }
}

/// The direction of Top-K selection for a direction of ORDER BY.
pub open spec fn spec_sort_order(d: OrderDirection) -> SortOrder {
    match d {
        OrderDirection::Asc => SortOrder::Ascending,
        OrderDirection::Desc => SortOrder::Descending,
    }
}

/// The last stage. With an ORDER BY, Top-K selection by its first column,
/// of as many rows as the LIMIT says or else of all; it fails with
/// `InvalidInput` on an unknown column and where Top-K selection fails.
/// Without one, the first rows up to the LIMIT, or the batch as it is.
pub open spec fn spec_order_limit(v: BatchView, plan: PlanView) -> Outcome<BatchView> {
    if plan.order_by.len() > 0 {
        match spec_position(v.fields, plan.order_by[0].0) {
            None => Outcome::Failed(ErrorKind::InvalidInput),
            Some(c) => {
                let k = match plan.limit {
                    Some(l) => l,
                    None => v.rows as usize,
                };
                match spec_top_k_batch(v, c as usize, k, spec_sort_order(plan.order_by[0].1)) {
                    Some(b) => Outcome::Done(b),
                    None => Outcome::Failed(ErrorKind::InvalidInput),
                }
            },
        }
    } else {
        match plan.limit {
            Some(l) => Outcome::Done(
                v.slice(
                    0,
                    if l < v.rows {
                        l as nat
                    } else {
                        v.rows
                    },
                ),
            ),
            None => Outcome::Done(v),
        }
    }
}

/// The whole pipeline over the batches of a store. An empty store fails
/// with `InvalidInput`. Otherwise the batches are laid end to end; the
/// filter, if any, is applied; the plan's aggregations are computed, each
/// routed to the backend that the requested strategy resolves to for its
/// column, or if the plan has none its columns are projected; and the
/// result is ordered and limited. The first stage that fails or is pending
/// decides.
pub open spec fn spec_execute(
    store: Seq<BatchView>,
    plan: PlanView,
    answers: Seq<AnswerView>,
    requested: Backend,
) -> Outcome<BatchView> {
    if store.len() == 0 {
        Outcome::Failed(ErrorKind::InvalidInput)
    } else {
        let combined = spec_concat_all(store);
        let filtered = match plan.filter {
            Some(expr) => spec_apply_filter(combined, expr, answers, 0),
            None => Outcome::Done((combined, 0)),
        };
        match filtered {
            Outcome::Done((kept, next)) => {
                let result = if plan.aggregations.len() == 0 {
                    spec_project(kept, plan.columns)
                } else {
                    spec_execute_aggregations(kept, plan, answers, next, requested)
                };
                match result {
                    Outcome::Done(r) => spec_order_limit(r, plan),
                    Outcome::Pending(t) => Outcome::Pending(t),
                    Outcome::Failed(k) => Outcome::Failed(k),
                }
            },
            Outcome::Pending(t) => Outcome::Pending(t),
            Outcome::Failed(k) => Outcome::Failed(k),
        }
    }
}

/// A filter on a column that the batch does not have fails with
/// `InvalidInput`.
pub proof fn lemma_filter_unknown_column(
    v: BatchView,
    expr: Seq<char>,
    answers: Seq<AnswerView>,
    next: int,
)
    requires
        spec_words(expr).len() >= 3,
        spec_position(v.fields, spec_words(expr)[0]) is None,
    ensures
        spec_apply_filter(v, expr, answers, next) == Outcome::<(BatchView, int)>::Failed(
            ErrorKind::InvalidInput,
        ),
{
}

/// A projection of a column that the batch does not have fails with
/// `InvalidInput`.
pub proof fn lemma_project_unknown_column(v: BatchView, columns: Seq<Seq<char>>, i: int)
    requires
        0 <= i < columns.len(),
        spec_position(v.fields, columns[i]) is None,
        !(columns.len() == 1 && columns[0] == "*"@),
    ensures
        spec_project(v, columns) == Outcome::<BatchView>::Failed(ErrorKind::InvalidInput),
{
    assert(spec_positions(v.fields, columns, i + 1) is None);
    lemma_positions_settle(v.fields, columns, i + 1, columns.len() as int);
}

/// An ORDER BY on a column that the batch does not have fails with
/// `InvalidInput`.
pub proof fn lemma_order_by_unknown_column(v: BatchView, plan: PlanView)
    requires
        plan.order_by.len() > 0,
        spec_position(v.fields, plan.order_by[0].0) is None,
    ensures
        spec_order_limit(v, plan) == Outcome::<BatchView>::Failed(ErrorKind::InvalidInput),
{
}

/// An aggregation over a column that the batch does not have fails with
/// `InvalidInput`.
pub proof fn lemma_aggregate_unknown_column(
    v: BatchView,
    a: AggregationView,
    answers: Seq<AnswerView>,
    next: int,
    requested: Backend,
)
    requires
        spec_aggregate_position(v.fields, a.column) is None,
    ensures
        spec_one_aggregate(v, a, answers, next, requested) == Outcome::<
            (FieldView, Cell, int),
        >::Failed(
            ErrorKind::InvalidInput,
        ),
{
}

/// The projection stage: see [`spec_project`].
pub fn project_columns(batch: &ColumnBatch, columns: &Vec<String>) -> (r: Result<ColumnBatch, Error>)
    requires
        batch.wf(),
    ensures
        spec_batch_outcome(
            match r {
                Ok(b) => Ok(Step::Done(b)),
                Err(e) => Err(e),
            },
        ) == spec_project(batch@, spec_texts(columns@)),
        r matches Ok(b) ==> b.wf(),
{
    let ghost names = spec_texts(columns@);
    if columns.len() == 1 {
        assert(names[0] == columns@[0]@);
        if columns[0] == String::from_str("*") {
            return Ok(batch.duplicate());
        }
    }
    proof {
        batch.lemma_wf_view();
    }
    let n = columns.len();
    let mut idx: Vec<usize> = Vec::with_capacity(n);
    let mut i: usize = 0;
    while i < n
        invariant
            batch.wf(),
            batch@.wf(),
            n == columns@.len(),
            names == spec_texts(columns@),
            !(names.len() == 1 && names[0] == "*"@),
            i <= n,
            spec_positions(batch@.fields, names, i as int) == Some(idx@),
            crate::column::spec_indices_below(idx@, batch@.columns.len()),
            idx@.len() == i,
        decreases n - i,
    {
        assert(names[i as int] == columns@[i as int]@);
        match batch.schema().position(&columns[i]) {
            Some(c) => {
                idx.push(c);
            },
            None => {
                proof {
                    assert(spec_position(batch@.fields, names[i as int]) is None);
                    assert(spec_positions(batch@.fields, names, i + 1) is None);
                    lemma_positions_settle(batch@.fields, names, i + 1, n as int);
                    assert(names.len() == n);
                    assert(!(names.len() == 1 && names[0] == "*"@));
                }
                let mut msg = String::from_str("Column not found: ");
                msg.append(columns[i].as_str());
                return Err(Error::InvalidInput(msg));
            },
        }
        i += 1;
    }
    if idx.len() == 0 {
        return Err(
            Error::StorageError(
                String::from_str("Failed to project columns: a batch needs at least one column"),
            ),
        );
    }
    Ok(batch.project(&idx))
}

/// The last stage: see [`spec_order_limit`].
pub fn apply_order_by_limit(batch: ColumnBatch, plan: &QueryPlan) -> (r: Result<ColumnBatch, Error>)
    requires
        batch.wf(),
    ensures
        spec_batch_outcome(
            match r {
                Ok(b) => Ok(Step::Done(b)),
                Err(e) => Err(e),
            },
        ) == spec_order_limit(batch@, plan@),
        r matches Ok(b) ==> b.wf(),
{
    if plan.order_by.len() > 0 {
        let first = &plan.order_by[0];
        assert(plan@.order_by[0] == (first.0@, first.1));
        let c = match batch.schema().position(&first.0) {
            Some(c) => c,
            None => {
                let mut msg = String::from_str("Column not found: ");
                msg.append(first.0.as_str());
                return Err(Error::InvalidInput(msg));
            },
        };
        let order = match first.1 {
            OrderDirection::Asc => SortOrder::Ascending,
            OrderDirection::Desc => SortOrder::Descending,
        };
        let k = match plan.limit {
            Some(l) => l,
            None => batch.num_rows(),
        };
        batch.top_k(c, k, order)
    } else {
        match plan.limit {
            Some(l) => {
                let rows = batch.num_rows();
                let keep = if l < rows {
                    l
                } else {
                    rows
                };
                Ok(batch.slice(0, keep))
            },
            None => Ok(batch),
        }
    }
}

/// Runs query plans over a store.
#[derive(Debug, Clone, Copy)]
pub struct QueryExecutor {
    backend: Backend,
}

impl QueryExecutor {
    /// The backend strategy of this executor.
    pub closed spec fn spec_backend(&self) -> Backend {
        self.backend
    }

    /// An executor that chooses the backend of each operation by cost.
    pub fn new() -> (e: QueryExecutor)
        ensures
            e.spec_backend() == Backend::CostBased,
    {
        QueryExecutor { backend: Backend::CostBased }
    }

    /// An executor with the given backend strategy.
    pub fn with_backend(backend: Backend) -> (e: QueryExecutor)
        ensures
            e.spec_backend() == backend,
    {
        QueryExecutor { backend }
    }

    /// The backend strategy.
    pub fn backend(&self) -> (b: Backend)
        ensures
            b == self.spec_backend(),
    {
        self.backend
    }

    /// The backend on which this executor runs an aggregate over `rows`
    /// values of `width` bytes each: see [`spec_aggregate_backend`].
    pub fn aggregate_backend(&self, rows: usize, width: usize) -> (b: Backend)
        ensures
            b == spec_aggregate_backend(self.spec_backend(), rows as nat, width as nat),
            b != Backend::CostBased,
    {
        aggregate_backend(self.backend, rows, width)
    }

    /// Executes a plan over a store, given the answers to the tasks raised
    /// so far: see [`spec_execute`]. Returns the result batch, or the next
    /// task to answer.
    pub fn execute(&self, plan: &QueryPlan, storage: &StorageEngine, answers: &Vec<FloatAnswer>) -> (r:
        Result<Step<ColumnBatch>, Error>)
        requires
            storage.wf(),
        ensures
            spec_batch_outcome(r) == spec_execute(
                storage@,
                plan@,
                spec_answers(answers@),
                self.spec_backend(),
            ),
            r matches Ok(Step::Done(b)) ==> b.wf(),
    {
        proof {
            storage.lemma_wf();
        }
        let batches = storage.batches();
        if batches.len() == 0 {
            return Err(Error::InvalidInput(String::from_str("No data in storage")));
        }
        let combined = concat_batches(batches);
        let (kept, next) = match &plan.filter {
            Some(expr) => match apply_filter(&combined, expr, answers, 0) {
                Ok(Step::Done((kept, next))) => (kept, next),
                Ok(Step::Pending(t)) => {
                    return Ok(Step::Pending(t));
                },
                Err(e) => {
                    return Err(e);
                },
            },
            None => (combined, 0),
        };
        let result = if plan.aggregations.len() == 0 {
            match project_columns(&kept, &plan.columns) {
                Ok(b) => b,
                Err(e) => {
                    return Err(e);
                },
            }
        } else {
            match execute_aggregations(&kept, plan, answers, next, self.backend) {
                Ok(Step::Done(b)) => b,
                Ok(Step::Pending(t)) => {
                    return Ok(Step::Pending(t));
                },
                Err(e) => {
                    return Err(e);
                },
            }
        };
        match apply_order_by_limit(result, plan) {
            Ok(b) => Ok(Step::Done(b)),
            Err(e) => Err(e),
        }
    }
}

impl Default for QueryExecutor {
    fn default() -> (e: QueryExecutor)
        ensures
            e.spec_backend() == Backend::CostBased,
    {
        QueryExecutor::new()
    }
}

} // verus!
