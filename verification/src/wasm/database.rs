//! Tables by name: loading rows of JSON, querying, and reading results
//! back as rows.
//!
//! JSON text is read and written by the caller. Here a JSON value is what
//! the reader found: its kind and, for a number, how it can be read.

use vstd::prelude::*;
use vstd::string::*;
use crate::batch::{spec_parts_fit, spec_parts_view, BatchView, ColumnBatch};
use crate::column::{Cell, Column, ColumnData};
use crate::error::{Error, ErrorKind};
use crate::kernels::spec_wrap32;
use crate::query::executor::{
    spec_answers, spec_batch_outcome, spec_execute, FloatAnswer, Outcome, QueryExecutor, Step,
};
use crate::query::{spec_parse, QueryEngine, QueryPlan};
use crate::schema::{DataType, Field, FieldView, Schema};
use crate::storage::StorageEngine;
use crate::wasm::DatabaseConfig;

verus! {

/// A JSON number, as it can be read.
#[derive(Debug, Clone, Copy, PartialEq, Eq, Structural)]
pub struct JsonNumber {
    /// The number as a signed 64-bit integer, if it is one.
    pub integer: Option<i64>,
    /// The bit pattern of the number as a 64-bit floating-point value, if
    /// it can be read as one.
    pub float_bits: Option<u64>,
    /// Whether the number is written with a fraction or an exponent.
    pub is_float: bool,
}

/// A JSON value.
#[derive(Debug, Clone)]
pub enum JsonValue {
    Null,
    Bool(bool),
    Number(JsonNumber),
    Text(String),
    /// An array or an object, as text.
    Other(String),
}

/// A record of a JSON array: the members of an object in the order of the
/// reader, or `None` for a value that is no object.
pub type JsonRecord = Option<Vec<(String, JsonValue)>>;

/// The type of the column that holds values like this one: 64-bit
/// floating point for a number with a fraction or an exponent, 32-bit
/// integer for any other number, boolean for a boolean, and text for the
/// rest.
pub open spec fn spec_infer_type(v: JsonValue) -> DataType {
    match v {
        JsonValue::Number(n) => if n.is_float {
            DataType::Float64
        } else {
            DataType::Int32
        },
        JsonValue::Text(_) => DataType::Utf8,
        JsonValue::Bool(_) => DataType::Boolean,
        _ => DataType::Utf8,
    }
}

/// The member of a record with the given key, if the record is an object
/// that has one.
pub open spec fn spec_member(record: JsonRecord, key: Seq<char>) -> Option<JsonValue> {
    match record {
        Some(members) => spec_member_of(members@, key),
        None => None,
    }
}

/// The first of the members with the given key.
pub open spec fn spec_member_of(members: Seq<(String, JsonValue)>, key: Seq<char>) -> Option<
    JsonValue,
>
    decreases members.len(),
{
    if members.len() == 0 {
        None
    } else if members[0].0@ == key {
        Some(members[0].1)
    } else {
        spec_member_of(members.subrange(1, members.len() as int), key)
    }
}

/// The cell of a column of type `t` for a member of a record. An integer
/// column takes a number that is an integer, reduced to 32 bits; a
/// floating-point column takes a number that can be read as one; a text
/// column takes a text. Everything else, and a missing member, is null.
pub open spec fn spec_json_cell(t: DataType, member: Option<JsonValue>) -> Cell {
    match (t, member) {
        (DataType::Int32, Some(JsonValue::Number(n))) => match n.integer {
            Some(i) => Cell::Int(spec_wrap32(i as int)),
            None => Cell::Null,
        },
        (DataType::Float64, Some(JsonValue::Number(n))) => match n.float_bits {
            Some(bits) => Cell::Int(bits as int),
            None => Cell::Null,
        },
        (DataType::Utf8, Some(JsonValue::Text(s))) => Cell::Text(s@),
        _ => Cell::Null,
    }
}

/// The batch of an array of records. The first record gives the fields:
/// one per member, nullable, of the type inferred from the value. Every
/// record gives one row. Nothing where the array is empty, where the first
/// record is no object or has no member, or where a field is boolean,
/// which has no column yet.
pub open spec fn spec_json_batch(records: Seq<JsonRecord>) -> Option<BatchView> {
    if records.len() == 0 {
        None
    } else {
        match records[0] {
            None => None,
            Some(first) => if first@.len() == 0 || exists|c: int|
                0 <= c < first@.len() && spec_infer_type(#[trigger] first@[c].1) == DataType::Boolean {
                None
            } else {
                Some(
                    BatchView {
                        fields: Seq::new(
                            first@.len(),
                            |c: int|
                                FieldView {
                                    name: first@[c].0@,
                                    data_type: spec_infer_type(first@[c].1),
                                    nullable: true,
                                },
                        ),
                        columns: Seq::new(
                            first@.len(),
                            |c: int|
                                Seq::new(
                                    records.len(),
                                    |i: int|
                                        spec_json_cell(
                                            spec_infer_type(first@[c].1),
                                            spec_member(records[i], first@[c].0@),
                                        ),
                                ),
                        ),
                        rows: records.len(),
                    },
                )
            },
        }
    }
}

/// The type of the column that holds values like this one.
pub fn infer_type(v: &JsonValue) -> (t: DataType)
    ensures
        t == spec_infer_type(*v),
{
    match v {
        JsonValue::Number(n) => if n.is_float {
            DataType::Float64
        } else {
            DataType::Int32
        },
        JsonValue::Text(_) => DataType::Utf8,
        JsonValue::Bool(_) => DataType::Boolean,
        _ => DataType::Utf8,
    }
}

/// The member of a record with the given key.
pub fn member<'a>(record: &'a JsonRecord, key: &String) -> (r: Option<&'a JsonValue>)
    ensures
        match r {
            Some(v) => spec_member(*record, key@) == Some(*v),
            None => spec_member(*record, key@) is None,
        },
{
    let members = match record {
        Some(m) => m,
        None => {
            return None;
        },
    };
    let n = members.len();
    let mut i: usize = 0;
    assert(members@.subrange(0, n as int) =~= members@);
    while i < n
        invariant
            n == members@.len(),
            *record == Some(*members),
            i <= n,
            spec_member_of(members@, key@) == spec_member_of(
                members@.subrange(i as int, n as int),
                key@,
            ),
        decreases n - i,
    {
        let ghost rest = members@.subrange(i as int, n as int);
        assert(rest[0] == members@[i as int]);
        assert(rest.subrange(1, rest.len() as int) =~= members@.subrange(i + 1, n as int));
        if members[i].0 == *key {
            assert(spec_member_of(rest, key@) == Some(members@[i as int].1));
            return Some(&members[i].1);
        }
        i += 1;
    }
    None
}

/// A 64-bit integer reduced to 32 bits.
pub fn wrap_to_i32(v: i64) -> (r: i32)
    ensures
        r == spec_wrap32(v as int),
{
    let shifted: i128 = v as i128 + 0x8000_0000i128 + 0x1_0000_0000_0000_0000i128;
    let m: i128 = shifted % 0x1_0000_0000i128;
    assert(m == (v as int + 0x8000_0000) % 0x1_0000_0000) by (nonlinear_arith)
        requires
            shifted == v as int + 0x8000_0000 + 0x1_0000_0000_0000_0000int,
            m == shifted % 0x1_0000_0000,
    ;
    (m - 0x8000_0000i128) as i32
}

/// The column of a field of type `t`, which is not boolean, from the
/// members of the records under the key of the field.
fn json_column(records: &Vec<JsonRecord>, key: &String, t: DataType) -> (c: Column)
    requires
        t != DataType::Boolean,
        t == DataType::Int32 || t == DataType::Float64 || t == DataType::Utf8,
    ensures
        c.wf(),
        c.spec_data_type() == t,
        c.spec_len() == records@.len(),
        c.cells() == Seq::new(
            records@.len(),
            |i: int| spec_json_cell(t, spec_member(records@[i], key@)),
        ),
{
    let n = records.len();
    let mut validity: Vec<bool> = Vec::with_capacity(n);
    let mut ints: Vec<i32> = Vec::new();
    let mut floats: Vec<u64> = Vec::new();
    let mut texts: Vec<String> = Vec::new();
    let mut i: usize = 0;
    while i < n
        invariant
            n == records@.len(),
            t == DataType::Int32 || t == DataType::Float64 || t == DataType::Utf8,
            i <= n,
            validity@.len() == i,
            t == DataType::Int32 ==> ints@.len() == i,
            t == DataType::Float64 ==> floats@.len() == i,
            t == DataType::Utf8 ==> texts@.len() == i,
            forall|j: int|
                0 <= j < i ==> {
                    let cell = spec_json_cell(t, spec_member(records@[j], key@));
                    &&& (#[trigger] validity@[j]) == !(cell is Null)
                    &&& validity@[j] && t == DataType::Int32 ==> cell == Cell::Int(ints@[j] as int)
                    &&& validity@[j] && t == DataType::Float64 ==> cell == Cell::Int(
                        floats@[j] as int,
                    )
                    &&& validity@[j] && t == DataType::Utf8 ==> cell == Cell::Text(texts@[j]@)
                },
        decreases n - i,
    {
        let found = member(&records[i], key);
        match t {
            DataType::Int32 => {
                let value = match found {
                    Some(JsonValue::Number(number)) => match number.integer {
                        Some(v) => Some(wrap_to_i32(v)),
                        None => None,
                    },
                    _ => None,
                };
                match value {
                    Some(v) => {
                        ints.push(v);
                        validity.push(true);
                    },
                    None => {
                        ints.push(0);
                        validity.push(false);
                    },
                }
            },
            DataType::Float64 => {
                let value = match found {
                    Some(JsonValue::Number(number)) => number.float_bits,
                    _ => None,
                };
                match value {
                    Some(v) => {
                        floats.push(v);
                        validity.push(true);
                    },
                    None => {
                        floats.push(0);
                        validity.push(false);
                    },
                }
            },
            _ => {
                match found {
                    Some(JsonValue::Text(s)) => {
                        texts.push(s.clone());
                        validity.push(true);
                    },
                    _ => {
                        texts.push(String::new());
                        validity.push(false);
                    },
                }
            },
        }
        i += 1;
    }
    let data = match t {
        DataType::Int32 => ColumnData::Int32(ints),
        DataType::Float64 => ColumnData::Float64(floats),
        _ => ColumnData::Utf8(texts),
    };
    let c = Column { data, validity };
    assert(c.cells() =~= Seq::new(
        records@.len(),
        |i: int| spec_json_cell(t, spec_member(records@[i], key@)),
    ));
    c
}

/// Makes the batch of an array of records: see [`spec_json_batch`]. Fails
/// with `InvalidInput` where there is none.
pub fn batch_from_json(records: &Vec<JsonRecord>) -> (r: Result<ColumnBatch, Error>)
    ensures
        match r {
            Ok(b) => b.wf() && spec_json_batch(records@) == Some(b@),
            Err(e) => spec_json_batch(records@) is None && e.spec_kind() == ErrorKind::InvalidInput,
        },
{
    if records.len() == 0 {
        return Err(Error::InvalidInput(String::from_str("Empty JSON array")));
    }
    let first = match &records[0] {
        Some(first) => first,
        None => {
            return Err(Error::InvalidInput(String::from_str("Expected array of objects")));
        },
    };
    let n = first.len();
    if n == 0 {
        return Err(Error::InvalidInput(String::from_str("Failed to create batch: no column")));
    }
    let mut fields: Vec<Field> = Vec::with_capacity(n);
    let mut columns: Vec<Column> = Vec::with_capacity(n);
    let mut c: usize = 0;
    while c < n
        invariant
            n == first@.len(),
            records@.len() > 0,
            records@[0] == Some(*first),
            c <= n,
            fields@.len() == c,
            columns@.len() == c,
            forall|k: int| 0 <= k < c ==> spec_infer_type(#[trigger] first@[k].1) != DataType::Boolean,
            forall|k: int|
                0 <= k < c ==> (#[trigger] fields@[k])@ == (FieldView {
                    name: first@[k].0@,
                    data_type: spec_infer_type(first@[k].1),
                    nullable: true,
                }),
            forall|k: int|
                0 <= k < c ==> {
                    &&& (#[trigger] columns@[k]).wf()
                    &&& columns@[k].spec_len() == records@.len()
                    &&& columns@[k].spec_data_type() == spec_infer_type(first@[k].1)
                    &&& columns@[k].cells() == Seq::new(
                        records@.len(),
                        |i: int|
                            spec_json_cell(
                                spec_infer_type(first@[k].1),
                                spec_member(records@[i], first@[k].0@),
                            ),
                    )
                },
        decreases n - c,
    {
        let key = &first[c].0;
        let t = infer_type(&first[c].1);
        match t {
            DataType::Int32 | DataType::Float64 | DataType::Utf8 => {},
            _ => {
                assert(spec_infer_type(first@[c as int].1) == DataType::Boolean);
                return Err(
                    Error::InvalidInput(
                        String::from_str(
                            "Failed to create batch: column types must match schema types",
                        ),
                    ),
                );
            },
        }
        fields.push(Field { name: key.clone(), data_type: t, nullable: true });
        columns.push(json_column(records, key, t));
        c += 1;
    }
    let schema = Schema::new(fields);
    proof {
        assert(spec_parts_fit(schema@, columns@));
        let want = spec_json_batch(records@)->Some_0;
        assert(spec_parts_view(schema@, columns@).fields =~= want.fields);
        assert(spec_parts_view(schema@, columns@).columns =~= want.columns);
    }
    match ColumnBatch::try_new(schema, columns) {
        Ok(b) => Ok(b),
        Err(e) => Err(Error::InvalidInput(String::from_str("Failed to create batch"))),
    }
}

/// A cell of a result, for a JSON writer.
#[derive(Debug, Clone)]
pub enum JsonCell {
    Null,
    Int(i64),
    /// The bit pattern of a 32-bit floating-point value.
    Float32(u32),
    /// The bit pattern of a 64-bit floating-point value.
    Float64(u64),
    Text(String),
    /// A type that has no JSON form yet.
    Unsupported,
}

/// The JSON form of a cell of a type.
pub open spec fn spec_json_of(t: DataType, cell: Cell) -> JsonCellView {
    match cell {
        Cell::Null => JsonCellView::Null,
        Cell::Int(v) => match t {
            DataType::Int32 => JsonCellView::Int(v),
            DataType::Int64 => JsonCellView::Int(v),
            DataType::Float32 => JsonCellView::Float32(v),
            DataType::Float64 => JsonCellView::Float64(v),
            _ => JsonCellView::Unsupported,
        },
        Cell::Text(s) => if t == DataType::Utf8 {
            JsonCellView::Text(s)
        } else {
            JsonCellView::Unsupported
        },
        Cell::Bool(_) => JsonCellView::Unsupported,
    }
}

/// A cell of a result as contracts see it.
pub enum JsonCellView {
    Null,
    Int(int),
    Float32(int),
    Float64(int),
    Text(Seq<char>),
    Unsupported,
}

impl View for JsonCell {
    type V = JsonCellView;

    open spec fn view(&self) -> JsonCellView {
        match self {
            JsonCell::Null => JsonCellView::Null,
            JsonCell::Int(v) => JsonCellView::Int(*v as int),
            JsonCell::Float32(b) => JsonCellView::Float32(*b as int),
            JsonCell::Float64(b) => JsonCellView::Float64(*b as int),
            JsonCell::Text(s) => JsonCellView::Text(s@),
            JsonCell::Unsupported => JsonCellView::Unsupported,
        }
    }
}

/// The JSON form of row `i` of a column.
pub fn array_value_to_json(column: &Column, i: usize) -> (r: JsonCell)
    requires
        column.wf(),
        i < column.spec_len(),
    ensures
        r@ == spec_json_of(column.spec_data_type(), column.cells()[i as int]),
{
    if column.is_null(i) {
        return JsonCell::Null;
    }
    match &column.data {
        ColumnData::Int32(v) => JsonCell::Int(v[i] as i64),
        ColumnData::Int64(v) => JsonCell::Int(v[i]),
        ColumnData::Float32(v) => JsonCell::Float32(v[i]),
        ColumnData::Float64(v) => JsonCell::Float64(v[i]),
        ColumnData::Utf8(v) => JsonCell::Text(v[i].clone()),
        ColumnData::Boolean(_) => JsonCell::Unsupported,
    }
}

/// The rows of a batch for a JSON writer: for every row, the name of each
/// field with the JSON form of its cell.
pub fn record_batch_to_json(batch: &ColumnBatch) -> (rows: Vec<Vec<(String, JsonCell)>>)
    requires
        batch.wf(),
    ensures
        rows@.len() == batch@.rows,
        forall|i: int|
            0 <= i < rows@.len() ==> (#[trigger] rows@[i])@.len() == batch@.fields.len(),
        forall|i: int, c: int|
            0 <= i < rows@.len() && 0 <= c < batch@.fields.len() ==> {
                &&& (#[trigger] rows@[i]@[c]).0@ == batch@.fields[c].name
                &&& rows@[i]@[c].1@ == spec_json_of(
                    batch@.fields[c].data_type,
                    batch@.columns[c][i],
                )
            },
{
    let n = batch.num_rows();
    let m = batch.num_columns();
    let mut rows: Vec<Vec<(String, JsonCell)>> = Vec::with_capacity(n);
    let mut i: usize = 0;
    while i < n
        invariant
            batch.wf(),
            n == batch@.rows,
            m == batch@.fields.len(),
            m == batch@.columns.len(),
            i <= n,
            rows@.len() == i,
            forall|t: int| 0 <= t < i ==> (#[trigger] rows@[t])@.len() == m,
            forall|t: int, c: int|
                0 <= t < i && 0 <= c < m ==> {
                    &&& (#[trigger] rows@[t]@[c]).0@ == batch@.fields[c].name
                    &&& rows@[t]@[c].1@ == spec_json_of(
                        batch@.fields[c].data_type,
                        batch@.columns[c][t],
                    )
                },
        decreases n - i,
    {
        let mut row: Vec<(String, JsonCell)> = Vec::with_capacity(m);
        let mut c: usize = 0;
        while c < m
            invariant
                batch.wf(),
                n == batch@.rows,
                m == batch@.fields.len(),
                m == batch@.columns.len(),
                i < n,
                c <= m,
                row@.len() == c,
                forall|k: int|
                    0 <= k < c ==> {
                        &&& (#[trigger] row@[k]).0@ == batch@.fields[k].name
                        &&& row@[k].1@ == spec_json_of(
                            batch@.fields[k].data_type,
                            batch@.columns[k][i as int],
                        )
                    },
            decreases m - c,
        {
            let column = batch.column(c);
            let schema = batch.schema();
            let name = schema.fields[c].name.clone();
            assert(schema@[c as int].name == name@);
            row.push((name, array_value_to_json(column, i)));
            c += 1;
        }
        rows.push(row);
        i += 1;
    }
    rows
}

/// A database of tables by name.
pub struct Database {
    config: DatabaseConfig,
    names: Vec<String>,
    tables: Vec<StorageEngine>,
    query_engine: QueryEngine,
    executor: QueryExecutor,
}

/// The position of the last of `names` that is `name`, if there is one.
pub open spec fn spec_table_index(names: Seq<Seq<char>>, name: Seq<char>) -> Option<int> {
    crate::gpu::jit::spec_find(names, name)
}

impl Database {
    /// The names of the tables.
    pub closed spec fn spec_names(&self) -> Seq<Seq<char>> {
        crate::text::spec_texts(self.names@)
    }

    /// The tables, parallel to their names.
    pub closed spec fn spec_tables(&self) -> Seq<StorageEngine> {
        self.tables@
    }

    /// There is one store per name, and every store is well formed.
    pub closed spec fn wf(&self) -> bool {
        &&& self.executor.spec_backend() == crate::Backend::CostBased
        &&& self.names@.len() == self.tables@.len()
        &&& forall|i: int| 0 <= i < self.tables@.len() ==> (#[trigger] self.tables@[i]).wf()
    }

    /// A database without tables.
    pub fn new(config: Option<DatabaseConfig>) -> (d: Database)
        ensures
            d.wf(),
            d.spec_names().len() == 0,
            match config {
                Some(c) => d.spec_config() == c,
                None => d.spec_config().spec_parts() == ("auto"@, 256usize),
            },
    {
        let config = match config {
            Some(c) => c,
            None => DatabaseConfig::new(),
        };
        Database {
            config,
            names: Vec::new(),
            tables: Vec::new(),
            query_engine: QueryEngine::new(),
            executor: QueryExecutor::new(),
        }
    }

    /// The configuration of the database.
    pub closed spec fn spec_config(&self) -> DatabaseConfig {
        self.config
    }

    /// The configuration.
    pub fn config(&self) -> (c: &DatabaseConfig)
        ensures
            *c == self.spec_config(),
    {
        &self.config
    }

    fn find(&self, name: &String) -> (r: Option<usize>)
        ensures
            match r {
                Some(p) => spec_table_index(self.spec_names(), name@) == Some(p as int) && p
                    < self.names@.len(),
                None => spec_table_index(self.spec_names(), name@) is None,
            },
    {
        let n = self.names.len();
        let ghost names = self.spec_names();
        let mut i: usize = n;
        assert(names.subrange(0, n as int) =~= names);
        while i > 0
            invariant
                n == self.names@.len(),
                names == self.spec_names(),
                i <= n,
                spec_table_index(names, name@) == spec_table_index(
                    names.subrange(0, i as int),
                    name@,
                ),
            decreases i,
        {
            proof {
                let upto = names.subrange(0, i as int);
                assert(upto.last() == self.names@[i - 1]@);
                assert(upto.drop_last() =~= names.subrange(0, i - 1));
            }
            if self.names[i - 1] == *name {
                return Some(i - 1);
            }
            i -= 1;
        }
        assert(names.subrange(0, 0) =~= Seq::<Seq<char>>::empty());
        None
    }

    /// Keeps a store under a name, in place of the one that was there.
    pub fn add_table(&mut self, name: &str, storage: StorageEngine)
        requires
            old(self).wf(),
            storage.wf(),
        ensures
            final(self).wf(),
            match spec_table_index(old(self).spec_names(), name@) {
                Some(p) => final(self).spec_names() == old(self).spec_names() && final(self).spec_tables() == old(self).spec_tables().update(p, storage),
                None => final(self).spec_names() == old(self).spec_names().push(name@) && final(self).spec_tables() == old(self).spec_tables().push(storage),
            },
    {
        let owned = String::from_str(name);
        match self.find(&owned) {
            Some(p) => {
                self.tables.set(p, storage);
            },
            None => {
                self.names.push(owned);
                self.tables.push(storage);
                assert(self.spec_names() =~= old(self).spec_names().push(name@));
            },
        }
    }

    /// Loads an array of JSON records as the table of the given name: see
    /// [`spec_json_batch`]. Fails with `InvalidInput`, and changes
    /// nothing, where the records make no batch.
    pub fn load_json(&mut self, name: &str, records: &Vec<JsonRecord>) -> (r: Result<(), Error>)
        requires
            old(self).wf(),
        ensures
            final(self).wf(),
            r is Ok <==> spec_json_batch(records@) is Some,
            r matches Err(e) ==> e.spec_kind() == ErrorKind::InvalidInput && final(self).spec_names()
                == old(self).spec_names() && final(self).spec_tables() == old(self).spec_tables(),
            r is Ok ==> {
                let p = match spec_table_index(old(self).spec_names(), name@) {
                    Some(p) => p,
                    None => old(self).spec_names().len() as int,
                };
                &&& p < final(self).spec_tables().len()
                &&& final(self).spec_tables()[p]@ == seq![spec_json_batch(records@)->Some_0]
                &&& final(self).spec_names()[p] == name@
            },
    {
        let batch = match batch_from_json(records) {
            Ok(b) => b,
            Err(e) => {
                return Err(e);
            },
        };
        let mut batches: Vec<ColumnBatch> = Vec::new();
        batches.push(batch);
        proof {
            crate::schema::lemma_same_schema_reflexive(batch@.fields);
        }
        let storage = StorageEngine::new(batches);
        assert(storage@ =~= seq![batch@]);
        proof {
            crate::gpu::jit::lemma_find(old(self).spec_names(), name@);
        }
        self.add_table(name, storage);
        Ok(())
    }

    /// The plan of a statement: see [`spec_parse`].
    pub fn explain(&self, sql: &str) -> (r: Result<QueryPlan, Error>)
        ensures
            match r {
                Ok(plan) => spec_parse(sql@) == Some(plan@),
                Err(e) => spec_parse(sql@) is None && e.spec_kind() == ErrorKind::ParseError,
            },
    {
        self.query_engine.parse(sql)
    }

    /// Runs a statement on the table that it names, given the answers to
    /// the tasks raised so far. Fails with `ParseError` where the statement
    /// is rejected and with `InvalidInput` where there is no such table;
    /// otherwise it is the execution of the plan on that table.
    pub fn query(&self, sql: &str, answers: &Vec<FloatAnswer>) -> (r: Result<Step<ColumnBatch>, Error>)
        requires
            self.wf(),
        ensures
            spec_batch_outcome(r) == match spec_parse(sql@) {
                None => Outcome::Failed(ErrorKind::ParseError),
                Some(plan) => match spec_table_index(self.spec_names(), plan.table) {
                    None => Outcome::Failed(ErrorKind::InvalidInput),
                    Some(p) => spec_execute(
                        self.spec_tables()[p]@,
                        plan,
                        spec_answers(answers@),
                        crate::Backend::CostBased,
                    ),
                },
            },
            r matches Ok(Step::Done(b)) ==> b.wf(),
    {
        let plan = match self.query_engine.parse(sql) {
            Ok(plan) => plan,
            Err(e) => {
                return Err(e);
            },
        };
        let p = match self.find(&plan.table) {
            Some(p) => p,
            None => {
                let mut msg = String::from_str("Table not found: ");
                msg.append(plan.table.as_str());
                return Err(Error::InvalidInput(msg));
            },
        };
        self.executor.execute(&plan, &self.tables[p], answers)
    }
}

} // verus!
