use trueno_db::batch::ColumnBatch;
use trueno_db::column::{Column, ColumnData};
use trueno_db::error::ErrorKind;
use trueno_db::query::executor::{
    apply_filter, float_greater, float_holds, float_is_nan, project_columns, CompareOp,
    FloatAnswer, FloatTask, QueryExecutor, Step,
};
use trueno_db::query::{AggregateFunction, OrderDirection, QueryEngine, QueryPlan};
use trueno_db::schema::{DataType, Field, Schema};
use trueno_db::storage::StorageEngine;
use trueno_db::{Backend, Error};

fn f64_bits(values: &[f64]) -> Vec<u64> {
    values.iter().map(|v| v.to_bits()).collect()
}

fn f32_bits(values: &[f32]) -> Vec<u32> {
    values.iter().map(|v| v.to_bits()).collect()
}

fn compensated_f32(values: &[f32]) -> f32 {
    if values.iter().any(|v| !v.is_finite()) {
        return values.iter().sum();
    }
    let (mut s, mut c) = (0.0f64, 0.0f64);
    for v in values {
        let y = f64::from(*v) - c;
        let t = s + y;
        c = (t - s) - y;
        s = t;
    }
    s as f32
}

fn compensated_f64(values: &[f64]) -> f64 {
    if values.iter().any(|v| !v.is_finite()) {
        return values.iter().sum();
    }
    let (mut s, mut c) = (0.0f64, 0.0f64);
    for v in values {
        let y = v - c;
        let t = s + y;
        c = (t - s) - y;
        s = t;
    }
    s
}

fn mean(values: &[f64]) -> f64 {
    assert!(!values.is_empty(), "the mean of no value is never asked for");
    values.iter().sum::<f64>() / values.len() as f64
}

/// The floating-point side of execution, as a caller provides it.
fn answer(task: &FloatTask) -> FloatAnswer {
    match task {
        FloatTask::Literal { text, data_type } => FloatAnswer::Literal(match data_type {
            DataType::Float32 => text.parse::<f32>().ok().map(|v| u64::from(v.to_bits())),
            _ => text.parse::<f64>().ok().map(|v| v.to_bits()),
        }),
        FloatTask::Aggregate { function, column, backend } => {
            assert!(matches!(backend, Backend::Simd | Backend::Gpu));
            let valid = |i: usize| column.validity[i];
            match &column.data {
                ColumnData::Float32(bits) => {
                    let values: Vec<f32> = bits
                        .iter()
                        .enumerate()
                        .filter(|(i, _)| valid(*i))
                        .map(|(_, b)| f32::from_bits(*b))
                        .collect();
                    match function {
                        AggregateFunction::Avg => {
                            let wide: Vec<f64> = values.iter().map(|v| f64::from(*v)).collect();
                            FloatAnswer::Value(mean(&wide).to_bits())
                        }
                        AggregateFunction::Sum => {
                            FloatAnswer::Value(u64::from(compensated_f32(&values).to_bits()))
                        }
                        other => panic!("{other:?} needs no floating-point arithmetic"),
                    }
                }
                ColumnData::Float64(bits) => {
                    let values: Vec<f64> = bits
                        .iter()
                        .enumerate()
                        .filter(|(i, _)| valid(*i))
                        .map(|(_, b)| f64::from_bits(*b))
                        .collect();
                    let r = match function {
                        AggregateFunction::Avg => mean(&values),
                        AggregateFunction::Sum => compensated_f64(&values),
                        other => panic!("{other:?} needs no floating-point arithmetic"),
                    };
                    FloatAnswer::Value(r.to_bits())
                }
                ColumnData::Int32(v) => {
                    let values: Vec<f64> =
                        v.iter().enumerate().filter(|(i, _)| valid(*i)).map(|(_, x)| f64::from(*x)).collect();
                    FloatAnswer::Value(mean(&values).to_bits())
                }
                ColumnData::Int64(v) => {
                    let values: Vec<f64> =
                        v.iter().enumerate().filter(|(i, _)| valid(*i)).map(|(_, x)| *x as f64).collect();
                    FloatAnswer::Value(mean(&values).to_bits())
                }
                _ => FloatAnswer::Value(0),
            }
        }
    }
}

fn run(executor: &QueryExecutor, plan: &QueryPlan, storage: &StorageEngine) -> Result<ColumnBatch, Error> {
    let mut answers = Vec::new();
    loop {
        match executor.execute(plan, storage, &answers)? {
            Step::Done(batch) => return Ok(batch),
            Step::Pending(task) => answers.push(answer(&task)),
        }
    }
}

fn create_test_data() -> StorageEngine {
    let schema = Schema::new(vec![
        Field::new("id", DataType::Int32, false),
        Field::new("category", DataType::Utf8, false),
        Field::new("value", DataType::Float64, false),
        Field::new("quantity", DataType::Int32, false),
    ]);
    let batch = ColumnBatch::try_new(
        schema,
        vec![
            Column::new(ColumnData::Int32(vec![1, 2, 3, 4, 5])),
            Column::new(ColumnData::Utf8(vec!["A".into(), "B".into(), "A".into(), "C".into(), "B".into()])),
            Column::new(ColumnData::Float64(f64_bits(&[10.0, 20.0, 30.0, 40.0, 50.0]))),
            Column::new(ColumnData::Int32(vec![100, 200, 300, 400, 500])),
        ],
    )
    .unwrap();
    let mut storage = StorageEngine::new(vec![]);
    storage.append_batch(batch).unwrap();
    storage
}

fn create_multi_type_data() -> StorageEngine {
    let schema = Schema::new(vec![
        Field::new("id_i32", DataType::Int32, false),
        Field::new("id_i64", DataType::Int64, false),
        Field::new("value_f32", DataType::Float32, false),
        Field::new("value_f64", DataType::Float64, false),
        Field::new("name", DataType::Utf8, false),
    ]);
    let batch = ColumnBatch::try_new(
        schema,
        vec![
            Column::new(ColumnData::Int32(vec![1, 2, 3, 4, 5])),
            Column::new(ColumnData::Int64(vec![10i64, 20, 30, 40, 50])),
            Column::new(ColumnData::Float32(f32_bits(&[1.5f32, 2.5, 3.5, 4.5, 5.5]))),
            Column::new(ColumnData::Float64(f64_bits(&[10.5, 20.5, 30.5, 40.5, 50.5]))),
            Column::new(ColumnData::Utf8(vec!["a".into(), "b".into(), "c".into(), "d".into(), "e".into()])),
        ],
    )
    .unwrap();
    let mut storage = StorageEngine::new(vec![]);
    storage.append_batch(batch).unwrap();
    storage
}

fn f64_at(batch: &ColumnBatch, column: usize, row: usize) -> f64 {
    match &batch.column(column).data {
        ColumnData::Float64(bits) => f64::from_bits(bits[row]),
        _ => panic!("expected a Float64 column"),
    }
}

fn f32_at(batch: &ColumnBatch, column: usize, row: usize) -> f32 {
    match &batch.column(column).data {
        ColumnData::Float32(bits) => f32::from_bits(bits[row]),
        _ => panic!("expected a Float32 column"),
    }
}

fn i64_at(batch: &ColumnBatch, column: usize, row: usize) -> i64 {
    match &batch.column(column).data {
        ColumnData::Int64(v) => v[row],
        _ => panic!("expected an Int64 column"),
    }
}

fn i32s(batch: &ColumnBatch, column: usize) -> Vec<i32> {
    match &batch.column(column).data {
        ColumnData::Int32(v) => v.clone(),
        _ => panic!("expected an Int32 column"),
    }
}

fn query(storage: &StorageEngine, sql: &str) -> Result<ColumnBatch, Error> {
    let plan = QueryEngine::new().parse(sql).unwrap();
    run(&QueryExecutor::new(), &plan, storage)
}

#[test]
fn test_simple_select_all() {
    let result = query(&create_test_data(), "SELECT * FROM table1").unwrap();
    assert_eq!(result.num_rows(), 5);
    assert_eq!(result.num_columns(), 4);
}

#[test]
fn test_select_specific_columns() {
    let result = query(&create_test_data(), "SELECT id, value FROM table1").unwrap();
    assert_eq!(result.num_rows(), 5);
    assert_eq!(result.num_columns(), 2);
    assert_eq!(result.schema().fields[0].name, "id");
    assert_eq!(result.schema().fields[1].name, "value");
}

#[test]
fn test_aggregation_sum() {
    let result = query(&create_test_data(), "SELECT SUM(value) FROM table1").unwrap();
    assert_eq!(result.num_rows(), 1);
    assert!((f64_at(&result, 0, 0) - 150.0).abs() < 0.01);
}

#[test]
fn test_aggregation_avg() {
    let result = query(&create_test_data(), "SELECT AVG(value) FROM table1").unwrap();
    assert_eq!(result.num_rows(), 1);
    assert!((f64_at(&result, 0, 0) - 30.0).abs() < 0.01);
}

#[test]
fn test_aggregation_count() {
    let result = query(&create_test_data(), "SELECT COUNT(*) FROM table1").unwrap();
    assert_eq!(result.num_rows(), 1);
    assert_eq!(i64_at(&result, 0, 0), 5);
    assert_eq!(result.schema().fields[0].name, "*");
    assert_eq!(result.schema().fields[0].data_type, DataType::Int64);
}

#[test]
fn test_aggregation_min_max() {
    let result = query(&create_test_data(), "SELECT MIN(value), MAX(value) FROM table1").unwrap();
    assert_eq!(result.num_rows(), 1);
    assert!((f64_at(&result, 0, 0) - 10.0).abs() < 0.01);
    assert!((f64_at(&result, 1, 0) - 50.0).abs() < 0.01);
}

#[test]
fn test_where_filter_greater_than() {
    let result = query(&create_test_data(), "SELECT id, value FROM table1 WHERE value > 25.0").unwrap();
    assert_eq!(result.num_rows(), 3);
    assert_eq!(i32s(&result, 0), vec![3, 4, 5]);
}

#[test]
fn test_where_filter_less_than() {
    let result = query(&create_test_data(), "SELECT id, value FROM table1 WHERE value < 35.0").unwrap();
    assert_eq!(result.num_rows(), 3);
}

#[test]
fn test_where_filter_equals() {
    let result = query(&create_test_data(), "SELECT id, value FROM table1 WHERE id = 3").unwrap();
    assert_eq!(result.num_rows(), 1);
    assert_eq!(i32s(&result, 0), vec![3]);
}

#[test]
fn test_order_by_limit_top_k() {
    let result =
        query(&create_test_data(), "SELECT id, value FROM table1 ORDER BY value DESC LIMIT 2").unwrap();
    assert_eq!(result.num_rows(), 2);
    assert!((f64_at(&result, 1, 0) - 50.0).abs() < 0.01);
    assert!((f64_at(&result, 1, 1) - 40.0).abs() < 0.01);
}

#[test]
fn test_order_by_ascending() {
    let result =
        query(&create_test_data(), "SELECT id, value FROM table1 ORDER BY value ASC LIMIT 2").unwrap();
    assert_eq!(result.num_rows(), 2);
    assert!((f64_at(&result, 1, 0) - 10.0).abs() < 0.01);
    assert!((f64_at(&result, 1, 1) - 20.0).abs() < 0.01);
}

#[test]
fn test_limit_without_order_by() {
    let result = query(&create_test_data(), "SELECT id, value FROM table1 LIMIT 3").unwrap();
    assert_eq!(result.num_rows(), 3);
    assert_eq!(i32s(&result, 0), vec![1, 2, 3]);
    assert_eq!(query(&create_test_data(), "SELECT id FROM table1 LIMIT 99").unwrap().num_rows(), 5);
    assert_eq!(query(&create_test_data(), "SELECT id FROM table1 LIMIT 0").unwrap().num_rows(), 0);
}

#[test]
fn test_aggregation_with_filter() {
    let result = query(&create_test_data(), "SELECT SUM(value) FROM table1 WHERE value > 20.0").unwrap();
    assert_eq!(result.num_rows(), 1);
    assert!((f64_at(&result, 0, 0) - 120.0).abs() < 0.01);
}

#[test]
fn test_multiple_aggregations() {
    let result = query(
        &create_test_data(),
        "SELECT COUNT(*), SUM(value), AVG(value), MIN(value), MAX(value) FROM table1",
    )
    .unwrap();
    assert_eq!(result.num_rows(), 1);
    assert_eq!(result.num_columns(), 5);
    assert_eq!(i64_at(&result, 0, 0), 5);
    assert!((f64_at(&result, 1, 0) - 150.0).abs() < 0.01);
    assert!((f64_at(&result, 2, 0) - 30.0).abs() < 0.01);
    assert!((f64_at(&result, 3, 0) - 10.0).abs() < 0.01);
    assert!((f64_at(&result, 4, 0) - 50.0).abs() < 0.01);
}

#[test]
fn test_execute_empty_storage() {
    let storage = StorageEngine::new(vec![]);
    let result = query(&storage, "SELECT * FROM table1");
    assert!(result.is_err());
    match result.unwrap_err() {
        Error::InvalidInput(msg) => assert!(msg.contains("No data in storage")),
        _ => panic!("Expected InvalidInput error"),
    }
}

#[test]
fn test_filter_invalid_column() {
    let result = query(&create_multi_type_data(), "SELECT * FROM table1 WHERE nonexistent > 10");
    assert!(result.is_err());
    match result.unwrap_err() {
        Error::InvalidInput(msg) => assert!(msg.contains("Column not found")),
        _ => panic!("Expected InvalidInput error for missing column"),
    }
}

#[test]
fn test_filter_unsupported_datatype() {
    let result = query(&create_multi_type_data(), "SELECT * FROM table1 WHERE name > 'test'");
    assert!(result.is_err());
    match result.unwrap_err() {
        Error::InvalidInput(msg) => assert!(msg.contains("Filter not supported for data type")),
        _ => panic!("Expected InvalidInput error for unsupported type"),
    }
}

#[test]
fn test_aggregation_on_string_column() {
    let result = query(&create_multi_type_data(), "SELECT SUM(name) FROM table1");
    assert!(result.is_err());
    match result.unwrap_err() {
        Error::InvalidInput(msg) => assert!(msg.contains("Aggregation not supported for data type")),
        _ => panic!("Expected InvalidInput error for aggregation on string"),
    }
}

#[test]
fn test_order_by_invalid_column() {
    let result = query(&create_multi_type_data(), "SELECT * FROM table1 ORDER BY nonexistent DESC");
    assert!(result.is_err());
    match result.unwrap_err() {
        Error::InvalidInput(msg) => assert!(msg.contains("Column not found")),
        _ => panic!("Expected InvalidInput error for invalid ORDER BY column"),
    }
}

#[test]
fn test_project_invalid_column() {
    let result = query(&create_multi_type_data(), "SELECT nonexistent FROM table1");
    assert!(result.is_err());
    match result.unwrap_err() {
        Error::InvalidInput(msg) => assert!(msg.contains("Column not found")),
        _ => panic!("Expected InvalidInput error for projection"),
    }
}

#[test]
fn test_aggregation_invalid_column() {
    let result = query(&create_multi_type_data(), "SELECT SUM(nonexistent) FROM table1");
    assert!(result.is_err());
    match result.unwrap_err() {
        Error::InvalidInput(msg) => assert!(msg.contains("Column not found")),
        _ => panic!("Expected InvalidInput error for aggregation on missing column"),
    }
}

#[test]
fn test_sum_all_numeric_types() {
    let storage = create_multi_type_data();
    let result = query(&storage, "SELECT SUM(id_i32) FROM table1").unwrap();
    assert_eq!(result.num_rows(), 1);
    assert_eq!(i64_at(&result, 0, 0), 15);
    assert_eq!(result.schema().fields[0].data_type, DataType::Int64);
    let result = query(&storage, "SELECT SUM(id_i64) FROM table1").unwrap();
    assert_eq!(i64_at(&result, 0, 0), 150);
    let result = query(&storage, "SELECT SUM(value_f32) FROM table1").unwrap();
    assert_eq!(result.schema().fields[0].data_type, DataType::Float32);
    assert_eq!(f32_at(&result, 0, 0), 17.5);
    let result = query(&storage, "SELECT SUM(value_f64) FROM table1").unwrap();
    assert_eq!(f64_at(&result, 0, 0), 152.5);
}

#[test]
fn test_avg_all_numeric_types() {
    let storage = create_multi_type_data();
    for (sql, expected) in [
        ("SELECT AVG(id_i32) FROM table1", 3.0),
        ("SELECT AVG(id_i64) FROM table1", 30.0),
        ("SELECT AVG(value_f32) FROM table1", 3.5),
        ("SELECT AVG(value_f64) FROM table1", 30.5),
    ] {
        let result = query(&storage, sql).unwrap();
        assert_eq!(result.num_rows(), 1);
        assert_eq!(result.schema().fields[0].data_type, DataType::Float64);
        assert_eq!(f64_at(&result, 0, 0), expected);
    }
}

#[test]
fn test_min_max_all_numeric_types() {
    let storage = create_multi_type_data();
    let result = query(&storage, "SELECT MIN(id_i32), MAX(id_i32) FROM table1").unwrap();
    assert_eq!(result.num_rows(), 1);
    assert_eq!(result.num_columns(), 2);
    assert_eq!(i32s(&result, 0), vec![1]);
    assert_eq!(i32s(&result, 1), vec![5]);
    let result = query(&storage, "SELECT MIN(id_i64), MAX(id_i64) FROM table1").unwrap();
    assert_eq!(i64_at(&result, 0, 0), 10);
    assert_eq!(i64_at(&result, 1, 0), 50);
    let result = query(&storage, "SELECT MIN(value_f32), MAX(value_f32) FROM table1").unwrap();
    assert_eq!(f32_at(&result, 0, 0), 1.5);
    assert_eq!(f32_at(&result, 1, 0), 5.5);
    let result = query(&storage, "SELECT MIN(value_f64), MAX(value_f64) FROM table1").unwrap();
    assert_eq!(f64_at(&result, 0, 0), 10.5);
    assert_eq!(f64_at(&result, 1, 0), 50.5);
}

#[test]
fn test_filter_operators_int32() {
    let storage = create_multi_type_data();
    let operators = vec![
        ("id_i32 > 2", 3),
        ("id_i32 >= 3", 3),
        ("id_i32 < 4", 3),
        ("id_i32 <= 3", 3),
        ("id_i32 = 3", 1),
        ("id_i32 != 3", 4),
    ];
    for (filter, expected_rows) in operators {
        let sql = format!("SELECT * FROM table1 WHERE {filter}");
        let result = query(&storage, &sql).unwrap();
        assert_eq!(result.num_rows(), expected_rows, "Filter '{}' should return {} rows", filter, expected_rows);
    }
}

#[test]
fn test_filter_operators_int64() {
    let storage = create_multi_type_data();
    let operators = vec![
        ("id_i64 > 20", 3),
        ("id_i64 >= 30", 3),
        ("id_i64 < 40", 3),
        ("id_i64 <= 30", 3),
        ("id_i64 = 30", 1),
        ("id_i64 != 30", 4),
    ];
    for (filter, expected_rows) in operators {
        let sql = format!("SELECT * FROM table1 WHERE {filter}");
        assert_eq!(query(&storage, &sql).unwrap().num_rows(), expected_rows);
    }
}

#[test]
fn test_filter_operators_float32() {
    let storage = create_multi_type_data();
    let operators = vec![
        ("value_f32 > 2.5", 3),
        ("value_f32 >= 3.5", 3),
        ("value_f32 < 4.5", 3),
        ("value_f32 <= 3.5", 3),
        ("value_f32 = 3.5", 1),
        ("value_f32 != 3.5", 4),
    ];
    for (filter, expected_rows) in operators {
        let sql = format!("SELECT * FROM table1 WHERE {filter}");
        assert_eq!(query(&storage, &sql).unwrap().num_rows(), expected_rows);
    }
}

#[test]
fn test_filter_operators_float64() {
    let storage = create_multi_type_data();
    let operators = vec![
        ("value_f64 > 20.5", 3),
        ("value_f64 >= 30.5", 3),
        ("value_f64 < 40.5", 3),
        ("value_f64 <= 30.5", 3),
        ("value_f64 = 30.5", 1),
        ("value_f64 != 30.5", 4),
    ];
    for (filter, expected_rows) in operators {
        let sql = format!("SELECT * FROM table1 WHERE {filter}");
        assert_eq!(query(&storage, &sql).unwrap().num_rows(), expected_rows);
    }
}

#[test]
fn test_order_by_all_numeric_types() {
    let storage = create_multi_type_data();
    let result = query(&storage, "SELECT * FROM table1 ORDER BY id_i32 DESC LIMIT 2").unwrap();
    assert_eq!(result.num_rows(), 2);
    assert_eq!(i32s(&result, 0), vec![5, 4]);
    let result = query(&storage, "SELECT * FROM table1 ORDER BY id_i64 ASC LIMIT 2").unwrap();
    assert_eq!(i32s(&result, 0), vec![1, 2]);
    let result = query(&storage, "SELECT * FROM table1 ORDER BY value_f32 DESC LIMIT 3").unwrap();
    assert_eq!(i32s(&result, 0), vec![5, 4, 3]);
    let result = query(&storage, "SELECT * FROM table1 ORDER BY value_f64 ASC LIMIT 3").unwrap();
    assert_eq!(i32s(&result, 0), vec![1, 2, 3]);
    // Without a limit every row is ordered.
    let result = query(&storage, "SELECT * FROM table1 ORDER BY id_i32 DESC").unwrap();
    assert_eq!(i32s(&result, 0), vec![5, 4, 3, 2, 1]);
}

#[test]
fn test_filter_with_invalid_parse() {
    let result = query(&create_multi_type_data(), "SELECT * FROM table1 WHERE invalid");
    assert!(result.is_err());
    assert_eq!(result.unwrap_err().kind(), ErrorKind::ParseError);
}

#[test]
fn test_filter_invalid_number_format() {
    let result = query(&create_multi_type_data(), "SELECT * FROM table1 WHERE id_i32 > not_a_number");
    assert!(result.is_err());
    match result.unwrap_err() {
        Error::ParseError(msg) => assert!(msg.contains("Invalid Int32 value")),
        _ => panic!("Expected ParseError"),
    }
    let result = query(&create_multi_type_data(), "SELECT * FROM table1 WHERE id_i64 > 1.5");
    match result.unwrap_err() {
        Error::ParseError(msg) => assert!(msg.contains("Invalid Int64 value")),
        _ => panic!("Expected ParseError"),
    }
    let result = query(&create_multi_type_data(), "SELECT * FROM table1 WHERE value_f64 > abc");
    assert_eq!(result.unwrap_err().kind(), ErrorKind::ParseError);
    let result = query(&create_multi_type_data(), "SELECT * FROM table1 WHERE id_i32 > 2147483648");
    assert_eq!(result.unwrap_err().kind(), ErrorKind::ParseError);
}

#[test]
fn test_count_with_all_types() {
    let storage = create_multi_type_data();
    let result = query(&storage, "SELECT COUNT(id_i32) FROM table1").unwrap();
    assert_eq!(result.num_rows(), 1);
    assert_eq!(i64_at(&result, 0, 0), 5);
    let result = query(&storage, "SELECT COUNT(value_f32) FROM table1").unwrap();
    assert_eq!(i64_at(&result, 0, 0), 5);
    assert!(query(&storage, "SELECT COUNT(name) FROM table1").is_err());
}

#[test]
fn test_multiple_batches_combine() {
    let schema = || {
        Schema::new(vec![
            Field::new("id", DataType::Int32, false),
            Field::new("value", DataType::Float64, false),
        ])
    };
    let batch1 = ColumnBatch::try_new(
        schema(),
        vec![
            Column::new(ColumnData::Int32(vec![1, 2])),
            Column::new(ColumnData::Float64(f64_bits(&[10.0, 20.0]))),
        ],
    )
    .unwrap();
    let batch2 = ColumnBatch::try_new(
        schema(),
        vec![
            Column::new(ColumnData::Int32(vec![3, 4])),
            Column::new(ColumnData::Float64(f64_bits(&[30.0, 40.0]))),
        ],
    )
    .unwrap();
    let mut storage = StorageEngine::new(vec![]);
    storage.append_batch(batch1).unwrap();
    storage.append_batch(batch2).unwrap();
    let result = query(&storage, "SELECT SUM(value) FROM table1").unwrap();
    assert_eq!(result.num_rows(), 1);
    assert!((f64_at(&result, 0, 0) - 100.0).abs() < 0.01);
    let ids = query(&storage, "SELECT SUM(id), MAX(id), MIN(id) FROM table1").unwrap();
    assert_eq!(i64_at(&ids, 0, 0), 10);
    assert_eq!(i32s(&ids, 1), vec![4]);
    assert_eq!(i32s(&ids, 2), vec![1]);
    assert_eq!(query(&storage, "SELECT * FROM table1").unwrap().num_rows(), 4);
}

fn ids_1_to(n: i32) -> StorageEngine {
    let batch = ColumnBatch::try_new(
        Schema::new(vec![Field::new("id", DataType::Int32, false)]),
        vec![Column::new(ColumnData::Int32((1..=n).collect()))],
    )
    .unwrap();
    StorageEngine::new(vec![batch])
}

#[test]
fn test_scenario_sum_of_ids() {
    let result = query(&ids_1_to(5), "SELECT SUM(id) FROM t").unwrap();
    assert_eq!(result.num_rows(), 1);
    assert_eq!(result.num_columns(), 1);
    assert_eq!(result.schema().fields[0].data_type, DataType::Int64);
    assert_eq!(result.schema().fields[0].name, "id");
    assert_eq!(i64_at(&result, 0, 0), 15);
}

#[test]
fn test_scenario_order_by_score_desc_limit_3() {
    let batch = ColumnBatch::try_new(
        Schema::new(vec![
            Field::new("id", DataType::Int32, false),
            Field::new("score", DataType::Float64, false),
        ]),
        vec![
            Column::new(ColumnData::Int32(vec![0, 1, 2, 3, 4])),
            Column::new(ColumnData::Float64(f64_bits(&[1.0, 5.0, 3.0, 9.0, 2.0]))),
        ],
    )
    .unwrap();
    let storage = StorageEngine::new(vec![batch]);
    let result = query(&storage, "SELECT id, score FROM t ORDER BY score DESC LIMIT 3").unwrap();
    assert_eq!(i32s(&result, 0), vec![3, 1, 2]);
    assert_eq!(
        (0..3).map(|r| f64_at(&result, 1, r)).collect::<Vec<f64>>(),
        vec![9.0, 5.0, 3.0]
    );
}

#[test]
fn test_integer_sum_wraps() {
    let batch = ColumnBatch::try_new(
        Schema::new(vec![Field::new("v", DataType::Int64, false)]),
        vec![Column::new(ColumnData::Int64(vec![i64::MAX, 1]))],
    )
    .unwrap();
    let result = query(&StorageEngine::new(vec![batch]), "SELECT SUM(v) FROM t").unwrap();
    assert_eq!(i64_at(&result, 0, 0), i64::MIN);
    // 32-bit values are summed in 32 bits and reported in 64.
    let batch = ColumnBatch::try_new(
        Schema::new(vec![Field::new("v", DataType::Int32, false)]),
        vec![Column::new(ColumnData::Int32(vec![i32::MAX, 1]))],
    )
    .unwrap();
    let result = query(&StorageEngine::new(vec![batch]), "SELECT SUM(v) FROM t").unwrap();
    assert_eq!(i64_at(&result, 0, 0), i64::from(i32::MIN));
    let batch = ColumnBatch::try_new(
        Schema::new(vec![Field::new("v", DataType::Int32, false)]),
        vec![Column::new(ColumnData::Int32(vec![i32::MIN, -1, 5]))],
    )
    .unwrap();
    let result = query(&StorageEngine::new(vec![batch]), "SELECT SUM(v) FROM t").unwrap();
    assert_eq!(i64_at(&result, 0, 0), i64::from(i32::MIN) + 4);
}

#[test]
fn test_average_of_no_valid_row_is_null() {
    let batch = ColumnBatch::try_new(
        Schema::new(vec![
            Field::new("v", DataType::Int32, true),
            Field::new("w", DataType::Float64, true),
        ]),
        vec![
            Column::with_validity(ColumnData::Int32(vec![5, 7]), vec![false, false]).unwrap(),
            Column::with_validity(ColumnData::Float64(f64_bits(&[1.0, 2.0])), vec![false, false]).unwrap(),
        ],
    )
    .unwrap();
    let storage = StorageEngine::new(vec![batch]);
    let plan = QueryEngine::new().parse("SELECT AVG(v), AVG(w), COUNT(v) FROM t").unwrap();
    // No task is raised: the first step is the result.
    match QueryExecutor::new().execute(&plan, &storage, &vec![]).unwrap() {
        Step::Done(result) => {
            assert_eq!(result.num_rows(), 1);
            assert!(result.column(0).is_null(0));
            assert!(result.column(1).is_null(0));
            assert_eq!(result.schema().fields[0].data_type, DataType::Float64);
            assert!(result.schema().fields[0].nullable);
            assert_eq!(i64_at(&result, 2, 0), 2);
        }
        other => panic!("expected the result, got {other:?}"),
    }
    // Nor after a filter that no row passes.
    let result = query(&create_test_data(), "SELECT AVG(value) FROM t WHERE value > 1000").unwrap();
    assert!(result.column(0).is_null(0));
}

#[test]
fn test_float_sum_is_compensated() {
    let batch = ColumnBatch::try_new(
        Schema::new(vec![Field::new("v", DataType::Float32, false)]),
        vec![Column::new(ColumnData::Float32(f32_bits(&[1e10, 1.0, -1e10, 2.0, 3.0])))],
    )
    .unwrap();
    let result = query(&StorageEngine::new(vec![batch]), "SELECT SUM(v) FROM t").unwrap();
    assert!((f32_at(&result, 0, 0) - 6.0).abs() < 1e-5);
    assert_eq!(result.schema().fields[0].data_type, DataType::Float32);
    let batch = ColumnBatch::try_new(
        Schema::new(vec![Field::new("v", DataType::Float64, false)]),
        vec![Column::new(ColumnData::Float64(f64_bits(&[1.0, f64::INFINITY, 2.0])))],
    )
    .unwrap();
    let result = query(&StorageEngine::new(vec![batch]), "SELECT SUM(v) FROM t").unwrap();
    assert_eq!(f64_at(&result, 0, 0), f64::INFINITY);
}

#[test]
fn test_aggregates_are_routed_to_a_backend() {
    let storage = create_test_data();
    let plan = QueryEngine::new().parse("SELECT SUM(value) FROM t").unwrap();
    let routed = |executor: QueryExecutor| match executor.execute(&plan, &storage, &vec![]).unwrap() {
        Step::Pending(FloatTask::Aggregate { backend, .. }) => backend,
        other => panic!("expected an aggregate task, got {other:?}"),
    };
    assert_eq!(routed(QueryExecutor::with_backend(Backend::Gpu)), Backend::Gpu);
    assert_eq!(routed(QueryExecutor::with_backend(Backend::Simd)), Backend::Simd);
    // Five rows are far too few for the GPU.
    assert_eq!(routed(QueryExecutor::new()), Backend::Simd);
    assert_eq!(routed(QueryExecutor::with_backend(Backend::CostBased)), Backend::Simd);
    assert_eq!(QueryExecutor::new().aggregate_backend(5, 8), Backend::Simd);
    assert_eq!(QueryExecutor::new().aggregate_backend(100_000_000, 8), Backend::Simd);
    assert_eq!(QueryExecutor::with_backend(Backend::Gpu).aggregate_backend(5, 8), Backend::Gpu);
}

#[test]
fn test_nulls_in_filters_and_aggregates() {
    let batch = ColumnBatch::try_new(
        Schema::new(vec![Field::new("v", DataType::Int32, true)]),
        vec![Column::with_validity(
            ColumnData::Int32(vec![5, 100, -1, 7]),
            vec![true, false, true, false],
        )
        .unwrap()],
    )
    .unwrap();
    let storage = StorageEngine::new(vec![batch]);
    let result = query(&storage, "SELECT SUM(v), MIN(v), MAX(v), COUNT(v) FROM t").unwrap();
    assert_eq!(i64_at(&result, 0, 0), 4);
    assert_eq!(i32s(&result, 1), vec![-1]);
    assert_eq!(i32s(&result, 2), vec![5]);
    assert_eq!(i64_at(&result, 3, 0), 4);
    // A null passes no comparison.
    assert_eq!(query(&storage, "SELECT * FROM t WHERE v < 1000").unwrap().num_rows(), 2);
    assert_eq!(query(&storage, "SELECT * FROM t WHERE v != 5").unwrap().num_rows(), 1);
    let avg = query(&storage, "SELECT AVG(v) FROM t").unwrap();
    assert_eq!(f64_at(&avg, 0, 0), 2.0);
    // No valid row: the extrema are zero.
    let none = query(&storage, "SELECT MIN(v), MAX(v), SUM(v) FROM t WHERE v > 1000").unwrap();
    assert_eq!(i32s(&none, 0), vec![0]);
    assert_eq!(i32s(&none, 1), vec![0]);
    assert_eq!(i64_at(&none, 2, 0), 0);
}

#[test]
fn test_group_by_is_rejected() {
    let result = query(&create_test_data(), "SELECT category, SUM(value) FROM table1 GROUP BY category");
    let error = result.unwrap_err();
    assert_eq!(error.kind(), ErrorKind::InvalidInput);
    assert!(error.message().contains("GROUP BY"));
}

#[test]
fn test_execution_is_pending_until_answered() {
    let storage = create_test_data();
    let plan = QueryEngine::new().parse("SELECT SUM(value), AVG(quantity) FROM t WHERE value > 15").unwrap();
    let executor = QueryExecutor::with_backend(Backend::Simd);
    let mut answers = Vec::new();
    // First the literal of the filter on the floating-point column.
    match executor.execute(&plan, &storage, &answers).unwrap() {
        Step::Pending(FloatTask::Literal { text, data_type }) => {
            assert_eq!(text, "15");
            assert_eq!(data_type, DataType::Float64);
        }
        other => panic!("expected a literal task, got {other:?}"),
    }
    answers.push(FloatAnswer::Literal(Some(15.0f64.to_bits())));
    // Then the sum over what passed.
    match executor.execute(&plan, &storage, &answers).unwrap() {
        Step::Pending(FloatTask::Aggregate { function, column, backend }) => {
            assert_eq!(function, AggregateFunction::Sum);
            assert_eq!(column.len(), 4);
            assert_eq!(backend, Backend::Simd);
        }
        other => panic!("expected an aggregate task, got {other:?}"),
    }
    answers.push(FloatAnswer::Value(140.0f64.to_bits()));
    // Then the mean of the integer column.
    match executor.execute(&plan, &storage, &answers).unwrap() {
        Step::Pending(FloatTask::Aggregate { function, column, .. }) => {
            assert_eq!(function, AggregateFunction::Avg);
            assert_eq!(column.data_type(), DataType::Int32);
            match &column.data {
                ColumnData::Int32(v) => assert_eq!(v, &vec![200, 300, 400, 500]),
                _ => panic!("expected the quantities"),
            }
        }
        other => panic!("expected an aggregate task, got {other:?}"),
    }
    answers.push(FloatAnswer::Value(350.0f64.to_bits()));
    match executor.execute(&plan, &storage, &answers).unwrap() {
        Step::Done(batch) => {
            assert_eq!(f64_at(&batch, 0, 0), 140.0);
            assert_eq!(f64_at(&batch, 1, 0), 350.0);
            assert_eq!(batch.schema().fields[0].name, "value");
            assert_eq!(batch.schema().fields[1].name, "quantity");
        }
        other => panic!("expected the result, got {other:?}"),
    }
}

#[test]
fn test_wrong_answers_are_refused() {
    let storage = create_test_data();
    let executor = QueryExecutor::new();
    let filter = QueryEngine::new().parse("SELECT * FROM t WHERE value = 15").unwrap();
    let literal = || FloatAnswer::Literal(Some(15.0f64.to_bits()));
    let value = vec![FloatAnswer::Value(0)];
    assert_eq!(executor.execute(&filter, &storage, &value).unwrap_err().kind(), ErrorKind::Other);
    let no_literal = vec![FloatAnswer::Literal(None)];
    assert_eq!(executor.execute(&filter, &storage, &no_literal).unwrap_err().kind(), ErrorKind::ParseError);
    // Equality is decided on the values themselves: no further task.
    match executor.execute(&filter, &storage, &vec![literal()]).unwrap() {
        Step::Done(batch) => assert_eq!(batch.num_rows(), 0),
        other => panic!("expected the result, got {other:?}"),
    }
    let sum = QueryEngine::new().parse("SELECT SUM(value) FROM t").unwrap();
    assert_eq!(executor.execute(&sum, &storage, &vec![literal()]).unwrap_err().kind(), ErrorKind::Other);
    let multi = create_multi_type_data();
    let sum32 = QueryEngine::new().parse("SELECT SUM(value_f32) FROM t").unwrap();
    let wide = vec![FloatAnswer::Value(1 << 32)];
    assert_eq!(executor.execute(&sum32, &multi, &wide).unwrap_err().kind(), ErrorKind::Other);
    let filter32 = QueryEngine::new().parse("SELECT * FROM t WHERE value_f32 > 1").unwrap();
    let wide = vec![FloatAnswer::Literal(Some(1 << 32))];
    assert_eq!(executor.execute(&filter32, &multi, &wide).unwrap_err().kind(), ErrorKind::Other);
}

#[test]
fn test_filter_stage_alone() {
    let storage = create_test_data();
    let batch = &storage.batches()[0];
    let filter = |expr: &str| match apply_filter(batch, &expr.to_string(), &vec![], 0) {
        Ok(Step::Done((kept, next))) => {
            assert_eq!(next, 0);
            Ok(i32s(&kept, 0))
        }
        Ok(Step::Pending(_)) => panic!("no floating-point column is involved"),
        Err(e) => Err(e.kind()),
    };
    assert_eq!(filter("quantity > 250"), Ok(vec![3, 4, 5]));
    assert_eq!(filter("quantity   <>   300"), Ok(vec![1, 2, 4, 5]));
    assert_eq!(filter("quantity = +300"), Ok(vec![3]));
    assert_eq!(filter("quantity <= -1"), Ok(vec![]));
    // An unknown operator passes no row.
    assert_eq!(filter("quantity ~ 300"), Ok(vec![]));
    assert_eq!(filter("quantity == 300"), Ok(vec![]));
    // The literal is everything after the operator.
    assert_eq!(filter("quantity > 2 5 0"), Err(ErrorKind::ParseError));
    assert_eq!(filter("quantity >"), Err(ErrorKind::ParseError));
    assert_eq!(filter(""), Err(ErrorKind::ParseError));
    assert_eq!(filter("nothing > 1"), Err(ErrorKind::InvalidInput));
    assert_eq!(filter("category = 'A'"), Err(ErrorKind::InvalidInput));
    assert_eq!(CompareOp::from_text(&"<>".to_string()), CompareOp::Ne);
    assert_eq!(CompareOp::from_text(&"=>".to_string()), CompareOp::Unknown);
    assert!(CompareOp::Le.holds(3, 3));
    assert!(!CompareOp::Unknown.holds(3, 3));
}

#[test]
fn test_projection_stage_alone() {
    let storage = create_test_data();
    let batch = &storage.batches()[0];
    let names = |cols: &[&str]| cols.iter().map(|s| s.to_string()).collect::<Vec<String>>();
    let all = project_columns(batch, &names(&["*"])).unwrap();
    assert_eq!(all.num_columns(), 4);
    let some = project_columns(batch, &names(&["value", "id", "value"])).unwrap();
    assert_eq!(some.num_columns(), 3);
    assert_eq!(some.schema().fields[0].name, "value");
    assert_eq!(some.schema().fields[2].name, "value");
    assert_eq!(i32s(&some, 1), vec![1, 2, 3, 4, 5]);
    assert_eq!(project_columns(batch, &names(&[])).unwrap_err().kind(), ErrorKind::StorageError);
    assert_eq!(project_columns(batch, &names(&["*", "id"])).unwrap_err().kind(), ErrorKind::InvalidInput);
    assert_eq!(project_columns(batch, &names(&["id", "nope"])).unwrap_err().kind(), ErrorKind::InvalidInput);
}

#[test]
fn test_plan_by_hand() {
    let plan = QueryPlan {
        columns: vec!["id".to_string()],
        table: String::new(),
        filter: Some("id >= 2".to_string()),
        group_by: vec![],
        aggregations: vec![],
        order_by: vec![("id".to_string(), OrderDirection::Desc)],
        limit: Some(2),
    };
    let result = run(&QueryExecutor::new(), &plan, &ids_1_to(10)).unwrap();
    assert_eq!(i32s(&result, 0), vec![10, 9]);
    // Ordering an empty result without a limit asks for zero rows.
    let empty = QueryPlan { filter: Some("id > 99".to_string()), limit: None, ..plan };
    assert_eq!(run(&QueryExecutor::new(), &empty, &ids_1_to(10)).unwrap_err().kind(), ErrorKind::InvalidInput);
}

#[test]
fn test_float_extrema_follow_the_order_of_the_values() {
    let cases: Vec<Vec<f64>> = vec![
        vec![1.0, f64::NAN, 0.5],
        vec![f64::NAN, 2.0, 3.0],
        vec![2.0, 3.0, f64::NAN],
        vec![-0.0, 0.0, -1.5, f64::NEG_INFINITY, f64::INFINITY],
        vec![0.0, -0.0],
        vec![-3.0, -2.0, -2.5],
        vec![f64::MIN_POSITIVE, 5e-324, -5e-324],
    ];
    for values in cases {
        let batch = ColumnBatch::try_new(
            Schema::new(vec![Field::new("v", DataType::Float64, false)]),
            vec![Column::new(ColumnData::Float64(f64_bits(&values)))],
        )
        .unwrap();
        let result = query(&StorageEngine::new(vec![batch]), "SELECT MIN(v), MAX(v) FROM t").unwrap();
        let by = |a: &f64, b: &f64| a.partial_cmp(b).unwrap_or(std::cmp::Ordering::Equal);
        let min = values.iter().copied().min_by(by).unwrap();
        let max = values.iter().copied().max_by(by).unwrap();
        let with_nan = values.iter().any(|v| v.is_nan());
        if with_nan {
            // A NaN among the values is the result.
            assert!(f64_at(&result, 0, 0).is_nan(), "min of {values:?}");
            assert!(f64_at(&result, 1, 0).is_nan(), "max of {values:?}");
        } else {
            assert_eq!(f64_at(&result, 0, 0).to_bits(), min.to_bits(), "min of {values:?}");
            assert_eq!(f64_at(&result, 1, 0).to_bits(), max.to_bits(), "max of {values:?}");
        }

        let narrow: Vec<f32> = values.iter().map(|v| *v as f32).collect();
        let batch = ColumnBatch::try_new(
            Schema::new(vec![Field::new("v", DataType::Float32, false)]),
            vec![Column::new(ColumnData::Float32(f32_bits(&narrow)))],
        )
        .unwrap();
        let result = query(&StorageEngine::new(vec![batch]), "SELECT MIN(v), MAX(v) FROM t").unwrap();
        let by = |a: &f32, b: &f32| a.partial_cmp(b).unwrap_or(std::cmp::Ordering::Equal);
        let min = narrow.iter().copied().min_by(by).unwrap();
        let max = narrow.iter().copied().max_by(by).unwrap();
        if with_nan {
            assert!(f32_at(&result, 0, 0).is_nan(), "min of {narrow:?}");
            assert!(f32_at(&result, 1, 0).is_nan(), "max of {narrow:?}");
        } else {
            assert_eq!(f32_at(&result, 0, 0).to_bits(), min.to_bits(), "min of {narrow:?}");
            assert_eq!(f32_at(&result, 1, 0).to_bits(), max.to_bits(), "max of {narrow:?}");
        }
    }
    // No valid row: zero.
    let batch = ColumnBatch::try_new(
        Schema::new(vec![Field::new("v", DataType::Float64, true)]),
        vec![Column::with_validity(ColumnData::Float64(f64_bits(&[7.0])), vec![false]).unwrap()],
    )
    .unwrap();
    let result = query(&StorageEngine::new(vec![batch]), "SELECT MIN(v), MAX(v) FROM t").unwrap();
    assert_eq!(f64_at(&result, 0, 0), 0.0);
    assert_eq!(f64_at(&result, 1, 0), 0.0);
}

#[test]
fn test_float_comparisons_on_bit_patterns() {
    let values = [
        0.0f64, -0.0, 1.0, -1.0, 1.5, -1.5, f64::MIN_POSITIVE, -f64::MIN_POSITIVE, 5e-324,
        f64::MAX, f64::MIN, f64::INFINITY, f64::NEG_INFINITY, f64::NAN, -f64::NAN,
    ];
    let ops = [
        (CompareOp::Gt, ">"),
        (CompareOp::Ge, ">="),
        (CompareOp::Lt, "<"),
        (CompareOp::Le, "<="),
    ];
    for a in values {
        assert_eq!(float_is_nan(DataType::Float64, a.to_bits()), a.is_nan());
        assert_eq!(float_is_nan(DataType::Float32, u64::from((a as f32).to_bits())), (a as f32).is_nan());
        for b in values {
            assert_eq!(float_greater(DataType::Float64, a.to_bits(), b.to_bits()), a > b, "{a} > {b}");
            let (x, y) = (a as f32, b as f32);
            assert_eq!(
                float_greater(DataType::Float32, u64::from(x.to_bits()), u64::from(y.to_bits())),
                x > y,
                "{x} > {y}"
            );
            for (op, text) in ops {
                let expected = match text {
                    ">" => a > b,
                    ">=" => a >= b,
                    "<" => a < b,
                    _ => a <= b,
                };
                assert_eq!(float_holds(op, DataType::Float64, a.to_bits(), b.to_bits()), expected, "{a} {text} {b}");
            }
            assert_eq!(float_holds(CompareOp::Eq, DataType::Float64, a.to_bits(), b.to_bits()), a == b, "{a} = {b}");
            assert_eq!(float_holds(CompareOp::Ne, DataType::Float64, a.to_bits(), b.to_bits()), a != b, "{a} != {b}");
            assert!(!float_holds(CompareOp::Unknown, DataType::Float64, a.to_bits(), b.to_bits()));
        }
    }
}

#[test]
fn test_float_filter_with_an_unknown_operator_reads_the_literal() {
    let storage = create_test_data();
    let plan = |filter: &str| QueryPlan {
        columns: vec!["id".to_string()],
        table: String::new(),
        filter: Some(filter.to_string()),
        group_by: vec![],
        aggregations: vec![],
        order_by: vec![],
        limit: None,
    };
    // No row passes an unknown operator, but the literal is read all the same.
    assert_eq!(run(&QueryExecutor::new(), &plan("value ~ 1.0"), &storage).unwrap().num_rows(), 0);
    assert_eq!(
        run(&QueryExecutor::new(), &plan("value ~ one"), &storage).unwrap_err().kind(),
        ErrorKind::ParseError
    );
    assert_eq!(i32s(&run(&QueryExecutor::new(), &plan("value <> 30"), &storage).unwrap(), 0), vec![1, 2, 4, 5]);
    assert_eq!(i32s(&run(&QueryExecutor::new(), &plan("value >= 3e1"), &storage).unwrap(), 0), vec![3, 4, 5]);
    assert_eq!(run(&QueryExecutor::new(), &plan("value < NaN"), &storage).unwrap().num_rows(), 0);
    assert_eq!(run(&QueryExecutor::new(), &plan("value < inf"), &storage).unwrap().num_rows(), 5);
}

#[test]
fn test_order_by_a_text_column() {
    let storage = create_test_data();
    let down = query(&storage, "SELECT id, category FROM t ORDER BY category DESC").unwrap();
    assert_eq!(i32s(&down, 0), vec![4, 2, 5, 1, 3]);
    let up = query(&storage, "SELECT id, category FROM t ORDER BY category LIMIT 5").unwrap();
    assert_eq!(i32s(&up, 0), vec![1, 3, 2, 5, 4]);
    // Fewer rows than there are cannot be selected by a text column.
    let few = query(&storage, "SELECT id, category FROM t ORDER BY category LIMIT 2");
    assert_eq!(few.unwrap_err().kind(), ErrorKind::InvalidInput);
}
